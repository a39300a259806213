//! Statement of changes in equity.
//!
//! Each column rolls forward as
//! `closing = opening + net_income + oci - dividends + other`; the total
//! column is the owners' column plus the NCI column, component by
//! component, so the total rolls forward by the same identity.
use vstd::prelude::*;

use crate::date::Date;
use crate::dec::{abs, dec_add, dec_sub, fits_at, lemma_bounded_fits, max_nat, Dec};

verus! {

/// One equity column.
#[derive(Debug, Clone, Copy)]
pub struct EquityRollforward {
    pub opening: Dec,
    pub net_income: Dec,
    pub oci: Dec,
    pub dividends: Dec,
    pub other: Dec,
    pub closing: Dec,
}

/// The statement of changes in equity.
#[derive(Debug, Clone)]
pub struct StatementOfChangesInEquity {
    pub group_id: String,
    pub period_start: Date,
    pub period_end: Date,
    pub currency: String,
    pub owners_equity: EquityRollforward,
    pub nci: EquityRollforward,
    pub total_equity: EquityRollforward,
}

/// What the statement is built from.
#[derive(Debug, Clone, Copy)]
pub struct EquityChangesInputs {
    pub opening_owners_equity: Dec,
    pub opening_nci: Dec,
    pub net_income_to_owners: Dec,
    pub net_income_to_nci: Dec,
    pub oci_to_owners: Dec,
    pub oci_to_nci: Dec,
    pub dividends_to_owners: Dec,
    pub dividends_to_nci: Dec,
    pub other_owners: Dec,
    pub other_nci: Dec,
}

/// A column satisfies the rollforward identity.
pub open spec fn rolls_forward(r: EquityRollforward) -> bool {
    r.closing.units() == r.opening.units() + r.net_income.units() + r.oci.units()
        - r.dividends.units() + r.other.units()
}

/// Sum of the magnitudes of five amounts.
pub open spec fn abs5(a: Dec, b: Dec, c: Dec, d: Dec, e: Dec) -> int {
    abs(a.units()) + abs(b.units()) + abs(c.units()) + abs(d.units()) + abs(e.units())
}

/// Largest scale of five amounts.
pub open spec fn scale5(a: Dec, b: Dec, c: Dec, d: Dec, e: Dec) -> nat {
    max_nat(
        max_nat(a.spec_scale(), b.spec_scale()),
        max_nat(c.spec_scale(), max_nat(d.spec_scale(), e.spec_scale())),
    )
}

/// One column: `closing = opening + net_income + oci - dividends + other`.
/// `None` only on overflow, which the bound rules out.
pub fn rollforward(opening: Dec, net_income: Dec, oci: Dec, dividends: Dec, other: Dec) -> (r:
    Option<EquityRollforward>)
    ensures
        r matches Some(x) ==> x.opening == opening && x.net_income == net_income && x.oci == oci
            && x.dividends == dividends && x.other == other,
        fits_at(
            abs5(opening, net_income, oci, dividends, other),
            scale5(opening, net_income, oci, dividends, other),
        ) ==> (r matches Some(x) && rolls_forward(x) && x.closing.spec_scale() <= scale5(
            opening,
            net_income,
            oci,
            dividends,
            other,
        ) && abs(x.closing.units()) <= abs5(opening, net_income, oci, dividends, other)),
{
    let ghost b = abs5(opening, net_income, oci, dividends, other);
    let ghost sc = scale5(opening, net_income, oci, dividends, other);
    let ghost ok = fits_at(b, sc);
    proof {
        if ok {
            lemma_bounded_fits(opening.units() + net_income.units(), b, sc, max_nat(opening.spec_scale(), net_income.spec_scale()));
        }
    }
    let s1 = dec_add(opening, net_income)?;
    proof {
        if ok {
            lemma_bounded_fits(s1.units() + oci.units(), b, sc, max_nat(s1.spec_scale(), oci.spec_scale()));
        }
    }
    let s2 = dec_add(s1, oci)?;
    proof {
        if ok {
            lemma_bounded_fits(s2.units() - dividends.units(), b, sc, max_nat(s2.spec_scale(), dividends.spec_scale()));
        }
    }
    let s3 = dec_sub(s2, dividends)?;
    proof {
        if ok {
            lemma_bounded_fits(s3.units() + other.units(), b, sc, max_nat(s3.spec_scale(), other.spec_scale()));
        }
    }
    let closing = dec_add(s3, other)?;
    Some(EquityRollforward { opening, net_income, oci, dividends, other, closing })
}

/// Every sum of the statement is exact.
pub open spec fn equity_fits(i: EquityChangesInputs) -> bool {
    fits_at(
        abs5(i.opening_owners_equity, i.net_income_to_owners, i.oci_to_owners, i.dividends_to_owners, i.other_owners)
            + abs5(i.opening_nci, i.net_income_to_nci, i.oci_to_nci, i.dividends_to_nci, i.other_nci),
        max_nat(
            scale5(i.opening_owners_equity, i.net_income_to_owners, i.oci_to_owners, i.dividends_to_owners, i.other_owners),
            scale5(i.opening_nci, i.net_income_to_nci, i.oci_to_nci, i.dividends_to_nci, i.other_nci),
        ),
    )
}

/// `a + b`, exact within a bound that fits.
fn add_within(a: Dec, b: Dec, Ghost(bound): Ghost<int>, Ghost(sc): Ghost<nat>) -> (r: Option<Dec>)
    ensures
        (fits_at(bound, sc) && abs(a.units()) + abs(b.units()) <= bound && a.spec_scale() <= sc
            && b.spec_scale() <= sc) ==> (r matches Some(x) && x.units() == a.units() + b.units()),
{
    proof {
        if fits_at(bound, sc) && abs(a.units()) + abs(b.units()) <= bound && a.spec_scale() <= sc
            && b.spec_scale() <= sc {
            lemma_bounded_fits(a.units() + b.units(), bound, sc, max_nat(a.spec_scale(), b.spec_scale()));
        }
    }
    dec_add(a, b)
}

/// Build the statement: the owners' column, the NCI column, and their sum.
/// `None` only when `rust_decimal` reports an overflow, which
/// [`equity_fits`] rules out.
pub fn build_statement_of_changes_in_equity(
    inputs: &EquityChangesInputs,
    group_id: &str,
    period_start: Date,
    period_end: Date,
    currency: &str,
) -> (r: Option<StatementOfChangesInEquity>)
    ensures
        equity_fits(*inputs) ==> r is Some,
        r matches Some(st) ==> {
            &&& st.group_id@ == group_id@
            &&& st.period_start == period_start
            &&& st.period_end == period_end
            &&& st.currency@ == currency@
            &&& st.owners_equity.opening == inputs.opening_owners_equity
            &&& st.owners_equity.net_income == inputs.net_income_to_owners
            &&& st.owners_equity.oci == inputs.oci_to_owners
            &&& st.owners_equity.dividends == inputs.dividends_to_owners
            &&& st.owners_equity.other == inputs.other_owners
            &&& st.nci.opening == inputs.opening_nci
            &&& st.nci.net_income == inputs.net_income_to_nci
            &&& st.nci.oci == inputs.oci_to_nci
            &&& st.nci.dividends == inputs.dividends_to_nci
            &&& st.nci.other == inputs.other_nci
            &&& equity_fits(*inputs) ==> {
                &&& rolls_forward(st.owners_equity)
                &&& rolls_forward(st.nci)
                &&& rolls_forward(st.total_equity)
                &&& st.total_equity.opening.units() == st.owners_equity.opening.units()
                    + st.nci.opening.units()
                &&& st.total_equity.net_income.units() == st.owners_equity.net_income.units()
                    + st.nci.net_income.units()
                &&& st.total_equity.oci.units() == st.owners_equity.oci.units() + st.nci.oci.units()
                &&& st.total_equity.dividends.units() == st.owners_equity.dividends.units()
                    + st.nci.dividends.units()
                &&& st.total_equity.other.units() == st.owners_equity.other.units()
                    + st.nci.other.units()
                &&& st.total_equity.closing.units() == st.owners_equity.closing.units()
                    + st.nci.closing.units()
            }
        },
{
    let i = inputs;
    let ghost bo = abs5(i.opening_owners_equity, i.net_income_to_owners, i.oci_to_owners, i.dividends_to_owners, i.other_owners);
    let ghost bn = abs5(i.opening_nci, i.net_income_to_nci, i.oci_to_nci, i.dividends_to_nci, i.other_nci);
    let ghost so = scale5(i.opening_owners_equity, i.net_income_to_owners, i.oci_to_owners, i.dividends_to_owners, i.other_owners);
    let ghost sn = scale5(i.opening_nci, i.net_income_to_nci, i.oci_to_nci, i.dividends_to_nci, i.other_nci);
    let ghost b = bo + bn;
    let ghost sc = max_nat(so, sn);
    proof {
        if equity_fits(*inputs) {
            lemma_bounded_fits(bo, b, sc, so);
            lemma_bounded_fits(bn, b, sc, sn);
        }
    }
    let owners = rollforward(
        i.opening_owners_equity,
        i.net_income_to_owners,
        i.oci_to_owners,
        i.dividends_to_owners,
        i.other_owners,
    )?;
    let nci = rollforward(i.opening_nci, i.net_income_to_nci, i.oci_to_nci, i.dividends_to_nci, i.other_nci)?;
    let total = EquityRollforward {
        opening: add_within(owners.opening, nci.opening, Ghost(b), Ghost(sc))?,
        net_income: add_within(owners.net_income, nci.net_income, Ghost(b), Ghost(sc))?,
        oci: add_within(owners.oci, nci.oci, Ghost(b), Ghost(sc))?,
        dividends: add_within(owners.dividends, nci.dividends, Ghost(b), Ghost(sc))?,
        other: add_within(owners.other, nci.other, Ghost(b), Ghost(sc))?,
        closing: add_within(owners.closing, nci.closing, Ghost(b), Ghost(sc))?,
    };
    Some(StatementOfChangesInEquity {
        group_id: group_id.to_string(),
        period_start,
        period_end,
        currency: currency.to_string(),
        owners_equity: owners,
        nci,
        total_equity: total,
    })
}

} // verus!
