//! Translation of one entity's trial balance into the presentation
//! currency.
//!
//! Each line keeps its natural side (`debit > 0` → debit, else
//! `credit > 0` → credit; a zero line takes the side of its account type)
//! and is translated at the rate its translation type calls for: closing
//! rate for monetary items, historical for non-monetary items and equity
//! (the period average stands in for it), average for P&L and OCI.  When
//! the functional currency is the presentation currency every rate is 1.
//! Translated amounts are rounded to two places; the CTA is translated
//! debits minus translated credits, and exactly zero for an entity already
//! in the presentation currency.
use vstd::prelude::*;
use vstd::string::*;

use crate::aggregate::accounts::AccountType;
use crate::aggregate::pre_elim::{TrialBalance, TrialBalanceLine};
use crate::aggregate::translation::classify::TranslationAccountType;
use crate::date::Date;
use crate::dec::{
    abs, abs_sum, dec_add, dec_lt, dec_mul, dec_sub, decimal_checked_mul, exact_product, fits_at, fits_product, lemma_bounded_fits,
    lemma_fits_coarser, lemma_round2_bound, magnitudes_fit, max_nat, max_scale, pow10, round2, round2_units, Dec,
};
use crate::errors::GroupError;
use crate::manifest::fx_master::FxRateMaster;
use crate::sorted_map::{lemma_sm_at, sm_find, sm_map, sm_sorted};
use crate::text::str_eq;

verus! {

/// Side of a line.
#[derive(Debug, Clone, Copy, PartialEq, Eq, Structural)]
pub enum DrCr {
    Debit,
    Credit,
}

/// Which rate a line is translated at.
#[derive(Debug, Clone, Copy, PartialEq, Eq, Structural)]
pub enum RateBasis {
    Closing,
    Historical,
    Average,
}

/// One translated line.
#[derive(Debug, Clone)]
pub struct TranslatedLine {
    pub account_code: String,
    pub local_amount: Dec,
    pub local_dr_cr: DrCr,
    pub fx_rate: Dec,
    pub rate_basis: RateBasis,
    pub translated_amount: Dec,
    pub account_type: TranslationAccountType,
}

/// One entity's translated trial balance.
#[derive(Debug, Clone)]
pub struct TranslatedTb {
    pub entity_code: String,
    pub functional_currency: String,
    pub presentation_currency: String,
    pub as_of_date: Date,
    pub lines: Vec<TranslatedLine>,
    pub total_translated_debits: Dec,
    pub total_translated_credits: Dec,
    pub cta: Dec,
}

/// The rate basis of a translation type.
pub open spec fn rate_basis_spec(t: TranslationAccountType) -> RateBasis {
    match t {
        TranslationAccountType::BsMonetary => RateBasis::Closing,
        TranslationAccountType::BsNonMonetary | TranslationAccountType::Equity => RateBasis::Historical,
        _ => RateBasis::Average,
    }
}

/// Closing rate for monetary items, historical for non-monetary items and
/// equity, average for P&L and OCI.
pub fn rate_basis_for(ty: TranslationAccountType) -> (r: RateBasis)
    ensures
        r == rate_basis_spec(ty),
{
    match ty {
        TranslationAccountType::BsMonetary => RateBasis::Closing,
        TranslationAccountType::BsNonMonetary | TranslationAccountType::Equity => RateBasis::Historical,
        TranslationAccountType::PlRevenue | TranslationAccountType::PlExpense | TranslationAccountType::PlOci => {
            RateBasis::Average
        },
    }
}

/// Amount and side of a trial-balance line.
pub open spec fn direction_spec(l: TrialBalanceLine) -> (Dec, DrCr) {
    if l.debit_balance.units() > 0 {
        (l.debit_balance, DrCr::Debit)
    } else if l.credit_balance.units() > 0 {
        (l.credit_balance, DrCr::Credit)
    } else {
        (Dec::zero_spec(), match l.account_type {
            AccountType::Liability | AccountType::Equity | AccountType::Revenue | AccountType::ContraAsset => DrCr::Credit,
            _ => DrCr::Debit,
        })
    }
}

/// The positive balance of a line and its side; a zero line gets zero on
/// the side its account type sits on.
pub fn direction_and_amount(tbl: &TrialBalanceLine) -> (r: (Dec, DrCr))
    ensures
        r == direction_spec(*tbl),
{
    let zero = Dec::zero();
    if dec_lt(zero, tbl.debit_balance) {
        (tbl.debit_balance, DrCr::Debit)
    } else if dec_lt(zero, tbl.credit_balance) {
        (tbl.credit_balance, DrCr::Credit)
    } else {
        let dir = match tbl.account_type {
            AccountType::Liability | AccountType::Equity | AccountType::Revenue | AccountType::ContraAsset => DrCr::Credit,
            _ => DrCr::Debit,
        };
        (zero, dir)
    }
}

/// The master's rate for `pair` on `basis` (the average stands in for
/// the historical rate).
pub open spec fn rate_in(master: FxRateMaster, pair: Seq<char>, basis: RateBasis) -> Option<Dec> {
    let m = match basis {
        RateBasis::Closing => sm_map(master.closing_by_pair@),
        _ => sm_map(master.average_by_pair@),
    };
    if m.contains_key(pair) {
        Some(m[pair])
    } else {
        None
    }
}

/// The master's pair maps are sorted by pair.
pub open spec fn fx_master_wf(master: FxRateMaster) -> bool {
    sm_sorted(master.closing_by_pair@) && sm_sorted(master.average_by_pair@)
}

/// The rate for `pair_key` on `basis`; `Err` when the master lacks it.
pub fn lookup_rate(master: &FxRateMaster, pair_key: &str, basis: RateBasis, period_end: Date) -> (r: Result<Dec, GroupError>)
    requires
        fx_master_wf(*master),
    ensures
        match rate_in(*master, pair_key@, basis) {
            Some(x) => r == Ok::<Dec, GroupError>(x),
            None => r is Err,
        },
{
    let table = match basis {
        RateBasis::Closing => &master.closing_by_pair,
        RateBasis::Historical | RateBasis::Average => &master.average_by_pair,
    };
    let (found, i) = sm_find(table, pair_key);
    if found {
        proof {
            lemma_sm_at(table@, i as int);
        }
        Ok(table[i].1)
    } else {
        Err(GroupError::Aggregate("translate_entity_tb: missing FX rate for the pair".to_string()))
    }
}

/// The rate a line of type `t` is translated at.
pub open spec fn line_rate(master: FxRateMaster, pair: Seq<char>, identity: bool, t: TranslationAccountType) -> Option<Dec> {
    if identity {
        Some(Dec::one_spec())
    } else {
        rate_in(master, pair, rate_basis_spec(t))
    }
}

/// IAS 21 rates by translation type: profit-and-loss and OCI lines at the
/// master's average rate for the pair, monetary balance-sheet lines at its
/// closing rate, non-monetary lines and equity at the historical basis
/// (read from the average table); an identity translation at rate one.
pub proof fn law_translation_rate_by_type(master: FxRateMaster, pair: Seq<char>, t: TranslationAccountType)
    ensures
        (t == TranslationAccountType::PlRevenue || t == TranslationAccountType::PlExpense || t
            == TranslationAccountType::PlOci) ==> rate_basis_spec(t) == RateBasis::Average,
        t == TranslationAccountType::BsMonetary ==> rate_basis_spec(t) == RateBasis::Closing,
        (t == TranslationAccountType::BsNonMonetary || t == TranslationAccountType::Equity) ==> rate_basis_spec(t)
            == RateBasis::Historical,
        t != TranslationAccountType::BsMonetary ==> line_rate(master, pair, false, t) == (if sm_map(
            master.average_by_pair@,
        ).contains_key(pair) {
            Some(sm_map(master.average_by_pair@)[pair])
        } else {
            None
        }),
        t == TranslationAccountType::BsMonetary ==> line_rate(master, pair, false, t) == (if sm_map(
            master.closing_by_pair@,
        ).contains_key(pair) {
            Some(sm_map(master.closing_by_pair@)[pair])
        } else {
            None
        }),
        line_rate(master, pair, true, t) == Some(Dec::one_spec()),
{
}

/// A translated line follows from its trial-balance line, type and rate.
pub open spec fn translated_line_matches(tl: TranslatedLine, l: TrialBalanceLine, t: TranslationAccountType, rate: Dec) -> bool {
    let d = direction_spec(l);
    &&& tl.account_code@ == l.account_code@
    &&& tl.local_amount == d.0
    &&& tl.local_dr_cr == d.1
    &&& tl.fx_rate == rate
    &&& tl.rate_basis == rate_basis_spec(t)
    &&& tl.account_type == t
    &&& decimal_checked_mul(d.0, rate) matches Some(p) && tl.translated_amount.units() == round2_units(p.units())
}

/// Sum of the translated amounts on side `side`.
pub open spec fn side_total(v: Seq<TranslatedLine>, side: DrCr) -> int
    decreases v.len(),
{
    if v.len() == 0 {
        0
    } else {
        side_total(v.drop_last(), side) + if v.last().local_dr_cr == side {
            v.last().translated_amount.units()
        } else {
            0
        }
    }
}

/// Sum of the magnitudes of the translated amounts.
pub open spec fn translated_abs(v: Seq<TranslatedLine>) -> int
    decreases v.len(),
{
    if v.len() == 0 {
        0
    } else {
        translated_abs(v.drop_last()) + abs(v.last().translated_amount.units())
    }
}

/// Largest scale among the translated amounts.
pub open spec fn translated_scale(v: Seq<TranslatedLine>) -> nat
    decreases v.len(),
{
    if v.len() == 0 {
        0
    } else {
        max_nat(translated_scale(v.drop_last()), v.last().translated_amount.spec_scale())
    }
}

/// The side totals of translated lines are exact.
pub open spec fn translated_fits(v: Seq<TranslatedLine>) -> bool {
    fits_at(translated_abs(v), translated_scale(v))
}

/// Whether the translated amounts are summed exactly: the check a caller
/// makes before deriving net income or OCI from a translated trial
/// balance.
pub fn translated_fits_check(v: &Vec<TranslatedLine>) -> (r: bool)
    ensures
        r == translated_fits(v@),
{
    let ghost ls = v@;
    let mut amounts: Vec<Dec> = Vec::new();
    let mut i: usize = 0;
    while i < v.len()
        invariant
            ls == v@,
            i <= ls.len(),
            abs_sum(amounts@) == translated_abs(ls.take(i as int)),
            max_scale(amounts@) == translated_scale(ls.take(i as int)),
        decreases v.len() - i,
    {
        let ghost a0 = amounts@;
        amounts.push(v[i].translated_amount);
        proof {
            assert(amounts@.drop_last() =~= a0);
            assert(ls.take(i + 1).drop_last() =~= ls.take(i as int));
            assert(ls.take(i + 1).last() == ls[i as int]);
        }
        i = i + 1;
    }
    proof {
        assert(ls.take(i as int) =~= ls);
    }
    magnitudes_fit(&amounts)
}

pub proof fn lemma_translated_prefix(v: Seq<TranslatedLine>, i: int)
    requires
        0 <= i < v.len(),
    ensures
        translated_abs(v.take(i + 1)) == translated_abs(v.take(i)) + abs(v[i].translated_amount.units()),
        translated_abs(v.take(i + 1)) <= translated_abs(v),
        0 <= translated_abs(v.take(i)),
        v[i].translated_amount.spec_scale() <= translated_scale(v),
        side_total(v.take(i + 1), DrCr::Debit) == side_total(v.take(i), DrCr::Debit) + if v[i].local_dr_cr == DrCr::Debit {
            v[i].translated_amount.units()
        } else {
            0
        },
        side_total(v.take(i + 1), DrCr::Credit) == side_total(v.take(i), DrCr::Credit) + if v[i].local_dr_cr == DrCr::Credit {
            v[i].translated_amount.units()
        } else {
            0
        },
    decreases v.len(),
{
    assert(v.take(i + 1).drop_last() =~= v.take(i));
    assert(v.take(i + 1).last() == v[i]);
    if i == v.len() - 1 {
        assert(v.take(i + 1) =~= v);
        if i > 0 {
            lemma_translated_prefix(v.drop_last(), i - 1);
            assert(v.drop_last().take(i) =~= v.take(i));
        } else {
            assert(v.take(0) =~= Seq::<TranslatedLine>::empty());
        }
    } else {
        lemma_translated_prefix(v.drop_last(), i);
        assert(v.drop_last().take(i) =~= v.take(i));
        assert(v.drop_last().take(i + 1) =~= v.take(i + 1));
    }
}

/// Translated debit and credit totals over the lines, and their
/// difference.  `None` only on overflow, which [`translated_fits`] rules
/// out.
pub fn translated_totals(lines: &Vec<TranslatedLine>) -> (r: Option<(Dec, Dec, Dec)>)
    ensures
        translated_fits(lines@) ==> (r matches Some(t) && t.0.units() == side_total(lines@, DrCr::Debit)
            && t.1.units() == side_total(lines@, DrCr::Credit) && t.2.units() == t.0.units() - t.1.units()),
{
    let ghost v = lines@;
    let ghost fits = translated_fits(v);
    let mut dr = Dec::zero();
    let mut cr = Dec::zero();
    let mut i: usize = 0;
    while i < lines.len()
        invariant
            v == lines@,
            i <= v.len(),
            fits == translated_fits(v),
            fits ==> {
                &&& dr.units() == side_total(v.take(i as int), DrCr::Debit)
                &&& cr.units() == side_total(v.take(i as int), DrCr::Credit)
                &&& abs(dr.units()) + abs(cr.units()) <= translated_abs(v.take(i as int))
                &&& dr.spec_scale() <= translated_scale(v)
                &&& cr.spec_scale() <= translated_scale(v)
            },
        decreases lines.len() - i,
    {
        proof {
            lemma_translated_prefix(v, i as int);
        }
        let l = &lines[i];
        match l.local_dr_cr {
            DrCr::Debit => {
                proof {
                    if fits {
                        lemma_bounded_fits(dr.units() + l.translated_amount.units(), translated_abs(v), translated_scale(v),
                            max_nat(dr.spec_scale(), l.translated_amount.spec_scale()));
                    }
                }
                dr = dec_add(dr, l.translated_amount)?;
            },
            DrCr::Credit => {
                proof {
                    if fits {
                        lemma_bounded_fits(cr.units() + l.translated_amount.units(), translated_abs(v), translated_scale(v),
                            max_nat(cr.spec_scale(), l.translated_amount.spec_scale()));
                    }
                }
                cr = dec_add(cr, l.translated_amount)?;
            },
        }
        i = i + 1;
    }
    proof {
        assert(v.take(i as int) =~= v);
        if fits {
            lemma_bounded_fits(dr.units() - cr.units(), translated_abs(v), translated_scale(v), max_nat(dr.spec_scale(), cr.spec_scale()));
        }
    }
    let cta = dec_sub(dr, cr)?;
    Some((dr, cr, cta))
}

/// Some line needs a rate the master lacks.
pub open spec fn missing_rate(
    lines: Seq<TrialBalanceLine>,
    types: Seq<TranslationAccountType>,
    master: FxRateMaster,
    pair: Seq<char>,
    identity: bool,
) -> bool {
    exists|i: int| 0 <= i < lines.len() && line_rate(master, pair, identity, #[trigger] types[i]) is None
}

/// Every line's product with its rate exists.
pub open spec fn products_exist(
    lines: Seq<TrialBalanceLine>,
    types: Seq<TranslationAccountType>,
    master: FxRateMaster,
    pair: Seq<char>,
    identity: bool,
) -> bool {
    forall|i: int|
        0 <= i < lines.len() ==> (line_rate(master, pair, identity, #[trigger] types[i]) matches Some(rate)
            && decimal_checked_mul(direction_spec(lines[i]).0, rate) is Some)
}

/// Sum of the magnitudes of the first `n` translated amounts, each the
/// product of a line's balance with its rate rounded to the cent (where
/// the rates and products exist).
pub open spec fn expected_translated_abs(
    lines: Seq<TrialBalanceLine>,
    types: Seq<TranslationAccountType>,
    master: FxRateMaster,
    pair: Seq<char>,
    identity: bool,
    n: int,
) -> int
    decreases n,
{
    if n <= 0 {
        0
    } else {
        expected_translated_abs(lines, types, master, pair, identity, n - 1) + abs(
            round2_units(
                decimal_checked_mul(direction_spec(lines[n - 1]).0, line_rate(master, pair, identity, types[n - 1]).unwrap()).unwrap().units(),
            ),
        )
    }
}

/// Every rate and product exists and the translated amounts, at the cent,
/// sum within a `Decimal`: the translation then succeeds.
pub open spec fn translation_fits(
    lines: Seq<TrialBalanceLine>,
    types: Seq<TranslationAccountType>,
    master: FxRateMaster,
    pair: Seq<char>,
    identity: bool,
) -> bool {
    &&& products_exist(lines, types, master, pair, identity)
    &&& fits_at(expected_translated_abs(lines, types, master, pair, identity, lines.len() as int), 2)
}

/// `t` translates `tb` (whose line `i` has type `types[i]`) from the
/// functional currency `fc` to the presentation currency `pc`: the same
/// entity and date, one translated line per line at the rate its type
/// calls for, exact side totals and CTA when they fit, and a zero CTA when
/// no translation is needed.
pub open spec fn translation_of(
    t: TranslatedTb,
    tb: TrialBalance,
    types: Seq<TranslationAccountType>,
    fc: Seq<char>,
    master: FxRateMaster,
    pc: Seq<char>,
) -> bool {
    let identity = fc == pc;
    let pair = fc + "/"@ + pc;
    &&& t.entity_code@ == tb.company_code@
    &&& t.functional_currency@ == fc
    &&& t.presentation_currency@ == pc
    &&& t.as_of_date == tb.as_of_date
    &&& t.lines@.len() == tb.lines@.len()
    &&& forall|i: int| 0 <= i < t.lines@.len() ==> (line_rate(master, pair, identity, types[i])
        matches Some(rate) && translated_line_matches(#[trigger] t.lines@[i], tb.lines@[i], types[i], rate))
    &&& translated_fits(t.lines@) ==> {
        &&& t.total_translated_debits.units() == side_total(t.lines@, DrCr::Debit)
        &&& t.total_translated_credits.units() == side_total(t.lines@, DrCr::Credit)
        &&& !identity ==> t.cta.units() == t.total_translated_debits.units() - t.total_translated_credits.units()
    }
    &&& identity ==> t.cta == Dec::zero_spec()
}

/// In a translation into another currency, every profit-and-loss or OCI
/// line is translated at the master's average rate for the pair, and
/// every monetary balance-sheet line at its closing rate.
pub proof fn law_translated_lines_use_ias21_rates(
    t: TranslatedTb,
    tb: TrialBalance,
    types: Seq<TranslationAccountType>,
    fc: Seq<char>,
    master: FxRateMaster,
    pc: Seq<char>,
    i: int,
)
    requires
        translation_of(t, tb, types, fc, master, pc),
        fc != pc,
        0 <= i < t.lines@.len(),
    ensures
        (types[i] == TranslationAccountType::PlRevenue || types[i] == TranslationAccountType::PlExpense || types[i]
            == TranslationAccountType::PlOci) ==> {
            &&& t.lines@[i].rate_basis == RateBasis::Average
            &&& sm_map(master.average_by_pair@).contains_key(fc + "/"@ + pc)
            &&& t.lines@[i].fx_rate == sm_map(master.average_by_pair@)[fc + "/"@ + pc]
        },
        types[i] == TranslationAccountType::BsMonetary ==> {
            &&& t.lines@[i].rate_basis == RateBasis::Closing
            &&& sm_map(master.closing_by_pair@).contains_key(fc + "/"@ + pc)
            &&& t.lines@[i].fx_rate == sm_map(master.closing_by_pair@)[fc + "/"@ + pc]
        },
{
    law_translation_rate_by_type(master, fc + "/"@ + pc, types[i]);
    assert(translated_line_matches(t.lines@[i], tb.lines@[i], types[i], line_rate(master, fc + "/"@ + pc, false, types[i])->0));
}

/// An entity already in the presentation currency translates at rate one:
/// every line keeps its local amount, rounded to the cent.
pub open spec fn identity_translation(t: TranslatedTb) -> bool {
    forall|i: int| 0 <= i < t.lines@.len() ==> {
        &&& (#[trigger] t.lines@[i]).fx_rate == Dec::one_spec()
        &&& t.lines@[i].translated_amount.units() == round2_units(t.lines@[i].local_amount.units())
    }
}

/// Translate an entity's trial balance, `line_types[i]` being the
/// translation type of line `i`.  `Err` when a needed rate is missing, or
/// when a decimal operation fails.
pub fn translate_entity_tb(
    entity_tb: &TrialBalance,
    line_types: &[TranslationAccountType],
    entity_functional_ccy: &str,
    fx_rate_master: &FxRateMaster,
    period_end: Date,
    presentation_currency: &str,
) -> (r: Result<TranslatedTb, GroupError>)
    requires
        line_types@.len() == entity_tb.lines@.len(),
        fx_master_wf(*fx_rate_master),
    ensures
        ({
            let identity = entity_functional_ccy@ == presentation_currency@;
            let pair = entity_functional_ccy@ + "/"@ + presentation_currency@;
            &&& missing_rate(entity_tb.lines@, line_types@, *fx_rate_master, pair, identity) ==> r is Err
            &&& translation_fits(entity_tb.lines@, line_types@, *fx_rate_master, pair, identity) ==> r is Ok
            &&& r matches Ok(t) ==> translation_of(
                t,
                *entity_tb,
                line_types@,
                entity_functional_ccy@,
                *fx_rate_master,
                presentation_currency@,
            )
            &&& identity ==> (r matches Ok(t) ==> identity_translation(t))
        }),
{
    let identity = str_eq(entity_functional_ccy, presentation_currency);
    let pair_key = entity_functional_ccy.to_string().concat("/").concat(presentation_currency);
    let ghost pair = entity_functional_ccy@ + "/"@ + presentation_currency@;
    let ghost ok = translation_fits(entity_tb.lines@, line_types@, *fx_rate_master, pair, identity);
    let mut lines: Vec<TranslatedLine> = Vec::new();
    let mut i: usize = 0;
    while i < entity_tb.lines.len()
        invariant
            i <= entity_tb.lines@.len(),
            line_types@.len() == entity_tb.lines@.len(),
            fx_master_wf(*fx_rate_master),
            identity == (entity_functional_ccy@ == presentation_currency@),
            pair_key@ == pair,
            pair == entity_functional_ccy@ + "/"@ + presentation_currency@,
            lines@.len() == i,
            forall|m: int| 0 <= m < i ==> line_rate(*fx_rate_master, pair, identity, #[trigger] line_types@[m]) is Some,
            forall|m: int| 0 <= m < i ==> (line_rate(*fx_rate_master, pair, identity, line_types@[m])
                matches Some(rate) && translated_line_matches(#[trigger] lines@[m], entity_tb.lines@[m], line_types@[m], rate)),
            identity ==> forall|m: int| 0 <= m < i ==> (#[trigger] lines@[m]).translated_amount.units() == round2_units(
                lines@[m].local_amount.units(),
            ),
            ok == translation_fits(entity_tb.lines@, line_types@, *fx_rate_master, pair, identity),
            translated_abs(lines@) == expected_translated_abs(entity_tb.lines@, line_types@, *fx_rate_master, pair, identity, i as int),
            translated_scale(lines@) <= 2,
        decreases entity_tb.lines.len() - i,
    {
        let tbl = &entity_tb.lines[i];
        let account_type = line_types[i];
        let rate_basis = rate_basis_for(account_type);
        let (local_amount, local_dr_cr) = direction_and_amount(tbl);
        proof {
            if ok {
                assert(line_rate(*fx_rate_master, pair, identity, line_types@[i as int]) is Some);
                assert(decimal_checked_mul(direction_spec(entity_tb.lines@[i as int]).0, line_rate(*fx_rate_master, pair, identity, line_types@[i as int]).unwrap()) is Some);
            }
        }
        let fx_rate = if identity {
            Dec::one()
        } else {
            proof {
                if ok {
                    assert(rate_in(*fx_rate_master, pair_key@, rate_basis) is Some);
                }
            }
            match lookup_rate(fx_rate_master, pair_key.as_str(), rate_basis, period_end) {
                Ok(x) => x,
                Err(e) => {
                    proof {
                        assert(!ok);
                    }
                    return Err(e);
                },
            }
        };
        proof {
            assert(line_rate(*fx_rate_master, pair, identity, line_types@[i as int]) == Some(fx_rate));
        }
        if identity {
            let m = local_amount.mantissa();
            let sc = local_amount.scale();
            proof {
                assert(m * 1 == m);
                assert(fits_product(local_amount, fx_rate));
            }
        }
        let product = match dec_mul(local_amount, fx_rate) {
            Some(p) => p,
            None => {
                return Err(GroupError::Aggregate("translate_entity_tb: translated amount overflows".to_string()));
            },
        };
        proof {
            if identity {
                assert(product.spec_mantissa() == local_amount.spec_mantissa());
                if product.spec_mantissa() != 0 {
                    assert(product.spec_scale() == local_amount.spec_scale());
                } else {
                    assert(product.units() == 0);
                    assert(local_amount.spec_mantissa() == 0);
                    assert(local_amount.units() == 0 * pow10(crate::dec::shift_of(local_amount.spec_scale())));
                    assert(local_amount.units() == 0);
                }
                assert(product.units() == local_amount.units());
            }
        }
        let ghost prev = lines@;
        let line = TranslatedLine {
            account_code: tbl.account_code.clone(),
            local_amount,
            local_dr_cr,
            fx_rate,
            rate_basis,
            translated_amount: round2(product),
            account_type,
        };
        lines.push(line);
        proof {
            assert(lines@.drop_last() =~= prev);
            assert(lines@.last() == line);
        }
        i = i + 1;
    }
    proof {
        if ok {
            lemma_fits_coarser(translated_abs(lines@), 2, translated_scale(lines@));
        }
    }
    let (total_dr, total_cr, residual) = match translated_totals(&lines) {
        Some(t) => t,
        None => {
            return Err(GroupError::Aggregate("translate_entity_tb: translated totals overflow".to_string()));
        },
    };
    // An entity already in the presentation currency has no translation
    // difference.
    let cta = if identity {
        Dec::zero()
    } else {
        residual
    };
    Ok(TranslatedTb {
        entity_code: entity_tb.company_code.clone(),
        functional_currency: entity_functional_ccy.to_string(),
        presentation_currency: presentation_currency.to_string(),
        as_of_date: entity_tb.as_of_date,
        lines,
        total_translated_debits: total_dr,
        total_translated_credits: total_cr,
        cta,
    })
}

} // verus!
