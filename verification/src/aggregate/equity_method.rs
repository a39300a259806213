//! Equity-method investments (associates and joint ventures).
//!
//! ```text
//! share_of_profit    = ownership * investee_net_income
//! dividends_received = ownership * investee_dividends_paid
//! closing            = round2(opening + share_recognised - dividends - impairment)
//! ```
//!
//! Losses are not recognised below a zero carrying amount: a negative
//! closing is reported as zero and the shortfall accumulates as a
//! suppressed loss.  A later share of profit first recovers the suppressed
//! losses brought forward; only the rest is recognised.
use vstd::prelude::*;

use crate::config::{method_name, method_name_spec, ConsolidationMethod};
use vstd::string::*;
use crate::date::Date;
use crate::dec::{
    abs, dec_add, dec_lt, dec_mul, dec_sub, decimal_checked_mul, fits_at, lemma_bounded_fits,
    lemma_round2_bound, lemma_round2_multiple, max_nat, pow10, round2, round2_units, scale2, Dec,
};
use crate::errors::GroupError;
use crate::manifest::builder::ManifestEntity;

verus! {

/// One investee's equity-method rollforward for the period.
#[derive(Debug, Clone)]
pub struct EquityMethodInvestment {
    pub investee_code: String,
    pub investor_entity_code: String,
    pub ownership_percent: Dec,
    pub opening_carrying_value: Dec,
    pub opening_suppressed_loss: Dec,
    pub share_of_profit: Dec,
    pub share_of_profit_recognised: Dec,
    pub dividends_received: Dec,
    pub impairment: Dec,
    pub suppressed_loss_this_period: Dec,
    pub closing_suppressed_loss: Dec,
    pub closing_carrying_value: Dec,
    pub period_end: Date,
    pub currency: String,
}

/// What one investee's rollforward is computed from.
pub struct EquityMethodInputs<'a> {
    pub investee: &'a ManifestEntity,
    pub investor_entity_code: String,
    pub investee_net_income: Dec,
    pub investee_dividends_paid: Dec,
    pub opening_carrying_value: Dec,
    pub opening_suppressed_loss: Dec,
    pub impairment: Dec,
    pub period_end: Date,
    pub currency: String,
}

/// An equity-method investee with an ownership strictly between 0 and 1.
pub open spec fn em_valid(i: EquityMethodInputs) -> bool {
    &&& i.investee.consolidation_method == ConsolidationMethod::EquityMethod
    &&& i.investee.ownership_percent matches Some(o) && 0 < o.units() < pow10(28)
}

/// The larger of `u` and zero.
pub open spec fn nonneg(u: int) -> int {
    if u > 0 {
        u
    } else {
        0
    }
}

/// Recovery of suppressed losses `os` against a share of profit `sp`:
/// `(share recognised, suppressed losses left)`.
pub open spec fn recover(sp: int, os: int) -> (int, int) {
    if sp > 0 && os > 0 {
        let rec = if sp < os {
            sp
        } else {
            os
        };
        (sp - rec, os - rec)
    } else {
        (sp, os)
    }
}

/// Bound of the amounts the rollforward adds up.
pub open spec fn em_bound(i: EquityMethodInputs, sp: Dec, dr: Dec) -> int {
    abs(i.opening_carrying_value.units()) + abs(sp.units()) + abs(i.opening_suppressed_loss.units())
        + abs(dr.units()) + abs(i.impairment.units())
}

/// Largest scale among them.
pub open spec fn em_scale(i: EquityMethodInputs, sp: Dec, dr: Dec) -> nat {
    max_nat(
        max_nat(i.opening_carrying_value.spec_scale(), sp.spec_scale()),
        max_nat(
            i.opening_suppressed_loss.spec_scale(),
            max_nat(dr.spec_scale(), i.impairment.spec_scale()),
        ),
    )
}

/// Every sum of the rollforward is exact.
pub open spec fn em_fits(i: EquityMethodInputs, sp: Dec, dr: Dec) -> bool {
    fits_at(2 * em_bound(i, sp, dr) + pow10(26), max_nat(em_scale(i, sp, dr), 2))
}

/// The amounts of the rollforward, given the two products `sp` (share of
/// profit) and `dr` (dividends received) as `rust_decimal` computes them.
pub open spec fn em_amounts_match(inv: EquityMethodInvestment, i: EquityMethodInputs, sp: Dec, dr: Dec) -> bool {
    let os = nonneg(i.opening_suppressed_loss.units());
    let rs = recover(sp.units(), os);
    let raw = round2_units(i.opening_carrying_value.units() + rs.0 - dr.units() - i.impairment.units());
    &&& inv.opening_carrying_value.units() == round2_units(i.opening_carrying_value.units())
    &&& inv.opening_suppressed_loss.units() == round2_units(os)
    &&& inv.share_of_profit.units() == round2_units(sp.units())
    &&& inv.dividends_received.units() == round2_units(dr.units())
    &&& inv.impairment.units() == round2_units(i.impairment.units())
    &&& inv.opening_carrying_value.spec_scale() == scale2(i.opening_carrying_value.spec_scale())
    &&& inv.share_of_profit.spec_scale() == scale2(sp.spec_scale())
    &&& inv.dividends_received.spec_scale() == scale2(dr.spec_scale())
    &&& inv.impairment.spec_scale() == scale2(i.impairment.spec_scale())
    &&& em_fits(i, sp, dr) ==> {
        &&& inv.share_of_profit_recognised.units() == round2_units(rs.0)
        &&& inv.closing_carrying_value.units() == (if raw < 0 {
            0
        } else {
            raw
        })
        &&& inv.suppressed_loss_this_period.units() == (if raw < 0 {
            -raw
        } else {
            0
        })
        &&& inv.closing_suppressed_loss.units() == round2_units(
            rs.1 + (if raw < 0 {
                -raw
            } else {
                0
            }),
        )
    }
}

/// The two products exist and every sum is exact.
pub open spec fn em_computable(i: EquityMethodInputs) -> bool {
    match (
        decimal_checked_mul(i.investee.ownership_percent->0, i.investee_net_income),
        decimal_checked_mul(i.investee.ownership_percent->0, i.investee_dividends_paid),
    ) {
        (Some(sp), Some(dr)) => em_fits(i, sp, dr),
        _ => false,
    }
}

/// The amounts follow from the inputs and the two products.
pub open spec fn em_result_matches(inv: EquityMethodInvestment, i: EquityMethodInputs) -> bool {
    match (
        decimal_checked_mul(i.investee.ownership_percent->0, i.investee_net_income),
        decimal_checked_mul(i.investee.ownership_percent->0, i.investee_dividends_paid),
    ) {
        (Some(sp), Some(dr)) => em_amounts_match(inv, i, sp, dr),
        _ => false,
    }
}

/// The message of an investee that is not an equity-method entity.
pub open spec fn em_method_text(code: Seq<char>, m: ConsolidationMethod) -> Seq<char> {
    "compute_equity_method_investment: entity `"@ + code + "` has consolidation_method="@ + method_name_spec(m)
        + " — equity-method treatment is only valid for ConsolidationMethod::EquityMethod (Parent / Full are line-by-line consolidated; Proportional / FairValue use other treatments)"@
}

/// The message of an equity-method investee without an ownership.
pub open spec fn em_no_ownership_text(code: Seq<char>) -> Seq<char> {
    "compute_equity_method_investment: entity `"@ + code
        + "` is consolidation_method=EquityMethod but has no ownership_percent set — supply ownership_percent in (0, 1)"@
}

/// The message of an ownership outside `(0, 1)`.
pub open spec fn em_range_text(code: Seq<char>, o: Dec) -> Seq<char> {
    "compute_equity_method_investment: entity `"@ + code + "` ownership_percent="@ + crate::dec::decimal_text(o)
        + " is outside (0, 1) — equity-method treatment requires strict 0 < ownership < 1"@
}

fn em_err(msg: &str) -> (r: GroupError)
    ensures
        r matches GroupError::Aggregate(m) && m@ == msg@,
{
    GroupError::Aggregate(msg.to_string())
}

/// Derive one investee's equity-method rollforward.  `Err` when the
/// investee is not an equity-method entity with an ownership strictly
/// between 0 and 1, or when a decimal operation fails (ruled out when both
/// products exist and [`em_fits`] holds).  The closing carrying value is
/// never negative.
#[verifier::rlimit(60)]
pub fn compute_equity_method_investment(inputs: &EquityMethodInputs) -> (r: Result<EquityMethodInvestment, GroupError>)
    ensures
        !em_valid(*inputs) ==> r is Err,
        inputs.investee.consolidation_method != ConsolidationMethod::EquityMethod ==> (r matches Err(
            GroupError::Aggregate(m),
        ) && m@ == em_method_text(inputs.investee.code@, inputs.investee.consolidation_method)),
        inputs.investee.consolidation_method == ConsolidationMethod::EquityMethod && inputs.investee.ownership_percent is None
            ==> (r matches Err(GroupError::Aggregate(m)) && m@ == em_no_ownership_text(inputs.investee.code@)),
        (inputs.investee.consolidation_method == ConsolidationMethod::EquityMethod && inputs.investee.ownership_percent is Some
            && !(0 < inputs.investee.ownership_percent->0.units() < pow10(28))) ==> (r matches Err(GroupError::Aggregate(m)) && m@ == em_range_text(
            inputs.investee.code@,
            inputs.investee.ownership_percent->0,
        )),
        (em_valid(*inputs) && em_computable(*inputs)) ==> r is Ok,
        r matches Ok(inv) ==> {
            &&& em_valid(*inputs)
            &&& inv.investee_code@ == inputs.investee.code@
            &&& inv.investor_entity_code@ == inputs.investor_entity_code@
            &&& inv.ownership_percent == inputs.investee.ownership_percent->0
            &&& inv.period_end == inputs.period_end
            &&& inv.currency@ == inputs.currency@
            &&& inv.closing_carrying_value.units() >= 0
            &&& em_result_matches(inv, *inputs)
        },
{
    let investee = inputs.investee;
    if investee.consolidation_method != ConsolidationMethod::EquityMethod {
        let msg = "compute_equity_method_investment: entity `".to_string().concat(investee.code.as_str()).concat(
            "` has consolidation_method=",
        ).concat(method_name(investee.consolidation_method)).concat(
            " — equity-method treatment is only valid for ConsolidationMethod::EquityMethod (Parent / Full are line-by-line consolidated; Proportional / FairValue use other treatments)",
        );
        proof {
            reveal_strlit("compute_equity_method_investment: entity `");
            reveal_strlit("` has consolidation_method=");
            reveal_strlit(
                " — equity-method treatment is only valid for ConsolidationMethod::EquityMethod (Parent / Full are line-by-line consolidated; Proportional / FairValue use other treatments)",
            );
        }
        return Err(GroupError::Aggregate(msg));
    }
    let ownership_percent = match investee.ownership_percent {
        Some(o) => o,
        None => {
            let msg = "compute_equity_method_investment: entity `".to_string().concat(investee.code.as_str()).concat(
                "` is consolidation_method=EquityMethod but has no ownership_percent set — supply ownership_percent in (0, 1)",
            );
            proof {
                reveal_strlit("compute_equity_method_investment: entity `");
                reveal_strlit(
                    "` is consolidation_method=EquityMethod but has no ownership_percent set — supply ownership_percent in (0, 1)",
                );
            }
            return Err(GroupError::Aggregate(msg));
        },
    };
    let zero = Dec::zero();
    let one = Dec::one();
    if !dec_lt(zero, ownership_percent) || !dec_lt(ownership_percent, one) {
        let msg = "compute_equity_method_investment: entity `".to_string().concat(investee.code.as_str()).concat(
            "` ownership_percent=",
        ).concat(crate::dec::dec_to_str(ownership_percent).as_str()).concat(
            " is outside (0, 1) — equity-method treatment requires strict 0 < ownership < 1",
        );
        proof {
            reveal_strlit("compute_equity_method_investment: entity `");
            reveal_strlit("` ownership_percent=");
            reveal_strlit(" is outside (0, 1) — equity-method treatment requires strict 0 < ownership < 1");
        }
        return Err(GroupError::Aggregate(msg));
    }
    let share_of_profit = match dec_mul(ownership_percent, inputs.investee_net_income) {
        Some(x) => x,
        None => {
            return Err(em_err("compute_equity_method_investment: share of profit overflows"));
        },
    };
    let dividends_received = match dec_mul(ownership_percent, inputs.investee_dividends_paid) {
        Some(x) => x,
        None => {
            return Err(em_err("compute_equity_method_investment: dividends received overflow"));
        },
    };
    proof {
        lemma_pow10_nonneg26();
    }
    let ghost b = em_bound(*inputs, share_of_profit, dividends_received);
    let ghost sc = max_nat(em_scale(*inputs, share_of_profit, dividends_received), 2);
    let ghost fits = em_fits(*inputs, share_of_profit, dividends_received);
    let opening_suppressed = if dec_lt(zero, inputs.opening_suppressed_loss) {
        inputs.opening_suppressed_loss
    } else {
        zero
    };
    // Recovery of suppressed losses against a share of profit.
    let (recognised, suppressed_after) = if dec_lt(zero, share_of_profit) && dec_lt(zero, opening_suppressed) {
        let recovered = if dec_lt(share_of_profit, opening_suppressed) {
            share_of_profit
        } else {
            opening_suppressed
        };
        proof {
            if fits {
                lemma_bounded_fits(share_of_profit.units() - recovered.units(), 2 * b + pow10(26), sc,
                    max_nat(share_of_profit.spec_scale(), recovered.spec_scale()));
                lemma_bounded_fits(opening_suppressed.units() - recovered.units(), 2 * b + pow10(26), sc,
                    max_nat(opening_suppressed.spec_scale(), recovered.spec_scale()));
            }
        }
        let a = match dec_sub(share_of_profit, recovered) {
            Some(x) => x,
            None => {
                return Err(em_err("compute_equity_method_investment: recognised share overflows"));
            },
        };
        let c = match dec_sub(opening_suppressed, recovered) {
            Some(x) => x,
            None => {
                return Err(em_err("compute_equity_method_investment: suppressed loss overflows"));
            },
        };
        (a, c)
    } else {
        (share_of_profit, opening_suppressed)
    };
    proof {
        lemma_pow10_nonneg26();
        if fits {
            lemma_bounded_fits(inputs.opening_carrying_value.units() + recognised.units(), 2 * b + pow10(26), sc,
                max_nat(inputs.opening_carrying_value.spec_scale(), recognised.spec_scale()));
        }
    }
    let s1 = match dec_add(inputs.opening_carrying_value, recognised) {
        Some(x) => x,
        None => {
            return Err(em_err("compute_equity_method_investment: carrying value overflows"));
        },
    };
    proof {
        if fits {
            lemma_bounded_fits(s1.units() - dividends_received.units(), 2 * b + pow10(26), sc,
                max_nat(s1.spec_scale(), dividends_received.spec_scale()));
        }
    }
    let s2 = match dec_sub(s1, dividends_received) {
        Some(x) => x,
        None => {
            return Err(em_err("compute_equity_method_investment: carrying value overflows"));
        },
    };
    proof {
        if fits {
            lemma_bounded_fits(s2.units() - inputs.impairment.units(), 2 * b + pow10(26), sc,
                max_nat(s2.spec_scale(), inputs.impairment.spec_scale()));
        }
    }
    let s3 = match dec_sub(s2, inputs.impairment) {
        Some(x) => x,
        None => {
            return Err(em_err("compute_equity_method_investment: carrying value overflows"));
        },
    };
    let raw_closing = round2(s3);
    proof {
        lemma_round2_bound(s3.units());
    }
    let (closing_carrying_value, suppressed_this) = if dec_lt(raw_closing, zero) {
        let neg = raw_closing.neg();
        proof {
            let k = round_half_even_of(s3.units());
            lemma_round2_multiple(-k);
            assert((-k) * pow10(26) == -(k * pow10(26))) by (nonlinear_arith);
        }
        (zero, round2(neg))
    } else {
        (raw_closing, zero)
    };
    proof {
        if fits {
            lemma_bounded_fits(suppressed_after.units() + suppressed_this.units(), 2 * b + pow10(26), sc,
                max_nat(suppressed_after.spec_scale(), suppressed_this.spec_scale()));
        }
    }
    let closing_suppressed = match dec_add(suppressed_after, suppressed_this) {
        Some(x) => round2(x),
        None => {
            return Err(em_err("compute_equity_method_investment: closing suppressed loss overflows"));
        },
    };
    Ok(EquityMethodInvestment {
        investee_code: investee.code.clone(),
        investor_entity_code: inputs.investor_entity_code.clone(),
        ownership_percent,
        opening_carrying_value: round2(inputs.opening_carrying_value),
        opening_suppressed_loss: round2(opening_suppressed),
        share_of_profit: round2(share_of_profit),
        share_of_profit_recognised: round2(recognised),
        dividends_received: round2(dividends_received),
        impairment: round2(inputs.impairment),
        suppressed_loss_this_period: suppressed_this,
        closing_suppressed_loss: closing_suppressed,
        closing_carrying_value,
        period_end: inputs.period_end,
        currency: inputs.currency.clone(),
    })
}

/// The quotient by `10^26` that two-place rounding picks.
pub open spec fn round_half_even_of(u: int) -> int {
    crate::dec::round_half_even(u, pow10(26))
}

proof fn lemma_pow10_nonneg26()
    ensures
        pow10(26) > 0,
{
    crate::dec::lemma_pow10_positive(26);
}

/// The positions of the investments that carry a suppressed loss at the
/// close, in order: those the suppressed-loss memorandum lists.
pub fn suppressed_loss_positions(invs: &[EquityMethodInvestment]) -> (r: Vec<usize>)
    ensures
        forall|a: int| 0 <= a < r@.len() ==> (#[trigger] r@[a]) < invs@.len() && invs@[r@[a] as int].closing_suppressed_loss.units() > 0,
        forall|a: int, b: int| 0 <= a < b < r@.len() ==> #[trigger] r@[a] < #[trigger] r@[b],
        forall|k: int|
            0 <= k < invs@.len() && (#[trigger] invs@[k]).closing_suppressed_loss.units() > 0 ==> r@.contains(k as usize),
{
    let zero = Dec::zero();
    let mut out: Vec<usize> = Vec::new();
    let mut k: usize = 0;
    while k < invs.len()
        invariant
            k <= invs@.len(),
            zero.units() == 0,
            forall|a: int| 0 <= a < out@.len() ==> (#[trigger] out@[a]) < k && invs@[out@[a] as int].closing_suppressed_loss.units() > 0,
            forall|a: int, b: int| 0 <= a < b < out@.len() ==> #[trigger] out@[a] < #[trigger] out@[b],
            forall|j: int| 0 <= j < k && (#[trigger] invs@[j]).closing_suppressed_loss.units() > 0 ==> out@.contains(j as usize),
        decreases invs.len() - k,
    {
        if dec_lt(zero, invs[k].closing_suppressed_loss) {
            let ghost before = out@;
            out.push(k);
            proof {
                assert forall|j: int| 0 <= j < k + 1 && (#[trigger] invs@[j]).closing_suppressed_loss.units() > 0 implies out@.contains(
                    j as usize,
                ) by {
                    if j < k {
                        let a = choose|a: int| 0 <= a < before.len() && before[a] == j as usize;
                        assert(out@[a] == j as usize);
                    } else {
                        assert(out@[before.len() as int] == k);
                    }
                }
            }
        }
        k = k + 1;
    }
    out
}

} // verus!
