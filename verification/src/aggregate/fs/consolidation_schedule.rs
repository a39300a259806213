//! Consolidation schedule: per account, each entity's contribution, the
//! pre-elimination total, the elimination adjustment and the
//! post-elimination total (`adjustment = post - pre`).
//!
//! One line per account code present in either trial balance, in code
//! order.  An entity's contribution to a code is `debit - credit` of its
//! trial-balance line for that code (the last such line when an entity
//! posts the code twice; a later entity entry with the same code wins over
//! an earlier one).
use vstd::prelude::*;

use crate::aggregate::accounts::{
    accounts_map, accounts_sorted, find_account, lemma_map_at, AggregatedAccount,
};
use crate::aggregate::pre_elim::{AggregatedTb, TrialBalance, TrialBalanceLine};
use crate::date::Date;
use crate::dec::{dec_sub, fits_sum, max_nat, Dec};
use crate::errors::GroupError;
use crate::sorted_map::{lemma_sm_contains_iff, sm_map, sm_sorted, sm_upsert};
use crate::text::{parse_u32, parse_u32_spec, seq_lt, str_eq};

verus! {

/// Category label of a code that denotes the number `n`.
pub open spec fn category_of_number(n: int) -> Seq<char> {
    if 1000 <= n <= 1999 {
        "Asset"@
    } else if 2000 <= n <= 2999 {
        "Liability"@
    } else if 3000 <= n <= 3999 {
        "Equity"@
    } else if 4000 <= n <= 4999 {
        "Revenue"@
    } else if 5000 <= n <= 6999 {
        "Expense"@
    } else if 7000 <= n <= 7999 {
        "Other Income/Expense"@
    } else if 8000 <= n <= 8999 {
        "Tax"@
    } else if 9000 <= n <= 9999 {
        "Suspense"@
    } else {
        "Other"@
    }
}

/// Category label of an account code; `Other` for a code that is not a
/// number.
pub open spec fn category_spec(code: Seq<char>) -> Seq<char> {
    match parse_u32_spec(code) {
        Some(n) => category_of_number(n as int),
        None => "Other"@,
    }
}

/// The human-readable category of an account code.
pub fn account_category_label(code: &str) -> (r: String)
    ensures
        r@ == category_spec(code@),
{
    match parse_u32(code) {
        Some(n) => {
            if 1000 <= n && n <= 1999 {
                "Asset".to_string()
            } else if 2000 <= n && n <= 2999 {
                "Liability".to_string()
            } else if 3000 <= n && n <= 3999 {
                "Equity".to_string()
            } else if 4000 <= n && n <= 4999 {
                "Revenue".to_string()
            } else if 5000 <= n && n <= 6999 {
                "Expense".to_string()
            } else if 7000 <= n && n <= 7999 {
                "Other Income/Expense".to_string()
            } else if 8000 <= n && n <= 8999 {
                "Tax".to_string()
            } else if 9000 <= n && n <= 9999 {
                "Suspense".to_string()
            } else {
                "Other".to_string()
            }
        },
        None => "Other".to_string(),
    }
}

/// One schedule line.
#[derive(Debug, Clone)]
pub struct ScheduleLine {
    pub account_category: String,
    pub account_code: String,
    /// Entity code → contribution, sorted by entity code.
    pub entity_amounts: Vec<(String, Dec)>,
    pub pre_elimination_total: Dec,
    pub elimination_adjustments: Dec,
    pub post_elimination_total: Dec,
}

/// The consolidation schedule.
#[derive(Debug, Clone)]
pub struct ConsolidationSchedule {
    pub group_id: String,
    pub as_of_date: Date,
    pub currency: String,
    pub lines: Vec<ScheduleLine>,
}

/// Net balance of `code` in `s` (zero when absent), in units.
pub open spec fn net_of(s: Seq<AggregatedAccount>, code: Seq<char>) -> int {
    if accounts_map(s).contains_key(code) {
        accounts_map(s)[code].net_balance.units()
    } else {
        0
    }
}

/// Scale of the net balance of `code` (zero when absent).
pub open spec fn net_scale_of(s: Seq<AggregatedAccount>, code: Seq<char>) -> nat {
    if accounts_map(s).contains_key(code) {
        accounts_map(s)[code].net_balance.spec_scale()
    } else {
        0
    }
}

/// The contribution of one trial balance's lines to `code`: the net of
/// the last line for `code`, if any.
pub open spec fn line_contribution(lines: Seq<TrialBalanceLine>, code: Seq<char>) -> Option<int>
    decreases lines.len(),
{
    if lines.len() == 0 {
        None
    } else if lines.last().account_code@ == code {
        Some(lines.last().debit_balance.units() - lines.last().credit_balance.units())
    } else {
        line_contribution(lines.drop_last(), code)
    }
}

/// Entity code → contribution to `code`, over all entity trial balances
/// in order.
pub open spec fn entity_contributions(tbs: Seq<(String, TrialBalance)>, code: Seq<char>) -> Map<
    Seq<char>,
    int,
>
    decreases tbs.len(),
{
    if tbs.len() == 0 {
        Map::empty()
    } else {
        let prev = entity_contributions(tbs.drop_last(), code);
        match line_contribution(tbs.last().1.lines@, code) {
            Some(v) => prev.insert(tbs.last().0@, v),
            None => prev,
        }
    }
}

/// Values of an entity-amount map, in units.
pub open spec fn units_map(m: Map<Seq<char>, Dec>) -> Map<Seq<char>, int> {
    Map::new(|k: Seq<char>| m.contains_key(k), |k: Seq<char>| m[k].units())
}

/// Every line net `debit - credit` of the entity trial balances is exact.
pub open spec fn entity_lines_fit(tbs: Seq<(String, TrialBalance)>) -> bool {
    forall|k: int, j: int|
        0 <= k < tbs.len() && 0 <= j < tbs[k].1.lines@.len() ==> {
            let l = #[trigger] tbs[k].1.lines@[j];
            fits_sum(l.debit_balance, l.credit_balance, l.debit_balance.units() - l.credit_balance.units())
        }
}

/// The adjustment `post - pre` of `code` is exact.
pub open spec fn adjustment_fits(pre: Seq<AggregatedAccount>, post: Seq<AggregatedAccount>, code: Seq<char>) -> bool {
    crate::dec::fits_at(
        net_of(post, code) - net_of(pre, code),
        max_nat(net_scale_of(post, code), net_scale_of(pre, code)),
    )
}

/// A schedule line for `code` follows from the two trial balances and the
/// entity trial balances.
pub open spec fn line_matches(
    l: ScheduleLine,
    pre: Seq<AggregatedAccount>,
    post: Seq<AggregatedAccount>,
    tbs: Seq<(String, TrialBalance)>,
) -> bool {
    let code = l.account_code@;
    &&& l.account_category@ == category_spec(code)
    &&& l.pre_elimination_total.units() == net_of(pre, code)
    &&& l.post_elimination_total.units() == net_of(post, code)
    &&& sm_sorted(l.entity_amounts@)
    &&& adjustment_fits(pre, post, code) ==> l.elimination_adjustments.units() == net_of(post, code)
        - net_of(pre, code)
    &&& entity_lines_fit(tbs) ==> units_map(sm_map(l.entity_amounts@)) == entity_contributions(tbs, code)
}

/// Entity contributions to `code`, as a map sorted by entity code.
fn entity_amounts_for(entity_tbs: &[(String, TrialBalance)], code: &str) -> (r: Vec<(String, Dec)>)
    ensures
        sm_sorted(r@),
        entity_lines_fit(entity_tbs@) ==> units_map(sm_map(r@)) == entity_contributions(entity_tbs@, code@),
{
    let ghost tbs = entity_tbs@;
    let mut out: Vec<(String, Dec)> = Vec::new();
    let mut k: usize = 0;
    while k < entity_tbs.len()
        invariant
            tbs == entity_tbs@,
            k <= tbs.len(),
            sm_sorted(out@),
            entity_lines_fit(tbs) ==> units_map(sm_map(out@)) == entity_contributions(tbs.take(k as int), code@),
        decreases entity_tbs.len() - k,
    {
        let ghost before = units_map(sm_map(out@));
        let entity = &entity_tbs[k].0;
        let lines = &entity_tbs[k].1.lines;
        let mut j: usize = 0;
        while j < lines.len()
            invariant
                tbs == entity_tbs@,
                k < tbs.len(),
                lines@ == tbs[k as int].1.lines@,
                entity@ == tbs[k as int].0@,
                j <= lines@.len(),
                sm_sorted(out@),
                entity_lines_fit(tbs) ==> units_map(sm_map(out@)) == match line_contribution(lines@.take(j as int), code@) {
                    Some(v) => before.insert(entity@, v),
                    None => before,
                },
            decreases lines.len() - j,
        {
            proof {
                assert(lines@.take(j + 1).drop_last() =~= lines@.take(j as int));
                assert(lines@.take(j + 1).last() == lines@[j as int]);
            }
            let l = &lines[j];
            if str_eq(l.account_code.as_str(), code) {
                proof {
                    if entity_lines_fit(tbs) {
                        assert(tbs[k as int].1.lines@[j as int] == lines@[j as int]);
                    }
                }
                match dec_sub(l.debit_balance, l.credit_balance) {
                    Some(net) => {
                        let ghost prev = sm_map(out@);
                        sm_upsert(&mut out, entity.clone(), net);
                        proof {
                            assert(units_map(sm_map(out@)) =~= units_map(prev).insert(entity@, net.units()));
                            if entity_lines_fit(tbs) {
                                assert(units_map(sm_map(out@)) =~= before.insert(entity@, net.units()));
                            }
                        }
                    },
                    None => {},
                }
            }
            j = j + 1;
        }
        proof {
            assert(lines@.take(j as int) =~= lines@);
            assert(tbs.take(k + 1).drop_last() =~= tbs.take(k as int));
            assert(tbs.take(k + 1).last() == tbs[k as int]);
        }
        k = k + 1;
    }
    proof {
        assert(tbs.take(k as int) =~= tbs);
    }
    out
}

/// Build the consolidation schedule.  `Err` only when `rust_decimal`
/// reports an overflow on an adjustment, which [`adjustment_fits`] rules
/// out.
pub fn build_consolidation_schedule(
    pre_elim_tb: &AggregatedTb,
    post_elim_tb: &AggregatedTb,
    entity_tbs: &[(String, TrialBalance)],
    group_id: &str,
    as_of_date: Date,
) -> (r: Result<ConsolidationSchedule, GroupError>)
    requires
        accounts_sorted(pre_elim_tb.account_totals@),
        accounts_sorted(post_elim_tb.account_totals@),
    ensures
        (forall|c: Seq<char>| adjustment_fits(pre_elim_tb.account_totals@, post_elim_tb.account_totals@, c))
            ==> r is Ok,
        r matches Ok(sch) ==> {
            &&& sch.group_id@ == group_id@
            &&& sch.as_of_date == as_of_date
            &&& sch.currency@ == pre_elim_tb.currency@
            &&& forall|i: int, j: int|
                0 <= i < j < sch.lines@.len() ==> seq_lt(
                    #[trigger] sch.lines@[i].account_code@,
                    #[trigger] sch.lines@[j].account_code@,
                )
            &&& forall|c: Seq<char>|
                (exists|i: int| 0 <= i < sch.lines@.len() && #[trigger] sch.lines@[i].account_code@ == c)
                    <==> (accounts_map(pre_elim_tb.account_totals@).contains_key(c) || accounts_map(
                    post_elim_tb.account_totals@,
                ).contains_key(c))
            &&& forall|i: int|
                0 <= i < sch.lines@.len() ==> line_matches(
                    #[trigger] sch.lines@[i],
                    pre_elim_tb.account_totals@,
                    post_elim_tb.account_totals@,
                    entity_tbs@,
                )
        },
{
    let ghost pre = pre_elim_tb.account_totals@;
    let ghost post = post_elim_tb.account_totals@;
    // The union of the codes, as a sorted key set.
    let mut codes: Vec<(String, ())> = Vec::new();
    let mut i: usize = 0;
    while i < pre_elim_tb.account_totals.len()
        invariant
            pre == pre_elim_tb.account_totals@,
            i <= pre.len(),
            sm_sorted(codes@),
            sm_map(codes@).dom() == accounts_map(pre.take(i as int)).dom(),
        decreases pre_elim_tb.account_totals.len() - i,
    {
        proof {
            assert(pre.take(i + 1).drop_last() =~= pre.take(i as int));
        }
        sm_upsert(&mut codes, pre_elim_tb.account_totals[i].account_code.clone(), ());
        proof {
            assert(sm_map(codes@).dom() =~= accounts_map(pre.take(i + 1)).dom());
        }
        i = i + 1;
    }
    proof {
        assert(pre.take(i as int) =~= pre);
    }
    let mut j: usize = 0;
    while j < post_elim_tb.account_totals.len()
        invariant
            post == post_elim_tb.account_totals@,
            j <= post.len(),
            sm_sorted(codes@),
            sm_map(codes@).dom() == accounts_map(pre).dom().union(accounts_map(post.take(j as int)).dom()),
        decreases post_elim_tb.account_totals.len() - j,
    {
        proof {
            assert(post.take(j + 1).drop_last() =~= post.take(j as int));
        }
        sm_upsert(&mut codes, post_elim_tb.account_totals[j].account_code.clone(), ());
        proof {
            assert(sm_map(codes@).dom() =~= accounts_map(pre).dom().union(accounts_map(post.take(j + 1)).dom()));
        }
        j = j + 1;
    }
    proof {
        assert(post.take(j as int) =~= post);
    }
    // One line per code.
    let mut lines: Vec<ScheduleLine> = Vec::new();
    let mut k: usize = 0;
    while k < codes.len()
        invariant
            pre == pre_elim_tb.account_totals@,
            post == post_elim_tb.account_totals@,
            accounts_sorted(pre),
            accounts_sorted(post),
            sm_sorted(codes@),
            sm_map(codes@).dom() == accounts_map(pre).dom().union(accounts_map(post).dom()),
            k <= codes@.len(),
            lines@.len() == k,
            forall|m: int| 0 <= m < k ==> (#[trigger] lines@[m]).account_code@ == codes@[m].0@,
            forall|m: int| 0 <= m < k ==> line_matches(#[trigger] lines@[m], pre, post, entity_tbs@),
            pre == pre_elim_tb.account_totals@,
        decreases codes.len() - k,
    {
        let code = &codes[k].0;
        let (fp, ip) = find_account(&pre_elim_tb.account_totals, code.as_str());
        let (fq, iq) = find_account(&post_elim_tb.account_totals, code.as_str());
        let pre_net = if fp {
            proof {
                lemma_map_at(pre, ip as int);
            }
            pre_elim_tb.account_totals[ip].net_balance
        } else {
            Dec::zero()
        };
        let post_net = if fq {
            proof {
                lemma_map_at(post, iq as int);
            }
            post_elim_tb.account_totals[iq].net_balance
        } else {
            Dec::zero()
        };
        proof {
            if forall|c: Seq<char>| adjustment_fits(pre, post, c) {
                assert(adjustment_fits(pre, post, code@));
            }
        }
        let adj = match dec_sub(post_net, pre_net) {
            Some(x) => x,
            None => {
                return Err(GroupError::Aggregate("consolidation schedule: adjustment overflows".to_string()));
            },
        };
        let line = ScheduleLine {
            account_category: account_category_label(code.as_str()),
            account_code: code.clone(),
            entity_amounts: entity_amounts_for(entity_tbs, code.as_str()),
            pre_elimination_total: pre_net,
            elimination_adjustments: adj,
            post_elimination_total: post_net,
        };
        lines.push(line);
        k = k + 1;
    }
    proof {
        assert forall|a: int, b: int| 0 <= a < b < lines@.len() implies seq_lt(
            #[trigger] lines@[a].account_code@,
            #[trigger] lines@[b].account_code@,
        ) by {
            assert(seq_lt(codes@[a].0@, codes@[b].0@));
        }
    }
    let sch = ConsolidationSchedule {
        group_id: group_id.to_string(),
        as_of_date,
        currency: pre_elim_tb.currency.clone(),
        lines,
    };
    proof {
        assert forall|c: Seq<char>|
            (exists|m: int| 0 <= m < sch.lines@.len() && #[trigger] sch.lines@[m].account_code@ == c) <==> (
            accounts_map(pre_elim_tb.account_totals@).contains_key(c) || accounts_map(post_elim_tb.account_totals@).contains_key(c)) by {
            lemma_sm_contains_iff(codes@, c);
            if exists|m: int| 0 <= m < sch.lines@.len() && #[trigger] sch.lines@[m].account_code@ == c {
                let m = choose|m: int| 0 <= m < sch.lines@.len() && #[trigger] sch.lines@[m].account_code@ == c;
                assert(codes@[m].0@ == c);
            }
            if sm_map(codes@).contains_key(c) {
                let m = choose|m: int| 0 <= m < codes@.len() && #[trigger] codes@[m].0@ == c;
                assert(sch.lines@[m].account_code@ == c);
            }
        }
    }
    Ok(sch)
}

} // verus!
