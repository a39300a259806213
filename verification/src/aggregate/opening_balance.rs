//! Opening balances of a period: the balance-sheet lines of the prior
//! period's closing trial balance.  Profit-and-loss accounts close to
//! retained earnings and open at zero, so they are dropped.
use vstd::prelude::*;

use crate::aggregate::accounts::AccountType;
use crate::aggregate::driver::keep;
use crate::aggregate::pre_elim::{TrialBalance, TrialBalanceLine};
use crate::dec::Dec;
use crate::sorted_map::{key_sorted, lemma_multiset_map, sort_keyed, SortKey};

verus! {

/// One account's opening balance, sides kept apart.
#[derive(Debug, Clone)]
pub struct OpeningBalance {
    pub account_code: String,
    pub account_type: AccountType,
    pub debit: Dec,
    pub credit: Dec,
}

impl SortKey for OpeningBalance {
    open spec fn sort_key(&self) -> Seq<char> {
        self.account_code@
    }

    fn key_str(&self) -> (r: &str) {
        self.account_code.as_str()
    }
}

/// An asset, liability or equity account (or a contra account of one).
pub open spec fn is_bs_type(t: AccountType) -> bool {
    t == AccountType::Asset || t == AccountType::ContraAsset || t == AccountType::Liability
        || t == AccountType::ContraLiability || t == AccountType::Equity || t == AccountType::ContraEquity
}

/// Whether an account of type `ty` carries its balance into the next
/// period.
pub fn is_balance_sheet_account(ty: AccountType) -> (r: bool)
    ensures
        r == is_bs_type(ty),
{
    match ty {
        AccountType::Asset | AccountType::ContraAsset | AccountType::Liability | AccountType::ContraLiability
        | AccountType::Equity | AccountType::ContraEquity => true,
        _ => false,
    }
}

/// A balance-sheet line.
pub open spec fn bs_line() -> spec_fn(TrialBalanceLine) -> bool {
    |l: TrialBalanceLine| is_bs_type(l.account_type)
}

/// Code, type, debit and credit of an opening balance.
pub open spec fn opening_view(o: OpeningBalance) -> (Seq<char>, AccountType, Dec, Dec) {
    (o.account_code@, o.account_type, o.debit, o.credit)
}

/// Code, type, debit and credit of a trial-balance line.
pub open spec fn line_view(l: TrialBalanceLine) -> (Seq<char>, AccountType, Dec, Dec) {
    (l.account_code@, l.account_type, l.debit_balance, l.credit_balance)
}

/// The views of opening balances.
pub open spec fn opening_views(s: Seq<OpeningBalance>) -> Seq<(Seq<char>, AccountType, Dec, Dec)> {
    s.map_values(|o: OpeningBalance| opening_view(o))
}

/// The views of the balance-sheet lines, in order.
pub open spec fn bs_line_views(lines: Seq<TrialBalanceLine>) -> Seq<(Seq<char>, AccountType, Dec, Dec)> {
    keep(lines, bs_line()).map_values(|l: TrialBalanceLine| line_view(l))
}

/// `r` holds the lines `views` rearranged by `idx` (`r[a]` is
/// `views[idx[a]]`, each line used once), balances of one account keeping
/// their order in `views`.
pub open spec fn stable_views(r: Seq<OpeningBalance>, views: Seq<(Seq<char>, AccountType, Dec, Dec)>, idx: Seq<int>) -> bool {
    &&& idx.len() == r.len()
    &&& r.len() == views.len()
    &&& forall|a: int| 0 <= a < r.len() ==> 0 <= #[trigger] idx[a] < views.len() && opening_view(r[a]) == views[idx[a]]
    &&& forall|a: int, b: int| 0 <= a < b < r.len() ==> #[trigger] idx[a] != #[trigger] idx[b]
    &&& forall|a: int, b: int|
        0 <= a < b < r.len() && (#[trigger] r[a]).account_code@ == (#[trigger] r[b]).account_code@ ==> idx[a] < idx[b]
}

/// The opening balances a closing trial balance carries forward: one per
/// balance-sheet line, with its code, type and both sides, sorted by
/// account code, lines of one account in their trial-balance order.
pub fn extract_opening_balances(tb: &TrialBalance) -> (r: Vec<OpeningBalance>)
    ensures
        key_sorted(r@),
        opening_views(r@).to_multiset() == bs_line_views(tb.lines@).to_multiset(),
        exists|idx: Seq<int>| stable_views(r@, bs_line_views(tb.lines@), idx),
{
    let ghost lines = tb.lines@;
    let ghost p = bs_line();
    let mut out: Vec<OpeningBalance> = Vec::new();
    let mut i: usize = 0;
    while i < tb.lines.len()
        invariant
            lines == tb.lines@,
            p == bs_line(),
            i <= lines.len(),
            opening_views(out@) == bs_line_views(lines.take(i as int)),
        decreases tb.lines.len() - i,
    {
        proof {
            assert(lines.take(i + 1).drop_last() =~= lines.take(i as int));
            assert(lines.take(i + 1).last() == lines[i as int]);
        }
        let line = &tb.lines[i];
        if is_balance_sheet_account(line.account_type) {
            let ghost before = out@;
            out.push(
                OpeningBalance {
                    account_code: line.account_code.clone(),
                    account_type: line.account_type,
                    debit: line.debit_balance,
                    credit: line.credit_balance,
                },
            );
            proof {
                assert(opening_views(out@) =~= opening_views(before).push(line_view(lines[i as int])));
                assert(bs_line_views(lines.take(i + 1)) =~= bs_line_views(lines.take(i as int)).push(
                    line_view(lines[i as int]),
                ));
            }
        }
        i = i + 1;
    }
    proof {
        assert(lines.take(i as int) =~= lines);
    }
    let ghost unsorted = out@;
    let sorted = sort_keyed(out);
    proof {
        lemma_multiset_map(sorted@, unsorted, |o: OpeningBalance| opening_view(o));
        assert(opening_views(sorted@) == sorted@.map_values(|o: OpeningBalance| opening_view(o)));
        assert(opening_views(unsorted) == unsorted.map_values(|o: OpeningBalance| opening_view(o)));
        let idx = choose|idx: Seq<int>| crate::sorted_map::stable_rearrangement(sorted@, unsorted, idx);
        let views = bs_line_views(lines);
        assert forall|a: int| 0 <= a < sorted@.len() implies 0 <= #[trigger] idx[a] < views.len() && opening_view(sorted@[a])
            == views[idx[a]] by {
            assert(sorted@[a] == unsorted[idx[a]]);
            assert(opening_views(unsorted)[idx[a]] == opening_view(unsorted[idx[a]]));
        }
        assert forall|a: int, b: int|
            0 <= a < b < sorted@.len() && (#[trigger] sorted@[a]).account_code@ == (#[trigger] sorted@[b]).account_code@ implies idx[a]
                < idx[b] by {
            assert(sorted@[a].sort_key() == sorted@[b].sort_key());
        }
        assert(stable_views(sorted@, views, idx));
    }
    sorted
}

/// Sum of `f` over the elements.
pub open spec fn sum_of<A>(s: Seq<A>, f: spec_fn(A) -> int) -> int
    decreases s.len(),
{
    if s.len() == 0 {
        0
    } else {
        sum_of(s.drop_last(), f) + f(s.last())
    }
}

proof fn lemma_sum_of_remove<A>(s: Seq<A>, f: spec_fn(A) -> int, i: int)
    requires
        0 <= i < s.len(),
    ensures
        sum_of(s, f) == sum_of(s.remove(i), f) + f(s[i]),
    decreases s.len(),
{
    if i < s.len() - 1 {
        lemma_sum_of_remove(s.drop_last(), f, i);
        assert(s.remove(i).drop_last() =~= s.drop_last().remove(i));
        assert(s.remove(i).last() == s.last());
    } else {
        assert(s.remove(i) =~= s.drop_last());
    }
}

proof fn lemma_sum_of_permutation<A>(s1: Seq<A>, s2: Seq<A>, f: spec_fn(A) -> int)
    requires
        s1.to_multiset() == s2.to_multiset(),
    ensures
        sum_of(s1, f) == sum_of(s2, f),
    decreases s1.len(),
{
    broadcast use vstd::seq_lib::group_to_multiset_ensures;
    broadcast use vstd::multiset::group_multiset_axioms;

    assert(s1.to_multiset().len() == s1.len());
    assert(s2.to_multiset().len() == s2.len());
    if s1.len() > 0 {
        let a = s1.last();
        let t1 = s1.drop_last();
        assert(s1 =~= t1.push(a));
        assert(s1.to_multiset().count(a) > 0);
        assert(s2.contains(a));
        let i = choose|i: int| 0 <= i < s2.len() && s2[i] == a;
        let t2 = s2.remove(i);
        assert(t1.to_multiset() =~= t2.to_multiset()) by {
            assert(s2.to_multiset().remove(a) == t2.to_multiset());
            assert(t1.push(a).to_multiset() == t1.to_multiset().insert(a));
        }
        lemma_sum_of_permutation(t1, t2, f);
        lemma_sum_of_remove(s2, f, i);
    }
}

/// Debit less credit of a `(code, type, debit, credit)` view.
pub open spec fn view_net() -> spec_fn((Seq<char>, AccountType, Dec, Dec)) -> int {
    |v: (Seq<char>, AccountType, Dec, Dec)| v.2.units() - v.3.units()
}

/// Debit less credit over all the lines.
pub open spec fn lines_net(lines: Seq<TrialBalanceLine>) -> int
    decreases lines.len(),
{
    if lines.len() == 0 {
        0
    } else {
        lines_net(lines.drop_last()) + lines.last().debit_balance.units() - lines.last().credit_balance.units()
    }
}

/// Credit less debit over the profit-and-loss lines: the period's result
/// that closes to retained earnings.
pub open spec fn pl_residual(lines: Seq<TrialBalanceLine>) -> int
    decreases lines.len(),
{
    if lines.len() == 0 {
        0
    } else {
        pl_residual(lines.drop_last()) + if is_bs_type(lines.last().account_type) {
            0
        } else {
            lines.last().credit_balance.units() - lines.last().debit_balance.units()
        }
    }
}

proof fn lemma_bs_net_split(lines: Seq<TrialBalanceLine>)
    ensures
        sum_of(bs_line_views(lines), view_net()) == lines_net(lines) + pl_residual(lines),
    decreases lines.len(),
{
    if lines.len() > 0 {
        lemma_bs_net_split(lines.drop_last());
        let k0 = bs_line_views(lines.drop_last());
        if is_bs_type(lines.last().account_type) {
            assert(bs_line_views(lines) =~= k0.push(line_view(lines.last())));
            assert(k0.push(line_view(lines.last())).drop_last() =~= k0);
        } else {
            assert(bs_line_views(lines) =~= k0);
        }
    }
}

/// Debit less credit over the opening balances.
pub open spec fn openings_net(s: Seq<OpeningBalance>) -> int {
    sum_of(opening_views(s), view_net())
}

/// The carried-forward balances of a balanced closing trial balance are
/// off by exactly the period's profit or loss: their debits less credits
/// equal the profit-and-loss result that the period-close entry posts to
/// retained earnings.
pub proof fn law_openings_net_to_pl_result(tb: TrialBalance, openings: Seq<OpeningBalance>)
    requires
        lines_net(tb.lines@) == 0,
        opening_views(openings).to_multiset() == bs_line_views(tb.lines@).to_multiset(),
    ensures
        openings_net(openings) == pl_residual(tb.lines@),
{
    lemma_sum_of_permutation(opening_views(openings), bs_line_views(tb.lines@), view_net());
    lemma_bs_net_split(tb.lines@);
}

} // verus!
