//! Elimination entries from matched intercompany pairs.
//!
//! Every matched pair is eliminated by two balanced entries: one that
//! zeroes the intercompany clearing balances (seller's receivable against
//! buyer's payable) and one for the profit-and-loss track, chosen by the
//! pair's transaction type (revenue against expense, interest income
//! against interest expense, or dividend income against retained
//! earnings).  The entries come out sorted by elimination type, then by
//! entry id.
use vstd::prelude::*;

use crate::aggregate::ic_matcher::IcMatchedPair;
use crate::aggregate::ic_plan::{lookup_plan, plan_for, IcPairPlan};
use crate::aggregate::journal::{JournalEntry, JournalEntryHeader, JournalEntryLine};
use crate::config::IcTransactionType;
use crate::date::{midnight, midnight_spec, Date, DateTime};
use crate::dec::{dec_add, dec_lt, Dec};
use crate::errors::GroupError;
use crate::manifest::builder::GroupManifest;
use crate::manifest::shard_plan::{digits_spec, pad_digits, zero_pad};
use crate::sorted_map::{keys_ordered, sort_by_key};
use crate::text::seq_lt;

verus! {

/// Seller-side intercompany receivable clearing account.
pub const IC_AR_CLEARING: &'static str = "1150";
/// Buyer-side intercompany payable clearing account.
pub const IC_AP_CLEARING: &'static str = "2050";
/// Seller-side intercompany revenue.
pub const IC_REVENUE: &'static str = "4500";
/// Buyer-side cost of goods sold for intercompany goods.
pub const COGS_ACCOUNT: &'static str = "5000";
/// Buyer-side expense for other intercompany purchases.
pub const IC_EXPENSE_ACCOUNT: &'static str = "6800";
/// Seller-side intercompany interest income.
pub const IC_INTEREST_INCOME: &'static str = "7000";
/// Buyer-side interest expense.
pub const INTEREST_EXPENSE: &'static str = "7100";
/// Seller-side dividend income.
pub const DIVIDEND_INCOME: &'static str = "4900";
/// Retained earnings, restored on the paying entity.
pub const RETAINED_EARNINGS: &'static str = "3300";

/// Kinds of consolidation elimination.
#[derive(Debug, Clone, Copy, PartialEq, Eq, Structural)]
pub enum EliminationType {
    ICBalances,
    ICRevenueExpense,
    ICProfitInInventory,
    ICProfitInFixedAssets,
    ICLoans,
    ICInterest,
    ICDividends,
    InvestmentEquity,
    MinorityInterest,
    Goodwill,
    CurrencyTranslation,
}

/// The stable sort position of an elimination type.
pub open spec fn type_order(t: EliminationType) -> u8 {
    match t {
        EliminationType::ICBalances => 0,
        EliminationType::ICRevenueExpense => 1,
        EliminationType::ICInterest => 2,
        EliminationType::ICDividends => 3,
        EliminationType::ICLoans => 4,
        EliminationType::ICProfitInInventory => 5,
        EliminationType::ICProfitInFixedAssets => 6,
        EliminationType::InvestmentEquity => 7,
        EliminationType::MinorityInterest => 8,
        EliminationType::Goodwill => 9,
        EliminationType::CurrencyTranslation => 10,
    }
}

/// Sort position of an elimination type: smaller sorts first.
pub fn elimination_type_order(t: EliminationType) -> (r: u8)
    ensures
        r == type_order(t),
{
    match t {
        EliminationType::ICBalances => 0,
        EliminationType::ICRevenueExpense => 1,
        EliminationType::ICInterest => 2,
        EliminationType::ICDividends => 3,
        EliminationType::ICLoans => 4,
        EliminationType::ICProfitInInventory => 5,
        EliminationType::ICProfitInFixedAssets => 6,
        EliminationType::InvestmentEquity => 7,
        EliminationType::MinorityInterest => 8,
        EliminationType::Goodwill => 9,
        EliminationType::CurrencyTranslation => 10,
    }
}

/// No two elimination types share a sort position.
pub proof fn lemma_type_order_injective(a: EliminationType, b: EliminationType)
    ensures
        type_order(a) == type_order(b) ==> a == b,
{
}

/// One line of an elimination entry.
#[derive(Debug, Clone)]
pub struct EliminationLine {
    pub line_number: u32,
    pub company: String,
    pub account: String,
    pub is_debit: bool,
    pub amount: Dec,
    pub currency: String,
    pub description: String,
}

/// A consolidation elimination journal entry.
#[derive(Debug, Clone)]
pub struct EliminationEntry {
    pub entry_id: String,
    pub elimination_type: EliminationType,
    pub consolidation_entity: String,
    pub fiscal_period: String,
    pub entry_date: Date,
    /// When the entry was made: 00:00:00 on the seller's posting date,
    /// so that equal inputs give equal entries.
    pub created_at: DateTime,
    pub currency: String,
    pub description: String,
    pub related_companies: Vec<String>,
    pub ic_references: Vec<String>,
    pub lines: Vec<EliminationLine>,
    pub total_debit: Dec,
    pub total_credit: Dec,
}

/// The emitted entries and their totals.
#[derive(Debug, Clone)]
pub struct EliminationResult {
    /// Sorted by elimination type, then entry id.
    pub entries: Vec<EliminationEntry>,
    pub total_debit: Dec,
    pub total_credit: Dec,
    /// Number of entries per elimination type present, in type order.
    pub by_type_counts: Vec<(EliminationType, usize)>,
}

/// `YYYYMM` of a date, the year zero-padded to four places (`{:04}{:02}`).
pub open spec fn fiscal_period_spec(d: Date) -> Seq<char> {
    let month = zero_pad(digits_spec(d.month as nat), 2);
    if d.year >= 0 {
        zero_pad(digits_spec(d.year as nat), 4) + month
    } else {
        seq!['-'] + zero_pad(digits_spec((-d.year) as nat), 3) + month
    }
}

/// `YYYYMM` of a posting date.
pub fn format_fiscal_period(d: Date) -> (r: String)
    ensures
        r@ == fiscal_period_spec(d),
{
    let month = pad_digits(d.month, 2);
    if d.year >= 0 {
        pad_digits(d.year as u32, 4).concat(month.as_str())
    } else {
        let neg: i64 = -(d.year as i64);
        let y = pad_digits(neg as u32, 3);
        proof {
            reveal_strlit("-");
            assert((neg as u32) as nat == (-d.year) as nat);
        }
        let r = "-".to_string().concat(y.as_str()).concat(month.as_str());
        proof {
            assert(r@ =~= seq!['-'] + y@ + month@);
        }
        r
    }
}

/// The first eight characters of a pair identifier.
pub open spec fn short_id(pair_id: Seq<char>) -> Seq<char> {
    if pair_id.len() < 8 {
        pair_id
    } else {
        pair_id.take(8)
    }
}

/// First eight hex characters of a pair identifier: a short, stable label
/// for entry ids.
pub fn short_pair_id(pair_id: &str) -> (r: String)
    ensures
        r@ == short_id(pair_id@),
{
    let n = pair_id.unicode_len();
    let k = if n < 8 {
        n
    } else {
        8
    };
    let r = pair_id.substring_char(0, k).to_string();
    proof {
        if n >= 8 {
            assert(pair_id@.subrange(0, 8) =~= pair_id@.take(8));
        } else {
            assert(pair_id@.subrange(0, n as int) =~= pair_id@);
        }
    }
    r
}

/// The first debit amount among the lines (a debit line has a positive
/// debit amount).
pub open spec fn first_debit(lines: Seq<JournalEntryLine>) -> Option<Dec>
    decreases lines.len(),
{
    if lines.len() == 0 {
        None
    } else if lines[0].debit_amount.units() > 0 {
        Some(lines[0].debit_amount)
    } else {
        first_debit(lines.subrange(1, lines.len() as int))
    }
}

/// The elimination amount: the seller leg's debit line amount.
fn elimination_amount(lines: &Vec<JournalEntryLine>, pair_id: &str) -> (r: Result<Dec, GroupError>)
    ensures
        match first_debit(lines@) {
            Some(a) => r == Ok::<Dec, GroupError>(a),
            None => r matches Err(GroupError::Aggregate(_)),
        },
{
    let mut i: usize = 0;
    proof {
        assert(lines@.subrange(0, lines@.len() as int) =~= lines@);
    }
    while i < lines.len()
        invariant
            i <= lines@.len(),
            first_debit(lines@) == first_debit(lines@.subrange(i as int, lines@.len() as int)),
        decreases lines.len() - i,
    {
        proof {
            let t = lines@.subrange(i as int, lines@.len() as int);
            assert(t[0] == lines@[i as int]);
            assert(t.subrange(1, t.len() as int) =~= lines@.subrange(i + 1, lines@.len() as int));
        }
        if dec_lt(Dec::zero(), lines[i].debit_amount) {
            return Ok(lines[i].debit_amount);
        }
        i = i + 1;
    }
    Err(GroupError::Aggregate(
        "generate_eliminations: seller-side JE for pair ".to_string().concat(pair_id).concat(
            " has no debit line, expected exactly one debit per IC injector contract",
        ),
    ))
}

/// An entry's two lines: a debit of `amount` to `dr_account` of
/// `dr_company`, then a credit of `amount` to `cr_account` of
/// `cr_company`; both totals are `amount`.
pub open spec fn two_lines(
    e: EliminationEntry,
    dr_company: Seq<char>,
    dr_account: Seq<char>,
    cr_company: Seq<char>,
    cr_account: Seq<char>,
    amount: Dec,
) -> bool {
    &&& e.lines@.len() == 2
    &&& e.lines@[0].line_number == 1
    &&& e.lines@[0].company@ == dr_company
    &&& e.lines@[0].account@ == dr_account
    &&& e.lines@[0].is_debit
    &&& e.lines@[0].amount == amount
    &&& e.lines@[0].currency@ == e.currency@
    &&& e.lines@[1].line_number == 2
    &&& e.lines@[1].company@ == cr_company
    &&& e.lines@[1].account@ == cr_account
    &&& !e.lines@[1].is_debit
    &&& e.lines@[1].amount == amount
    &&& e.lines@[1].currency@ == e.currency@
    &&& e.total_debit == amount
    &&& e.total_credit == amount
}

/// The identifying fields of an entry for `pair`.
pub open spec fn entry_header(
    e: EliminationEntry,
    prefix: Seq<char>,
    t: EliminationType,
    pair: IcMatchedPair,
    group_id: Seq<char>,
    currency: Seq<char>,
) -> bool {
    &&& e.entry_id@ == prefix + short_id(pair.pair_id@)
    &&& e.elimination_type == t
    &&& e.consolidation_entity@ == group_id
    &&& e.fiscal_period@ == fiscal_period_spec(pair.seller_je.header.posting_date)
    &&& e.entry_date == pair.seller_je.header.posting_date
    &&& e.created_at == midnight_spec(pair.seller_je.header.posting_date)
    &&& e.currency@ == currency
    &&& e.related_companies@.len() == 2
    &&& e.related_companies@[0]@ == pair.seller_entity@
    &&& e.related_companies@[1]@ == pair.buyer_entity@
    &&& e.ic_references@.len() == 1
    &&& e.ic_references@[0]@ == "ic_pair_id="@ + pair.pair_id@
}

/// The balance-track entry of a pair: the buyer's payable against the
/// seller's receivable.
#[verifier::opaque]
pub open spec fn balance_entry(e: EliminationEntry, pair: IcMatchedPair, amount: Dec, group_id: Seq<char>, currency: Seq<char>) -> bool {
    &&& entry_header(e, "ELIM-BAL-"@, EliminationType::ICBalances, pair, group_id, currency)
    &&& two_lines(e, pair.buyer_entity@, IC_AP_CLEARING@, pair.seller_entity@, IC_AR_CLEARING@, amount)
}

/// The profit-and-loss track entry of a pair, by transaction type.
#[verifier::opaque]
pub open spec fn pl_entry(
    e: EliminationEntry,
    pair: IcMatchedPair,
    tx: IcTransactionType,
    amount: Dec,
    group_id: Seq<char>,
    currency: Seq<char>,
) -> bool {
    let s = pair.seller_entity@;
    let b = pair.buyer_entity@;
    match tx {
        IcTransactionType::LoanInterest => entry_header(e, "ELIM-INT-"@, EliminationType::ICInterest, pair, group_id, currency)
            && two_lines(e, s, IC_INTEREST_INCOME@, b, INTEREST_EXPENSE@, amount),
        IcTransactionType::Dividend => entry_header(e, "ELIM-DIV-"@, EliminationType::ICDividends, pair, group_id, currency)
            && two_lines(e, s, DIVIDEND_INCOME@, b, RETAINED_EARNINGS@, amount),
        IcTransactionType::GoodsSale => entry_header(e, "ELIM-REV-"@, EliminationType::ICRevenueExpense, pair, group_id, currency)
            && two_lines(e, s, IC_REVENUE@, b, COGS_ACCOUNT@, amount),
        _ => entry_header(e, "ELIM-REV-"@, EliminationType::ICRevenueExpense, pair, group_id, currency) && two_lines(
            e,
            s,
            IC_REVENUE@,
            b,
            IC_EXPENSE_ACCOUNT@,
            amount,
        ),
    }
}

/// The profit-and-loss entry of a pair reverses the seller's income: its
/// first line debits the seller's income account (`4500` intercompany
/// revenue, `7000` interest income, `4900` dividend income) and its second
/// line credits the buyer's matching cost (`5000` cost of goods sold for a
/// goods sale, `6800` for other purchases, `7100` interest expense,
/// `3300` retained earnings for a dividend), both by the pair's amount.
pub proof fn law_pl_entry_reverses_seller_income(
    e: EliminationEntry,
    pair: IcMatchedPair,
    tx: IcTransactionType,
    amount: Dec,
    group_id: Seq<char>,
    currency: Seq<char>,
)
    requires
        pl_entry(e, pair, tx, amount, group_id, currency),
    ensures
        e.lines@.len() == 2,
        e.lines@[0].is_debit && e.lines@[0].company@ == pair.seller_entity@ && e.lines@[0].amount == amount,
        !e.lines@[1].is_debit && e.lines@[1].company@ == pair.buyer_entity@ && e.lines@[1].amount == amount,
        e.lines@[0].account@ == match tx {
            IcTransactionType::LoanInterest => "7000"@,
            IcTransactionType::Dividend => "4900"@,
            _ => "4500"@,
        },
        e.lines@[1].account@ == match tx {
            IcTransactionType::LoanInterest => "7100"@,
            IcTransactionType::Dividend => "3300"@,
            IcTransactionType::GoodsSale => "5000"@,
            _ => "6800"@,
        },
        tx != IcTransactionType::LoanInterest && tx != IcTransactionType::Dividend ==> e.elimination_type
            == EliminationType::ICRevenueExpense,
{
    reveal(pl_entry);
}

/// The balance entry of a pair reverses the intercompany balances: it
/// debits the buyer's payable clearing account `2050` and credits the
/// seller's receivable clearing account `1150`, both by the pair's amount.
pub proof fn law_balance_entry_reverses_balances(
    e: EliminationEntry,
    pair: IcMatchedPair,
    amount: Dec,
    group_id: Seq<char>,
    currency: Seq<char>,
)
    requires
        balance_entry(e, pair, amount, group_id, currency),
    ensures
        e.lines@.len() == 2,
        e.lines@[0].is_debit && e.lines@[0].company@ == pair.buyer_entity@ && e.lines@[0].account@ == "2050"@
            && e.lines@[0].amount == amount,
        !e.lines@[1].is_debit && e.lines@[1].company@ == pair.seller_entity@ && e.lines@[1].account@ == "1150"@
            && e.lines@[1].amount == amount,
        e.elimination_type == EliminationType::ICBalances,
{
    reveal(balance_entry);
}

fn references_for(pair: &IcMatchedPair) -> (r: Vec<String>)
    ensures
        r@.len() == 1,
        r@[0]@ == "ic_pair_id="@ + pair.pair_id@,
{
    let mut v: Vec<String> = Vec::new();
    v.push("ic_pair_id=".to_string().concat(pair.pair_id.as_str()));
    v
}

fn companies_for(pair: &IcMatchedPair) -> (r: Vec<String>)
    ensures
        r@.len() == 2,
        r@[0]@ == pair.seller_entity@,
        r@[1]@ == pair.buyer_entity@,
{
    let mut v: Vec<String> = Vec::new();
    v.push(pair.seller_entity.clone());
    v.push(pair.buyer_entity.clone());
    v
}

/// A balanced two-line entry: debit `dr_account` of `dr_company`, credit
/// `cr_account` of `cr_company`, both by `amount`.
fn two_line_entry(
    entry_id: String,
    elimination_type: EliminationType,
    pair: &IcMatchedPair,
    fiscal_period: &str,
    manifest: &GroupManifest,
    description: String,
    dr_company: &String,
    dr_account: &str,
    dr_description: String,
    cr_company: &String,
    cr_account: &str,
    cr_description: String,
    amount: Dec,
) -> (r: EliminationEntry)
    ensures
        r.entry_id == entry_id,
        r.elimination_type == elimination_type,
        r.consolidation_entity@ == manifest.group_id@,
        r.fiscal_period@ == fiscal_period@,
        r.entry_date == pair.seller_je.header.posting_date,
        r.created_at == midnight_spec(pair.seller_je.header.posting_date),
        r.currency@ == manifest.presentation_currency@,
        r.related_companies@.len() == 2,
        r.related_companies@[0]@ == pair.seller_entity@,
        r.related_companies@[1]@ == pair.buyer_entity@,
        r.ic_references@.len() == 1,
        r.ic_references@[0]@ == "ic_pair_id="@ + pair.pair_id@,
        two_lines(r, dr_company@, dr_account@, cr_company@, cr_account@, amount),
{
    let mut lines: Vec<EliminationLine> = Vec::new();
    lines.push(
        EliminationLine {
            line_number: 1,
            company: dr_company.clone(),
            account: dr_account.to_string(),
            is_debit: true,
            amount,
            currency: manifest.presentation_currency.clone(),
            description: dr_description,
        },
    );
    lines.push(
        EliminationLine {
            line_number: 2,
            company: cr_company.clone(),
            account: cr_account.to_string(),
            is_debit: false,
            amount,
            currency: manifest.presentation_currency.clone(),
            description: cr_description,
        },
    );
    EliminationEntry {
        entry_id,
        elimination_type,
        consolidation_entity: manifest.group_id.clone(),
        fiscal_period: fiscal_period.to_string(),
        entry_date: pair.seller_je.header.posting_date,
        created_at: midnight(pair.seller_je.header.posting_date),
        currency: manifest.presentation_currency.clone(),
        description,
        related_companies: companies_for(pair),
        ic_references: references_for(pair),
        lines,
        total_debit: amount,
        total_credit: amount,
    }
}

/// The two entries of a matched pair: the balance track, then the
/// profit-and-loss track chosen by the transaction type.
fn build_entries_for_pair(pair: &IcMatchedPair, tx: IcTransactionType, amount: Dec, fiscal_period: &str, manifest: &GroupManifest) -> (r: (
    EliminationEntry,
    EliminationEntry,
))
    requires
        fiscal_period@ == fiscal_period_spec(pair.seller_je.header.posting_date),
    ensures
        balance_entry(r.0, *pair, amount, manifest.group_id@, manifest.presentation_currency@),
        pl_entry(r.1, *pair, tx, amount, manifest.group_id@, manifest.presentation_currency@),
        r.0.total_debit == amount && r.0.total_credit == amount,
        r.1.total_debit == amount && r.1.total_credit == amount,
{
    reveal(balance_entry);
    reveal(pl_entry);
    let short = short_pair_id(pair.pair_id.as_str());
    let s = &pair.seller_entity;
    let b = &pair.buyer_entity;
    let between = s.clone().concat(" and ").concat(b.as_str());
    let bal = two_line_entry(
        "ELIM-BAL-".to_string().concat(short.as_str()),
        EliminationType::ICBalances,
        pair,
        fiscal_period,
        manifest,
        "Eliminate IC balances between ".to_string().concat(between.as_str()),
        b,
        IC_AP_CLEARING,
        "Eliminate IC payable to ".to_string().concat(s.as_str()),
        s,
        IC_AR_CLEARING,
        "Eliminate IC receivable from ".to_string().concat(b.as_str()),
        amount,
    );
    let pl = match tx {
        IcTransactionType::LoanInterest => two_line_entry(
            "ELIM-INT-".to_string().concat(short.as_str()),
            EliminationType::ICInterest,
            pair,
            fiscal_period,
            manifest,
            "Eliminate IC interest between ".to_string().concat(between.as_str()),
            s,
            IC_INTEREST_INCOME,
            "Eliminate IC interest income from ".to_string().concat(b.as_str()),
            b,
            INTEREST_EXPENSE,
            "Eliminate IC interest expense to ".to_string().concat(s.as_str()),
            amount,
        ),
        IcTransactionType::Dividend => two_line_entry(
            "ELIM-DIV-".to_string().concat(short.as_str()),
            EliminationType::ICDividends,
            pair,
            fiscal_period,
            manifest,
            "Eliminate IC dividend from ".to_string().concat(b.as_str()).concat(" to ").concat(s.as_str()),
            s,
            DIVIDEND_INCOME,
            "Eliminate dividend income from ".to_string().concat(b.as_str()),
            b,
            RETAINED_EARNINGS,
            "Restore retained earnings".to_string(),
            amount,
        ),
        _ => {
            let expense = match tx {
                IcTransactionType::GoodsSale => COGS_ACCOUNT,
                _ => IC_EXPENSE_ACCOUNT,
            };
            two_line_entry(
                "ELIM-REV-".to_string().concat(short.as_str()),
                EliminationType::ICRevenueExpense,
                pair,
                fiscal_period,
                manifest,
                "Eliminate IC revenue and expense between ".to_string().concat(between.as_str()),
                s,
                IC_REVENUE,
                "Eliminate IC revenue from ".to_string().concat(b.as_str()),
                b,
                expense,
                "Eliminate IC expense to ".to_string().concat(s.as_str()),
                amount,
            )
        },
    };
    (bal, pl)
}


/// A character standing for an elimination type's sort position.
pub open spec fn type_char(t: EliminationType) -> char {
    match t {
        EliminationType::ICBalances => 'A',
        EliminationType::ICRevenueExpense => 'B',
        EliminationType::ICInterest => 'C',
        EliminationType::ICDividends => 'D',
        EliminationType::ICLoans => 'E',
        EliminationType::ICProfitInInventory => 'F',
        EliminationType::ICProfitInFixedAssets => 'G',
        EliminationType::InvestmentEquity => 'H',
        EliminationType::MinorityInterest => 'I',
        EliminationType::Goodwill => 'J',
        EliminationType::CurrencyTranslation => 'K',
    }
}

/// Sort key of an entry: its type's position, then its id.
pub open spec fn entry_key(e: EliminationEntry) -> Seq<char> {
    seq![type_char(e.elimination_type)] + e.entry_id@
}

fn type_prefix(t: EliminationType) -> (r: &'static str)
    ensures
        r@ == seq![type_char(t)],
{
    match t {
        EliminationType::ICBalances => {
            proof {
                reveal_strlit("A");
            }
            "A"
        },
        EliminationType::ICRevenueExpense => {
            proof {
                reveal_strlit("B");
            }
            "B"
        },
        EliminationType::ICInterest => {
            proof {
                reveal_strlit("C");
            }
            "C"
        },
        EliminationType::ICDividends => {
            proof {
                reveal_strlit("D");
            }
            "D"
        },
        EliminationType::ICLoans => {
            proof {
                reveal_strlit("E");
            }
            "E"
        },
        EliminationType::ICProfitInInventory => {
            proof {
                reveal_strlit("F");
            }
            "F"
        },
        EliminationType::ICProfitInFixedAssets => {
            proof {
                reveal_strlit("G");
            }
            "G"
        },
        EliminationType::InvestmentEquity => {
            proof {
                reveal_strlit("H");
            }
            "H"
        },
        EliminationType::MinorityInterest => {
            proof {
                reveal_strlit("I");
            }
            "I"
        },
        EliminationType::Goodwill => {
            proof {
                reveal_strlit("J");
            }
            "J"
        },
        EliminationType::CurrencyTranslation => {
            proof {
                reveal_strlit("K");
            }
            "K"
        },
    }
}

fn keyed(e: EliminationEntry) -> (r: (String, EliminationEntry))
    ensures
        r.1 == e,
        r.0@ == entry_key(e),
{
    let k = type_prefix(e.elimination_type).to_string().concat(e.entry_id.as_str());
    (k, e)
}

/// The transaction type of the seller's plan for the pair.
pub open spec fn tx_of(plans: Seq<(String, Vec<IcPairPlan>)>, pair: IcMatchedPair) -> IcTransactionType {
    plan_for(plans, pair.seller_entity@, pair.pair_id@)->0.transaction_type
}

/// The pair's elimination amount: its seller leg's debit.
pub open spec fn pair_amount(pair: IcMatchedPair) -> Dec {
    first_debit(pair.seller_je.lines@)->0
}

/// A pair can be eliminated: the seller holds a plan for it and its leg
/// has a debit line.
pub open spec fn pair_eliminable(plans: Seq<(String, Vec<IcPairPlan>)>, pair: IcMatchedPair) -> bool {
    plan_for(plans, pair.seller_entity@, pair.pair_id@) is Some && first_debit(pair.seller_je.lines@) is Some
}

/// `e` is one of the two entries of `pair`.
pub open spec fn entry_of_pair(
    plans: Seq<(String, Vec<IcPairPlan>)>,
    e: EliminationEntry,
    pair: IcMatchedPair,
    group_id: Seq<char>,
    currency: Seq<char>,
) -> bool {
    ||| balance_entry(e, pair, pair_amount(pair), group_id, currency)
    ||| pl_entry(e, pair, tx_of(plans, pair), pair_amount(pair), group_id, currency)
}

/// `e` is an entry of one of the pairs.
pub open spec fn entry_in_pairs(
    plans: Seq<(String, Vec<IcPairPlan>)>,
    e: EliminationEntry,
    ms: Seq<IcMatchedPair>,
    group_id: Seq<char>,
    currency: Seq<char>,
) -> bool {
    exists|k: int| 0 <= k < ms.len() && entry_of_pair(plans, e, #[trigger] ms[k], group_id, currency)
}

/// The balance entry of `pair` is among `es`.
pub open spec fn has_balance_entry(es: Seq<EliminationEntry>, pair: IcMatchedPair, group_id: Seq<char>, currency: Seq<char>) -> bool {
    exists|i: int| 0 <= i < es.len() && balance_entry(#[trigger] es[i], pair, pair_amount(pair), group_id, currency)
}

/// The profit-and-loss entry of `pair` is among `es`.
pub open spec fn has_pl_entry(
    plans: Seq<(String, Vec<IcPairPlan>)>,
    es: Seq<EliminationEntry>,
    pair: IcMatchedPair,
    group_id: Seq<char>,
    currency: Seq<char>,
) -> bool {
    exists|i: int| 0 <= i < es.len() && pl_entry(#[trigger] es[i], pair, tx_of(plans, pair), pair_amount(pair), group_id, currency)
}

/// Sum of the pairs' amounts, in units.
pub open spec fn amounts_sum(ps: Seq<IcMatchedPair>) -> int
    decreases ps.len(),
{
    if ps.len() == 0 {
        0
    } else {
        amounts_sum(ps.drop_last()) + pair_amount(ps.last()).units()
    }
}

/// Sum of the magnitudes of the pairs' amounts.
pub open spec fn amounts_abs(ps: Seq<IcMatchedPair>) -> int
    decreases ps.len(),
{
    if ps.len() == 0 {
        0
    } else {
        amounts_abs(ps.drop_last()) + crate::dec::abs(pair_amount(ps.last()).units())
    }
}

/// Largest scale among the pairs' amounts.
pub open spec fn amounts_scale(ps: Seq<IcMatchedPair>) -> nat
    decreases ps.len(),
{
    if ps.len() == 0 {
        0
    } else {
        crate::dec::max_nat(amounts_scale(ps.drop_last()), pair_amount(ps.last()).spec_scale())
    }
}

/// The totals of every entry sum exactly: twice the magnitudes of all
/// amounts fit at their largest scale.
pub open spec fn elim_totals_fit(ps: Seq<IcMatchedPair>) -> bool {
    crate::dec::fits_at(2 * amounts_abs(ps), amounts_scale(ps))
}

proof fn lemma_amounts_prefix(ps: Seq<IcMatchedPair>, j: int)
    requires
        0 <= j < ps.len(),
    ensures
        amounts_abs(ps.take(j + 1)) == amounts_abs(ps.take(j)) + crate::dec::abs(pair_amount(ps[j]).units()),
        amounts_sum(ps.take(j + 1)) == amounts_sum(ps.take(j)) + pair_amount(ps[j]).units(),
        amounts_abs(ps.take(j + 1)) <= amounts_abs(ps),
        crate::dec::abs(amounts_sum(ps.take(j))) <= amounts_abs(ps.take(j)),
        amounts_scale(ps.take(j)) <= amounts_scale(ps),
        pair_amount(ps[j]).spec_scale() <= amounts_scale(ps),
    decreases ps.len(),
{
    assert(ps.take(j + 1).drop_last() =~= ps.take(j));
    assert(ps.take(j + 1).last() == ps[j]);
    if j == ps.len() - 1 {
        assert(ps.take(j + 1) =~= ps);
        if j > 0 {
            lemma_amounts_prefix(ps.drop_last(), j - 1);
            assert(ps.drop_last().take(j) =~= ps.take(j));
            assert(ps.drop_last().take(j - 1 + 1) =~= ps.drop_last());
        } else {
            assert(ps.take(0) =~= Seq::<IcMatchedPair>::empty());
        }
    } else {
        lemma_amounts_prefix(ps.drop_last(), j);
        assert(ps.drop_last().take(j) =~= ps.take(j));
        assert(ps.drop_last().take(j + 1) =~= ps.take(j + 1));
    }
}

/// Number of entries of type `t`.
pub open spec fn type_count(s: Seq<EliminationEntry>, t: EliminationType) -> nat
    decreases s.len(),
{
    if s.len() == 0 {
        0
    } else {
        type_count(s.drop_last(), t) + if s.last().elimination_type == t {
            1nat
        } else {
            0nat
        }
    }
}

proof fn lemma_type_count_bound(s: Seq<EliminationEntry>, t: EliminationType)
    ensures
        type_count(s, t) <= s.len(),
    decreases s.len(),
{
    if s.len() > 0 {
        lemma_type_count_bound(s.drop_last(), t);
    }
}

fn count_type(entries: &Vec<EliminationEntry>, t: EliminationType) -> (r: usize)
    ensures
        r == type_count(entries@, t),
{
    let mut n: usize = 0;
    let mut i: usize = 0;
    while i < entries.len()
        invariant
            i <= entries@.len(),
            n == type_count(entries@.take(i as int), t),
        decreases entries.len() - i,
    {
        proof {
            assert(entries@.take(i + 1).drop_last() =~= entries@.take(i as int));
            lemma_type_count_bound(entries@.take(i as int), t);
        }
        if entries[i].elimination_type == t {
            n = n + 1;
        }
        i = i + 1;
    }
    proof {
        assert(entries@.take(i as int) =~= entries@);
    }
    n
}

/// Every elimination type, in sort order.
fn all_types() -> (r: Vec<EliminationType>)
    ensures
        r@.len() == 11,
        forall|k: int| 0 <= k < 11 ==> type_order(#[trigger] r@[k]) == k,
{
    let mut v: Vec<EliminationType> = Vec::new();
    v.push(EliminationType::ICBalances);
    v.push(EliminationType::ICRevenueExpense);
    v.push(EliminationType::ICInterest);
    v.push(EliminationType::ICDividends);
    v.push(EliminationType::ICLoans);
    v.push(EliminationType::ICProfitInInventory);
    v.push(EliminationType::ICProfitInFixedAssets);
    v.push(EliminationType::InvestmentEquity);
    v.push(EliminationType::MinorityInterest);
    v.push(EliminationType::Goodwill);
    v.push(EliminationType::CurrencyTranslation);
    v
}

/// Number of entries per type present, in type order.
fn count_by_type(entries: &Vec<EliminationEntry>) -> (r: Vec<(EliminationType, usize)>)
    ensures
        forall|a: int, b: int| 0 <= a < b < r@.len() ==> type_order(#[trigger] r@[a].0) < type_order(#[trigger] r@[b].0),
        forall|k: int| 0 <= k < r@.len() ==> (#[trigger] r@[k]).1 == type_count(entries@, r@[k].0) && r@[k].1 > 0,
        forall|t: EliminationType| #[trigger] type_count(entries@, t) > 0 ==> exists|k: int| 0 <= k < r@.len() && r@[k].0 == t,
{
    let types = all_types();
    let mut out: Vec<(EliminationType, usize)> = Vec::new();
    let mut i: usize = 0;
    while i < types.len()
        invariant
            types@.len() == 11,
            forall|k: int| 0 <= k < 11 ==> type_order(#[trigger] types@[k]) == k,
            i <= 11,
            forall|a: int, b: int| 0 <= a < b < out@.len() ==> type_order(#[trigger] out@[a].0) < type_order(#[trigger] out@[b].0),
            forall|k: int| 0 <= k < out@.len() ==> type_order((#[trigger] out@[k]).0) < i,
            forall|k: int| 0 <= k < out@.len() ==> (#[trigger] out@[k]).1 == type_count(entries@, out@[k].0) && out@[k].1 > 0,
            forall|t: EliminationType| type_order(t) < i && #[trigger] type_count(entries@, t) > 0 ==> exists|k: int|
                0 <= k < out@.len() && out@[k].0 == t,
        decreases 11 - i,
    {
        let t = types[i];
        let n = count_type(entries, t);
        let ghost o0 = out@;
        if n > 0 {
            out.push((t, n));
        }
        proof {
            assert(type_order(t) == i);
            assert forall|u: EliminationType| type_order(u) < i + 1 && #[trigger] type_count(entries@, u) > 0 implies exists|k: int|
                0 <= k < out@.len() && out@[k].0 == u by {
                if type_order(u) < i {
                    let k = choose|k: int| 0 <= k < o0.len() && o0[k].0 == u;
                    assert(out@[k] == o0[k]);
                } else {
                    lemma_type_order_injective(u, t);
                    assert(out@[out@.len() - 1].0 == u);
                }
            }
        }
        i = i + 1;
    }
    proof {
        assert forall|t: EliminationType| #[trigger] type_count(entries@, t) > 0 implies exists|k: int| 0 <= k < out@.len()
            && out@[k].0 == t by {
            assert(type_order(t) < 11);
        }
    }
    out
}

/// The entries of the first `k` pairs, keyed for sorting: the balance
/// entry of pair `j` at `2j`, its profit-and-loss entry at `2j + 1`.
pub open spec fn keyed_state(
    ke: Seq<(String, EliminationEntry)>,
    ms: Seq<IcMatchedPair>,
    pl: Seq<(String, Vec<IcPairPlan>)>,
    g: Seq<char>,
    c: Seq<char>,
    k: int,
) -> bool {
    &&& ke.len() == 2 * k
    &&& forall|j: int| 0 <= j < k ==> pair_eliminable(pl, #[trigger] ms[j])
    &&& forall|i: int| 0 <= i < ke.len() ==> (#[trigger] ke[i]).0@ == entry_key(ke[i].1)
    &&& forall|i: int| 0 <= i < ke.len() ==> (#[trigger] ke[i]).1.total_debit == ke[i].1.total_credit
    &&& forall|j: int| 0 <= j < k ==> balance_entry(#[trigger] ke[2 * j].1, ms[j], pair_amount(ms[j]), g, c)
    &&& forall|j: int| 0 <= j < k ==> pl_entry(#[trigger] ke[2 * j + 1].1, ms[j], tx_of(pl, ms[j]), pair_amount(ms[j]), g, c)
}

/// Build both entries of every pair, in input order, with the running
/// totals of their debits and credits.
fn build_keyed_entries(
    matched: &[IcMatchedPair],
    plans: &Vec<(String, Vec<IcPairPlan>)>,
    manifest: &GroupManifest,
) -> (r: Result<(Vec<(String, EliminationEntry)>, Dec, Dec), GroupError>)
    ensures
        r is Err ==> r matches Err(GroupError::Aggregate(_)),
        (exists|k: int| 0 <= k < matched@.len() && !pair_eliminable(plans@, #[trigger] matched@[k])) ==> r is Err,
        (forall|k: int| 0 <= k < matched@.len() ==> pair_eliminable(plans@, #[trigger] matched@[k])) && elim_totals_fit(
            matched@,
        ) ==> r is Ok,
        r matches Ok(x) ==> {
            &&& keyed_state(x.0@, matched@, plans@, manifest.group_id@, manifest.presentation_currency@, matched@.len() as int)
            &&& x.1 == x.2
            &&& elim_totals_fit(matched@) ==> x.1.units() == 2 * amounts_sum(matched@)
        },
{
    let ghost ms = matched@;
    let ghost pl = plans@;
    let ghost g = manifest.group_id@;
    let ghost c = manifest.presentation_currency@;
    let ghost fits = elim_totals_fit(ms);
    let mut keyed_entries: Vec<(String, EliminationEntry)> = Vec::new();
    let mut total_debit = Dec::zero();
    let mut total_credit = Dec::zero();
    let mut k: usize = 0;
    proof {
        assert(ms.take(0) =~= Seq::<IcMatchedPair>::empty());
    }
    while k < matched.len()
        invariant
            k <= ms.len(),
            ms == matched@,
            pl == plans@,
            g == manifest.group_id@,
            c == manifest.presentation_currency@,
            fits == elim_totals_fit(ms),
            keyed_state(keyed_entries@, ms, pl, g, c, k as int),
            total_debit == total_credit,
            fits ==> total_debit.units() == 2 * amounts_sum(ms.take(k as int)) && total_debit.spec_scale() <= amounts_scale(ms),
        decreases ms.len() - k,
    {
        let pair = &matched[k];
        let plan = match lookup_plan(plans, pair.seller_entity.as_str(), pair.pair_id.as_str()) {
            Ok(p) => p,
            Err(e) => {
                proof {
                    assert(!pair_eliminable(pl, ms[k as int]));
                }
                return Err(e);
            },
        };
        let amount = match elimination_amount(&pair.seller_je.lines, pair.pair_id.as_str()) {
            Ok(a) => a,
            Err(e) => {
                proof {
                    assert(!pair_eliminable(pl, ms[k as int]));
                }
                return Err(e);
            },
        };
        let fiscal_period = format_fiscal_period(pair.seller_je.header.posting_date);
        let (bal, pl_e) = build_entries_for_pair(pair, plan.transaction_type, amount, fiscal_period.as_str(), manifest);
        proof {
            if fits {
                lemma_amounts_prefix(ms, k as int);
                let t = total_debit.units();
                let a = amount.units();
                let b = 2 * amounts_abs(ms);
                let sc = amounts_scale(ms);
                assert(crate::dec::abs(t + a) <= b);
                crate::dec::lemma_bounded_fits(t + a, b, sc, crate::dec::max_nat(total_debit.spec_scale(), amount.spec_scale()));
            }
        }
        let td1 = match dec_add(total_debit, bal.total_debit) {
            Some(x) => x,
            None => {
                return Err(GroupError::Aggregate("generate_eliminations: total debit overflows".to_string()));
            },
        };
        let tc1 = match dec_add(total_credit, bal.total_credit) {
            Some(x) => x,
            None => {
                return Err(GroupError::Aggregate("generate_eliminations: total credit overflows".to_string()));
            },
        };
        proof {
            if fits {
                let t = td1.units();
                let a = amount.units();
                let b = 2 * amounts_abs(ms);
                let sc = amounts_scale(ms);
                assert(crate::dec::abs(t + a) <= b);
                crate::dec::lemma_bounded_fits(t + a, b, sc, crate::dec::max_nat(td1.spec_scale(), amount.spec_scale()));
            }
        }
        let td2 = match dec_add(td1, pl_e.total_debit) {
            Some(x) => x,
            None => {
                return Err(GroupError::Aggregate("generate_eliminations: total debit overflows".to_string()));
            },
        };
        let tc2 = match dec_add(tc1, pl_e.total_credit) {
            Some(x) => x,
            None => {
                return Err(GroupError::Aggregate("generate_eliminations: total credit overflows".to_string()));
            },
        };
        total_debit = td2;
        total_credit = tc2;
        let ghost ke0 = keyed_entries@;
        keyed_entries.push(keyed(bal));
        keyed_entries.push(keyed(pl_e));
        proof {
            assert(ms.take(k + 1).drop_last() =~= ms.take(k as int));
            assert forall|j: int| 0 <= j < k + 1 implies balance_entry(#[trigger] keyed_entries@[2 * j].1, ms[j], pair_amount(ms[j]), g, c) by {
                if j < k {
                    assert(keyed_entries@[2 * j] == ke0[2 * j]);
                }
            }
            assert forall|j: int| 0 <= j < k + 1 implies pl_entry(#[trigger] keyed_entries@[2 * j + 1].1, ms[j], tx_of(pl, ms[j]), pair_amount(ms[j]), g, c) by {
                if j < k {
                    assert(keyed_entries@[2 * j + 1] == ke0[2 * j + 1]);
                }
            }
            assert forall|i: int| 0 <= i < keyed_entries@.len() implies (#[trigger] keyed_entries@[i]).0@ == entry_key(keyed_entries@[i].1) by {
                if i < ke0.len() {
                    assert(keyed_entries@[i] == ke0[i]);
                }
            }
            assert forall|i: int| 0 <= i < keyed_entries@.len() implies (#[trigger] keyed_entries@[i]).1.total_debit == keyed_entries@[i].1.total_credit by {
                if i < ke0.len() {
                    assert(keyed_entries@[i] == ke0[i]);
                }
            }
            assert forall|j: int| 0 <= j < k + 1 implies pair_eliminable(pl, #[trigger] ms[j]) by {}
        }
        k = k + 1;
    }
    proof {
        assert(ms.take(k as int) =~= ms);
    }
    Ok((keyed_entries, total_debit, total_credit))
}

/// The entries of a keyed list, in order.
fn strip_keys(sorted: Vec<(String, EliminationEntry)>) -> (r: Vec<EliminationEntry>)
    ensures
        r@.len() == sorted@.len(),
        forall|i: int| 0 <= i < r@.len() ==> #[trigger] r@[i] == sorted@[i].1,
{
    let ghost srt = sorted@;
    let mut entries: Vec<EliminationEntry> = Vec::new();
    let mut rest = sorted;
    while rest.len() > 0
        invariant
            entries@.len() + rest@.len() == srt.len(),
            forall|i: int| 0 <= i < entries@.len() ==> #[trigger] entries@[i] == srt[i].1,
            forall|i: int| 0 <= i < rest@.len() ==> #[trigger] rest@[i] == srt[i + entries@.len()],
        decreases rest.len(),
    {
        let ghost r0 = rest@;
        let (_key, e) = rest.remove(0);
        proof {
            assert(r0[0] == srt[entries@.len() as int]);
        }
        entries.push(e);
        proof {
            assert forall|i: int| 0 <= i < rest@.len() implies #[trigger] rest@[i] == srt[i + entries@.len()] by {
                assert(rest@[i] == r0[i + 1]);
            }
        }
    }
    entries
}

/// Every item of the sorted list is an item of the unsorted one, and
/// the other way round.
proof fn lemma_same_items(unsorted: Seq<(String, EliminationEntry)>, srt: Seq<(String, EliminationEntry)>)
    requires
        srt.to_multiset() == unsorted.to_multiset(),
    ensures
        srt.len() == unsorted.len(),
        forall|i: int| 0 <= i < srt.len() ==> unsorted.contains(#[trigger] srt[i]),
        forall|u: int| 0 <= u < unsorted.len() ==> srt.contains(#[trigger] unsorted[u]),
{
    broadcast use vstd::seq_lib::group_to_multiset_ensures;

    assert(srt.to_multiset().len() == srt.len());
    assert(unsorted.to_multiset().len() == unsorted.len());
    assert forall|i: int| 0 <= i < srt.len() implies unsorted.contains(#[trigger] srt[i]) by {
        assert(srt.to_multiset().count(srt[i]) > 0);
    }
    assert forall|u: int| 0 <= u < unsorted.len() implies srt.contains(#[trigger] unsorted[u]) by {
        assert(unsorted.to_multiset().count(unsorted[u]) > 0);
    }
}

/// Each sorted entry is an entry of some pair.
proof fn lemma_entries_of_pairs(
    unsorted: Seq<(String, EliminationEntry)>,
    srt: Seq<(String, EliminationEntry)>,
    entries: Seq<EliminationEntry>,
    ms: Seq<IcMatchedPair>,
    pl: Seq<(String, Vec<IcPairPlan>)>,
    g: Seq<char>,
    c: Seq<char>,
)
    requires
        keyed_state(unsorted, ms, pl, g, c, ms.len() as int),
        forall|i: int| 0 <= i < srt.len() ==> unsorted.contains(#[trigger] srt[i]),
        entries.len() == srt.len(),
        forall|i: int| 0 <= i < entries.len() ==> #[trigger] entries[i] == srt[i].1,
    ensures
        forall|i: int| 0 <= i < entries.len() ==> entry_in_pairs(pl, #[trigger] entries[i], ms, g, c),
        forall|i: int| 0 <= i < entries.len() ==> (#[trigger] entries[i]).total_debit == entries[i].total_credit,
{
    assert forall|i: int| 0 <= i < entries.len() implies entry_in_pairs(pl, #[trigger] entries[i], ms, g, c) by {
        assert(unsorted.contains(srt[i]));
        let u = choose|u: int| 0 <= u < unsorted.len() && unsorted[u] == srt[i];
        let j = u / 2;
        if u % 2 == 0 {
            assert(u == 2 * j);
            assert(balance_entry(unsorted[2 * j].1, ms[j], pair_amount(ms[j]), g, c));
            assert(entry_of_pair(pl, entries[i], ms[j], g, c));
        } else {
            assert(u == 2 * j + 1);
            assert(pl_entry(unsorted[2 * j + 1].1, ms[j], tx_of(pl, ms[j]), pair_amount(ms[j]), g, c));
            assert(entry_of_pair(pl, entries[i], ms[j], g, c));
        }
    }
    assert forall|i: int| 0 <= i < entries.len() implies (#[trigger] entries[i]).total_debit == entries[i].total_credit by {
        assert(unsorted.contains(srt[i]));
    }
}

/// Every pair's two entries are among the sorted entries.
proof fn lemma_pairs_covered(
    unsorted: Seq<(String, EliminationEntry)>,
    srt: Seq<(String, EliminationEntry)>,
    entries: Seq<EliminationEntry>,
    ms: Seq<IcMatchedPair>,
    pl: Seq<(String, Vec<IcPairPlan>)>,
    g: Seq<char>,
    c: Seq<char>,
)
    requires
        keyed_state(unsorted, ms, pl, g, c, ms.len() as int),
        forall|u: int| 0 <= u < unsorted.len() ==> srt.contains(#[trigger] unsorted[u]),
        entries.len() == srt.len(),
        forall|i: int| 0 <= i < entries.len() ==> #[trigger] entries[i] == srt[i].1,
    ensures
        forall|k: int| 0 <= k < ms.len() ==> has_balance_entry(entries, #[trigger] ms[k], g, c),
        forall|k: int| 0 <= k < ms.len() ==> has_pl_entry(pl, entries, #[trigger] ms[k], g, c),
{
    assert forall|j: int| 0 <= j < ms.len() implies has_balance_entry(entries, #[trigger] ms[j], g, c) by {
        let x = unsorted[2 * j];
        assert(balance_entry(unsorted[2 * j].1, ms[j], pair_amount(ms[j]), g, c));
        assert(srt.contains(x));
        let i = choose|i: int| 0 <= i < srt.len() && srt[i] == x;
        assert(entries[i] == x.1);
    }
    assert forall|j: int| 0 <= j < ms.len() implies has_pl_entry(pl, entries, #[trigger] ms[j], g, c) by {
        let x = unsorted[2 * j + 1];
        assert(pl_entry(unsorted[2 * j + 1].1, ms[j], tx_of(pl, ms[j]), pair_amount(ms[j]), g, c));
        assert(srt.contains(x));
        let i = choose|i: int| 0 <= i < srt.len() && srt[i] == x;
        assert(entries[i] == x.1);
    }
}

/// The sorted entries are ordered by their keys.
proof fn lemma_entries_ordered(
    unsorted: Seq<(String, EliminationEntry)>,
    srt: Seq<(String, EliminationEntry)>,
    entries: Seq<EliminationEntry>,
)
    requires
        forall|i: int| 0 <= i < unsorted.len() ==> (#[trigger] unsorted[i]).0@ == entry_key(unsorted[i].1),
        forall|i: int| 0 <= i < srt.len() ==> unsorted.contains(#[trigger] srt[i]),
        keys_ordered(srt),
        entries.len() == srt.len(),
        forall|i: int| 0 <= i < entries.len() ==> #[trigger] entries[i] == srt[i].1,
    ensures
        forall|a: int, b: int| 0 <= a < b < entries.len() ==> !seq_lt(entry_key(#[trigger] entries[b]), entry_key(#[trigger] entries[a])),
{
    assert forall|a: int, b: int| 0 <= a < b < entries.len() implies !seq_lt(entry_key(#[trigger] entries[b]), entry_key(#[trigger] entries[a])) by {
        assert(unsorted.contains(srt[a]));
        assert(unsorted.contains(srt[b]));
        assert(!seq_lt(srt[b].0@, srt[a].0@));
    }
}

/// Generate the balanced elimination entries of the matched pairs: two
/// per pair, sorted by type then id, with their totals and a count per
/// type.  `plans` holds, per entity code, the pairs the manifest plans for
/// it; the seller's plan gives the transaction type.
pub fn generate_eliminations(
    matched: &[IcMatchedPair],
    plans: &Vec<(String, Vec<IcPairPlan>)>,
    manifest: &GroupManifest,
) -> (r: Result<EliminationResult, GroupError>)
    ensures
        r is Err ==> r matches Err(GroupError::Aggregate(_)),
        (exists|k: int| 0 <= k < matched@.len() && !pair_eliminable(plans@, #[trigger] matched@[k])) ==> r is Err,
        (forall|k: int| 0 <= k < matched@.len() ==> pair_eliminable(plans@, #[trigger] matched@[k])) && elim_totals_fit(
            matched@,
        ) ==> r is Ok,
        r matches Ok(res) ==> {
            let g = manifest.group_id@;
            let c = manifest.presentation_currency@;
            &&& forall|k: int| 0 <= k < matched@.len() ==> pair_eliminable(plans@, #[trigger] matched@[k])
            &&& res.entries@.len() == 2 * matched@.len()
            &&& forall|i: int| 0 <= i < res.entries@.len() ==> entry_in_pairs(plans@, #[trigger] res.entries@[i], matched@, g, c)
            &&& forall|k: int| 0 <= k < matched@.len() ==> has_balance_entry(res.entries@, #[trigger] matched@[k], g, c)
            &&& forall|k: int| 0 <= k < matched@.len() ==> has_pl_entry(plans@, res.entries@, #[trigger] matched@[k], g, c)
            &&& forall|a: int, b: int| 0 <= a < b < res.entries@.len() ==> !seq_lt(
                entry_key(#[trigger] res.entries@[b]),
                entry_key(#[trigger] res.entries@[a]),
            )
            &&& forall|i: int| 0 <= i < res.entries@.len() ==> (#[trigger] res.entries@[i]).total_debit
                == res.entries@[i].total_credit
            &&& res.total_debit == res.total_credit
            &&& elim_totals_fit(matched@) ==> res.total_debit.units() == 2 * amounts_sum(matched@)
            &&& forall|a: int, b: int| 0 <= a < b < res.by_type_counts@.len() ==> type_order(
                #[trigger] res.by_type_counts@[a].0,
            ) < type_order(#[trigger] res.by_type_counts@[b].0)
            &&& forall|k: int| 0 <= k < res.by_type_counts@.len() ==> (#[trigger] res.by_type_counts@[k]).1 == type_count(
                res.entries@,
                res.by_type_counts@[k].0,
            ) && res.by_type_counts@[k].1 > 0
            &&& forall|t: EliminationType| #[trigger] type_count(res.entries@, t) > 0 ==> exists|k: int|
                0 <= k < res.by_type_counts@.len() && res.by_type_counts@[k].0 == t
        },
{
    let (keyed_entries, total_debit, total_credit) = match build_keyed_entries(matched, plans, manifest) {
        Ok(x) => x,
        Err(e) => {
            return Err(e);
        },
    };
    let ghost unsorted = keyed_entries@;
    let sorted = sort_by_key(keyed_entries);
    let ghost srt = sorted@;
    let entries = strip_keys(sorted);
    proof {
        lemma_same_items(unsorted, srt);
        lemma_entries_of_pairs(unsorted, srt, entries@, matched@, plans@, manifest.group_id@, manifest.presentation_currency@);
        lemma_pairs_covered(unsorted, srt, entries@, matched@, plans@, manifest.group_id@, manifest.presentation_currency@);
        lemma_entries_ordered(unsorted, srt, entries@);
    }
    let by_type_counts = count_by_type(&entries);
    Ok(EliminationResult { entries, total_debit, total_credit, by_type_counts })
}

/// `l` books the elimination line `e` on its side.
pub open spec fn je_line_of(l: JournalEntryLine, e: EliminationLine) -> bool {
    &&& l.gl_account@ == e.account@
    &&& e.is_debit ==> l.debit_amount == e.amount && l.credit_amount == Dec::zero_spec()
    &&& !e.is_debit ==> l.debit_amount == Dec::zero_spec() && l.credit_amount == e.amount
}

/// `je` is the journal entry of the elimination entry `e`: booked by the
/// consolidation entity on the entry date in the entry's currency, flagged
/// as an elimination, one line per elimination line.
pub open spec fn je_of_entry(je: JournalEntry, e: EliminationEntry) -> bool {
    &&& je.header.document_id@ == e.entry_id@
    &&& je.header.company_code@ == e.consolidation_entity@
    &&& je.header.posting_date == e.entry_date
    &&& je.header.currency@ == e.currency@
    &&& je.header.is_elimination
    &&& je.header.ic_pair_id is None
    &&& je.lines@.len() == e.lines@.len()
    &&& forall|k: int| 0 <= k < e.lines@.len() ==> je_line_of(#[trigger] je.lines@[k], e.lines@[k])
}

fn je_of(e: &EliminationEntry) -> (r: JournalEntry)
    ensures
        je_of_entry(r, *e),
{
    let mut lines: Vec<JournalEntryLine> = Vec::new();
    let mut k: usize = 0;
    while k < e.lines.len()
        invariant
            k <= e.lines@.len(),
            lines@.len() == k,
            forall|j: int| 0 <= j < k ==> je_line_of(#[trigger] lines@[j], e.lines@[j]),
        decreases e.lines.len() - k,
    {
        let l = &e.lines[k];
        let (debit, credit) = if l.is_debit {
            (l.amount, Dec::zero())
        } else {
            (Dec::zero(), l.amount)
        };
        lines.push(JournalEntryLine { gl_account: l.account.clone(), debit_amount: debit, credit_amount: credit });
        k = k + 1;
    }
    JournalEntry {
        header: JournalEntryHeader {
            document_id: e.entry_id.clone(),
            company_code: e.consolidation_entity.clone(),
            posting_date: e.entry_date,
            currency: e.currency.clone(),
            is_elimination: true,
            ic_pair_id: None,
        },
        lines,
    }
}

/// The elimination entries as journal entries, one per entry, in order,
/// ready to post to the consolidated trial balance.
pub fn eliminations_to_journal_entries(result: &EliminationResult) -> (r: Vec<JournalEntry>)
    ensures
        r@.len() == result.entries@.len(),
        forall|i: int| 0 <= i < r@.len() ==> je_of_entry(#[trigger] r@[i], result.entries@[i]),
{
    let mut out: Vec<JournalEntry> = Vec::new();
    let mut i: usize = 0;
    while i < result.entries.len()
        invariant
            i <= result.entries@.len(),
            out@.len() == i,
            forall|j: int| 0 <= j < i ==> je_of_entry(#[trigger] out@[j], result.entries@[j]),
        decreases result.entries.len() - i,
    {
        out.push(je_of(&result.entries[i]));
        i = i + 1;
    }
    out
}

} // verus!
