//! Account-code → label dictionary used to label consolidated statement
//! lines.
//!
//! The dictionary starts from the built-in canonical labels; an
//! engagement chart of accounts, when given, overrides them code by code.
//! A code with no label at all is labelled with the code itself.
use vstd::prelude::*;

use crate::labels::{
    label_map, label_or_code, lemma_label_map_concat, lookup_label, pair_views,
};
use crate::manifest::coa_master::{chart_pairs, ChartAccount, ChartOfAccountsMaster, framework_index};

verus! {

/// The built-in canonical labels, in insertion order.
pub open spec fn canonical_pairs() -> Seq<(Seq<char>, Seq<char>)> {
    seq![
        ("1000"@, "Cash and cash equivalents"@),
        ("1010"@, "Bank account"@),
        ("1020"@, "Petty cash"@),
        ("1100"@, "Trade receivables"@),
        ("1150"@, "IC receivables"@),
        ("1160"@, "Input VAT"@),
        ("1200"@, "Inventory"@),
        ("1300"@, "Prepaid expenses"@),
        ("1410"@, "Finished goods"@),
        ("1420"@, "Work in process"@),
        ("1450"@, "Derivative asset"@),
        ("1460"@, "Tax receivable"@),
        ("1500"@, "Property, plant & equipment"@),
        ("1510"@, "Accumulated depreciation"@),
        ("1600"@, "Deferred tax asset"@),
        ("1850"@, "Investment in associates / JVs"@),
        ("1900"@, "Goodwill"@),
        ("1910"@, "Customer relationships"@),
        ("1920"@, "Trade name"@),
        ("1930"@, "Technology"@),
        ("1950"@, "Accumulated amortization"@),
        ("2000"@, "Trade payables"@),
        ("2050"@, "IC payables"@),
        ("2100"@, "Sales tax payable"@),
        ("2110"@, "VAT payable"@),
        ("2130"@, "Income tax payable"@),
        ("2160"@, "Interest payable"@),
        ("2200"@, "Accrued expenses"@),
        ("2210"@, "Accrued salaries"@),
        ("2300"@, "Unearned revenue"@),
        ("2400"@, "Short-term debt"@),
        ("2450"@, "Provision liability"@),
        ("2460"@, "Derivative liability"@),
        ("2500"@, "Deferred tax liability"@),
        ("2600"@, "Long-term debt"@),
        ("2700"@, "IC payable (long-term)"@),
        ("3000"@, "Common stock"@),
        ("3100"@, "Additional paid-in capital"@),
        ("3200"@, "Retained earnings (legacy)"@),
        ("3300"@, "Retained earnings"@),
        ("3500"@, "Non-controlling interest"@),
        ("3510"@, "OCI — cash flow hedge reserve"@),
        ("4000"@, "Product revenue"@),
        ("4010"@, "Sales discounts"@),
        ("4020"@, "Sales returns and allowances"@),
        ("4100"@, "Service revenue"@),
        ("4500"@, "IC revenue"@),
        ("4800"@, "Purchase discount income"@),
        ("4850"@, "Bargain purchase gain"@),
        ("4900"@, "Share of profit of associates"@),
        ("5000"@, "Cost of goods sold"@),
        ("5100"@, "Raw materials"@),
        ("5200"@, "Direct labor"@),
        ("5300"@, "Manufacturing overhead"@),
        ("6000"@, "Depreciation expense"@),
        ("6010"@, "Amortization expense"@),
        ("6100"@, "Salaries and wages"@),
        ("6200"@, "Benefits"@),
        ("6300"@, "Rent"@),
        ("6400"@, "Utilities"@),
        ("6500"@, "Office supplies"@),
        ("6600"@, "Travel and entertainment"@),
        ("6700"@, "Professional fees"@),
        ("6800"@, "Insurance"@),
        ("6850"@, "Provision expense"@),
        ("6900"@, "Bad debt expense"@),
        ("7100"@, "Depreciation expense"@),
        ("7150"@, "Interest expense"@),
        ("7400"@, "Purchase discounts"@),
        ("7500"@, "FX gain/loss"@),
        ("7510"@, "Hedge ineffectiveness"@),
        ("8000"@, "Tax expense"@),
        ("8100"@, "Deferred tax expense"@)
    ]
}

/// The canonical label table: every code the consolidated statement
/// builders emit, with its English label.
pub fn builtin_canonical_map() -> (r: Vec<(String, String)>)
    ensures
        pair_views(r@) == canonical_pairs(),
{
    let v: Vec<(String, String)> = vec![
        ("1000".to_string(), "Cash and cash equivalents".to_string()),
        ("1010".to_string(), "Bank account".to_string()),
        ("1020".to_string(), "Petty cash".to_string()),
        ("1100".to_string(), "Trade receivables".to_string()),
        ("1150".to_string(), "IC receivables".to_string()),
        ("1160".to_string(), "Input VAT".to_string()),
        ("1200".to_string(), "Inventory".to_string()),
        ("1300".to_string(), "Prepaid expenses".to_string()),
        ("1410".to_string(), "Finished goods".to_string()),
        ("1420".to_string(), "Work in process".to_string()),
        ("1450".to_string(), "Derivative asset".to_string()),
        ("1460".to_string(), "Tax receivable".to_string()),
        ("1500".to_string(), "Property, plant & equipment".to_string()),
        ("1510".to_string(), "Accumulated depreciation".to_string()),
        ("1600".to_string(), "Deferred tax asset".to_string()),
        ("1850".to_string(), "Investment in associates / JVs".to_string()),
        ("1900".to_string(), "Goodwill".to_string()),
        ("1910".to_string(), "Customer relationships".to_string()),
        ("1920".to_string(), "Trade name".to_string()),
        ("1930".to_string(), "Technology".to_string()),
        ("1950".to_string(), "Accumulated amortization".to_string()),
        ("2000".to_string(), "Trade payables".to_string()),
        ("2050".to_string(), "IC payables".to_string()),
        ("2100".to_string(), "Sales tax payable".to_string()),
        ("2110".to_string(), "VAT payable".to_string()),
        ("2130".to_string(), "Income tax payable".to_string()),
        ("2160".to_string(), "Interest payable".to_string()),
        ("2200".to_string(), "Accrued expenses".to_string()),
        ("2210".to_string(), "Accrued salaries".to_string()),
        ("2300".to_string(), "Unearned revenue".to_string()),
        ("2400".to_string(), "Short-term debt".to_string()),
        ("2450".to_string(), "Provision liability".to_string()),
        ("2460".to_string(), "Derivative liability".to_string()),
        ("2500".to_string(), "Deferred tax liability".to_string()),
        ("2600".to_string(), "Long-term debt".to_string()),
        ("2700".to_string(), "IC payable (long-term)".to_string()),
        ("3000".to_string(), "Common stock".to_string()),
        ("3100".to_string(), "Additional paid-in capital".to_string()),
        ("3200".to_string(), "Retained earnings (legacy)".to_string()),
        ("3300".to_string(), "Retained earnings".to_string()),
        ("3500".to_string(), "Non-controlling interest".to_string()),
        ("3510".to_string(), "OCI — cash flow hedge reserve".to_string()),
        ("4000".to_string(), "Product revenue".to_string()),
        ("4010".to_string(), "Sales discounts".to_string()),
        ("4020".to_string(), "Sales returns and allowances".to_string()),
        ("4100".to_string(), "Service revenue".to_string()),
        ("4500".to_string(), "IC revenue".to_string()),
        ("4800".to_string(), "Purchase discount income".to_string()),
        ("4850".to_string(), "Bargain purchase gain".to_string()),
        ("4900".to_string(), "Share of profit of associates".to_string()),
        ("5000".to_string(), "Cost of goods sold".to_string()),
        ("5100".to_string(), "Raw materials".to_string()),
        ("5200".to_string(), "Direct labor".to_string()),
        ("5300".to_string(), "Manufacturing overhead".to_string()),
        ("6000".to_string(), "Depreciation expense".to_string()),
        ("6010".to_string(), "Amortization expense".to_string()),
        ("6100".to_string(), "Salaries and wages".to_string()),
        ("6200".to_string(), "Benefits".to_string()),
        ("6300".to_string(), "Rent".to_string()),
        ("6400".to_string(), "Utilities".to_string()),
        ("6500".to_string(), "Office supplies".to_string()),
        ("6600".to_string(), "Travel and entertainment".to_string()),
        ("6700".to_string(), "Professional fees".to_string()),
        ("6800".to_string(), "Insurance".to_string()),
        ("6850".to_string(), "Provision expense".to_string()),
        ("6900".to_string(), "Bad debt expense".to_string()),
        ("7100".to_string(), "Depreciation expense".to_string()),
        ("7150".to_string(), "Interest expense".to_string()),
        ("7400".to_string(), "Purchase discounts".to_string()),
        ("7500".to_string(), "FX gain/loss".to_string()),
        ("7510".to_string(), "Hedge ineffectiveness".to_string()),
        ("8000".to_string(), "Tax expense".to_string()),
        ("8100".to_string(), "Deferred tax expense".to_string())
    ];
    assert(pair_views(v@) =~= canonical_pairs());
    v
}

/// Account-code → human-readable label dictionary.
#[derive(Debug, Clone)]
pub struct AccountNameDictionary {
    entries: Vec<(String, String)>,
}

impl View for AccountNameDictionary {
    type V = Map<Seq<char>, Seq<char>>;

    closed spec fn view(&self) -> Map<Seq<char>, Seq<char>> {
        label_map(pair_views(self.entries@))
    }
}

impl AccountNameDictionary {
    /// The labels of the default dictionary.
    pub open spec fn default_labels() -> Map<Seq<char>, Seq<char>> {
        label_map(canonical_pairs())
    }

    /// The label of `code`, or the code itself when the dictionary has no
    /// entry for it.  Always succeeds.
    pub fn get(&self, code: &str) -> (r: String)
        ensures
            r@ == label_or_code(self@, code@),
    {
        lookup_label(&self.entries, code)
    }

    /// The canonical labels, overridden by every account of `accounts`
    /// (its short description is the label; a later account wins over an
    /// earlier one with the same number).
    pub fn from_chart(accounts: &Vec<ChartAccount>) -> (r: AccountNameDictionary)
        ensures
            r@ == label_map(canonical_pairs()).union_prefer_right(label_map(chart_pairs(accounts@))),
    {
        let mut entries = builtin_canonical_map();
        extend_with_chart(&mut entries, accounts);
        proof {
            lemma_label_map_concat(canonical_pairs(), chart_pairs(accounts@));
        }
        AccountNameDictionary { entries }
    }

    /// The dictionary for `framework` of an engagement chart master: the
    /// canonical labels overridden by that framework's chart, or the
    /// canonical labels alone when the master has no such framework.
    pub fn from_coa_master(master: &ChartOfAccountsMaster, framework: &str) -> (r:
        AccountNameDictionary)
        ensures
            framework_index(master.frameworks@, framework@) < 0 ==> r@ == label_map(
                canonical_pairs(),
            ),
            framework_index(master.frameworks@, framework@) >= 0 ==> r@ == label_map(
                canonical_pairs(),
            ).union_prefer_right(
                label_map(
                    chart_pairs(
                        master.frameworks@[framework_index(
                            master.frameworks@,
                            framework@,
                        )].accounts@,
                    ),
                ),
            ),
    {
        match master.find_framework(framework) {
            Some(i) => AccountNameDictionary::from_chart(&master.frameworks[i].accounts),
            None => AccountNameDictionary::default(),
        }
    }
}

impl Default for AccountNameDictionary {
    /// The canonical built-in labels.
    fn default() -> (r: AccountNameDictionary)
        ensures
            r@ == label_map(canonical_pairs()),
    {
        AccountNameDictionary { entries: builtin_canonical_map() }
    }
}

/// Append one `(number, short description)` pair per account of
/// `accounts`, in order, so that they override earlier labels.
fn extend_with_chart(entries: &mut Vec<(String, String)>, accounts: &Vec<ChartAccount>)
    ensures
        pair_views(final(entries)@) == pair_views(old(entries)@) + chart_pairs(accounts@),
{
    let ghost start = pair_views(entries@);
    let mut i: usize = 0;
    while i < accounts.len()
        invariant
            i <= accounts@.len(),
            pair_views(entries@) == start + chart_pairs(accounts@.take(i as int)),
        decreases accounts.len() - i,
    {
        let pair = (accounts[i].account_number.clone(), accounts[i].short_description.clone());
        let ghost before = entries@;
        entries.push(pair);
        proof {
            assert(pair_views(entries@) =~= pair_views(before).push((pair.0@, pair.1@)));
            assert(chart_pairs(accounts@.take(i + 1)) =~= chart_pairs(accounts@.take(i as int)).push(
                (accounts@[i as int].account_number@, accounts@[i as int].short_description@),
            ));
            assert(pair_views(entries@) =~= start + chart_pairs(accounts@.take(i + 1)));
        }
        i = i + 1;
    }
    proof {
        assert(accounts@.take(i as int) =~= accounts@);
    }
}

} // verus!
