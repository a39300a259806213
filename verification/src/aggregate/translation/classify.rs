//! Translation account types: how an account is translated.
use vstd::prelude::*;
use vstd::string::*;

use crate::text::{parse_u32, parse_u32_spec};

verus! {

/// How an account is translated.
#[derive(Debug, Clone, Copy, PartialEq, Eq, Structural)]
pub enum TranslationAccountType {
    BsMonetary,
    BsNonMonetary,
    PlRevenue,
    PlExpense,
    Equity,
    PlOci,
}

/// Type of an asset code (leading `1`), by the number its first four
/// characters denote.
pub open spec fn asset_range_spec(code: Seq<char>) -> TranslationAccountType {
    let prefix = if code.len() <= 4 {
        code
    } else {
        code.take(4)
    };
    match parse_u32_spec(prefix) {
        Some(n) => if 1200 <= n <= 1399 || 1500 <= n <= 1999 {
            TranslationAccountType::BsNonMonetary
        } else {
            TranslationAccountType::BsMonetary
        },
        None => TranslationAccountType::BsMonetary,
    }
}

/// Type of a code by its leading digit; monetary for anything else.
pub open spec fn range_spec(code: Seq<char>) -> TranslationAccountType {
    if code.len() == 0 {
        TranslationAccountType::BsMonetary
    } else if code[0] == '1' {
        asset_range_spec(code)
    } else if code[0] == '3' {
        TranslationAccountType::Equity
    } else if code[0] == '4' {
        TranslationAccountType::PlRevenue
    } else if code[0] == '5' || code[0] == '6' || code[0] == '7' {
        TranslationAccountType::PlExpense
    } else if code[0] == '8' {
        TranslationAccountType::PlOci
    } else {
        TranslationAccountType::BsMonetary
    }
}

/// Classify an asset code: 1200–1399 (inventory, prepaid) and 1500–1999
/// (fixed assets, intangibles) are non-monetary; the rest, and a code
/// whose first four characters are not a number, monetary.
pub fn classify_asset_range(code: &str) -> (r: TranslationAccountType)
    ensures
        r == asset_range_spec(code@),
{
    let n = code.unicode_len();
    let prefix = if n <= 4 {
        code
    } else {
        code.substring_char(0, 4)
    };
    proof {
        if n > 4 {
            assert(prefix@ =~= code@.take(4));
        }
    }
    match parse_u32(prefix) {
        Some(v) => if (1200 <= v && v <= 1399) || (1500 <= v && v <= 1999) {
            TranslationAccountType::BsNonMonetary
        } else {
            TranslationAccountType::BsMonetary
        },
        None => TranslationAccountType::BsMonetary,
    }
}

/// Classify a code by its leading digit: `1` assets (by range), `2`
/// monetary liabilities, `3` equity, `4` revenue, `5`–`7` expenses, `8`
/// OCI, anything else (`9`, empty, non-digit) monetary.
pub fn classify_by_range(code: &str) -> (r: TranslationAccountType)
    ensures
        r == range_spec(code@),
{
    if code.unicode_len() == 0 {
        return TranslationAccountType::BsMonetary;
    }
    let c = code.get_char(0);
    if c == '1' {
        classify_asset_range(code)
    } else if c == '3' {
        TranslationAccountType::Equity
    } else if c == '4' {
        TranslationAccountType::PlRevenue
    } else if c == '5' || c == '6' || c == '7' {
        TranslationAccountType::PlExpense
    } else if c == '8' {
        TranslationAccountType::PlOci
    } else {
        TranslationAccountType::BsMonetary
    }
}

} // verus!
