//! The translation worksheet: per entity, each translated line with the
//! currency pair, rate and rate basis it was translated at.
use vstd::prelude::*;

use crate::aggregate::translation::translate::{RateBasis, TranslatedLine, TranslatedTb};
use crate::date::Date;
use crate::dec::Dec;

verus! {

/// One entity's worksheet.
#[derive(Debug, Clone)]
pub struct WorksheetEntity {
    pub entity_code: String,
    pub functional_currency: String,
    pub presentation_currency: String,
    pub as_of_date: Date,
    pub lines: Vec<WorksheetLine>,
}

/// One translated line of the worksheet.
#[derive(Debug, Clone)]
pub struct WorksheetLine {
    pub account_code: String,
    pub local_amount: Dec,
    /// `functional/presentation`, e.g. `USD/CHF`.
    pub ccy_pair: String,
    pub rate: Dec,
    pub rate_basis: RateBasis,
    pub translated_amount: Dec,
}

/// `w` records the translated line `l` under the currency pair `pair`.
pub open spec fn worksheet_line_of(w: WorksheetLine, l: TranslatedLine, pair: Seq<char>) -> bool {
    &&& w.account_code@ == l.account_code@
    &&& w.local_amount == l.local_amount
    &&& w.ccy_pair@ == pair
    &&& w.rate == l.fx_rate
    &&& w.rate_basis == l.rate_basis
    &&& w.translated_amount == l.translated_amount
}

/// The worksheet of a translated trial balance: the same entity,
/// currencies and date, and one line per translated line, in order, each
/// under the pair `functional/presentation`.
pub fn build_entity(t: &TranslatedTb) -> (r: WorksheetEntity)
    ensures
        r.entity_code@ == t.entity_code@,
        r.functional_currency@ == t.functional_currency@,
        r.presentation_currency@ == t.presentation_currency@,
        r.as_of_date == t.as_of_date,
        r.lines@.len() == t.lines@.len(),
        forall|i: int| 0 <= i < t.lines@.len() ==> worksheet_line_of(
            #[trigger] r.lines@[i],
            t.lines@[i],
            t.functional_currency@ + "/"@ + t.presentation_currency@,
        ),
{
    let ccy_pair = t.functional_currency.clone().concat("/").concat(t.presentation_currency.as_str());
    let mut lines: Vec<WorksheetLine> = Vec::new();
    let mut i: usize = 0;
    while i < t.lines.len()
        invariant
            i <= t.lines@.len(),
            ccy_pair@ == t.functional_currency@ + "/"@ + t.presentation_currency@,
            lines@.len() == i,
            forall|k: int| 0 <= k < i ==> worksheet_line_of(#[trigger] lines@[k], t.lines@[k], ccy_pair@),
        decreases t.lines.len() - i,
    {
        let l = &t.lines[i];
        lines.push(
            WorksheetLine {
                account_code: l.account_code.clone(),
                local_amount: l.local_amount,
                ccy_pair: ccy_pair.clone(),
                rate: l.fx_rate,
                rate_basis: l.rate_basis,
                translated_amount: l.translated_amount,
            },
        );
        i = i + 1;
    }
    WorksheetEntity {
        entity_code: t.entity_code.clone(),
        functional_currency: t.functional_currency.clone(),
        presentation_currency: t.presentation_currency.clone(),
        as_of_date: t.as_of_date,
        lines,
    }
}

} // verus!
