//! Journal entries as the aggregate phase reads them: a header with the
//! currency and the elimination flag, and debit / credit lines on GL
//! accounts.
use vstd::prelude::*;

use crate::date::Date;
use crate::dec::Dec;

verus! {

/// Header of a journal entry.
#[derive(Debug, Clone)]
pub struct JournalEntryHeader {
    pub document_id: String,
    pub company_code: String,
    pub posting_date: Date,
    pub currency: String,
    /// Set on consolidation elimination entries.
    pub is_elimination: bool,
    /// Intercompany pair identifier (lowercase hex) on the legs of an
    /// intercompany transaction.
    pub ic_pair_id: Option<String>,
}

/// One line of a journal entry.
#[derive(Debug, Clone)]
pub struct JournalEntryLine {
    pub gl_account: String,
    pub debit_amount: Dec,
    pub credit_amount: Dec,
}

/// A journal entry.
#[derive(Debug, Clone)]
pub struct JournalEntry {
    pub header: JournalEntryHeader,
    pub lines: Vec<JournalEntryLine>,
}

impl JournalEntryHeader {
    /// A field-by-field copy.
    pub fn duplicate(&self) -> (r: JournalEntryHeader)
        ensures
            r == *self,
    {
        JournalEntryHeader {
            document_id: self.document_id.clone(),
            company_code: self.company_code.clone(),
            posting_date: self.posting_date,
            currency: self.currency.clone(),
            is_elimination: self.is_elimination,
            ic_pair_id: match &self.ic_pair_id {
                Some(p) => Some(p.clone()),
                None => None,
            },
        }
    }
}

impl JournalEntryLine {
    /// A field-by-field copy.
    pub fn duplicate(&self) -> (r: JournalEntryLine)
        ensures
            r == *self,
    {
        JournalEntryLine { gl_account: self.gl_account.clone(), debit_amount: self.debit_amount, credit_amount: self.credit_amount }
    }

    /// A debit line: one whose debit amount is positive.
    pub open spec fn is_debit_spec(self) -> bool {
        self.debit_amount.units() > 0
    }
}

impl JournalEntry {
    /// A copy of the header and every line.
    pub fn duplicate(&self) -> (r: JournalEntry)
        ensures
            r.header == self.header,
            r.lines@ == self.lines@,
    {
        let mut lines: Vec<JournalEntryLine> = Vec::new();
        let mut i: usize = 0;
        while i < self.lines.len()
            invariant
                i <= self.lines@.len(),
                lines@ == self.lines@.take(i as int),
            decreases self.lines.len() - i,
        {
            lines.push(self.lines[i].duplicate());
            proof {
                assert(lines@ =~= self.lines@.take(i + 1));
            }
            i = i + 1;
        }
        proof {
            assert(self.lines@.take(i as int) =~= self.lines@);
        }
        JournalEntry { header: self.header.duplicate(), lines }
    }
}

} // verus!
