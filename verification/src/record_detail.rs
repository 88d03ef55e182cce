//! The record-detail view's state: the record being looked at, whether
//! it is already saved, the one-line notice that says so, and where to
//! navigate back to.
use vstd::prelude::*;

use crate::app::Navigation;
use crate::record::Record;

verus! {

/// What the detail view shows: an optional record, its saved state,
/// the notice line, and the intent that leaves the view.
pub struct RecordDetail {
    pub record: Option<Record>,
    pub is_saved: bool,
    pub message: String,
    pub back_instruction: Box<Navigation>,
}

impl RecordDetail {
    /// A detail view of nothing.
    pub fn empty(back_instruction: Navigation) -> (r: RecordDetail)
        ensures
            r.record is None,
            r.is_saved,
            r.message@ == "No record"@,
            *r.back_instruction == back_instruction,
    {
        let message = String::from_str("No record");
        RecordDetail {
            record: None,
            is_saved: true,
            message,
            back_instruction: Box::new(back_instruction),
        }
    }

    /// A detail view of the given record, its notice matching whether
    /// the record is already saved.
    pub fn new(back_instruction: Navigation, record: Record, is_saved: bool) -> (r: RecordDetail)
        ensures
            r.record matches Some(rec) && rec == record,
            r.is_saved == is_saved,
            r.message@ == saved_message(is_saved),
            *r.back_instruction == back_instruction,
    {
        let mut out = RecordDetail {
            record: Some(record),
            is_saved,
            message: String::new(),
            back_instruction: Box::new(back_instruction),
        };
        out.set_saved(is_saved);
        out
    }

    /// Mark whether the record is saved; the notice follows.
    pub fn set_saved(&mut self, saved: bool)
        ensures
            final(self).is_saved == saved,
            final(self).message@ == saved_message(saved),
            final(self).record == old(self).record,
            final(self).back_instruction == old(self).back_instruction,
    {
        self.is_saved = saved;
        self.message = if self.is_saved {
            String::from_str("Viewing the saved record.")
        } else {
            String::from_str("This record's not been saved yet. Press '+' to save it.")
        };
    }
}

/// The notice the detail view shows for a saved or unsaved record.
pub open spec fn saved_message(saved: bool) -> Seq<char> {
    if saved {
        "Viewing the saved record."@
    } else {
        "This record's not been saved yet. Press '+' to save it."@
    }
}

} // verus!
