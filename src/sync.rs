use vstd::prelude::*;

use crate::activity::{records_view, ActivityRecord, RecordModel};
use crate::ledger::{
    due_sends, entries_view, mark_spec, record_all, EntryModel, Ledger, LedgerEntry,
};
use crate::types::{has_video_marker, message_text, video_url, DisplayHistory, UnsupportedId};

verus! {

/// The chat message for an observed item; refused when its identifier has no
/// link.
pub fn notification_text(rec: &ActivityRecord) -> (r: Result<String, UnsupportedId>)
    ensures
        r is Ok <==> has_video_marker(rec.item_id@),
        r matches Ok(t) ==> t@ == message_text(rec.title@, video_url(rec.item_id@), rec.observed_at@),
        r matches Err(e) ==> e.bid@ == rec.item_id@,
{
    match DisplayHistory::new(rec.item_id.as_str(), rec.title.as_str()) {
        Ok(d) => Ok(d.message(rec.observed_at.as_str())),
        Err(e) => Err(e),
    }
}

/// One synchronization cycle, after both reads and the ledger lookup: the
/// sends still to make, in order, and the ledger as this cycle has changed it.
pub struct Cycle {
    ledger: Ledger,
    sends: Vec<ActivityRecord>,
    next: usize,
}

impl Cycle {
    pub closed spec fn wf(&self) -> bool {
        self.ledger.wf() && self.next <= self.sends.len()
    }

    /// The ledger as the cycle has left it so far.
    pub closed spec fn spec_ledger(&self) -> Seq<EntryModel> {
        self.ledger@
    }

    /// Every send the cycle planned.
    pub closed spec fn spec_sends(&self) -> Seq<RecordModel> {
        records_view(self.sends@)
    }

    /// How many planned sends have been confirmed.
    pub closed spec fn spec_done(&self) -> nat {
        self.next as nat
    }

    /// Starts a cycle from the rows the store returned for the cycle's items
    /// and the upvotes read; the sends are the due upvotes.
    pub fn start(rows: Vec<LedgerEntry>, upvotes: &Vec<ActivityRecord>) -> (r: Cycle)
        ensures
            r.wf(),
            r.spec_done() == 0,
            r.spec_sends() == due_sends(r.spec_ledger(), records_view(upvotes@)),
            crate::ledger::ids_unique(entries_view(rows@)) ==> r.spec_ledger() == entries_view(rows@),
    {
        let ledger = Ledger::from_rows(rows);
        let sends = ledger.plan_sends(upvotes);
        Cycle { ledger, sends, next: 0 }
    }

    /// The next item to send, if any is left.
    pub fn pending(&self) -> (r: Option<&ActivityRecord>)
        requires
            self.wf(),
        ensures
            r is Some <==> self.spec_done() < self.spec_sends().len(),
            r matches Some(a) ==> a@ == self.spec_sends()[self.spec_done() as int],
    {
        if self.next < self.sends.len() {
            Some(&self.sends[self.next])
        } else {
            None
        }
    }

    /// Takes in a successful send of the pending item: it is marked as sent,
    /// and the row to write to the store is returned.
    pub fn confirm_sent(&mut self) -> (r: LedgerEntry)
        requires
            old(self).wf(),
            old(self).spec_done() < old(self).spec_sends().len(),
        ensures
            final(self).wf(),
            final(self).spec_sends() == old(self).spec_sends(),
            final(self).spec_done() == old(self).spec_done() + 1,
            final(self).spec_ledger() == mark_spec(
                old(self).spec_ledger(),
                old(self).spec_sends()[old(self).spec_done() as int],
            ),
            r@.item_id == old(self).spec_sends()[old(self).spec_done() as int].item_id,
            r@.notified,
            final(self).spec_ledger().contains(r@),
    {
        let r = self.ledger.mark_notified(&self.sends[self.next]);
        self.next = self.next + 1;
        r
    }

    /// Records the view-stream observations; returns the new unsent rows for
    /// the store.
    pub fn record_views(&mut self, views: &Vec<ActivityRecord>) -> (r: Vec<LedgerEntry>)
        requires
            old(self).wf(),
        ensures
            final(self).wf(),
            final(self).spec_sends() == old(self).spec_sends(),
            final(self).spec_done() == old(self).spec_done(),
            final(self).spec_ledger() == record_all(old(self).spec_ledger(), records_view(views@)),
            entries_view(r@) == final(self).spec_ledger().subrange(
                old(self).spec_ledger().len() as int,
                final(self).spec_ledger().len() as int,
            ),
    {
        self.ledger.record_views(views)
    }
}

} // verus!
