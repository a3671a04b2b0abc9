use vstd::prelude::*;

use crate::activity::{records_view, ActivityRecord, RecordModel, SourceKind};

verus! {

/// The persisted knowledge about one item: first observation and whether it
/// has been sent.
#[derive(Debug)]
pub struct LedgerEntry {
    pub item_id: String,
    pub title: String,
    pub first_source: SourceKind,
    pub first_seen_at: String,
    pub notified: bool,
}

pub struct EntryModel {
    pub item_id: Seq<char>,
    pub title: Seq<char>,
    pub first_source: SourceKind,
    pub first_seen_at: Seq<char>,
    pub notified: bool,
}

impl View for LedgerEntry {
    type V = EntryModel;

    open spec fn view(&self) -> EntryModel {
        EntryModel {
            item_id: self.item_id@,
            title: self.title@,
            first_source: self.first_source,
            first_seen_at: self.first_seen_at@,
            notified: self.notified,
        }
    }
}

impl LedgerEntry {
    pub fn duplicate(&self) -> (r: LedgerEntry)
        ensures
            r@ == self@,
    {
        LedgerEntry {
            item_id: self.item_id.clone(),
            title: self.title.clone(),
            first_source: self.first_source,
            first_seen_at: self.first_seen_at.clone(),
            notified: self.notified,
        }
    }
}

pub open spec fn entries_view(v: Seq<LedgerEntry>) -> Seq<EntryModel> {
    v.map_values(|e: LedgerEntry| e@)
}

pub open spec fn strings_view(v: Seq<String>) -> Seq<Seq<char>> {
    v.map_values(|s: String| s@)
}

/// No identifier occurs twice.
pub open spec fn ids_unique(s: Seq<EntryModel>) -> bool {
    forall|i: int, j: int|
        0 <= i < s.len() && 0 <= j < s.len() && i != j ==> #[trigger] s[i].item_id
            != #[trigger] s[j].item_id
}

pub open spec fn known_in(s: Seq<EntryModel>, id: Seq<char>) -> bool {
    exists|i: int| 0 <= i < s.len() && #[trigger] s[i].item_id == id
}

/// The ledger holds a row for `id` that is marked as sent.
pub open spec fn notified_in(s: Seq<EntryModel>, id: Seq<char>) -> bool {
    exists|i: int| 0 <= i < s.len() && #[trigger] s[i].item_id == id && s[i].notified
}

/// An upvoted item is due unless the ledger already marks it as sent.
pub open spec fn is_due(s: Seq<EntryModel>, id: Seq<char>) -> bool {
    !notified_in(s, id)
}

pub open spec fn position(s: Seq<EntryModel>, id: Seq<char>) -> int {
    choose|i: int| 0 <= i < s.len() && #[trigger] s[i].item_id == id
}

/// The row that a first observation of `rec` creates.
pub open spec fn fresh_entry(rec: RecordModel, notified: bool) -> EntryModel {
    EntryModel {
        item_id: rec.item_id,
        title: rec.title,
        first_source: rec.source,
        first_seen_at: rec.observed_at,
        notified,
    }
}

/// The ledger after a successful send of `rec`: its row is marked as sent, or a
/// fresh sent row is added.
pub open spec fn mark_spec(s: Seq<EntryModel>, rec: RecordModel) -> Seq<EntryModel> {
    if known_in(s, rec.item_id) {
        let k = position(s, rec.item_id);
        s.update(k, EntryModel { notified: true, ..s[k] })
    } else {
        s.push(fresh_entry(rec, true))
    }
}

/// The ledger after observing `rec` without sending it: a fresh unsent row if
/// the item is new, else unchanged.
pub open spec fn record_spec(s: Seq<EntryModel>, rec: RecordModel) -> Seq<EntryModel> {
    if known_in(s, rec.item_id) {
        s
    } else {
        s.push(fresh_entry(rec, false))
    }
}

pub open spec fn record_all(s: Seq<EntryModel>, recs: Seq<RecordModel>) -> Seq<EntryModel>
    decreases recs.len(),
{
    if recs.len() == 0 {
        s
    } else {
        record_spec(record_all(s, recs.drop_last()), recs.last())
    }
}

pub open spec fn has_record(s: Seq<RecordModel>, id: Seq<char>) -> bool {
    exists|i: int| 0 <= i < s.len() && #[trigger] s[i].item_id == id
}

/// The upvotes to send this cycle, in stream order: those due, each item once.
pub open spec fn due_sends(s: Seq<EntryModel>, ups: Seq<RecordModel>) -> Seq<RecordModel>
    decreases ups.len(),
{
    if ups.len() == 0 {
        Seq::empty()
    } else {
        let prev = due_sends(s, ups.drop_last());
        let u = ups.last();
        if is_due(s, u.item_id) && !has_record(prev, u.item_id) {
            prev.push(u)
        } else {
            prev
        }
    }
}

/// Whether `id` is the identifier of some element of `v`.
fn contains_id(v: &Vec<String>, id: &String) -> (r: bool)
    ensures
        r == strings_view(v@).contains(id@),
{
    let mut i: usize = 0;
    while i < v.len()
        invariant
            i <= v.len(),
            forall|j: int| 0 <= j < i ==> #[trigger] v@[j]@ != id@,
        decreases v.len() - i,
    {
        if v[i] == *id {
            assert(strings_view(v@)[i as int] == id@);
            return true;
        }
        i = i + 1;
    }
    proof {
        if strings_view(v@).contains(id@) {
            let k = choose|k: int| 0 <= k < v.len() && strings_view(v@)[k] == id@;
            assert(v@[k]@ == id@);
        }
    }
    false
}

fn with_new_ids(start_ids: Vec<String>, recs: &Vec<ActivityRecord>) -> (r: Vec<String>)
    requires
        strings_view(start_ids@).no_duplicates(),
    ensures
        strings_view(r@).no_duplicates(),
        forall|id: Seq<char>|
            strings_view(r@).contains(id) <==> (strings_view(start_ids@).contains(id)
                || has_record(records_view(recs@), id)),
{
    let mut acc = start_ids;
    let ghost start = strings_view(acc@);
    let mut i: usize = 0;
    while i < recs.len()
        invariant
            i <= recs.len(),
            start == strings_view(start_ids@),
            strings_view(acc@).no_duplicates(),
            forall|id: Seq<char>|
                strings_view(acc@).contains(id) <==> (start.contains(id) || has_record(
                    records_view(recs@.subrange(0, i as int)),
                    id,
                )),
        decreases recs.len() - i,
    {
        let ghost before = strings_view(acc@);
        let id = &recs[i].item_id;
        if !contains_id(&acc, id) {
            acc.push(id.clone());
            assert(strings_view(acc@) =~= before.push(id@));
        }
        proof {
            assert forall|x: Seq<char>| strings_view(acc@).contains(x) <==> (before.contains(x) || x
                == id@) by {
                let now = strings_view(acc@);
                if now.contains(x) {
                    let k = choose|k: int| 0 <= k < now.len() && now[k] == x;
                    if k < before.len() {
                        assert(before[k] == x);
                    }
                }
                if before.contains(x) {
                    let k = choose|k: int| 0 <= k < before.len() && before[k] == x;
                    assert(now[k] == x);
                }
                if x == id@ && now.len() > before.len() {
                    assert(now[before.len() as int] == x);
                }
            }
            let pre = records_view(recs@.subrange(0, i as int));
            let post = records_view(recs@.subrange(0, i + 1));
            assert(post =~= pre.push(recs@[i as int]@));
            assert forall|x: Seq<char>| has_record(post, x) <==> (has_record(pre, x) || x
                == id@) by {
                if has_record(post, x) {
                    let k = choose|k: int| 0 <= k < post.len() && #[trigger] post[k].item_id == x;
                    if k < pre.len() {
                        assert(pre[k].item_id == x);
                    }
                }
                if has_record(pre, x) {
                    let k = choose|k: int| 0 <= k < pre.len() && #[trigger] pre[k].item_id == x;
                    assert(post[k].item_id == x);
                }
                if x == id@ {
                    assert(post[i as int].item_id == x);
                }
            }
            assert forall|x: Seq<char>| strings_view(acc@).contains(x) <==> (start.contains(x)
                || has_record(post, x)) by {
                assert(before.contains(x) <==> (start.contains(x) || has_record(pre, x)));
                assert(has_record(post, x) <==> (has_record(pre, x) || x == id@));
            }
        }
        i = i + 1;
    }
    assert(recs@.subrange(0, recs.len() as int) =~= recs@);
    assert forall|id: Seq<char>|
        strings_view(acc@).contains(id) <==> (strings_view(start_ids@).contains(id) || has_record(
            records_view(recs@),
            id,
        )) by {
        assert(strings_view(acc@).contains(id) <==> (start.contains(id) || has_record(
            records_view(recs@.subrange(0, i as int)),
            id,
        )));
    }
    acc
}

/// The key set for the ledger lookup of one cycle: every item identifier of
/// both streams, each exactly once (views first, then upvotes).
pub fn lookup_ids(views: &Vec<ActivityRecord>, upvotes: &Vec<ActivityRecord>) -> (r: Vec<String>)
    ensures
        strings_view(r@).no_duplicates(),
        forall|id: Seq<char>|
            strings_view(r@).contains(id) <==> (has_record(records_view(views@), id)
                || has_record(records_view(upvotes@), id)),
{
    let out: Vec<String> = Vec::new();
    assert(strings_view(out@) =~= Seq::<Seq<char>>::empty());
    let ghost empty = strings_view(out@);
    let out = with_new_ids(out, views);
    let ghost mid = strings_view(out@);
    let out = with_new_ids(out, upvotes);
    assert forall|id: Seq<char>|
        strings_view(out@).contains(id) <==> (has_record(records_view(views@), id)
            || has_record(records_view(upvotes@), id)) by {
        assert(!empty.contains(id));
        assert(strings_view(out@).contains(id) <==> (mid.contains(id) || has_record(records_view(upvotes@), id)));
        assert(mid.contains(id) <==> (empty.contains(id) || has_record(records_view(views@), id)));
    }
    out
}

/// What the store knows about this cycle's items: at most one row per item.
#[derive(Debug)]
pub struct Ledger {
    entries: Vec<LedgerEntry>,
}

impl View for Ledger {
    type V = Seq<EntryModel>;

    closed spec fn view(&self) -> Seq<EntryModel> {
        entries_view(self.entries@)
    }
}

/// Whether `id` occurs among the identifiers of `v`.
fn has_record_id(v: &Vec<ActivityRecord>, id: &String) -> (r: bool)
    ensures
        r == has_record(records_view(v@), id@),
{
    let mut i: usize = 0;
    while i < v.len()
        invariant
            i <= v.len(),
            forall|j: int| 0 <= j < i ==> #[trigger] v@[j].item_id@ != id@,
        decreases v.len() - i,
    {
        if v[i].item_id == *id {
            assert(records_view(v@)[i as int].item_id == id@);
            return true;
        }
        i = i + 1;
    }
    proof {
        if has_record(records_view(v@), id@) {
            let k = choose|k: int| 0 <= k < v.len() && #[trigger] records_view(v@)[k].item_id == id@;
            assert(v@[k].item_id@ == id@);
        }
    }
    false
}

impl Ledger {
    /// At most one row per item.
    pub closed spec fn wf(&self) -> bool {
        ids_unique(self@)
    }

    pub fn new() -> (r: Ledger)
        ensures
            r.wf(),
            r@ == Seq::<EntryModel>::empty(),
    {
        let r = Ledger { entries: Vec::new() };
        assert(r@ =~= Seq::<EntryModel>::empty());
        r
    }

    pub fn len(&self) -> (r: usize)
        ensures
            r == self@.len(),
    {
        self.entries.len()
    }

    /// The row at position `i`.
    pub fn entry(&self, i: usize) -> (r: &LedgerEntry)
        requires
            i < self@.len(),
        ensures
            r@ == self@[i as int],
    {
        &self.entries[i]
    }

    /// The position of the row for `id`, if there is one.
    pub fn find(&self, id: &String) -> (r: Option<usize>)
        ensures
            r matches Some(k) ==> k < self@.len() && self@[k as int].item_id == id@,
            r is None <==> !known_in(self@, id@),
    {
        let mut i: usize = 0;
        while i < self.entries.len()
            invariant
                i <= self.entries.len(),
                forall|j: int| 0 <= j < i ==> #[trigger] self.entries@[j].item_id@ != id@,
            decreases self.entries.len() - i,
        {
            if self.entries[i].item_id == *id {
                assert(self@[i as int].item_id == id@);
                return Some(i);
            }
            i = i + 1;
        }
        proof {
            if known_in(self@, id@) {
                let k = choose|k: int| 0 <= k < self@.len() && #[trigger] self@[k].item_id == id@;
                assert(self.entries@[k].item_id@ == id@);
            }
        }
        None
    }

    /// Builds the ledger from the rows that the store returned, keeping the
    /// first row of each item.
    pub fn from_rows(rows: Vec<LedgerEntry>) -> (r: Ledger)
        ensures
            r.wf(),
            forall|i: int| 0 <= i < rows.len() ==> known_in(r@, #[trigger] rows@[i].item_id@),
            ids_unique(entries_view(rows@)) ==> r@ == entries_view(rows@),
    {
        let mut acc = Ledger::new();
        let mut i: usize = 0;
        while i < rows.len()
            invariant
                i <= rows.len(),
                acc.wf(),
                forall|j: int| 0 <= j < i ==> known_in(acc@, #[trigger] rows@[j].item_id@),
                ids_unique(entries_view(rows@)) ==> acc@ == entries_view(rows@.subrange(0, i as int)),
            decreases rows.len() - i,
        {
            let row = &rows[i];
            let ghost before = acc@;
            match acc.find(&row.item_id) {
                Some(_) => {
                    proof {
                        if ids_unique(entries_view(rows@)) {
                            let k = choose|k: int| 0 <= k < before.len() && #[trigger] before[k].item_id == row.item_id@;
                            assert(entries_view(rows@)[k].item_id == entries_view(rows@)[i as int].item_id);
                        }
                    }
                },
                None => {
                    acc.entries.push(row.duplicate());
                    proof {
                        assert(acc@ =~= before.push(row@));
                        assert forall|a: int, b: int|
                            0 <= a < acc@.len() && 0 <= b < acc@.len() && a != b implies #[trigger] acc@[a].item_id
                                != #[trigger] acc@[b].item_id by {
                            if a == before.len() && b < before.len() {
                                assert(before[b].item_id == acc@[b].item_id);
                            }
                            if b == before.len() && a < before.len() {
                                assert(before[a].item_id == acc@[a].item_id);
                            }
                        }
                        assert forall|j: int| 0 <= j < i implies known_in(acc@, #[trigger] rows@[j].item_id@) by {
                            assert(known_in(before, rows@[j].item_id@));
                            let k = choose|k: int| 0 <= k < before.len() && #[trigger] before[k].item_id == rows@[j].item_id@;
                            assert(acc@[k].item_id == rows@[j].item_id@);
                        }
                        if ids_unique(entries_view(rows@)) {
                            assert(entries_view(rows@.subrange(0, i + 1)) =~= entries_view(rows@.subrange(0, i as int)).push(row@));
                        }
                    }
                },
            }
            proof {
                assert(acc@[acc@.len() - 1].item_id == row.item_id@ || known_in(acc@, row.item_id@));
                if ids_unique(entries_view(rows@)) {
                    assert(entries_view(rows@.subrange(0, i + 1)) =~= entries_view(rows@.subrange(0, i as int)).push(row@));
                }
            }
            i = i + 1;
        }
        assert(rows@.subrange(0, rows.len() as int) =~= rows@);
        acc
    }

    /// Whether an upvote of `id` is due: no row for it marks it as sent.
    pub fn is_due(&self, id: &String) -> (r: bool)
        ensures
            r == is_due(self@, id@),
    {
        let mut i: usize = 0;
        while i < self.entries.len()
            invariant
                i <= self.entries.len(),
                forall|j: int| 0 <= j < i ==> !(#[trigger] self.entries@[j].item_id@ == id@ && self.entries@[j].notified),
            decreases self.entries.len() - i,
        {
            if self.entries[i].notified && self.entries[i].item_id == *id {
                assert(self@[i as int].item_id == id@ && self@[i as int].notified);
                return false;
            }
            i = i + 1;
        }
        proof {
            if notified_in(self@, id@) {
                let k = choose|k: int| 0 <= k < self@.len() && #[trigger] self@[k].item_id == id@ && self@[k].notified;
                assert(self.entries@[k].item_id@ == id@);
            }
        }
        true
    }
}

/// The row that a first observation of `rec` creates.
fn new_entry(rec: &ActivityRecord, notified: bool) -> (r: LedgerEntry)
    ensures
        r@ == fresh_entry(rec@, notified),
{
    LedgerEntry {
        item_id: rec.item_id.clone(),
        title: rec.title.clone(),
        first_source: rec.source,
        first_seen_at: rec.observed_at.clone(),
        notified,
    }
}

proof fn lemma_position_is(s: Seq<EntryModel>, id: Seq<char>, k: int)
    requires
        ids_unique(s),
        0 <= k < s.len(),
        s[k].item_id == id,
    ensures
        known_in(s, id),
        position(s, id) == k,
{
    assert(s[k].item_id == id);
    let p = position(s, id);
    assert(s[p].item_id == id);
}

proof fn lemma_push_fresh_unique(s: Seq<EntryModel>, e: EntryModel)
    requires
        ids_unique(s),
        !known_in(s, e.item_id),
    ensures
        ids_unique(s.push(e)),
{
    let t = s.push(e);
    assert forall|a: int, b: int|
        0 <= a < t.len() && 0 <= b < t.len() && a != b implies #[trigger] t[a].item_id
            != #[trigger] t[b].item_id by {
        if a == s.len() && b < s.len() {
            assert(s[b].item_id == t[b].item_id);
        }
        if b == s.len() && a < s.len() {
            assert(s[a].item_id == t[a].item_id);
        }
    }
}

impl Ledger {
    /// Records that `rec` was sent: its row is marked as sent, or a fresh sent
    /// row is added. Returns the row to write to the store.
    pub fn mark_notified(&mut self, rec: &ActivityRecord) -> (r: LedgerEntry)
        requires
            old(self).wf(),
        ensures
            final(self).wf(),
            final(self)@ == mark_spec(old(self)@, rec@),
            final(self)@.contains(r@),
            r@.item_id == rec@.item_id,
            r@.notified,
    {
        let ghost s = self@;
        match self.find(&rec.item_id) {
            Some(k) => {
                proof {
                    lemma_position_is(s, rec@.item_id, k as int);
                }
                let mut e = self.entries[k].duplicate();
                e.notified = true;
                let out = e.duplicate();
                self.entries.set(k, e);
                proof {
                    assert(self@ =~= s.update(k as int, EntryModel { notified: true, ..s[k as int] }));
                    assert forall|a: int, b: int|
                        0 <= a < self@.len() && 0 <= b < self@.len() && a != b implies #[trigger] self@[a].item_id
                            != #[trigger] self@[b].item_id by {
                        assert(self@[a].item_id == s[a].item_id);
                        assert(self@[b].item_id == s[b].item_id);
                    }
                    assert(self@[k as int] == out@);
                }
                out
            },
            None => {
                let e = new_entry(rec, true);
                let out = e.duplicate();
                self.entries.push(e);
                proof {
                    assert(self@ =~= s.push(fresh_entry(rec@, true)));
                    lemma_push_fresh_unique(s, fresh_entry(rec@, true));
                    assert(self@[s.len() as int] == out@);
                }
                out
            },
        }
    }

    /// Records an observation of `rec` that is not sent: a new item gets an
    /// unsent row, which is returned for the store; a known item is left as it
    /// is.
    pub fn record_view(&mut self, rec: &ActivityRecord) -> (r: Option<LedgerEntry>)
        requires
            old(self).wf(),
        ensures
            final(self).wf(),
            final(self)@ == record_spec(old(self)@, rec@),
            r is Some <==> !known_in(old(self)@, rec@.item_id),
            r matches Some(e) ==> e@ == fresh_entry(rec@, false),
    {
        let ghost s = self@;
        match self.find(&rec.item_id) {
            Some(_) => None,
            None => {
                let e = new_entry(rec, false);
                let out = e.duplicate();
                self.entries.push(e);
                proof {
                    assert(self@ =~= s.push(fresh_entry(rec@, false)));
                    lemma_push_fresh_unique(s, fresh_entry(rec@, false));
                }
                Some(out)
            },
        }
    }

    /// Records every view-stream observation; returns the new rows, in order,
    /// for the store.
    pub fn record_views(&mut self, views: &Vec<ActivityRecord>) -> (r: Vec<LedgerEntry>)
        requires
            old(self).wf(),
        ensures
            final(self).wf(),
            final(self)@ == record_all(old(self)@, records_view(views@)),
            entries_view(r@) == final(self)@.subrange(old(self)@.len() as int, final(self)@.len() as int),
    {
        let ghost s = self@;
        let mut out: Vec<LedgerEntry> = Vec::new();
        let mut i: usize = 0;
        proof {
            assert(records_view(views@).subrange(0, 0) =~= Seq::<RecordModel>::empty());
            assert(entries_view(out@) =~= self@.subrange(s.len() as int, self@.len() as int));
        }
        while i < views.len()
            invariant
                i <= views.len(),
                self.wf(),
                s.len() <= self@.len(),
                self@.subrange(0, s.len() as int) == s,
                self@ == record_all(s, records_view(views@).subrange(0, i as int)),
                entries_view(out@) == self@.subrange(s.len() as int, self@.len() as int),
            decreases views.len() - i,
        {
            let ghost before = self@;
            let ghost before_out = entries_view(out@);
            match self.record_view(&views[i]) {
                Some(e) => {
                    out.push(e);
                    assert(entries_view(out@) =~= before_out.push(self@[before.len() as int]));
                    assert(self@.subrange(s.len() as int, self@.len() as int) =~= before.subrange(s.len() as int, before.len() as int).push(self@[before.len() as int]));
                    assert(self@.subrange(0, s.len() as int) =~= before.subrange(0, s.len() as int));
                },
                None => {},
            }
            proof {
                let pre = records_view(views@).subrange(0, i as int);
                let post = records_view(views@).subrange(0, i + 1);
                assert(post.drop_last() =~= pre);
                assert(post.last() == views@[i as int]@);
            }
            i = i + 1;
        }
        assert(records_view(views@).subrange(0, views.len() as int) =~= records_view(views@));
        out
    }

    /// The upvotes to send this cycle: those whose item the ledger does not
    /// mark as sent, in stream order, each item once.
    pub fn plan_sends(&self, upvotes: &Vec<ActivityRecord>) -> (r: Vec<ActivityRecord>)
        ensures
            records_view(r@) == due_sends(self@, records_view(upvotes@)),
    {
        let mut out: Vec<ActivityRecord> = Vec::new();
        let mut i: usize = 0;
        proof {
            assert(records_view(upvotes@).subrange(0, 0) =~= Seq::<RecordModel>::empty());
            assert(records_view(out@) =~= Seq::<RecordModel>::empty());
        }
        while i < upvotes.len()
            invariant
                i <= upvotes.len(),
                records_view(out@) == due_sends(self@, records_view(upvotes@).subrange(0, i as int)),
            decreases upvotes.len() - i,
        {
            let u = &upvotes[i];
            let ghost before = records_view(out@);
            proof {
                let post = records_view(upvotes@).subrange(0, i + 1);
                assert(post.drop_last() =~= records_view(upvotes@).subrange(0, i as int));
                assert(post.last() == u@);
            }
            if self.is_due(&u.item_id) && !has_record_id(&out, &u.item_id) {
                out.push(u.duplicate());
                assert(records_view(out@) =~= before.push(u@));
            }
            i = i + 1;
        }
        assert(records_view(upvotes@).subrange(0, upvotes.len() as int) =~= records_view(upvotes@));
        out
    }
}

/// Each planned send is for an item that the ledger does not mark as sent, and
/// no item is planned twice in one cycle.
pub proof fn lemma_plan_each_item_once(s: Seq<EntryModel>, ups: Seq<RecordModel>)
    ensures
        forall|i: int| 0 <= i < due_sends(s, ups).len() ==> is_due(s, #[trigger] due_sends(s, ups)[i].item_id),
        forall|i: int, j: int|
            0 <= i < due_sends(s, ups).len() && 0 <= j < due_sends(s, ups).len() && i != j
                ==> #[trigger] due_sends(s, ups)[i].item_id != #[trigger] due_sends(s, ups)[j].item_id,
    decreases ups.len(),
{
    if ups.len() > 0 {
        lemma_plan_each_item_once(s, ups.drop_last());
        let prev = due_sends(s, ups.drop_last());
        let cur = due_sends(s, ups);
        let u = ups.last();
        if is_due(s, u.item_id) && !has_record(prev, u.item_id) {
            assert forall|i: int, j: int|
                0 <= i < cur.len() && 0 <= j < cur.len() && i != j implies #[trigger] cur[i].item_id
                    != #[trigger] cur[j].item_id by {
                if i == prev.len() && j < prev.len() {
                    assert(prev[j].item_id == cur[j].item_id);
                }
                if j == prev.len() && i < prev.len() {
                    assert(prev[i].item_id == cur[i].item_id);
                }
            }
            assert forall|i: int| 0 <= i < cur.len() implies is_due(s, #[trigger] cur[i].item_id) by {
                if i < prev.len() {
                    assert(prev[i] == cur[i]);
                }
            }
        }
    }
}

/// An item that the ledger marks as sent is never planned for sending.
pub proof fn lemma_sent_item_never_planned(s: Seq<EntryModel>, ups: Seq<RecordModel>, id: Seq<char>)
    requires
        notified_in(s, id),
    ensures
        !has_record(due_sends(s, ups), id),
{
    lemma_plan_each_item_once(s, ups);
    if has_record(due_sends(s, ups), id) {
        let k = choose|k: int| 0 <= k < due_sends(s, ups).len() && #[trigger] due_sends(s, ups)[k].item_id == id;
        assert(is_due(s, due_sends(s, ups)[k].item_id));
    }
}

/// A sent mark is never taken back: neither a later send nor recording view
/// observations clears it.
pub proof fn lemma_sent_mark_is_permanent(
    s: Seq<EntryModel>,
    rec: RecordModel,
    views: Seq<RecordModel>,
    id: Seq<char>,
)
    requires
        ids_unique(s),
        notified_in(s, id),
    ensures
        notified_in(mark_spec(s, rec), id),
        notified_in(record_spec(s, rec), id),
        notified_in(record_all(s, views), id),
    decreases views.len(),
{
    let k = choose|k: int| 0 <= k < s.len() && #[trigger] s[k].item_id == id && s[k].notified;
    let m = mark_spec(s, rec);
    assert(m[k].item_id == id && m[k].notified);
    let r = record_spec(s, rec);
    assert(r[k].item_id == id && r[k].notified);
    if views.len() > 0 {
        lemma_sent_mark_is_permanent(s, rec, views.drop_last(), id);
        let t = record_all(s, views.drop_last());
        let j = choose|j: int| 0 <= j < t.len() && #[trigger] t[j].item_id == id && t[j].notified;
        let u = record_spec(t, views.last());
        assert(u[j].item_id == id && u[j].notified);
    }
}

/// Once a send of an item is recorded, no later cycle plans it again.
pub proof fn lemma_sent_at_most_once(s: Seq<EntryModel>, rec: RecordModel, later: Seq<RecordModel>)
    requires
        ids_unique(s),
    ensures
        notified_in(mark_spec(s, rec), rec.item_id),
        !has_record(due_sends(mark_spec(s, rec), later), rec.item_id),
{
    let m = mark_spec(s, rec);
    if known_in(s, rec.item_id) {
        let k = position(s, rec.item_id);
        assert(m[k].item_id == rec.item_id && m[k].notified);
    } else {
        assert(m[s.len() as int].item_id == rec.item_id && m[s.len() as int].notified);
    }
    lemma_sent_item_never_planned(m, later, rec.item_id);
}

} // verus!
