use vstd::prelude::*;

verus! {

/// Which stream produced an observation.
#[derive(Debug, Clone, Copy, PartialEq, Eq, Structural)]
pub enum SourceKind {
    View,
    Upvote,
}

/// One observation of an item in the current cycle.
#[derive(Debug)]
pub struct ActivityRecord {
    pub item_id: String,
    pub title: String,
    pub source: SourceKind,
    pub observed_at: String,
}

pub struct RecordModel {
    pub item_id: Seq<char>,
    pub title: Seq<char>,
    pub source: SourceKind,
    pub observed_at: Seq<char>,
}

impl View for ActivityRecord {
    type V = RecordModel;

    open spec fn view(&self) -> RecordModel {
        RecordModel {
            item_id: self.item_id@,
            title: self.title@,
            source: self.source,
            observed_at: self.observed_at@,
        }
    }
}

pub open spec fn records_view(v: Seq<ActivityRecord>) -> Seq<RecordModel> {
    v.map_values(|r: ActivityRecord| r@)
}

impl ActivityRecord {
    pub fn duplicate(&self) -> (r: ActivityRecord)
        ensures
            r@ == self@,
    {
        ActivityRecord {
            item_id: self.item_id.clone(),
            title: self.title.clone(),
            source: self.source,
            observed_at: self.observed_at.clone(),
        }
    }
}

/// One entry of the liked-items feed, as the platform sent it.
#[derive(Debug)]
pub struct RawUpvote {
    pub bvid: Option<String>,
    pub title: Option<String>,
}

/// One entry of the watch-history feed, as the platform sent it.
#[derive(Debug)]
pub struct RawView {
    pub title: Option<String>,
    pub bvid: Option<String>,
}

/// What was wrong with a feed's payload.
#[derive(Debug, Clone, Copy, PartialEq, Eq, Structural)]
pub enum FeedProblem {
    /// The payload holds no list of entries.
    NoList,
    /// The entry at this position has no item identifier.
    NoItemId(usize),
    /// The entry at this position has no title.
    NoTitle(usize),
}

/// A failed activity read, with the stream it came from.
#[derive(Debug, Clone, Copy, PartialEq, Eq, Structural)]
pub struct FetchError {
    pub stream: SourceKind,
    pub problem: FeedProblem,
}

impl FeedProblem {
    /// The position of the entry at fault (none for a missing list).
    pub open spec fn index(self) -> int {
        match self {
            FeedProblem::NoList => -1,
            FeedProblem::NoItemId(i) => i as int,
            FeedProblem::NoTitle(i) => i as int,
        }
    }
}

pub open spec fn record_of(id: Seq<char>, title: Seq<char>, source: SourceKind, at: Seq<char>) -> RecordModel {
    RecordModel { item_id: id, title, source, observed_at: at }
}

pub open spec fn upvote_complete(e: RawUpvote) -> bool {
    e.bvid is Some && e.title is Some
}

/// The problem of the first incomplete entry of the liked-items feed, if any.
pub open spec fn upvote_problem(e: RawUpvote, i: int) -> FeedProblem {
    if e.bvid is None {
        FeedProblem::NoItemId(i as usize)
    } else {
        FeedProblem::NoTitle(i as usize)
    }
}

pub open spec fn upvote_record(e: RawUpvote, at: Seq<char>) -> RecordModel {
    record_of(e.bvid->0@, e.title->0@, SourceKind::Upvote, at)
}

/// Normalizes the liked-items feed: every entry must carry an identifier and a
/// title, else the whole read fails at the first entry that does not.
pub fn normalize_upvotes(list: Option<Vec<RawUpvote>>, observed_at: &str) -> (r: Result<
    Vec<ActivityRecord>,
    FetchError,
>)
    ensures
        list is None ==> r == Err::<Vec<ActivityRecord>, FetchError>(
            FetchError { stream: SourceKind::Upvote, problem: FeedProblem::NoList },
        ),
        list matches Some(l) ==> {
            &&& r is Ok <==> forall|i: int| 0 <= i < l.len() ==> upvote_complete(#[trigger] l@[i])
            &&& r matches Ok(v) ==> records_view(v@) == l@.map_values(
                |e: RawUpvote| upvote_record(e, observed_at@),
            )
            &&& r matches Err(e) ==> {
                let k = e.problem.index();
                &&& e.stream == SourceKind::Upvote
                &&& 0 <= k < l.len()
                &&& !upvote_complete(l@[k])
                &&& forall|j: int| 0 <= j < k ==> upvote_complete(#[trigger] l@[j])
                &&& e.problem == upvote_problem(l@[k], k)
            }
        },
{
    let l = match &list {
        None => {
            return Err(FetchError { stream: SourceKind::Upvote, problem: FeedProblem::NoList });
        },
        Some(l) => l,
    };
    let mut out: Vec<ActivityRecord> = Vec::new();
    let mut i: usize = 0;
    while i < l.len()
        invariant
            list == Some(*l),
            i <= l.len(),
            forall|j: int| 0 <= j < i ==> upvote_complete(#[trigger] l@[j]),
            records_view(out@) == l@.subrange(0, i as int).map_values(
                |e: RawUpvote| upvote_record(e, observed_at@),
            ),
        decreases l.len() - i,
    {
        let e = &l[i];
        match (&e.bvid, &e.title) {
            (Some(b), Some(t)) => {
                let rec = ActivityRecord {
                    item_id: b.clone(),
                    title: t.clone(),
                    source: SourceKind::Upvote,
                    observed_at: String::from_str(observed_at),
                };
                assert(rec@ == upvote_record(l@[i as int], observed_at@));
                let ghost before = out@;
                out.push(rec);
                proof {
                    assert(l@.subrange(0, i + 1) =~= l@.subrange(0, i as int).push(l@[i as int]));
                    assert(records_view(out@) =~= records_view(before).push(rec@));
                    assert(records_view(out@) =~= l@.subrange(0, i + 1).map_values(
                        |e: RawUpvote| upvote_record(e, observed_at@),
                    ));
                }
            },
            (None, _) => {
                assert(!upvote_complete(l@[i as int]));
                return Err(
                    FetchError { stream: SourceKind::Upvote, problem: FeedProblem::NoItemId(i) },
                );
            },
            (Some(_), None) => {
                assert(!upvote_complete(l@[i as int]));
                return Err(
                    FetchError { stream: SourceKind::Upvote, problem: FeedProblem::NoTitle(i) },
                );
            },
        }
        i = i + 1;
    }
    proof {
        assert(l@.subrange(0, l.len() as int) =~= l@);
    }
    Ok(out)
}

/// A history entry is usable when it has an identifier, and, unless that
/// identifier is an empty placeholder, a title.
pub open spec fn view_complete(e: RawView) -> bool {
    e.bvid is Some && (e.bvid->0@.len() == 0 || e.title is Some)
}

/// Placeholder rows of the history carry an empty identifier and are skipped.
pub open spec fn view_kept(e: RawView) -> bool {
    e.bvid is Some && e.bvid->0@.len() > 0
}

pub open spec fn view_problem(e: RawView, i: int) -> FeedProblem {
    if e.bvid is None {
        FeedProblem::NoItemId(i as usize)
    } else {
        FeedProblem::NoTitle(i as usize)
    }
}

/// The records that the usable history entries `s` give, in order.
pub open spec fn view_records(s: Seq<RawView>, at: Seq<char>) -> Seq<RecordModel>
    decreases s.len(),
{
    if s.len() == 0 {
        Seq::empty()
    } else {
        let prev = view_records(s.drop_last(), at);
        let e = s.last();
        if view_kept(e) {
            prev.push(record_of(e.bvid->0@, e.title->0@, SourceKind::View, at))
        } else {
            prev
        }
    }
}

/// Normalizes the watch-history feed: entries with an empty identifier are
/// skipped; an entry without identifier, or a kept one without title, fails
/// the whole read at the first such entry.
pub fn normalize_views(list: Option<Vec<RawView>>, observed_at: &str) -> (r: Result<
    Vec<ActivityRecord>,
    FetchError,
>)
    ensures
        list is None ==> r == Err::<Vec<ActivityRecord>, FetchError>(
            FetchError { stream: SourceKind::View, problem: FeedProblem::NoList },
        ),
        list matches Some(l) ==> {
            &&& r is Ok <==> forall|i: int| 0 <= i < l.len() ==> view_complete(#[trigger] l@[i])
            &&& r matches Ok(v) ==> records_view(v@) == view_records(l@, observed_at@)
            &&& r matches Err(e) ==> {
                let k = e.problem.index();
                &&& e.stream == SourceKind::View
                &&& 0 <= k < l.len()
                &&& !view_complete(l@[k])
                &&& forall|j: int| 0 <= j < k ==> view_complete(#[trigger] l@[j])
                &&& e.problem == view_problem(l@[k], k)
            }
        },
{
    let l = match &list {
        None => {
            return Err(FetchError { stream: SourceKind::View, problem: FeedProblem::NoList });
        },
        Some(l) => l,
    };
    let mut out: Vec<ActivityRecord> = Vec::new();
    let mut i: usize = 0;
    while i < l.len()
        invariant
            list == Some(*l),
            i <= l.len(),
            forall|j: int| 0 <= j < i ==> view_complete(#[trigger] l@[j]),
            records_view(out@) == view_records(l@.subrange(0, i as int), observed_at@),
        decreases l.len() - i,
    {
        let e = &l[i];
        proof {
            assert(l@.subrange(0, i + 1).drop_last() =~= l@.subrange(0, i as int));
        }
        match &e.bvid {
            None => {
                assert(!view_complete(l@[i as int]));
                return Err(
                    FetchError { stream: SourceKind::View, problem: FeedProblem::NoItemId(i) },
                );
            },
            Some(b) => {
                if b.as_str().unicode_len() > 0 {
                    match &e.title {
                        None => {
                            assert(!view_complete(l@[i as int]));
                            return Err(
                                FetchError {
                                    stream: SourceKind::View,
                                    problem: FeedProblem::NoTitle(i),
                                },
                            );
                        },
                        Some(t) => {
                            let rec = ActivityRecord {
                                item_id: b.clone(),
                                title: t.clone(),
                                source: SourceKind::View,
                                observed_at: String::from_str(observed_at),
                            };
                            let ghost before = out@;
                            out.push(rec);
                            proof {
                                assert(records_view(out@) =~= records_view(before).push(rec@));
                                assert(records_view(out@) =~= view_records(
                                    l@.subrange(0, i + 1),
                                    observed_at@,
                                ));
                            }
                        },
                    }
                }
            },
        }
        i = i + 1;
    }
    proof {
        assert(l@.subrange(0, l.len() as int) =~= l@);
    }
    Ok(out)
}

} // verus!
