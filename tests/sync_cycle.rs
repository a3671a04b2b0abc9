use bili_to_tg::activity::{
    normalize_upvotes, normalize_views, ActivityRecord, FeedProblem, FetchError, RawUpvote,
    RawView, SourceKind,
};
use bili_to_tg::ledger::{lookup_ids, Ledger, LedgerEntry};
use bili_to_tg::sync::{notification_text, Cycle};

fn record(id: &str, title: &str, source: SourceKind) -> ActivityRecord {
    ActivityRecord {
        item_id: id.to_string(),
        title: title.to_string(),
        source,
        observed_at: "2024-01-01T00:00:00+08:00".to_string(),
    }
}

fn row(id: &str, notified: bool) -> LedgerEntry {
    LedgerEntry {
        item_id: id.to_string(),
        title: "old".to_string(),
        first_source: SourceKind::View,
        first_seen_at: "2023-12-31T00:00:00+08:00".to_string(),
        notified,
    }
}

fn upvote(bvid: Option<&str>, title: Option<&str>) -> RawUpvote {
    RawUpvote { bvid: bvid.map(|s| s.to_string()), title: title.map(|s| s.to_string()) }
}

fn view(bvid: Option<&str>, title: Option<&str>) -> RawView {
    RawView { title: title.map(|s| s.to_string()), bvid: bvid.map(|s| s.to_string()) }
}

#[test]
fn notified_item_is_not_sent_again() {
    let ups = vec![record("BV1", "A", SourceKind::Upvote)];
    let cycle = Cycle::start(vec![row("BV1", true)], &ups);
    assert!(cycle.pending().is_none());
}

#[test]
fn new_upvote_is_sent_once_and_marked() {
    let ups = vec![record("BV2", "X", SourceKind::Upvote)];
    let mut cycle = Cycle::start(vec![], &ups);
    let sent = cycle.pending().expect("one send");
    assert_eq!(sent.item_id, "BV2");
    assert_eq!(sent.title, "X");
    let upsert = cycle.confirm_sent();
    assert_eq!(upsert.item_id, "BV2");
    assert_eq!(upsert.title, "X");
    assert!(upsert.notified);
    assert_eq!(upsert.first_source, SourceKind::Upvote);
    assert!(cycle.pending().is_none());
}

#[test]
fn view_only_item_is_recorded_unsent() {
    let views = vec![record("BV3", "Y", SourceKind::View)];
    let mut cycle = Cycle::start(vec![], &vec![]);
    assert!(cycle.pending().is_none());
    let rows = cycle.record_views(&views);
    assert_eq!(rows.len(), 1);
    assert_eq!(rows[0].item_id, "BV3");
    assert_eq!(rows[0].title, "Y");
    assert!(!rows[0].notified);
    assert_eq!(rows[0].first_source, SourceKind::View);
}

#[test]
fn known_view_item_is_left_untouched() {
    let views = vec![record("BV3", "Y", SourceKind::View)];
    let mut cycle = Cycle::start(vec![row("BV3", false)], &vec![]);
    assert!(cycle.record_views(&views).is_empty());
}

#[test]
fn unsent_ledger_row_is_due() {
    let ups = vec![record("BV4", "Z", SourceKind::Upvote)];
    let mut cycle = Cycle::start(vec![row("BV4", false)], &ups);
    assert_eq!(cycle.pending().map(|r| r.item_id.clone()), Some("BV4".to_string()));
    let upsert = cycle.confirm_sent();
    // an existing row only has its flag changed
    assert_eq!(upsert.title, "old");
    assert!(upsert.notified);
}

#[test]
fn repeated_upvote_in_one_cycle_is_sent_once() {
    let ups = vec![
        record("BV5", "A", SourceKind::Upvote),
        record("BV6", "B", SourceKind::Upvote),
        record("BV5", "A", SourceKind::Upvote),
    ];
    let mut cycle = Cycle::start(vec![], &ups);
    let mut sent = vec![];
    while let Some(r) = cycle.pending() {
        sent.push(r.item_id.clone());
        cycle.confirm_sent();
    }
    assert_eq!(sent, vec!["BV5".to_string(), "BV6".to_string()]);
}

#[test]
fn marked_item_stays_marked_across_cycles() {
    let mut ledger = Ledger::new();
    let rec = record("BV7", "T", SourceKind::Upvote);
    assert!(ledger.is_due(&rec.item_id));
    ledger.mark_notified(&rec);
    assert!(!ledger.is_due(&rec.item_id));
    assert!(ledger.record_view(&record("BV7", "T", SourceKind::View)).is_none());
    ledger.mark_notified(&rec);
    assert_eq!(ledger.len(), 1);
    assert!(!ledger.is_due(&rec.item_id));
    assert!(ledger.plan_sends(&vec![rec]).is_empty());
}

#[test]
fn lookup_covers_both_streams_once() {
    let views = vec![
        record("BV1", "a", SourceKind::View),
        record("BV2", "b", SourceKind::View),
        record("BV1", "a", SourceKind::View),
    ];
    let ups = vec![record("BV2", "b", SourceKind::Upvote), record("BV3", "c", SourceKind::Upvote)];
    let ids = lookup_ids(&views, &ups);
    assert_eq!(ids, vec!["BV1".to_string(), "BV2".to_string(), "BV3".to_string()]);
}

#[test]
fn rows_with_repeated_ids_keep_the_first() {
    let ledger = Ledger::from_rows(vec![row("BV1", true), row("BV1", false), row("BV2", false)]);
    assert_eq!(ledger.len(), 2);
    assert!(ledger.entry(0).notified);
    assert_eq!(ledger.entry(1).item_id, "BV2");
}

#[test]
fn empty_bvid_view_entry_is_skipped() {
    let list = vec![view(Some(""), None), view(Some("BV9"), Some("N"))];
    let recs = normalize_views(Some(list), "t").expect("no error");
    assert_eq!(recs.len(), 1);
    assert_eq!(recs[0].item_id, "BV9");
    assert_eq!(recs[0].title, "N");
    assert_eq!(recs[0].source, SourceKind::View);
    assert_eq!(recs[0].observed_at, "t");
}

#[test]
fn view_entry_without_bvid_fails() {
    let list = vec![view(Some("BV1"), Some("a")), view(None, Some("b"))];
    let err = normalize_views(Some(list), "t").unwrap_err();
    assert_eq!(err, FetchError { stream: SourceKind::View, problem: FeedProblem::NoItemId(1) });
}

#[test]
fn view_entry_without_title_fails() {
    let list = vec![view(Some("BV1"), None)];
    let err = normalize_views(Some(list), "t").unwrap_err();
    assert_eq!(err, FetchError { stream: SourceKind::View, problem: FeedProblem::NoTitle(0) });
}

#[test]
fn view_feed_without_list_fails() {
    let err = normalize_views(None, "t").unwrap_err();
    assert_eq!(err, FetchError { stream: SourceKind::View, problem: FeedProblem::NoList });
}

#[test]
fn upvotes_are_normalized_in_order() {
    let list = vec![upvote(Some("BV1"), Some("a")), upvote(Some("BV2"), Some("b"))];
    let recs = normalize_upvotes(Some(list), "now").expect("ok");
    assert_eq!(recs.len(), 2);
    assert_eq!(recs[0].item_id, "BV1");
    assert_eq!(recs[1].title, "b");
    assert_eq!(recs[1].source, SourceKind::Upvote);
    assert_eq!(recs[1].observed_at, "now");
}

#[test]
fn upvote_with_empty_bvid_is_kept() {
    let recs = normalize_upvotes(Some(vec![upvote(Some(""), Some("a"))]), "now").expect("ok");
    assert_eq!(recs.len(), 1);
}

#[test]
fn upvote_errors_name_the_entry() {
    let no_id = normalize_upvotes(Some(vec![upvote(None, Some("a"))]), "now").unwrap_err();
    assert_eq!(no_id, FetchError { stream: SourceKind::Upvote, problem: FeedProblem::NoItemId(0) });
    let no_title = normalize_upvotes(
        Some(vec![upvote(Some("BV1"), Some("a")), upvote(Some("BV2"), None)]),
        "now",
    )
    .unwrap_err();
    assert_eq!(
        no_title,
        FetchError { stream: SourceKind::Upvote, problem: FeedProblem::NoTitle(1) }
    );
    let no_list = normalize_upvotes(None, "now").unwrap_err();
    assert_eq!(no_list.problem, FeedProblem::NoList);
}

#[test]
fn notification_text_has_title_link_and_time() {
    let rec = record("BV1xx", "Hello", SourceKind::Upvote);
    assert_eq!(
        notification_text(&rec).unwrap(),
        "<b>Hello</b>\nhttps://www.bilibili.com/video/BV1xx/\nAt: <i>2024-01-01T00:00:00+08:00</i>"
    );
    let bad = record("av123", "Hello", SourceKind::Upvote);
    assert_eq!(notification_text(&bad).unwrap_err().bid, "av123");
}
