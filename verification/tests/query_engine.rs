use chrono::Datelike;
use outl::query::dsl::{Filter, KindFilter, SortKey, StatusFilter};
use outl::query::engine::{run_at, sort_hits, split_todo, Hit, Status};
use outl::query::index::{BlockEntry, PageEntry, WorkspaceIndex};

fn day(y: i32, m: u32, d: u32) -> i64 {
    chrono::NaiveDate::from_ymd_opt(y, m, d).unwrap().num_days_from_ce() as i64
}

fn make_entry(text: &str, slug: &str, props: Vec<(&str, &str)>) -> BlockEntry {
    BlockEntry {
        ref_handle: "blk-test".into(),
        source_slug: slug.into(),
        text: text.into(),
        text_fold: text.to_lowercase(),
        properties: props
            .into_iter()
            .map(|(k, v)| (k.to_string(), v.to_string()))
            .collect(),
    }
}

#[test]
fn split_todo_open() {
    assert_eq!(split_todo("TODO buy milk"), (Some(Status::Todo), "buy milk"));
}

#[test]
fn split_todo_doing() {
    assert_eq!(split_todo("DOING buy milk"), (Some(Status::Doing), "buy milk"));
}

#[test]
fn split_todo_done() {
    assert_eq!(split_todo("DONE buy milk"), (Some(Status::Done), "buy milk"));
}

#[test]
fn split_todo_none() {
    assert_eq!(split_todo("just text"), (None, "just text"));
}

#[test]
fn split_todo_sees_a_marker_behind_a_quote_marker() {
    assert_eq!(split_todo("> TODO buy milk"), (Some(Status::Todo), "buy milk"));
    assert_eq!(split_todo("> [ ] buy milk"), (Some(Status::Todo), "buy milk"));
    assert_eq!(split_todo("TODO > buy milk"), (Some(Status::Todo), "> buy milk"));
    assert_eq!(split_todo("> > TODO x"), (None, "> > TODO x"));
    assert_eq!(split_todo("> just a quote"), (None, "> just a quote"));
}

#[test]
fn split_todo_reads_the_checkbox_spelling() {
    assert_eq!(split_todo("[ ] buy milk"), (Some(Status::Todo), "buy milk"));
    assert_eq!(split_todo("[/] buy milk"), (Some(Status::Doing), "buy milk"));
    assert_eq!(split_todo("[x] buy milk"), (Some(Status::Done), "buy milk"));
    assert_eq!(
        split_todo("[x](https://example.com)"),
        (None, "[x](https://example.com)")
    );
}

#[test]
fn split_todo_reads_the_quote_first_shape() {
    assert_eq!(split_todo("> TODO buy milk"), (Some(Status::Todo), "buy milk"));
    assert_eq!(split_todo("> [ ] buy milk"), (Some(Status::Todo), "buy milk"));
    assert_eq!(split_todo("> [x] buy milk"), (Some(Status::Done), "buy milk"));
    assert_eq!(split_todo("> just a quote"), (None, "> just a quote"));
    assert_eq!(split_todo("> > TODO foo"), (None, "> > TODO foo"));
}

#[test]
fn doing_is_neither_todo_nor_done_to_a_filter() {
    let today = day(2026, 1, 1);
    let text = "DOING ship the parser";
    let entry = BlockEntry {
        ref_handle: "blk-aaaaaa".into(),
        source_slug: "notes".into(),
        text: text.into(),
        text_fold: text.to_lowercase(),
        properties: Vec::new(),
    };
    let (status, _) = split_todo(&entry.text);
    for (filter, expected) in [
        (StatusFilter::Todo, false),
        (StatusFilter::Doing, true),
        (StatusFilter::Done, false),
        (StatusFilter::Open, true),
    ] {
        assert_eq!(
            outl::query::engine::matches(&Filter::Status(filter), &entry, status, None, today),
            expected,
            "{filter:?} against a DOING block"
        );
    }
}

#[test]
fn not_tag_excludes_matching_blocks() {
    let today = day(2026, 1, 1);
    let with_tag = make_entry("TODO thing #western", "notes", vec![]);
    let without_tag = make_entry("TODO thing #eastern", "notes", vec![]);
    let filter = Filter::NotTag("western".into());
    assert!(!outl::query::engine::matches(&filter, &with_tag, None, None, today));
    assert!(outl::query::engine::matches(&filter, &without_tag, None, None, today));
}

#[test]
fn prop_filter_matches_key_value() {
    let today = day(2026, 1, 1);
    let entry = make_entry("TODO thing", "notes", vec![("priority", "high")]);
    let filter = Filter::Prop("priority".into(), "high".into());
    assert!(outl::query::engine::matches(&filter, &entry, None, None, today));
    let wrong_val = Filter::Prop("priority".into(), "low".into());
    assert!(!outl::query::engine::matches(&wrong_val, &entry, None, None, today));
}

#[test]
fn prop_filter_is_case_insensitive() {
    let today = day(2026, 1, 1);
    let entry = make_entry("TODO thing", "notes", vec![("Priority", "HIGH")]);
    let filter = Filter::Prop("priority".into(), "high".into());
    assert!(outl::query::engine::matches(&filter, &entry, None, None, today));
}

#[test]
fn not_prop_key_only_excludes_any_block_with_that_key() {
    let today = day(2026, 1, 1);
    let with_prop = make_entry("TODO thing", "notes", vec![("status", "done")]);
    let without_prop = make_entry("TODO thing", "notes", vec![]);
    let filter = Filter::NotProp("status".into(), None);
    assert!(!outl::query::engine::matches(&filter, &with_prop, None, None, today));
    assert!(outl::query::engine::matches(&filter, &without_prop, None, None, today));
}

#[test]
fn not_prop_with_value_excludes_only_that_pair() {
    let today = day(2026, 1, 1);
    let entry = make_entry("TODO thing", "notes", vec![("status", "done")]);
    let filter = Filter::NotProp("status".into(), Some("done".into()));
    assert!(!outl::query::engine::matches(&filter, &entry, None, None, today));
    let other_val = Filter::NotProp("status".into(), Some("todo".into()));
    assert!(outl::query::engine::matches(&other_val, &entry, None, None, today));
}

#[test]
fn page_filter_matches_slug() {
    let today = day(2026, 1, 1);
    let entry = make_entry("TODO thing", "inbox", vec![]);
    let filter = Filter::Page("inbox".into());
    assert!(outl::query::engine::matches(&filter, &entry, None, None, today));
    let wrong = Filter::Page("archive".into());
    assert!(!outl::query::engine::matches(&wrong, &entry, None, None, today));
}

#[test]
fn combined_tag_and_not_tag() {
    let today = day(2026, 1, 1);
    let entry = make_entry("TODO thing #ops #western", "notes", vec![]);
    let tag_filter = Filter::Tag("ops".into());
    let not_tag_filter = Filter::NotTag("western".into());
    assert!(outl::query::engine::matches(&tag_filter, &entry, None, None, today));
    assert!(!outl::query::engine::matches(&not_tag_filter, &entry, None, None, today));
}

// ── further cases ───────────────────────────────────────────────────────────────────────────────────────────────

fn index() -> WorkspaceIndex {
    let mut a = make_entry("TODO write docs #ops", "2025-12-30", vec![]);
    a.ref_handle = "blk-aaaaaa".into();
    let mut b = make_entry("DONE ship release", "inbox", vec![("priority", "high")]);
    b.ref_handle = "blk-bbbbbb".into();
    let mut c = make_entry("just a note", "2025-06-01", vec![]);
    c.ref_handle = "blk-cccccc".into();
    WorkspaceIndex {
        blocks: vec![a, b, c],
        pages: vec![
            PageEntry { slug: "2025-12-30".into(), is_journal: true },
            PageEntry { slug: "inbox".into(), is_journal: false },
            PageEntry { slug: "2025-06-01".into(), is_journal: true },
        ],
    }
}

#[test]
fn run_keeps_document_order_and_strips_markers() {
    let hits = run_at(&index(), &vec![Filter::Status(StatusFilter::Open)], day(2026, 1, 1)).unwrap();
    let handles: Vec<&str> = hits.iter().map(|h| h.handle.as_str()).collect();
    assert_eq!(handles, vec!["blk-aaaaaa", "blk-bbbbbb"]);
    assert_eq!(hits[0].text, "write docs #ops");
    assert_eq!(hits[1].status, Some(Status::Done));
}

#[test]
fn since_keeps_only_recent_journal_blocks() {
    let hits = run_at(&index(), &vec![Filter::Since(7)], day(2026, 1, 1)).unwrap();
    assert_eq!(hits.len(), 1);
    assert_eq!(hits[0].handle, "blk-aaaaaa");
}

#[test]
fn kind_filters_split_journals_from_pages() {
    let j = run_at(&index(), &vec![Filter::Kind(KindFilter::Journal)], day(2026, 1, 1)).unwrap();
    assert_eq!(j.len(), 2);
    let p = run_at(&index(), &vec![Filter::Kind(KindFilter::Page)], day(2026, 1, 1)).unwrap();
    assert_eq!(p.len(), 1);
    assert_eq!(p[0].handle, "blk-bbbbbb");
}

#[test]
fn a_cutoff_before_the_calendar_is_reported() {
    // Three billion days before 2026 is before the first date chrono holds.
    let r = run_at(&index(), &vec![Filter::Since(3_000_000_000)], day(2026, 1, 1));
    assert!(r.is_none());
}

#[test]
fn text_filter_is_case_insensitive() {
    let hits = run_at(&index(), &vec![Filter::Text("SHIP".into())], day(2026, 1, 1)).unwrap();
    assert_eq!(hits.len(), 1);
    assert_eq!(hits[0].handle, "blk-bbbbbb");
}

fn hit(handle: &str, page: &str, status: Option<Status>, text: &str) -> Hit {
    Hit { handle: handle.into(), page_slug: page.into(), status, text: text.into() }
}

#[test]
fn sort_by_status_puts_open_work_first_and_is_stable() {
    let mut hits = vec![
        hit("1", "p", Some(Status::Done), "a"),
        hit("2", "p", None, "b"),
        hit("3", "p", Some(Status::Doing), "c"),
        hit("4", "p", Some(Status::Todo), "d"),
    ];
    sort_hits(&mut hits, &[SortKey::Status]);
    let order: Vec<&str> = hits.iter().map(|h| h.handle.as_str()).collect();
    assert_eq!(order, vec!["2", "4", "3", "1"]);
}

#[test]
fn the_first_sort_key_decides_and_the_next_breaks_ties() {
    let mut hits = vec![
        hit("1", "b", None, "x"),
        hit("2", "a", None, "z"),
        hit("3", "a", None, "y"),
    ];
    sort_hits(&mut hits, &[SortKey::Page, SortKey::Text]);
    let order: Vec<&str> = hits.iter().map(|h| h.handle.as_str()).collect();
    assert_eq!(order, vec!["3", "2", "1"]);
}

#[test]
fn status_wire_forms() {
    assert_eq!(Status::Todo.as_str(), "todo");
    assert_eq!(Status::Doing.as_str(), "doing");
    assert_eq!(Status::Done.as_str(), "done");
}
