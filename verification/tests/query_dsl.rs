use outl::query::dsl::{parse, parse_outcome, Filter, ParseOutcome, SortKey, StatusFilter};

#[test]
fn parses_status_todo() {
    let q = parse("status: todo").unwrap();
    assert_eq!(q.filters.len(), 1);
    assert!(matches!(q.filters[0], Filter::Status(StatusFilter::Todo)));
}

#[test]
fn parses_multiple_filters() {
    let q = parse("status: todo\ntag: ops\nlimit: 10").unwrap();
    assert_eq!(q.filters.len(), 2);
    assert_eq!(q.limit, Some(10));
}

#[test]
fn ignores_comments() {
    let q = parse("# comment\nstatus: done").unwrap();
    assert_eq!(q.filters.len(), 1);
}

#[test]
fn parses_sort() {
    let q = parse("sort: page, status").unwrap();
    assert_eq!(q.sort.len(), 2);
}

#[test]
fn parses_since() {
    let q = parse("since: 2w").unwrap();
    assert!(matches!(q.filters[0], Filter::Since(14)));
}

#[test]
fn rejects_unknown_key() {
    assert!(parse("bogus: value").is_err());
}

#[test]
fn parses_not_tag() {
    let q = parse("not-tag: western").unwrap();
    assert_eq!(q.filters.len(), 1);
    assert!(matches!(&q.filters[0], Filter::NotTag(t) if t == "western"));
}

#[test]
fn parses_prop_with_colon() {
    let q = parse("prop priority: high").unwrap();
    assert_eq!(q.filters.len(), 1);
    assert!(matches!(&q.filters[0], Filter::Prop(k, v) if k == "priority" && v == "high"));
}

#[test]
fn parses_prop_with_space() {
    let q = parse("prop priority high").unwrap();
    assert_eq!(q.filters.len(), 1);
    assert!(matches!(&q.filters[0], Filter::Prop(k, v) if k == "priority" && v == "high"));
}

#[test]
fn parses_not_prop_key_only() {
    let q = parse("not-prop: status").unwrap();
    assert_eq!(q.filters.len(), 1);
    assert!(matches!(&q.filters[0], Filter::NotProp(k, None) if k == "status"));
}

#[test]
fn parses_not_prop_key_and_value() {
    let q = parse("not-prop: status: done").unwrap();
    assert_eq!(q.filters.len(), 1);
    assert!(matches!(&q.filters[0], Filter::NotProp(k, Some(v)) if k == "status" && v == "done"));
}

#[test]
fn parses_page_filter() {
    let q = parse("page: inbox").unwrap();
    assert_eq!(q.filters.len(), 1);
    assert!(matches!(&q.filters[0], Filter::Page(s) if s == "inbox"));
}

#[test]
fn prop_requires_value() {
    assert!(parse("prop priority").is_err());
}

#[test]
fn property_is_not_prop() {
    assert!(parse("property: foo").is_err());
}

#[test]
fn not_property_is_not_not_prop() {
    assert!(parse("not-property: foo").is_err());
}

#[test]
fn not_tag_combined_with_tag() {
    let q = parse("tag: ops\nnot-tag: western").unwrap();
    assert_eq!(q.filters.len(), 2);
}

// ── further cases ───────────────────────────────────────────────────────────────────────────────────────────────

#[test]
fn an_error_names_its_line_and_renders_as_line_n_message() {
    let e = parse("status: todo\nbogus: value").unwrap_err();
    assert_eq!(e.line, 2);
    assert!(e.message().starts_with("line 2: "));
}

#[test]
fn invalid_status_is_rejected_with_the_value() {
    let e = parse("status: maybe").unwrap_err();
    assert_eq!(e.line, 1);
    assert!(e.msg.contains("maybe"));
}

#[test]
fn sort_keys_keep_their_order() {
    let q = parse("sort: text, page").unwrap();
    assert!(matches!(q.sort[0], SortKey::Text));
    assert!(matches!(q.sort[1], SortKey::Page));
}

#[test]
fn since_in_months_is_thirty_days_each() {
    let q = parse("since: 3m").unwrap();
    assert!(matches!(q.filters[0], Filter::Since(90)));
    let q = parse("since: 5d").unwrap();
    assert!(matches!(q.filters[0], Filter::Since(5)));
}

#[test]
fn since_with_an_unknown_unit_is_rejected() {
    assert!(parse("since: 5y").is_err());
    assert!(parse("since: xd").is_err());
}

#[test]
fn a_day_count_past_u32_is_reported_not_parsed() {
    // 700 million weeks is more days than u32 holds.
    assert!(matches!(parse_outcome("since: 700000000w"), ParseOutcome::Panics));
    assert!(matches!(parse_outcome("since: 7w"), ParseOutcome::Parsed(_)));
}

#[test]
fn an_empty_source_is_an_empty_query() {
    let q = parse("").unwrap();
    assert!(q.filters.is_empty());
    assert!(q.sort.is_empty());
    assert_eq!(q.limit, None);
}

#[test]
fn blank_and_comment_lines_leave_the_query_unchanged() {
    let plain = parse("status: todo\ntag: work\nsort: page\nlimit: 5").unwrap();
    let padded = parse("\n# header\nstatus: todo\n   \n  # note\ntag: work\n\nsort: page\nlimit: 5\n# end")
        .unwrap();
    assert_eq!(format!("{:?}", plain.filters), format!("{:?}", padded.filters));
    assert_eq!(plain.sort, padded.sort);
    assert_eq!(plain.limit, padded.limit);
}
