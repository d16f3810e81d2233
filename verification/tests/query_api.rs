use outl::query::dsl::{Filter, KindFilter, SortKey, StatusFilter};
use outl::query::index::{BlockEntry, PageEntry, WorkspaceIndex};
use outl::query::{
    build_query_from_params, parse_duration_pub, run_query_dsl_with_index, run_query_structured,
    QueryParams, QueryRuntime,
};

fn entry(handle: &str, text: &str, slug: &str) -> BlockEntry {
    BlockEntry {
        ref_handle: handle.into(),
        source_slug: slug.into(),
        text: text.into(),
        text_fold: text.to_lowercase(),
        properties: vec![],
    }
}

fn index() -> WorkspaceIndex {
    WorkspaceIndex {
        blocks: vec![
            entry("blk-000001", "TODO zebra", "b-page"),
            entry("blk-000002", "DONE apple", "a-page"),
            entry("blk-000003", "TODO mango #ops", "a-page"),
            entry("blk-000004", "plain note", "a-page"),
        ],
        pages: vec![
            PageEntry { slug: "a-page".into(), is_journal: false },
            PageEntry { slug: "b-page".into(), is_journal: false },
        ],
    }
}

#[test]
fn dsl_results_are_filtered_sorted_and_limited() {
    let hits = run_query_dsl_with_index("status: open\nsort: page, text\nlimit: 2", &index())
        .unwrap()
        .unwrap();
    let handles: Vec<&str> = hits.iter().map(|h| h.handle.as_str()).collect();
    assert_eq!(handles, vec!["blk-000002", "blk-000003"]);
    assert_eq!(hits[0].status.as_deref(), Some("done"));
    assert_eq!(hits[0].text, "apple");
    assert_eq!(hits[0].page, "a-page");
}

#[test]
fn a_rejected_dsl_line_is_reported_as_line_n() {
    let r = run_query_dsl_with_index("bogus: x", &index()).unwrap();
    let msg = r.unwrap_err();
    assert!(msg.starts_with("line 1: "), "{msg}");
}

#[test]
fn an_overflowing_duration_is_reported_as_none() {
    assert!(run_query_dsl_with_index("since: 700000000w", &index()).is_none());
}

#[test]
fn structured_params_build_the_same_filters() {
    let p = QueryParams {
        status: Some("todo".into()),
        tag: Some("ops".into()),
        kind: Some("page".into()),
        since: Some("2w".into()),
        text: Some("mango".into()),
        sort: vec!["status".into(), "page".into()],
        limit: Some(3),
        ..Default::default()
    };
    let q = build_query_from_params(&p).unwrap();
    assert_eq!(q.filters.len(), 5);
    assert!(matches!(q.filters[0], Filter::Status(StatusFilter::Todo)));
    assert!(matches!(&q.filters[1], Filter::Tag(t) if t == "ops"));
    assert!(matches!(q.filters[2], Filter::Kind(KindFilter::Page)));
    assert!(matches!(q.filters[3], Filter::Since(14)));
    assert!(matches!(&q.filters[4], Filter::Text(t) if t == "mango"));
    assert!(matches!(q.sort[0], SortKey::Status));
    assert_eq!(q.limit, Some(3));
}

#[test]
fn each_invalid_parameter_names_itself() {
    let bad_status = QueryParams { status: Some("maybe".into()), ..Default::default() };
    assert_eq!(
        build_query_from_params(&bad_status).unwrap_err(),
        "invalid status 'maybe' (use todo|doing|done|open)"
    );
    let bad_kind = QueryParams { kind: Some("wiki".into()), ..Default::default() };
    assert_eq!(
        build_query_from_params(&bad_kind).unwrap_err(),
        "invalid kind 'wiki' (use journal|page)"
    );
    let bad_sort = QueryParams { sort: vec!["date".into()], ..Default::default() };
    assert_eq!(
        build_query_from_params(&bad_sort).unwrap_err(),
        "invalid sort key 'date' (use page|status|text)"
    );
    let bad_since = QueryParams { since: Some("3y".into()), ..Default::default() };
    assert_eq!(
        build_query_from_params(&bad_since).unwrap_err(),
        "since: unknown unit 'y' (use d, w, or m)"
    );
}

#[test]
fn durations_in_days_weeks_and_months() {
    assert_eq!(parse_duration_pub("7d"), Ok(7));
    assert_eq!(parse_duration_pub("2w"), Ok(14));
    assert_eq!(parse_duration_pub("3m"), Ok(90));
    assert_eq!(
        parse_duration_pub(""),
        Err("since requires a duration like '7d', '2w', '3m'".to_string())
    );
    assert_eq!(parse_duration_pub("xd"), Err("since: invalid number in 'xd'".to_string()));
}

#[test]
fn an_empty_parameter_set_matches_every_block() {
    let hits = run_query_structured(&QueryParams::default(), &index()).unwrap().unwrap();
    assert_eq!(hits.len(), 4);
    assert_eq!(hits[3].status, None);
}

#[test]
fn the_runtime_renders_embeds_one_per_line() {
    let rt = QueryRuntime;
    assert_eq!(rt.language(), "query");
    assert!(rt.auto_run());
    assert!(rt.needs_workspace_index());
    let out = rt.execute("tag: ops", &index()).unwrap().unwrap();
    assert_eq!(out, "!((blk-000003))");
    let out = rt.execute("status: todo\nsort: text", &index()).unwrap().unwrap();
    assert_eq!(out, "!((blk-000003))\n!((blk-000001))");
    let none = rt.execute("page: nowhere", &index()).unwrap().unwrap();
    assert_eq!(none, "");
}

#[test]
fn the_same_query_over_the_same_index_answers_the_same() {
    let a = run_query_dsl_with_index("sort: text", &index()).unwrap().unwrap();
    let b = run_query_dsl_with_index("sort: text", &index()).unwrap().unwrap();
    let ha: Vec<&str> = a.iter().map(|h| h.handle.as_str()).collect();
    let hb: Vec<&str> = b.iter().map(|h| h.handle.as_str()).collect();
    assert_eq!(ha, hb);
    assert_eq!(ha, vec!["blk-000002", "blk-000003", "blk-000004", "blk-000001"]);
}
