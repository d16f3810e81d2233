use outl::batch::ApiCode;
use outl::cli::QueryArgs;
use outl::page_query::{select_pages, select_pages_at, PageRecord};
use outl::property::PropValue;

const ID_A: &str = "01ARZ3NDEKTSV4RRFFQ69G5FAV";
const ID_B: &str = "01BX5ZZKBKACTAV9WEVGEMMVRZ";
const ID_C: &str = "01BX5ZZKBKACTAV9WEVGEMMVS0";

fn args() -> QueryArgs {
    QueryArgs {
        tag: None,
        not_tag: None,
        priority: None,
        props: vec![],
        not_props: vec![],
        since: None,
        kind: None,
        raw: None,
        json: false,
    }
}

fn page(id: &str, slug: &str, kind: &str, date: Option<i64>) -> PageRecord {
    PageRecord {
        id: id.into(),
        slug: slug.into(),
        title: slug.into(),
        kind: kind.into(),
        date,
        tags: vec![],
        properties: vec![],
    }
}

fn pages() -> Vec<PageRecord> {
    let mut a = page(ID_A, "projects", "page", None);
    a.tags = vec!["work".into()];
    a.properties = vec![
        ("priority".into(), PropValue::Text("p1".into())),
        ("status".into(), PropValue::List(vec![PropValue::Tag("open".into())])),
    ];
    let mut b = page(ID_B, "2026-01-10", "journal", Some(100));
    b.tags = vec!["work".into(), "home".into()];
    b.properties = vec![("priority".into(), PropValue::Text("p2".into()))];
    let c = page(ID_C, "2025-12-01", "journal", Some(60));
    vec![a, b, c]
}

const TODAY: i64 = 110;

fn run(a: &QueryArgs) -> Vec<usize> {
    select_pages_at(a, &pages(), TODAY).unwrap().unwrap()
}

#[test]
fn no_filters_lists_every_page_in_order() {
    assert_eq!(run(&args()), vec![0, 1, 2]);
}

#[test]
fn raw_is_refused_as_an_invalid_argument() {
    let mut a = args();
    a.raw = Some("status: todo".into());
    let err = select_pages(&a, &pages()).unwrap().unwrap_err();
    assert_eq!(err.code, ApiCode::InvalidArg);
    assert_eq!(err.message, "--raw is reserved for the query DSL and not yet implemented");
}

#[test]
fn kind_and_since_narrow_the_pages() {
    let mut a = args();
    a.kind = Some("journal".into());
    assert_eq!(run(&a), vec![1, 2]);
    let mut a = args();
    a.since = Some("30d".into());
    // Undated plain pages are kept; journals before day 80 are not.
    assert_eq!(run(&a), vec![0, 1]);
}

#[test]
fn tags_must_be_mentioned_or_absent() {
    let mut a = args();
    a.tag = Some("work".into());
    assert_eq!(run(&a), vec![0, 1]);
    let mut a = args();
    a.not_tag = Some("home".into());
    assert_eq!(run(&a), vec![0, 2]);
}

#[test]
fn property_filters_match_scalars_and_list_elements() {
    let mut a = args();
    a.priority = Some("p1".into());
    assert_eq!(run(&a), vec![0]);
    let mut a = args();
    a.props = vec!["status = open".into()];
    assert_eq!(run(&a), vec![0]);
    let mut a = args();
    a.not_props = vec!["priority".into()];
    assert_eq!(run(&a), vec![2]);
    let mut a = args();
    a.not_props = vec!["priority=p2".into()];
    assert_eq!(run(&a), vec![0, 2]);
}

#[test]
fn malformed_flags_are_invalid_arguments() {
    let mut a = args();
    a.props = vec!["priority".into()];
    let err = select_pages_at(&a, &pages(), TODAY).unwrap().unwrap_err();
    assert_eq!(err.code, ApiCode::InvalidArg);
    assert_eq!(err.message, "--prop must be `KEY=VALUE`, got `priority`");
    let mut a = args();
    a.since = Some("soon".into());
    let err = select_pages_at(&a, &pages(), TODAY).unwrap().unwrap_err();
    assert_eq!(err.message, "--since `soon` is neither `Nd` nor ISO YYYY-MM-DD");
}

#[test]
fn a_page_whose_id_does_not_parse_is_never_listed() {
    let mut ps = pages();
    ps[1].id = "not-a-ulid".into();
    assert_eq!(select_pages_at(&args(), &ps, TODAY).unwrap().unwrap(), vec![0, 2]);
}
