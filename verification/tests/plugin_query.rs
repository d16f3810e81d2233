use outl::plugin_model::BlockView;
use outl::plugin_query::{block_matches, find_block, matching_blocks, BlockFilter};

fn block_with_props(id: &str, props: &[(&str, &str)]) -> BlockView {
    let mut properties: Vec<(String, String)> =
        props.iter().map(|(k, v)| (k.to_string(), v.to_string())).collect();
    properties.sort();
    BlockView {
        id: id.into(),
        text: "t".into(),
        todo: None,
        parent: None,
        page: "p".into(),
        properties,
    }
}

fn prop_filter(pairs: &[(&str, &str)]) -> BlockFilter {
    BlockFilter {
        prop: Some(pairs.iter().map(|(k, v)| (k.to_string(), Some(v.to_string()))).collect()),
        ..BlockFilter::default()
    }
}

#[test]
fn prop_filter_matches_exact_values() {
    let b = block_with_props("a", &[("verse", "16"), ("chapter", "3")]);
    assert!(block_matches(&b, &prop_filter(&[("verse", "16")])));
    assert!(block_matches(&b, &prop_filter(&[("verse", "16"), ("chapter", "3")])));
}

#[test]
fn prop_filter_is_exact_not_substring_or_casefolded() {
    let b = block_with_props("a", &[("verse", "16")]);
    assert!(!block_matches(&b, &prop_filter(&[("verse", "1")])));
    assert!(!block_matches(&b, &prop_filter(&[("verse", "6")])));
    assert!(!block_matches(&b, &prop_filter(&[("VERSE", "16")])));
}

#[test]
fn prop_filter_requires_every_key_to_hold() {
    let b = block_with_props("a", &[("verse", "16"), ("chapter", "3")]);
    assert!(!block_matches(&b, &prop_filter(&[("verse", "16"), ("chapter", "4")])));
}

#[test]
fn prop_filter_rejects_absent_keys_and_untagged_blocks() {
    let tagged = block_with_props("a", &[("verse", "16")]);
    let untagged = block_with_props("b", &[]);
    let missing_key = prop_filter(&[("book", "john")]);
    assert!(!block_matches(&tagged, &missing_key));
    assert!(!block_matches(&untagged, &missing_key));
    // An empty `prop` object constrains nothing.
    assert!(block_matches(&untagged, &prop_filter(&[])));
}

#[test]
fn prop_filter_ignores_a_non_object_prop_and_rejects_non_string_values() {
    let b = block_with_props("a", &[("verse", "16")]);
    // `prop` that is not an object reads as absent.
    assert!(block_matches(&b, &BlockFilter::default()));
    // A value that is not a string can never equal a flattened string.
    let numeric = BlockFilter {
        prop: Some(vec![("verse".to_string(), None)]),
        ..BlockFilter::default()
    };
    assert!(!block_matches(&b, &numeric));
}

#[test]
fn prop_filter_combines_with_the_other_filters() {
    let hit = block_with_props("a", &[("verse", "16")]);
    let other_page = block_with_props("b", &[("verse", "16")]);
    let f = BlockFilter {
        page: Some("p".into()),
        ..prop_filter(&[("verse", "16")])
    };
    assert!(block_matches(&hit, &f));
    let mut off = other_page;
    off.page = "elsewhere".into();
    assert!(!block_matches(&off, &f));
}

// ── further cases ─────────────────────────────────────────────────────

#[test]
fn todo_filter_needs_the_same_task_state() {
    let mut b = block_with_props("a", &[]);
    let f = BlockFilter { todo: Some("TODO".into()), ..BlockFilter::default() };
    assert!(!block_matches(&b, &f));
    b.todo = Some("DONE".into());
    assert!(!block_matches(&b, &f));
    b.todo = Some("TODO".into());
    assert!(block_matches(&b, &f));
}

#[test]
fn text_filter_is_a_substring_test() {
    let mut b = block_with_props("a", &[]);
    b.text = "read chapter three".into();
    let hit = BlockFilter { text_contains: Some("chapter".into()), ..BlockFilter::default() };
    let miss = BlockFilter { text_contains: Some("Chapter".into()), ..BlockFilter::default() };
    let empty = BlockFilter { text_contains: Some(String::new()), ..BlockFilter::default() };
    assert!(block_matches(&b, &hit));
    assert!(!block_matches(&b, &miss));
    assert!(block_matches(&b, &empty));
}

#[test]
fn matching_blocks_lists_passing_positions_in_order() {
    let mut blocks = vec![
        block_with_props("a", &[("verse", "16")]),
        block_with_props("b", &[]),
        block_with_props("c", &[("verse", "16")]),
    ];
    blocks[2].page = "other".into();
    let f = prop_filter(&[("verse", "16")]);
    assert_eq!(matching_blocks(&blocks, &f), vec![0, 2]);
    let g = BlockFilter { page: Some("p".into()), ..f };
    assert_eq!(matching_blocks(&blocks, &g), vec![0]);
    assert_eq!(matching_blocks(&blocks, &BlockFilter::default()), vec![0, 1, 2]);
}

#[test]
fn find_block_gives_the_first_position_with_that_id() {
    let blocks = vec![
        block_with_props("a", &[]),
        block_with_props("b", &[]),
        block_with_props("b", &[("k", "v")]),
    ];
    assert_eq!(find_block(&blocks, "b"), Some(1));
    assert_eq!(find_block(&blocks, "a"), Some(0));
    assert_eq!(find_block(&blocks, "z"), None);
}
