use outl::prop_edit::{block_property, set_block_property, set_page_property, toggle_pinned};

#[test]
fn a_rule_with_spaces_is_not_truncated_at_the_first_word() {
    let mut props: Vec<(String, String)> = vec![];
    set_block_property(&mut props, "remind", "3pm every 1h until DONE");
    assert_eq!(
        block_property(&props, "remind").as_deref(),
        Some("3pm every 1h until DONE")
    );
}

#[test]
fn an_empty_value_is_the_delete_path() {
    let mut props: Vec<(String, String)> = vec![];
    set_block_property(&mut props, "remind", "9am");
    set_block_property(&mut props, "remind", "");
    assert_eq!(block_property(&props, "remind"), None);
    assert!(props.is_empty(), "the pair has to leave the AST, not just stop being found");
}

#[test]
fn a_differently_cased_key_is_replaced_not_duplicated() {
    let mut props = vec![("Remind".to_string(), "9am".to_string())];
    set_block_property(&mut props, "remind", "3pm");
    assert_eq!(props.len(), 1, "expected the existing pair to be replaced, got {props:?}");
    assert_eq!(block_property(&props, "REMIND").as_deref(), Some("3pm"));
}

#[test]
fn a_differently_cased_key_is_deleted_too() {
    let mut props = vec![("Remind".to_string(), "9am".to_string())];
    set_block_property(&mut props, "remind", "");
    assert!(props.is_empty(), "expected the delete to reach it, got {props:?}");
}

// ── further cases ───────────────────────────────────────────────────────────────────────────────────────────────

#[test]
fn the_status_line_says_what_happened() {
    let mut props = vec![];
    assert_eq!(set_block_property(&mut props, "owner", "ana"), "added owner = ana");
    assert_eq!(set_block_property(&mut props, "Owner", "bo"), "set Owner = bo");
    assert_eq!(props[0].0, "owner", "the existing key keeps its spelling");
    assert_eq!(set_block_property(&mut props, "owner", ""), "removed property `owner`");
}

#[test]
fn page_keys_compare_exactly() {
    let mut props = vec![("Title".to_string(), "A".to_string())];
    assert_eq!(set_page_property(&mut props, "title", "B"), "added page title = B");
    assert_eq!(props.len(), 2);
    assert_eq!(set_page_property(&mut props, "title", "C"), "set page title = C");
    assert_eq!(set_page_property(&mut props, "Title", ""), "removed page property `Title`");
    assert_eq!(props, vec![("title".to_string(), "C".to_string())]);
}

#[test]
fn toggling_the_pin_flips_it() {
    let mut props = vec![("pinned".to_string(), " Yes ".to_string())];
    assert!(toggle_pinned(&mut props));
    assert!(props.is_empty());
    assert!(!toggle_pinned(&mut props));
    assert_eq!(props, vec![("pinned".to_string(), "true".to_string())]);
    let mut falsy = vec![("pinned".to_string(), "no".to_string())];
    assert!(!toggle_pinned(&mut falsy));
    assert_eq!(falsy, vec![("pinned".to_string(), "true".to_string())]);
}
