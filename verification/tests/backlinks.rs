use outl::backlinks::{sort_backlinks, Backlink};

fn bl(block_id: &str, slug: &str) -> Backlink {
    Backlink {
        block_id: block_id.to_string(),
        block_text: block_id.to_string(),
        source_page: Some(slug.to_string()),
    }
}

fn shape(links: &[Backlink]) -> Vec<(&str, &str)> {
    links
        .iter()
        .map(|l| (l.block_id.as_str(), l.source_page.as_deref().unwrap_or("")))
        .collect()
}

fn sample() -> Vec<Backlink> {
    vec![bl("01", "old"), bl("02", "old"), bl("03", "new"), bl("04", "new")]
}

#[test]
fn newest_first_puts_newest_page_on_top_dfs_within() {
    let mut links = sample();
    sort_backlinks(&mut links, true);
    assert_eq!(
        shape(&links),
        vec![("03", "new"), ("04", "new"), ("01", "old"), ("02", "old")]
    );
}

#[test]
fn oldest_first_is_the_group_reverse_dfs_within() {
    let mut links = sample();
    sort_backlinks(&mut links, false);
    assert_eq!(
        shape(&links),
        vec![("01", "old"), ("02", "old"), ("03", "new"), ("04", "new")]
    );
}

#[test]
fn interleaved_sources_become_contiguous_runs() {
    let mut links = vec![bl("01", "a"), bl("02", "b"), bl("03", "a"), bl("04", "b")];
    sort_backlinks(&mut links, true);
    assert_eq!(
        shape(&links),
        vec![("02", "b"), ("04", "b"), ("01", "a"), ("03", "a")]
    );
}

#[test]
fn orphan_blocks_cluster_under_the_empty_group() {
    let mut links = vec![bl("05", "page"), {
        let mut o = bl("02", "");
        o.source_page = None;
        o
    }];
    sort_backlinks(&mut links, true);
    assert_eq!(links[0].block_id, "05");
    assert_eq!(links[1].block_id, "02");
    assert!(links[1].source_page.is_none());
}

#[test]
fn empty_list_is_a_noop() {
    let mut links: Vec<Backlink> = Vec::new();
    sort_backlinks(&mut links, true);
    assert!(links.is_empty());
}

// ── further cases ───────────────────────────────────────────────────────────────────────────────────────────────

#[test]
fn three_interleaved_pages_each_form_one_run() {
    let mut links = vec![
        bl("01", "a"),
        bl("05", "c"),
        bl("02", "b"),
        bl("03", "a"),
        bl("06", "b"),
        bl("04", "c"),
    ];
    sort_backlinks(&mut links, true);
    assert_eq!(
        shape(&links),
        vec![("02", "b"), ("06", "b"), ("05", "c"), ("04", "c"), ("01", "a"), ("03", "a")]
    );
}
