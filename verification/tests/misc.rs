use outl::desync::{child_indices, is_desynced, lockstep_matches, subtree_len, FlatBlock, OutlineNode};
use outl::id::NodeId;
use outl::plugin_init::{index_ts, package_json, plugin_json, readme};
use outl::reconcile::{is_stale, orphan_lines, reconcile_pass, ReconcilePass};
use outl::guard::OrphanGuard;
use outl::sidecar::{file_hash, Sidecar, SidecarBlock};
use outl::view::{actionable_warnings, banner_height};

fn node(text: &str, children: Vec<OutlineNode>) -> OutlineNode {
    OutlineNode { text: text.into(), children, properties: vec![] }
}

#[test]
fn a_subtree_counts_itself_and_every_descendant() {
    let t = node("a", vec![node("b", vec![node("c", vec![])]), node("d", vec![])]);
    assert_eq!(subtree_len(&t), 4);
    assert_eq!(subtree_len(&node("x", vec![])), 1);
}

#[test]
fn lockstep_needs_equal_counts_and_hashes() {
    let entries: Vec<SidecarBlock> = ["one", "two"]
        .iter()
        .enumerate()
        .map(|(i, t)| SidecarBlock::from_text(NodeId(i as u128), i + 1, 0, t.to_string()))
        .collect();
    let flat = vec![
        FlatBlock { indent: 0, text: "one".into() },
        FlatBlock { indent: 1, text: "  two ".into() },
    ];
    assert!(lockstep_matches(&flat, &entries));
    assert!(!lockstep_matches(&flat[..1], &entries));
    let changed = vec![flat[0].clone(), FlatBlock { indent: 0, text: "three".into() }];
    assert!(!lockstep_matches(&changed, &entries));
}

#[test]
fn reconcile_flags_pick_the_pass() {
    assert_eq!(reconcile_pass(true, true), ReconcilePass::AheadOfLog(OrphanGuard::Disabled));
    assert_eq!(reconcile_pass(true, false), ReconcilePass::AheadOfLog(OrphanGuard::Enforced));
    assert_eq!(reconcile_pass(false, true), ReconcilePass::AllowBulkDelete);
    assert_eq!(reconcile_pass(false, false), ReconcilePass::ListOrphans);
}

#[test]
fn a_page_is_stale_when_its_hash_moved() {
    let disk = "- a\n";
    assert!(!is_stale(&file_hash(disk), disk));
    assert!(is_stale(&file_hash("- b\n"), disk));
}

#[test]
fn blank_lines_are_not_orphans() {
    let ls = orphan_lines("a\n  \nb\n\n");
    let ls: Vec<String> = ls.into_iter().map(|l| l.into_iter().collect()).collect();
    assert_eq!(ls, vec!["a", "b"]);
}

#[test]
fn scaffold_files_carry_the_names() {
    let m = plugin_json("com.example.x", "X");
    assert!(m.contains("\"id\": \"com.example.x\""));
    assert!(m.contains("\"title\": \"X: say hello\""));
    let p = package_json("x");
    assert!(p.contains("\"name\": \"outl-x\""));
    let i = index_ts("X");
    assert!(i.contains("Hello from X!"));
    let r = readme("X", "com.example.x", "x");
    assert!(r.starts_with("# X\n"));
    assert!(r.contains("outl plugin install ./x"));
    assert!(r.contains("outl plugin run com.example.x hello"));
}

#[test]
fn header_lines_are_not_worth_a_warning() {
    let raws = vec!["  ## Title".to_string(), "free paragraph".to_string(), "#tag".to_string()];
    let w = actionable_warnings(&raws);
    assert_eq!(w, vec!["free paragraph", "#tag"]);
    assert_eq!(banner_height(&raws), 3);
    assert_eq!(banner_height(&vec!["# only a header".to_string()]), 0);
}

use outl::doctor::{
    classify_projection, preview_text, removal_headline_text, stale_warning_text, ProjectionVerdict,
};

#[test]
fn each_projection_shape_gets_its_verdict() {
    let disk = "- a\n";
    let h = file_hash(disk);
    assert_eq!(classify_projection(None, false, None, disk, false, 0, 1), ProjectionVerdict::MissingMd);
    assert_eq!(classify_projection(Some(disk), false, None, disk, false, 0, 1), ProjectionVerdict::SidecarOnly);
    assert_eq!(
        classify_projection(Some(disk), false, None, "- b\n", false, 0, 1),
        ProjectionVerdict::DiffersWithoutSidecar
    );
    assert_eq!(
        classify_projection(Some(disk), true, Some("sha256:other"), disk, false, 0, 1),
        ProjectionVerdict::PendingEdit
    );
    assert_eq!(classify_projection(Some(disk), true, Some(&h), disk, false, 0, 1), ProjectionVerdict::Healthy);
    assert_eq!(classify_projection(Some(disk), true, Some(&h), "- b\n", false, 0, 1), ProjectionVerdict::Stale(1));
    assert_eq!(
        classify_projection(Some(disk), true, Some(&h), "- b\n", false, 2, 1),
        ProjectionVerdict::AheadOfLog(2)
    );
}

#[test]
fn a_withheld_projection_is_not_a_pending_edit_unless_the_log_is_damaged() {
    let disk = "- a\n";
    assert_eq!(classify_projection(Some(disk), true, Some(""), "- b\n", false, 0, 1), ProjectionVerdict::Stale(1));
    assert_eq!(
        classify_projection(Some(disk), true, Some(""), "- b\n", true, 0, 1),
        ProjectionVerdict::PendingEdit
    );
}

#[test]
fn previews_are_one_trimmed_line_of_at_most_eighty_chars() {
    assert_eq!(preview_text("  a\nb\r "), "a b");
    assert_eq!(preview_text(" \n "), "(empty block)");
    let long = "x".repeat(81);
    assert_eq!(preview_text(&long), format!("{}…", "x".repeat(80)));
    assert_eq!(preview_text(&"y".repeat(80)), "y".repeat(80));
}

fn synced_sidecar(text: &str, page: u128, blocks: &[u128]) -> Sidecar {
    Sidecar {
        version: 1,
        page_id: NodeId(page),
        last_synced_hash: file_hash(text),
        last_synced_at: "2026-01-01T00:00:00+00:00".into(),
        blocks: blocks
            .iter()
            .enumerate()
            .map(|(i, id)| SidecarBlock::from_text(NodeId(*id), i + 1, 0, "b".into()))
            .collect(),
        pipeline_version: 1,
    }
}

#[test]
fn a_synced_page_whose_ids_the_tree_knows_is_not_desynced() {
    let text = "- one\n- two\n";
    let sc = synced_sidecar(text, 1, &[2, 3]);
    let known = vec![NodeId(1), NodeId(2), NodeId(3)];
    assert!(!is_desynced(text, Some(&sc), &known));
}

#[test]
fn an_unknown_block_or_page_id_marks_a_synced_page_desynced() {
    let text = "- one\n- two\n";
    let sc = synced_sidecar(text, 1, &[2, 3]);
    assert!(is_desynced(text, Some(&sc), &vec![NodeId(1), NodeId(2)]));
    assert!(is_desynced(text, Some(&sc), &vec![NodeId(2), NodeId(3)]));
}

#[test]
fn a_stale_hash_or_missing_sidecar_is_left_to_the_orphan_scan() {
    let sc = synced_sidecar("- old\n", 1, &[2]);
    // The file changed since the sidecar was written.
    assert!(!is_desynced("- new\n", Some(&sc), &vec![]));
    assert!(!is_desynced("- new\n", None, &vec![]));
}

#[test]
fn child_indices_skip_the_subtrees_of_earlier_siblings() {
    let blocks = vec![
        node("a", vec![node("a1", vec![]), node("a2", vec![node("a2x", vec![])])]),
        node("b", vec![]),
        node("c", vec![node("c1", vec![])]),
    ];
    // Preorder: a a1 a2 a2x b c c1 → a at 0, b at 4, c at 5.
    assert_eq!(child_indices(&blocks, 0), vec![0, 4, 5]);
    // a's children start right after its own entry: a1 at 1, a2 at 2.
    assert_eq!(child_indices(&blocks[0].children, 1), vec![1, 2]);
    assert_eq!(child_indices(&[], 7), Vec::<usize>::new());
}

#[test]
fn a_stale_verdict_carries_what_reprojection_removes() {
    let disk = "- a\n- b\n- c\n";
    let h = file_hash(disk);
    assert_eq!(
        classify_projection(Some(disk), true, Some(&h), "- a\n", false, 0, 2),
        ProjectionVerdict::Stale(2)
    );
    assert_eq!(
        stale_warning_text("pages/x.md", 2),
        "pages/x.md: `.md` is a stale projection — the op log renders different content \
         (re-projecting removes 2 content line(s) from disk)"
    );
}

#[test]
fn the_removal_headline_sums_lines_and_counts_losing_pages() {
    assert_eq!(removal_headline_text(&[]), None);
    assert_eq!(removal_headline_text(&[0, 0]), None);
    assert_eq!(
        removal_headline_text(&[3, 0, 1423]).as_deref(),
        Some(
            "re-projecting the stale page(s) above removes 1426 content line(s) across 2 page(s) \
             — read the list before running `--repair`"
        )
    );
}
