use outl::guard::{match_blocks_guarded, MatchGuardError, OrphanGuard, OrphanVolume};
use outl::id::NodeId;
use outl::sidecar::SidecarBlock;

#[test]
fn an_ordinary_section_delete_passes() {
    let guard = OrphanGuard::Enforced;
    assert!(guard
        .check(OrphanVolume { orphaned: 10, previously_known: 30 })
        .is_ok());
}

#[test]
fn emptying_a_page_trips_the_relative_arm() {
    let guard = OrphanGuard::Enforced;
    let err = guard
        .check(OrphanVolume { orphaned: 24, previously_known: 24 })
        .expect_err("a page that lost every block must not be applied silently");
    assert!(matches!(err, MatchGuardError::BulkDelete { .. }));
}

#[test]
fn a_small_page_stays_unguarded() {
    let guard = OrphanGuard::Enforced;
    assert!(guard
        .check(OrphanVolume { orphaned: 4, previously_known: 4 })
        .is_ok());
}

#[test]
fn a_large_partial_delete_trips_the_absolute_arm() {
    let guard = OrphanGuard::Enforced;
    let err = guard
        .check(OrphanVolume { orphaned: 5_000, previously_known: 20_000 })
        .expect_err("5,000 blocks in one pass is not an edit");
    assert!(matches!(err, MatchGuardError::BulkDelete { .. }));
}

#[test]
fn nothing_deleted_never_trips() {
    let guard = OrphanGuard::Enforced;
    assert!(guard
        .check(OrphanVolume { orphaned: 0, previously_known: 0 })
        .is_ok());
}

#[test]
fn the_escape_hatch_lets_a_full_wipe_through() {
    let err = OrphanGuard::Enforced.check(OrphanVolume { orphaned: 9_000, previously_known: 9_000 });
    assert!(err.is_err(), "the default policy must refuse this");
    assert!(
        OrphanGuard::Disabled
            .check(OrphanVolume { orphaned: 9_000, previously_known: 9_000 })
            .is_ok(),
        "an explicit opt-in must be able to apply the same deletion"
    );
}

// ── further cases ───────────────────────────────────────────────────────────────────────────────────────────────

fn old_page(blocks: usize) -> Vec<SidecarBlock> {
    (0..blocks)
        .map(|i| SidecarBlock::from_text(NodeId(i as u128 + 1), i + 1, 0, format!("block {i}")))
        .collect()
}

#[test]
fn the_share_arm_fires_just_past_three_quarters() {
    let g = OrphanGuard::Enforced;
    assert!(g.check(OrphanVolume { orphaned: 15, previously_known: 20 }).is_ok());
    assert!(g.check(OrphanVolume { orphaned: 16, previously_known: 20 }).is_err());
    assert!(g.check(OrphanVolume { orphaned: 500, previously_known: 100_000 }).is_ok());
    assert!(g.check(OrphanVolume { orphaned: 501, previously_known: 100_000 }).is_err());
}

#[test]
fn the_refusal_carries_the_volume() {
    let v = OrphanVolume { orphaned: 30, previously_known: 30 };
    match OrphanGuard::Enforced.check(v) {
        Err(MatchGuardError::BulkDelete { volume }) => assert_eq!(volume, v),
        Ok(()) => panic!("must refuse"),
    }
}

#[test]
fn the_default_guard_is_enforced() {
    assert_eq!(OrphanGuard::default(), OrphanGuard::Enforced);
}

#[test]
fn a_truncated_md_is_refused_and_nothing_is_returned_to_delete() {
    let old = old_page(40);
    let matched: (Vec<u32>, Vec<NodeId>) = (vec![], old.iter().map(|b| b.id).collect());
    let err = match_blocks_guarded(matched, &old, &OrphanGuard::Enforced)
        .expect_err("an emptied page must be refused");
    match err {
        MatchGuardError::BulkDelete { volume } => {
            assert_eq!(volume.orphaned, 40);
            assert_eq!(volume.previously_known, 40);
        }
    }
}

#[test]
fn an_ordinary_edit_passes_through_unchanged() {
    let old = old_page(30);
    let orphans: Vec<NodeId> = old[..5].iter().map(|b| b.id).collect();
    let matched = (vec![1u32, 2, 3], orphans.clone());
    let (m, o) = match_blocks_guarded(matched, &old, &OrphanGuard::Enforced).unwrap();
    assert_eq!(m, vec![1, 2, 3]);
    assert_eq!(o, orphans);
}

#[test]
fn the_escape_hatch_returns_the_full_orphan_list() {
    let old = old_page(40);
    let matched: (Vec<u32>, Vec<NodeId>) = (vec![], old.iter().map(|b| b.id).collect());
    let (_, o) = match_blocks_guarded(matched, &old, &OrphanGuard::Disabled).unwrap();
    assert_eq!(o.len(), 40);
}

#[test]
fn the_refusal_names_the_volume_and_the_way_out() {
    let err = OrphanGuard::Enforced
        .check(OrphanVolume { orphaned: 30, previously_known: 30 })
        .expect_err("must refuse");
    let msg = err.message();
    assert!(msg.contains("30 of 30"), "counts must be in the message: {msg}");
    assert!(msg.contains("nothing was written"), "the message must say the page is untouched: {msg}");
    assert!(msg.contains("escape hatch"), "the message must point at the way out: {msg}");
}

#[test]
fn the_volume_prints_counts_and_a_rounded_share() {
    assert_eq!(
        OrphanVolume { orphaned: 30, previously_known: 30 }.describe(),
        "30 of 30 known block(s), 100%"
    );
    assert_eq!(
        OrphanVolume { orphaned: 2, previously_known: 3 }.describe(),
        "2 of 3 known block(s), 67%"
    );
    // A tie rounds to even, as `{:.0}` prints 12.5.
    assert_eq!(
        OrphanVolume { orphaned: 1, previously_known: 8 }.describe(),
        "1 of 8 known block(s), 12%"
    );
    assert_eq!(
        OrphanVolume { orphaned: 0, previously_known: 0 }.describe(),
        "0 of 0 known block(s), 0%"
    );
    assert_eq!(
        MatchGuardError::BulkDelete { volume: OrphanVolume { orphaned: 1, previously_known: 1 } }.message(),
        "refusing to delete 1 of 1 known block(s), 100% in one pass — nothing was written, \
         the page is left exactly as the op log has it. Re-run with the bulk-delete escape \
         hatch if the deletion is intentional"
    );
    // The share as a float prints the same.
    assert_eq!(format!("{:.0}", 1.0f64 / 8.0 * 100.0), "12");
    assert_eq!(format!("{:.0}", 2.0f64 / 3.0 * 100.0), "67");
}
