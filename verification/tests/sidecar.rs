use std::path::PathBuf;

use outl::id::NodeId;
use outl::sidecar::{
    accept_read, content_hash, derive_ref_handle, file_hash, legacy_sidecar_path_for,
    sidecar_path_for, Sidecar, SidecarBlock, CURRENT_PIPELINE_VERSION, REF_HANDLE_PREFIX,
    REF_HANDLE_TAIL_LEN, SIDECAR_VERSION,
};

fn new_id() -> NodeId {
    NodeId(ulid::Ulid::new().0)
}

#[test]
fn sidecar_path_is_visible_next_to_md() {
    let p = sidecar_path_for("/notes/pages/foo.md");
    assert_eq!(PathBuf::from(p), PathBuf::from("/notes/pages/foo.outl"));
}

#[test]
fn sidecar_path_drops_md_extension() {
    let p = sidecar_path_for("/notes/journals/2026-05-22.md");
    assert_eq!(
        PathBuf::from(p),
        PathBuf::from("/notes/journals/2026-05-22.outl"),
        "sidecar must drop the .md extension"
    );
}

#[test]
fn derive_ref_handle_uses_last_six_chars_lowercased() {
    let id = new_id();
    let display = id.to_string();
    let expected_tail = display[display.len() - REF_HANDLE_TAIL_LEN..].to_lowercase();
    assert_eq!(derive_ref_handle(id), format!("{REF_HANDLE_PREFIX}{expected_tail}"));
}

#[test]
fn derive_ref_handle_is_deterministic() {
    let id = new_id();
    assert_eq!(derive_ref_handle(id), derive_ref_handle(id));
}

#[test]
fn derive_ref_handle_format_is_blk_prefix_plus_six() {
    let id = new_id();
    let h = derive_ref_handle(id);
    assert!(h.starts_with(REF_HANDLE_PREFIX));
    let tail = &h[REF_HANDLE_PREFIX.len()..];
    assert_eq!(tail.len(), REF_HANDLE_TAIL_LEN);
    assert!(tail.chars().all(|c| c.is_ascii_alphanumeric()));
    assert_eq!(tail, tail.to_lowercase());
}

#[test]
fn content_hash_normalizes_whitespace() {
    let a = content_hash("hello world");
    let b = content_hash("  hello   world  ");
    let c = content_hash("hello\tworld\n");
    assert_eq!(a, b);
    assert_eq!(a, c);
}

#[test]
fn content_hash_differs_on_real_content_changes() {
    assert_ne!(content_hash("hello world"), content_hash("hello worlds"));
}

// ── further cases ───────────────────────────────────────────────────────────────────────────────────────────────

#[test]
fn hashes_are_sha256_hex() {
    assert_eq!(
        file_hash(""),
        "sha256:e3b0c44298fc1c149afbf4c8996fb92427ae41e4649b934ca495991b7852b855"
    );
    assert_eq!(
        content_hash("  abc  "),
        "sha256:ba7816bf8f01cfea414140de5dae2223b00361a396177a9cb410ff61f20015ad"
    );
}

#[test]
fn the_ulid_text_is_crockford_base32() {
    assert_eq!(NodeId(0).to_string(), "00000000000000000000000000");
    assert_eq!(NodeId(31).to_string(), "0000000000000000000000000Z");
    assert_eq!(derive_ref_handle(NodeId(31)), "blk-00000z");
    assert_eq!(NodeId(u128::MAX).to_string(), "7ZZZZZZZZZZZZZZZZZZZZZZZZZ");
}

#[test]
fn a_block_entry_derives_hash_and_handle_from_its_text_and_id() {
    let id = new_id();
    let b = SidecarBlock::from_text(id, 3, 1, "  some   text ".to_string());
    assert_eq!(b.content_hash, content_hash("some text"));
    assert_eq!(b.ref_handle, derive_ref_handle(id));
    assert_eq!(b.text, "  some   text ");
    assert_eq!((b.line, b.indent), (3, 1));
}

#[test]
fn the_legacy_path_is_dotted() {
    let p = legacy_sidecar_path_for("/notes/pages/foo.md");
    assert_eq!(PathBuf::from(p), PathBuf::from("/notes/pages/.foo.outl"));
}

fn payload(version: u32, handle: &str) -> Sidecar {
    let mut sc = Sidecar::new_for_page(NodeId(7), "sha256:x");
    sc.version = version;
    let mut b = SidecarBlock::from_text(NodeId(42), 1, 0, "a".to_string());
    b.ref_handle = handle.to_string();
    sc.blocks.push(b);
    sc
}

#[test]
fn a_fresh_sidecar_carries_the_current_versions() {
    let sc = Sidecar::new_for_page(NodeId(7), "sha256:x");
    assert_eq!(sc.version, SIDECAR_VERSION);
    assert_eq!(sc.pipeline_version, CURRENT_PIPELINE_VERSION);
    assert!(sc.blocks.is_empty());
    assert_eq!(sc.last_synced_hash, "sha256:x");
}

#[test]
fn unreadable_versions_are_refused_with_their_number() {
    assert_eq!(accept_read(payload(0, "")).unwrap_err(), 0);
    assert_eq!(accept_read(payload(3, "")).unwrap_err(), 3);
}

#[test]
fn a_v1_payload_gets_its_missing_handles_derived() {
    let sc = accept_read(payload(1, "")).unwrap();
    assert_eq!(sc.version, SIDECAR_VERSION);
    assert_eq!(sc.blocks[0].ref_handle, derive_ref_handle(NodeId(42)));
    let kept = accept_read(payload(2, "blk-custom")).unwrap();
    assert_eq!(kept.blocks[0].ref_handle, "blk-custom");
}

#[test]
fn an_accepted_read_keeps_the_sync_stamp() {
    let mut p = payload(1, "");
    p.last_synced_at = "2026-03-04T05:06:07+01:00".to_string();
    let sc = accept_read(p).unwrap();
    assert_eq!(sc.last_synced_at, "2026-03-04T05:06:07+01:00");
    assert_eq!(sc.last_synced_hash, "sha256:x");
    assert_eq!(sc.page_id, NodeId(7));
}
