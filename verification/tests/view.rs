use outl::view::{block_to_rows, char_to_line_col, header_level, line_col_to_char, BlockRowKind};


#[test]
fn empty_text_yields_one_bullet_row() {
    let rows = block_to_rows("", 0, None);
    assert_eq!(rows.len(), 1);
    assert_eq!(rows[0].kind, BlockRowKind::Bullet);
    assert_eq!(rows[0].text, "");
}

#[test]
fn single_line_text_yields_one_bullet_row() {
    let rows = block_to_rows("hello", 0, None);
    assert_eq!(rows.len(), 1);
    assert_eq!(rows[0].kind, BlockRowKind::Bullet);
    assert_eq!(rows[0].text, "hello");
}

#[test]
fn multi_line_yields_bullet_then_continuation() {
    let rows = block_to_rows("first\nsecond\nthird", 2, None);
    assert_eq!(rows.len(), 3);
    assert_eq!(rows[0].kind, BlockRowKind::Bullet);
    assert_eq!(rows[0].text, "first");
    assert_eq!(rows[1].kind, BlockRowKind::Continuation);
    assert_eq!(rows[1].text, "second");
    assert_eq!(rows[2].kind, BlockRowKind::Continuation);
    assert_eq!(rows[2].text, "third");
    for r in &rows {
        assert_eq!(r.indent, 2);
    }
}

#[test]
fn fence_markers_and_body_classified_correctly() {
    let rows = block_to_rows("intro\n```lisp\n(+ 1 2)\n```", 0, None);
    assert_eq!(rows.len(), 4);
    assert_eq!(rows[0].kind, BlockRowKind::Bullet);
    assert_eq!(rows[1].kind, BlockRowKind::CodeFenceMarker);
    assert_eq!(rows[2].kind, BlockRowKind::CodeFenceBody);
    assert_eq!(rows[3].kind, BlockRowKind::CodeFenceMarker);
}

#[test]
fn block_starting_with_fence_keeps_bullet_on_row_zero() {
    // Regression: a block whose first character is `` ``` `` used
    // to lose its bullet, because row 0 was classified as
    // `CodeFenceMarker`. The bullet glyph anchors the block in
    // the outline — we cannot drop it.
    let rows = block_to_rows("```lisp\n(+ 1 2)\n```", 0, None);
    assert_eq!(rows.len(), 3);
    assert_eq!(rows[0].kind, BlockRowKind::Bullet);
    assert_eq!(rows[0].text, "```lisp");
    assert_eq!(rows[1].kind, BlockRowKind::CodeFenceBody);
    assert_eq!(rows[2].kind, BlockRowKind::CodeFenceMarker);
}

#[test]
fn cursor_lands_on_the_right_row() {
    // "first\nsecond" — char index 6 is the 's' on line 1.
    let rows = block_to_rows("first\nsecond", 0, Some(6));
    assert_eq!(rows[0].cursor_col, None);
    assert_eq!(rows[1].cursor_col, Some(0));
}

#[test]
fn cursor_past_end_lands_at_last_col() {
    let rows = block_to_rows("ab", 0, Some(2));
    assert_eq!(rows[0].cursor_col, Some(2));
}

#[test]
fn char_to_line_col_handles_multibyte() {
    // "está" — 4 chars, 'á' is char 3.
    let (l, c) = char_to_line_col("está", 3);
    assert_eq!(l, 0);
    assert_eq!(c, 3);
}

#[test]
fn char_to_line_col_across_newlines() {
    let (l, c) = char_to_line_col("first\nsecond", 7);
    assert_eq!(l, 1);
    assert_eq!(c, 1);
}

#[test]
fn line_col_to_char_round_trips_with_char_to_line_col() {
    let s = "first\nsecond";
    let (l, c) = char_to_line_col(s, 7); // char `e` of "second" → (1, 1)
    assert_eq!(line_col_to_char(s, l, c), 7);
}

#[test]
fn line_col_to_char_clamps_to_eol_on_overshoot() {
    // "hi\nworld" — line 0 has 2 chars; asking for col 5 should
    // land at the end of line 0 (idx 2 = the `\n`).
    assert_eq!(line_col_to_char("hi\nworld", 0, 5), 2);
}

#[test]
fn line_col_to_char_clamps_to_end_when_target_line_is_last() {
    // "hello\nhi" — line 1 has 2 chars; col 4 → end of string.
    assert_eq!(line_col_to_char("hello\nhi", 1, 4), 8);
}

#[test]
fn line_col_to_char_clamps_when_target_line_is_past_end() {
    // No line 5 in this string → end of string.
    assert_eq!(line_col_to_char("only\nline", 5, 0), 9);
}

#[test]
fn line_col_to_char_lands_at_zero_on_origin() {
    assert_eq!(line_col_to_char("anything", 0, 0), 0);
}

#[test]
fn header_level_detects_atx_headings() {
    assert_eq!(header_level("# Title"), Some(1));
    assert_eq!(header_level("## Title"), Some(2));
    assert_eq!(header_level("### Sub"), Some(3));
    assert_eq!(header_level("#### Deep"), Some(4));
    assert_eq!(header_level("##### Deeper"), Some(5));
    assert_eq!(header_level("###### Deepest"), Some(6));
}

#[test]
fn header_level_rejects_seven_or_more_hashes() {
    // CommonMark: 7+ hashes is not a heading.
    assert_eq!(header_level("####### seven"), None);
    assert_eq!(header_level("######## eight"), None);
}

#[test]
fn header_level_requires_a_space_after_hashes() {
    // No space → not a header (and `#tag` is a tag, not a header).
    assert_eq!(header_level("#nospace"), None);
    assert_eq!(header_level("#tag"), None);
    assert_eq!(header_level("##tight"), None);
}

#[test]
fn header_level_rejects_bare_hashes_and_empty() {
    assert_eq!(header_level("##"), None);
    assert_eq!(header_level("#"), None);
    assert_eq!(header_level(""), None);
}

#[test]
fn header_level_only_consults_the_first_line() {
    // A header-looking line below the first is not a header.
    assert_eq!(header_level("intro\n## not a header"), None);
    // But a real header on line one wins even with continuations.
    assert_eq!(header_level("## Header\nbody text"), Some(2));
}

#[test]
fn header_level_requires_column_zero() {
    // Indented hashes are not headers (block text is column-0).
    assert_eq!(header_level("  # indented"), None);
    assert_eq!(header_level("\t# tabbed"), None);
}

// ── further cases ───────────────────────────────────────────────────────────────────────────────────────────────

#[test]
fn every_index_round_trips_through_line_and_column() {
    let s = "ab\n\ncd\nééf";
    let n = s.chars().count();
    for k in 0..=n {
        let (l, c) = char_to_line_col(s, k);
        assert_eq!(line_col_to_char(s, l, c), k, "index {k}");
    }
}

#[test]
fn an_index_past_the_end_maps_to_the_end() {
    assert_eq!(char_to_line_col("ab\ncd", 99), (1, 2));
}

#[test]
fn an_indented_fence_marker_still_toggles_the_fence() {
    let rows = block_to_rows("intro\n  ```\ncode\n  ```\nafter", 1, None);
    assert_eq!(rows[1].kind, BlockRowKind::CodeFenceMarker);
    assert_eq!(rows[2].kind, BlockRowKind::CodeFenceBody);
    assert_eq!(rows[3].kind, BlockRowKind::CodeFenceMarker);
    assert_eq!(rows[4].kind, BlockRowKind::Continuation);
    assert_eq!(rows[2].text, "code");
}

#[test]
fn a_trailing_newline_gives_an_empty_last_row() {
    let rows = block_to_rows("one\n", 0, Some(4));
    assert_eq!(rows.len(), 2);
    assert_eq!(rows[1].text, "");
    assert_eq!(rows[1].cursor_col, Some(0));
    assert_eq!(rows[0].cursor_col, None);
}
