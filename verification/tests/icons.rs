use outl::icons::{auto_run_pad, IconSet, IconStyle};
use unicode_width::UnicodeWidthStr;

#[test]
fn emoji_is_the_default_and_contains_no_private_use_glyphs() {
    let icons = IconSet::default();
    assert_eq!(icons.calendar, "📅");
    assert!(icons
        .file
        .chars()
        .all(|ch| !(0xE000..=0xF8FF).contains(&(ch as u32))));
}

#[test]
fn nerd_font_is_explicit() {
    let icons = IconSet::new(IconStyle::NerdFont);
    assert_eq!(icons.calendar, "\u{f073}");
    assert!(icons
        .calendar
        .chars()
        .any(|ch| (0xE000..=0xF8FF).contains(&(ch as u32))));
}

#[test]
fn the_auto_run_pad_matches_the_glyph() {
    for style in [IconStyle::Emoji, IconStyle::NerdFont] {
        let icons = IconSet::new(style);
        assert_eq!(
            auto_run_pad(&icons).width(),
            icons.bolt.width(),
            "pad drifted from the glyph in {style:?} mode"
        );
    }
}

// ── further cases ───────────────────────────────────────────────────────────────────────────────────────────────

#[test]
fn property_keys_match_ignoring_ascii_case() {
    let icons = IconSet::default();
    assert_eq!(icons.property_glyph("REMIND"), Some(icons.bell));
    assert_eq!(icons.property_glyph("auto-run"), Some("▶"));
    assert_eq!(icons.property_glyph("Template"), Some(icons.clipboard));
    assert_eq!(icons.property_glyph("status"), None);
}

#[test]
fn command_glyphs_follow_the_name_prefixes() {
    let icons = IconSet::new(IconStyle::NerdFont);
    assert_eq!(icons.command_glyph("run"), "▶");
    assert_eq!(icons.command_glyph("find"), icons.search);
    assert_eq!(icons.command_glyph("date-today"), icons.calendar);
    assert_eq!(icons.command_glyph("dtm"), icons.calendar);
    assert_eq!(icons.command_glyph("time-now"), icons.clock);
    assert_eq!(icons.command_glyph("iso-week"), icons.hashtag);
    assert_eq!(icons.command_glyph("stamp"), icons.clock);
    assert_eq!(icons.command_glyph("unknown"), "·");
    assert_eq!(icons.category_glyph("Dates & time"), icons.calendar);
    assert_eq!(icons.category_glyph("Other"), "•");
}
