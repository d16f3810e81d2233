//! The palette data type — named hex colors per semantic surface — and
//! the hex color parser every renderer uses.
//!
//! Every renderer (TUI, desktop) consumes the same fields and maps them to
//! whatever its output expects.

use vstd::prelude::*;

use crate::sidecar::{utf8, utf8_bytes, utf8_char};

verus! {

/// Hex-encoded named palette for every styled surface. Field names say
/// what the surface is, not what it looks like; every field is a string
/// so the desktop frontend can drop each into a CSS custom property.
#[derive(Debug, Clone)]
pub struct Palette {
    /// User-visible name (`"outl"`, `"dracula"`, …). Owned because
    /// the palette rides JSON across the Tauri wire — Serde can't
    /// borrow a `&'static str` out of a freshly-parsed `String`.
    pub name: String,

    // ── canvas ────────────────────────────────────────────────────
    /// Background of the main canvas. Terminal users see their
    /// emulator background when this is the same as the terminal
    /// default — we still ship an explicit hex so the desktop has
    /// something concrete to paint.
    pub bg: String,
    /// Background of elevated surfaces (popups, modals, picker).
    pub bg_elev: String,
    /// Primary foreground / body text.
    pub fg: String,
    /// Dim text (secondary metadata).
    pub fg_dim: String,
    /// Dimmer still (placeholders, separators).
    pub fg_dimmer: String,
    /// Panel / pane border.
    pub border: String,
    /// Footer hint text.
    pub hint: String,

    // ── accent rail ───────────────────────────────────────────────
    /// Primary accent (selection bg, ref-link color, active state).
    pub accent: String,
    /// Softer / lighter accent (caret, property value, italic).
    pub accent_soft: String,
    /// Secondary accent (code fg, todo_done) — a distinct hue from
    /// `accent` so success / code never disappears against the
    /// selection color.
    pub accent_alt: String,
    /// Warning hue (todo_open, transient status messages).
    pub warn: String,

    // ── inline markdown ──────────────────────────────────────────
    /// `[[page]]` reference foreground.
    pub ref_link_fg: String,
    /// `#tag` reference foreground.
    pub tag_link_fg: String,
    /// `[text](url)` link foreground.
    pub md_link_fg: String,
    /// `**bold**` foreground (modifier always BOLD).
    pub bold_fg: String,
    /// `*italic*` foreground (modifier always ITALIC).
    pub italic_fg: String,
    /// `~~strike~~` foreground (modifier always CROSSED_OUT).
    pub strike_fg: String,
    /// `==highlight==` marker background (the highlighter fill).
    pub highlight_bg: String,
    /// `==highlight==` text foreground (must read against `highlight_bg`).
    pub highlight_fg: String,
    /// `` `code` `` foreground.
    pub code_fg: String,

    // ── todo prefixes ────────────────────────────────────────────
    /// `TODO ` foreground.
    pub todo_open_fg: String,
    /// `DONE ` foreground.
    pub todo_done_fg: String,
    /// Body text foreground of a DONE block (struck through).
    pub todo_done_body_fg: String,

    // ── structural ────────────────────────────────────────────────
    /// `key:: value` — the key part.
    pub property_key_fg: String,
    /// `key:: value` — the value part.
    pub property_value_fg: String,
    /// Page heading in the header.
    pub heading_fg: String,
    /// Delimiter dim (`**`, `~~`, `` ` ``) in raw render.
    pub dim_fg: String,

    // ── block headers (ATX `#`…`######`) ──────────────────────────
    /// Level-1 header (`# …`) foreground.
    pub header_fg_1: String,
    /// Level-2 header (`## …`) foreground.
    pub header_fg_2: String,
    /// Level-3 header (`### …`) foreground.
    pub header_fg_3: String,
    /// Level-4 header (`#### …`) foreground.
    pub header_fg_4: String,
    /// Level-5 header (`##### …`) foreground.
    pub header_fg_5: String,
    /// Level-6 header (`###### …`) foreground.
    pub header_fg_6: String,

    // ── selection / cursor ────────────────────────────────────────
    /// Selected bullet — background.
    pub selected_bullet_bg: String,
    /// Selected bullet — foreground.
    pub selected_bullet_fg: String,
    /// Block-style cursor (vim Normal mode) — background.
    pub cursor_block_bg: String,
    /// Block-style cursor — foreground.
    pub cursor_block_fg: String,
    /// Thin caret (Insert mode, end-of-line).
    pub cursor_caret_fg: String,

    // ── chrome ────────────────────────────────────────────────────
    /// Normal-mode badge background.
    pub status_normal_bg: String,
    /// Normal-mode badge foreground.
    pub status_normal_fg: String,
    /// Insert-mode badge background.
    pub status_insert_bg: String,
    /// Insert-mode badge foreground.
    pub status_insert_fg: String,
    /// Visual-mode badge background.
    pub status_visual_bg: String,
    /// Visual-mode badge foreground.
    pub status_visual_fg: String,
    /// Transient status message foreground.
    pub status_message_fg: String,
    /// Highlighted entry in popup lists.
    pub list_selected_bg: String,
    /// Foreground of the highlighted entry.
    pub list_selected_fg: String,
    /// Section title in the help overlay.
    pub help_title_fg: String,
}

/// Every color field as `(name, value)`, in declaration order (the name
/// of the palette itself excluded).
pub open spec fn palette_fields(p: Palette) -> Seq<(Seq<char>, Seq<char>)> {
    seq![
        ("bg"@, p.bg@),
        ("bg_elev"@, p.bg_elev@),
        ("fg"@, p.fg@),
        ("fg_dim"@, p.fg_dim@),
        ("fg_dimmer"@, p.fg_dimmer@),
        ("border"@, p.border@),
        ("hint"@, p.hint@),
        ("accent"@, p.accent@),
        ("accent_soft"@, p.accent_soft@),
        ("accent_alt"@, p.accent_alt@),
        ("warn"@, p.warn@),
        ("ref_link_fg"@, p.ref_link_fg@),
        ("tag_link_fg"@, p.tag_link_fg@),
        ("md_link_fg"@, p.md_link_fg@),
        ("bold_fg"@, p.bold_fg@),
        ("italic_fg"@, p.italic_fg@),
        ("strike_fg"@, p.strike_fg@),
        ("highlight_bg"@, p.highlight_bg@),
        ("highlight_fg"@, p.highlight_fg@),
        ("code_fg"@, p.code_fg@),
        ("todo_open_fg"@, p.todo_open_fg@),
        ("todo_done_fg"@, p.todo_done_fg@),
        ("todo_done_body_fg"@, p.todo_done_body_fg@),
        ("property_key_fg"@, p.property_key_fg@),
        ("property_value_fg"@, p.property_value_fg@),
        ("heading_fg"@, p.heading_fg@),
        ("dim_fg"@, p.dim_fg@),
        ("header_fg_1"@, p.header_fg_1@),
        ("header_fg_2"@, p.header_fg_2@),
        ("header_fg_3"@, p.header_fg_3@),
        ("header_fg_4"@, p.header_fg_4@),
        ("header_fg_5"@, p.header_fg_5@),
        ("header_fg_6"@, p.header_fg_6@),
        ("selected_bullet_bg"@, p.selected_bullet_bg@),
        ("selected_bullet_fg"@, p.selected_bullet_fg@),
        ("cursor_block_bg"@, p.cursor_block_bg@),
        ("cursor_block_fg"@, p.cursor_block_fg@),
        ("cursor_caret_fg"@, p.cursor_caret_fg@),
        ("status_normal_bg"@, p.status_normal_bg@),
        ("status_normal_fg"@, p.status_normal_fg@),
        ("status_insert_bg"@, p.status_insert_bg@),
        ("status_insert_fg"@, p.status_insert_fg@),
        ("status_visual_bg"@, p.status_visual_bg@),
        ("status_visual_fg"@, p.status_visual_fg@),
        ("status_message_fg"@, p.status_message_fg@),
        ("list_selected_bg"@, p.list_selected_bg@),
        ("list_selected_fg"@, p.list_selected_fg@),
        ("help_title_fg"@, p.help_title_fg@),
    ]
}

pub open spec fn pairs_view<'a>(v: Seq<(&'static str, &'a str)>) -> Seq<(Seq<char>, Seq<char>)> {
    v.map_values(|e: (&'static str, &'a str)| (e.0@, e.1@))
}

impl Palette {
    /// Every color field as `(name, value)`, for renderers that iterate
    /// the surfaces (the desktop writes each as a CSS custom property).
    pub fn fields(&self) -> (r: Vec<(&'static str, &str)>)
        ensures
            pairs_view(r@) == palette_fields(*self),
    {
        let r = vec![
            ("bg", self.bg.as_str()),
            ("bg_elev", self.bg_elev.as_str()),
            ("fg", self.fg.as_str()),
            ("fg_dim", self.fg_dim.as_str()),
            ("fg_dimmer", self.fg_dimmer.as_str()),
            ("border", self.border.as_str()),
            ("hint", self.hint.as_str()),
            ("accent", self.accent.as_str()),
            ("accent_soft", self.accent_soft.as_str()),
            ("accent_alt", self.accent_alt.as_str()),
            ("warn", self.warn.as_str()),
            ("ref_link_fg", self.ref_link_fg.as_str()),
            ("tag_link_fg", self.tag_link_fg.as_str()),
            ("md_link_fg", self.md_link_fg.as_str()),
            ("bold_fg", self.bold_fg.as_str()),
            ("italic_fg", self.italic_fg.as_str()),
            ("strike_fg", self.strike_fg.as_str()),
            ("highlight_bg", self.highlight_bg.as_str()),
            ("highlight_fg", self.highlight_fg.as_str()),
            ("code_fg", self.code_fg.as_str()),
            ("todo_open_fg", self.todo_open_fg.as_str()),
            ("todo_done_fg", self.todo_done_fg.as_str()),
            ("todo_done_body_fg", self.todo_done_body_fg.as_str()),
            ("property_key_fg", self.property_key_fg.as_str()),
            ("property_value_fg", self.property_value_fg.as_str()),
            ("heading_fg", self.heading_fg.as_str()),
            ("dim_fg", self.dim_fg.as_str()),
            ("header_fg_1", self.header_fg_1.as_str()),
            ("header_fg_2", self.header_fg_2.as_str()),
            ("header_fg_3", self.header_fg_3.as_str()),
            ("header_fg_4", self.header_fg_4.as_str()),
            ("header_fg_5", self.header_fg_5.as_str()),
            ("header_fg_6", self.header_fg_6.as_str()),
            ("selected_bullet_bg", self.selected_bullet_bg.as_str()),
            ("selected_bullet_fg", self.selected_bullet_fg.as_str()),
            ("cursor_block_bg", self.cursor_block_bg.as_str()),
            ("cursor_block_fg", self.cursor_block_fg.as_str()),
            ("cursor_caret_fg", self.cursor_caret_fg.as_str()),
            ("status_normal_bg", self.status_normal_bg.as_str()),
            ("status_normal_fg", self.status_normal_fg.as_str()),
            ("status_insert_bg", self.status_insert_bg.as_str()),
            ("status_insert_fg", self.status_insert_fg.as_str()),
            ("status_visual_bg", self.status_visual_bg.as_str()),
            ("status_visual_fg", self.status_visual_fg.as_str()),
            ("status_message_fg", self.status_message_fg.as_str()),
            ("list_selected_bg", self.list_selected_bg.as_str()),
            ("list_selected_fg", self.list_selected_fg.as_str()),
            ("help_title_fg", self.help_title_fg.as_str()),
        ];
        proof {
            assert(pairs_view(r@) =~= palette_fields(*self));
        }
        r
    }
}

/// The value of one hex digit byte, upper or lower case.
pub open spec fn hex_value(b: u8) -> Option<u8> {
    if 0x30 <= b <= 0x39 {
        Some((b - 0x30) as u8)
    } else if 0x61 <= b <= 0x66 {
        Some((b - 0x61 + 10) as u8)
    } else if 0x41 <= b <= 0x46 {
        Some((b - 0x41 + 10) as u8)
    } else {
        None
    }
}

/// The byte two hex digits spell.
pub open spec fn hex_byte(hi: u8, lo: u8) -> Option<u8> {
    match (hex_value(hi), hex_value(lo)) {
        (Some(h), Some(l)) => Some((h * 16 + l) as u8),
        _ => None,
    }
}

/// `#RRGGBB` or `#RRGGBBAA` as `(r, g, b)`: the digits after `#` are read
/// as UTF-8 bytes, six or eight of them, each a hex digit; the alpha pair
/// must be well formed but its value is dropped.
pub open spec fn parse_hex_spec(s: Seq<char>) -> Option<(u8, u8, u8)> {
    if s.len() == 0 || s[0] != '#' {
        None
    } else {
        let b = utf8(s.drop_first());
        if b.len() != 6 && b.len() != 8 {
            None
        } else if b.len() == 8 && hex_byte(b[6], b[7]) is None {
            None
        } else {
            match (hex_byte(b[0], b[1]), hex_byte(b[2], b[3]), hex_byte(b[4], b[5])) {
                (Some(r), Some(g), Some(bl)) => Some((r, g, bl)),
                _ => None,
            }
        }
    }
}

fn hex_value_exec(b: u8) -> (r: Option<u8>)
    ensures
        r == hex_value(b),
{
    if 0x30 <= b && b <= 0x39 {
        Some(b - 0x30)
    } else if 0x61 <= b && b <= 0x66 {
        Some(b - 0x61 + 10)
    } else if 0x41 <= b && b <= 0x46 {
        Some(b - 0x41 + 10)
    } else {
        None
    }
}

fn hex_byte_exec(hi: u8, lo: u8) -> (r: Option<u8>)
    ensures
        r == hex_byte(hi, lo),
{
    match (hex_value_exec(hi), hex_value_exec(lo)) {
        (Some(h), Some(l)) => Some(h * 16 + l),
        _ => None,
    }
}

/// Parse `#RRGGBB` (or `#RRGGBBAA`, alpha ignored) into `(r, g, b)`; the
/// short form, a non-hex digit anywhere (the alpha pair included) and
/// anything without the `#` are rejected.
pub fn parse_hex(s: &str) -> (r: Option<(u8, u8, u8)>)
    ensures
        r == parse_hex_spec(s@),
{
    let cs = crate::text::chars_of(s);
    if cs.len() == 0 || cs[0] != '#' {
        return None;
    }
    let rest = crate::text::slice_range(cs.as_slice(), 1, cs.len());
    let rest_s = crate::text::string_of(rest.as_slice());
    proof {
        assert(rest_s@ =~= s@.drop_first());
    }
    let bytes = utf8_bytes(rest_s.as_str());
    if bytes.len() != 6 && bytes.len() != 8 {
        return None;
    }
    if bytes.len() == 8 && hex_byte_exec(bytes[6], bytes[7]).is_none() {
        return None;
    }
    let r = match hex_byte_exec(bytes[0], bytes[1]) {
        Some(v) => v,
        None => {
            return None;
        },
    };
    let g = match hex_byte_exec(bytes[2], bytes[3]) {
        Some(v) => v,
        None => {
            return None;
        },
    };
    let b = match hex_byte_exec(bytes[4], bytes[5]) {
        Some(v) => v,
        None => {
            return None;
        },
    };
    Some((r, g, b))
}


/// The hex digit for `n` (`0..16`), lower or upper case.
pub open spec fn hex_digit(n: int, upper: bool) -> char {
    if upper {
        seq!['0', '1', '2', '3', '4', '5', '6', '7', '8', '9', 'A', 'B', 'C', 'D', 'E', 'F'][n]
    } else {
        seq!['0', '1', '2', '3', '4', '5', '6', '7', '8', '9', 'a', 'b', 'c', 'd', 'e', 'f'][n]
    }
}

/// `x` as two hex digits, high first (what `{:02x}` / `{:02X}` print).
pub open spec fn hex_pair(x: u8, upper: bool) -> Seq<char> {
    seq![hex_digit(x as int / 16, upper), hex_digit(x as int % 16, upper)]
}

/// `c` is an ASCII hex digit, either case.
pub open spec fn is_hex_char(c: char) -> bool {
    ('0' <= c <= '9') || ('a' <= c <= 'f') || ('A' <= c <= 'F')
}

proof fn lemma_hex_digit_value(n: int, upper: bool)
    requires
        0 <= n < 16,
    ensures
        (hex_digit(n, upper) as u32) < 0x80,
        hex_value(hex_digit(n, upper) as u32 as u8) == Some(n as u8),
{
    if upper {
        assert(hex_value('A' as u32 as u8) == Some(10u8));
    }
}

proof fn lemma_utf8_ascii(s: Seq<char>)
    requires
        forall|i: int| 0 <= i < s.len() ==> (#[trigger] s[i] as u32) < 0x80,
    ensures
        utf8(s).len() == s.len(),
        forall|i: int| 0 <= i < s.len() ==> #[trigger] utf8(s)[i] == s[i] as u32 as u8,
    decreases s.len(),
{
    if s.len() > 0 {
        let init = s.drop_last();
        assert forall|i: int| 0 <= i < init.len() implies (#[trigger] init[i] as u32) < 0x80 by {
            assert(init[i] == s[i]);
        }
        lemma_utf8_ascii(init);
        assert(utf8_char(s.last()) == seq![s.last() as u32 as u8]);
        assert forall|i: int| 0 <= i < s.len() implies #[trigger] utf8(s)[i] == s[i] as u32 as u8 by {
            if i < init.len() {
                assert(init[i] == s[i]);
            }
        }
    }
}

proof fn lemma_hex_pair_byte(x: u8, upper: bool)
    ensures
        (hex_pair(x, upper)[0] as u32) < 0x80,
        (hex_pair(x, upper)[1] as u32) < 0x80,
        hex_byte(hex_pair(x, upper)[0] as u32 as u8, hex_pair(x, upper)[1] as u32 as u8) == Some(x),
{
    lemma_hex_digit_value(x as int / 16, upper);
    lemma_hex_digit_value(x as int % 16, upper);
}

/// Every colour written as `#` and two hex digits per channel, all lower or
/// all upper case, with no alpha or with a well-formed alpha pair, parses
/// back to its channels.
pub proof fn lemma_parse_hex_round_trip(r: u8, g: u8, b: u8, upper: bool, alpha: Seq<char>)
    requires
        alpha.len() == 0 || (alpha.len() == 2 && is_hex_char(alpha[0]) && is_hex_char(alpha[1])),
    ensures
        parse_hex_spec(seq!['#'] + hex_pair(r, upper) + hex_pair(g, upper) + hex_pair(b, upper) + alpha)
            == Some((r, g, b)),
{
    let rest = hex_pair(r, upper) + hex_pair(g, upper) + hex_pair(b, upper) + alpha;
    let s = seq!['#'] + rest;
    assert(s.drop_first() =~= rest);
    lemma_hex_pair_byte(r, upper);
    lemma_hex_pair_byte(g, upper);
    lemma_hex_pair_byte(b, upper);
    assert(rest[0] == hex_pair(r, upper)[0] && rest[1] == hex_pair(r, upper)[1]);
    assert(rest[2] == hex_pair(g, upper)[0] && rest[3] == hex_pair(g, upper)[1]);
    assert(rest[4] == hex_pair(b, upper)[0] && rest[5] == hex_pair(b, upper)[1]);
    if alpha.len() == 2 {
        assert(rest[6] == alpha[0] && rest[7] == alpha[1]);
    }
    assert forall|i: int| 0 <= i < rest.len() implies (#[trigger] rest[i] as u32) < 0x80 by {
        if i >= 6 {
            assert(rest[i] == alpha[i - 6]);
        }
    }
    lemma_utf8_ascii(rest);
    let bs = utf8(rest);
    assert(s.len() > 0 && s[0] == '#');
    assert(bs.len() == 6 || bs.len() == 8);
    assert(bs[0] == rest[0] as u32 as u8 && bs[1] == rest[1] as u32 as u8);
    assert(bs[2] == rest[2] as u32 as u8 && bs[3] == rest[3] as u32 as u8);
    assert(bs[4] == rest[4] as u32 as u8 && bs[5] == rest[5] as u32 as u8);
    assert(hex_byte(bs[0], bs[1]) == Some(r));
    assert(hex_byte(bs[2], bs[3]) == Some(g));
    assert(hex_byte(bs[4], bs[5]) == Some(b));
    if alpha.len() == 2 {
        let a0 = alpha[0];
        let a1 = alpha[1];
        assert(hex_value(a0 as u32 as u8) is Some);
        assert(hex_value(a1 as u32 as u8) is Some);
        assert(bs[6] == a0 as u32 as u8);
        assert(bs[7] == a1 as u32 as u8);
        assert(hex_byte(bs[6], bs[7]) is Some);
    }
    assert(parse_hex_spec(s) == Some((r, g, b)));
    assert(s =~= seq!['#'] + hex_pair(r, upper) + hex_pair(g, upper) + hex_pair(b, upper) + alpha);
}

} // verus!
