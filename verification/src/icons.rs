//! The glyph vocabulary the terminal UI draws: emoji by default, or
//! Nerd Font private-use glyphs when the user opts in.

use vstd::prelude::*;

use crate::text::{ascii_lower_chars, ascii_lower_seq, chars_of, eq_lit, starts_with_lit};

verus! {

/// Which glyph family the UI draws.
#[derive(Debug, Clone, Copy, PartialEq, Eq, Structural)]
pub enum IconStyle {
    /// Plain emoji, which every terminal font renders.
    Emoji,
    /// Nerd Font private-use glyphs.
    NerdFont,
}

impl Default for IconStyle {
    fn default() -> (r: Self)
        ensures
            r == IconStyle::Emoji,
    {
        IconStyle::Emoji
    }
}

/// The property key that schedules a reminder (`remind::`).
pub const REMIND_KEY: &'static str = "remind";

/// One glyph per semantic icon.
#[derive(Debug, Clone, Copy)]
pub struct IconSet {
    pub calendar: &'static str,
    pub file: &'static str,
    pub image: &'static str,
    pub clock: &'static str,
    pub star: &'static str,
    pub history: &'static str,
    pub bolt: &'static str,
    pub search: &'static str,
    pub cog: &'static str,
    pub paint_brush: &'static str,
    pub warning: &'static str,
    pub save: &'static str,
    pub clipboard: &'static str,
    pub moon: &'static str,
    pub hashtag: &'static str,
    pub bell: &'static str,
}

impl IconSet {
    /// The set for `style`.
    pub fn new(style: IconStyle) -> (r: Self)
        ensures
            r == (match style {
                IconStyle::Emoji => emoji_set(),
                IconStyle::NerdFont => nerd_font_set(),
            }),
    {
        match style {
            IconStyle::Emoji => Self::emoji(),
            IconStyle::NerdFont => Self::nerd_font(),
        }
    }

    /// The glyph a property key shows with, keys compared ignoring ASCII
    /// case: the bell for `remind`, `▶` for `auto-run`, the clipboard for
    /// `template`.
    pub fn property_glyph(&self, key: &str) -> (r: Option<&'static str>)
        ensures
            r == property_glyph_spec(*self, key@),
    {
        let kc = chars_of(key);
        let k = ascii_lower_chars(kc.as_slice());
        if eq_lit(k.as_slice(), REMIND_KEY) {
            Some(self.bell)
        } else if eq_lit(k.as_slice(), "auto-run") {
            Some("▶")
        } else if eq_lit(k.as_slice(), "template") {
            Some(self.clipboard)
        } else {
            None
        }
    }

    /// The glyph a command-palette category shows with.
    pub fn category_glyph(&self, category: &str) -> (r: &'static str)
        ensures
            r == category_glyph_spec(*self, category@),
    {
        let c = chars_of(category);
        if eq_lit(c.as_slice(), "Actions") {
            self.bolt
        } else if eq_lit(c.as_slice(), "Navigation") {
            "↪"
        } else if eq_lit(c.as_slice(), "Search") {
            self.search
        } else if eq_lit(c.as_slice(), "Settings") {
            self.cog
        } else if eq_lit(c.as_slice(), "Dates & time") {
            self.calendar
        } else {
            "•"
        }
    }

    /// The glyph a command shows with, by its name.
    pub fn command_glyph(&self, name: &str) -> (r: &'static str)
        ensures
            r == command_glyph_spec(*self, name@),
    {
        let n = chars_of(name);
        let s = n.as_slice();
        if eq_lit(s, "run") {
            "▶"
        } else if eq_lit(s, "prop") {
            "≡"
        } else if eq_lit(s, "search") || eq_lit(s, "find") {
            self.search
        } else if eq_lit(s, "theme") {
            self.paint_brush
        } else if eq_lit(s, "open") || eq_lit(s, "switch") {
            "↪"
        } else if eq_lit(s, "quit") || eq_lit(s, "q") {
            "✕"
        } else if starts_with_lit(s, "date") || eq_lit(s, "dt") || eq_lit(s, "dy") || eq_lit(s, "dtm") {
            self.calendar
        } else if starts_with_lit(s, "time") {
            self.clock
        } else if starts_with_lit(s, "iso") {
            self.hashtag
        } else if starts_with_lit(s, "week") {
            self.calendar
        } else if eq_lit(s, "stamp") {
            self.clock
        } else {
            "·"
        }
    }

    /// The emoji set.
    pub fn emoji() -> (r: Self)
        ensures
            r == emoji_set(),
    {
        IconSet {
            calendar: "📅",
            file: "📄",
            image: "🖼",
            clock: "🕐",
            star: "⭐",
            history: "🕘",
            bolt: "⚡",
            search: "🔍",
            cog: "⚙",
            paint_brush: "🎨",
            warning: "⚠",
            save: "💾",
            clipboard: "📋",
            moon: "🌙",
            hashtag: "#",
            bell: "⏰",
        }
    }

    /// The Nerd Font set.
    pub fn nerd_font() -> (r: Self)
        ensures
            r == nerd_font_set(),
    {
        IconSet {
            calendar: "\u{f073}",
            file: "\u{f016}",
            image: "\u{f03e}",
            clock: "\u{f017}",
            star: "\u{f005}",
            history: "\u{f1da}",
            bolt: "\u{f0e7}",
            search: "\u{f002}",
            cog: "\u{f013}",
            paint_brush: "\u{f1fc}",
            warning: "\u{f071}",
            save: "\u{f0c7}",
            clipboard: "\u{f0ea}",
            moon: "\u{f186}",
            hashtag: "\u{f292}",
            bell: "\u{f0f3}",
        }
    }
}

impl Default for IconSet {
    fn default() -> (r: Self)
        ensures
            r == emoji_set(),
    {
        Self::new(IconStyle::Emoji)
    }
}

pub open spec fn emoji_set() -> IconSet {
    IconSet {
        calendar: "📅",
        file: "📄",
        image: "🖼",
        clock: "🕐",
        star: "⭐",
        history: "🕘",
        bolt: "⚡",
        search: "🔍",
        cog: "⚙",
        paint_brush: "🎨",
        warning: "⚠",
        save: "💾",
        clipboard: "📋",
        moon: "🌙",
        hashtag: "#",
        bell: "⏰",
    }
}

pub open spec fn nerd_font_set() -> IconSet {
    IconSet {
        calendar: "\u{f073}",
        file: "\u{f016}",
        image: "\u{f03e}",
        clock: "\u{f017}",
        star: "\u{f005}",
        history: "\u{f1da}",
        bolt: "\u{f0e7}",
        search: "\u{f002}",
        cog: "\u{f013}",
        paint_brush: "\u{f1fc}",
        warning: "\u{f071}",
        save: "\u{f0c7}",
        clipboard: "\u{f0ea}",
        moon: "\u{f186}",
        hashtag: "\u{f292}",
        bell: "\u{f0f3}",
    }
}

pub open spec fn property_glyph_spec(icons: IconSet, key: Seq<char>) -> Option<&'static str> {
    let k = ascii_lower_seq(key);
    if k == "remind"@ {
        Some(icons.bell)
    } else if k == "auto-run"@ {
        Some("▶")
    } else if k == "template"@ {
        Some(icons.clipboard)
    } else {
        None
    }
}

pub open spec fn category_glyph_spec(icons: IconSet, c: Seq<char>) -> &'static str {
    if c == "Actions"@ {
        icons.bolt
    } else if c == "Navigation"@ {
        "↪"
    } else if c == "Search"@ {
        icons.search
    } else if c == "Settings"@ {
        icons.cog
    } else if c == "Dates & time"@ {
        icons.calendar
    } else {
        "•"
    }
}

pub open spec fn command_glyph_spec(icons: IconSet, n: Seq<char>) -> &'static str {
    if n == "run"@ {
        "▶"
    } else if n == "prop"@ {
        "≡"
    } else if n == "search"@ || n == "find"@ {
        icons.search
    } else if n == "theme"@ {
        icons.paint_brush
    } else if n == "open"@ || n == "switch"@ {
        "↪"
    } else if n == "quit"@ || n == "q"@ {
        "✕"
    } else if "date"@.is_prefix_of(n) || n == "dt"@ || n == "dy"@ || n == "dtm"@ {
        icons.calendar
    } else if "time"@.is_prefix_of(n) {
        icons.clock
    } else if "iso"@.is_prefix_of(n) {
        icons.hashtag
    } else if "week"@.is_prefix_of(n) {
        icons.calendar
    } else if n == "stamp"@ {
        icons.clock
    } else {
        "·"
    }
}

/// The terminal columns `unicode-width` gives a string.
pub uninterp spec fn display_width(s: Seq<char>) -> usize;

/// `unicode_width::UnicodeWidthStr::width`: the columns `s` takes in a
/// terminal.
#[verifier::external_body]
fn str_width(s: &str) -> (r: usize)
    ensures
        r == display_width(s@),
{
    unicode_width::UnicodeWidthStr::width(s)
}

/// Blank cells standing in for the `auto-run::` marker on rows that don't
/// draw it: as many as the active set's marker glyph is wide, so every
/// row of an `auto-run::` block lines up in either icon style.
pub fn auto_run_pad(icons: &IconSet) -> (r: String)
    ensures
        r@ == Seq::new(display_width(icons.bolt@) as nat, |i: int| ' '),
{
    let w = str_width(icons.bolt);
    let mut r = String::new();
    let mut i: usize = 0;
    while i < w
        invariant
            i <= w,
            w == display_width(icons.bolt@),
            r@ == Seq::new(i as nat, |j: int| ' '),
        decreases w - i,
    {
        crate::text::push_char(&mut r, ' ');
        proof {
            assert(r@ =~= Seq::new((i + 1) as nat, |j: int| ' '));
        }
        i = i + 1;
    }
    r
}

} // verus!
