//! The command-line tool's decisions: its argument sets, the filters
//! `outl query` parses from its flags, the import guard's vacancy test,
//! and the text its progress and QR output is made of.
//!
//! Reading the workspace, printing and prompting are the binary's work.

use vstd::prelude::*;

use crate::property::PropValue;
use crate::query::engine::{EARLIEST_DAY, LATEST_DAY, parse_journal_date, slug_date_day, today_day};
use crate::text::{
    all_digits, chars_of, concat3, decimal, decimal_exec, digits_value, eq_chars, lines, lines_exec,
    parse_unsigned, parse_unsigned_exec, push_char, push_chars, slice_range, split_char,
    split_char_exec, split_once, split_once_char, string_of, trim, trim_chars,
};

verus! {

// ── argument sets ────────────────────────────────────────────────────

/// `outl batch` arguments.
#[derive(Debug, Clone)]
pub struct BatchArgs {
    /// The ops payload (JSON), or `None` to read it from stdin.
    pub ops: Option<String>,
    /// Print the report as JSON.
    pub json: bool,
}

/// Flags shared by every import source.
#[derive(Debug, Clone, Copy, Default)]
pub struct ImportFlags {
    /// Parse and report only, write nothing.
    pub dry_run: bool,
    /// Print the report as JSON.
    pub json: bool,
    /// Keep source create/edit timestamps as block properties.
    pub preserve_timestamps: bool,
    /// Skip pulling referenced files into `assets/`.
    pub no_assets: bool,
    /// Import into a destination that already holds content.
    pub force: bool,
}

/// `outl query` arguments.
#[derive(Debug, Clone)]
pub struct QueryArgs {
    pub tag: Option<String>,
    pub not_tag: Option<String>,
    /// Shorthand for `--prop priority=VALUE`.
    pub priority: Option<String>,
    /// `KEY=VALUE` page property filters.
    pub props: Vec<String>,
    /// `KEY` or `KEY=VALUE` exclusions.
    pub not_props: Vec<String>,
    /// `Nd` or an ISO date.
    pub since: Option<String>,
    /// `page` or `journal`.
    pub kind: Option<String>,
    /// Reserved for the query DSL.
    pub raw: Option<String>,
    pub json: bool,
}

// ── `outl query` filters ─────────────────────────────────────────────

/// `--prop` values: each `KEY=VALUE` split at its first `=`, both sides
/// trimmed; the first value without `=` rejects the set.
pub open spec fn prop_filters(raws: Seq<Seq<char>>) -> Result<Seq<(Seq<char>, Seq<char>)>, Seq<char>>
    decreases raws.len(),
{
    if raws.len() == 0 {
        Ok(seq![])
    } else {
        match split_once(raws[0], '=') {
            None => Err("--prop must be `KEY=VALUE`, got `"@ + raws[0] + "`"@),
            Some((k, v)) => match prop_filters(raws.drop_first()) {
                Ok(rest) => Ok(seq![(trim(k), trim(v))] + rest),
                Err(m) => Err(m),
            },
        }
    }
}

/// The `--priority` shorthand, then the `--prop` filters.
pub open spec fn prop_filters_with(raws: Seq<Seq<char>>, priority: Option<Seq<char>>) -> Result<
    Seq<(Seq<char>, Seq<char>)>,
    Seq<char>,
> {
    let head: Seq<(Seq<char>, Seq<char>)> = match priority {
        Some(p) => seq![("priority"@, p)],
        None => seq![],
    };
    match prop_filters(raws) {
        Ok(fs) => Ok(head + fs),
        Err(m) => Err(m),
    }
}

pub open spec fn strings_view(v: Seq<String>) -> Seq<Seq<char>> {
    v.map_values(|s: String| s@)
}

pub open spec fn pairs_view(v: Seq<(String, String)>) -> Seq<(Seq<char>, Seq<char>)> {
    v.map_values(|p: (String, String)| (p.0@, p.1@))
}

/// Parse the `--prop KEY=VALUE` flags, with `--priority` as a leading
/// `priority` filter.
pub fn parse_prop_filters(props: &[String], priority: Option<&str>) -> (r: Result<
    Vec<(String, String)>,
    String,
>)
    ensures
        match (r, prop_filters_with(
            strings_view(props@),
            match priority {
                Some(p) => Some(p@),
                None => None,
            },
        )) {
            (Ok(v), Ok(s)) => pairs_view(v@) == s,
            (Err(m), Err(s)) => m@ == s,
            _ => false,
        },
{
    let ghost raws = strings_view(props@);
    let mut out: Vec<(String, String)> = Vec::new();
    if let Some(p) = priority {
        out.push((crate::text::string_from_str("priority"), crate::text::string_from_str(p)));
    }
    let ghost head = pairs_view(out@);
    let n = props.len();
    let mut i: usize = 0;
    proof {
        assert(raws.skip(0) =~= raws);
    }
    while i < n
        invariant
            n == props@.len(),
            raws == strings_view(props@),
            i <= n,
            prop_filters(raws) == match prop_filters(raws.skip(i as int)) {
                Ok(rest) => Ok(pairs_view(out@).skip(head.len() as int) + rest),
                Err(m) => Err::<Seq<(Seq<char>, Seq<char>)>, Seq<char>>(m),
            },
            head.len() <= pairs_view(out@).len(),
            pairs_view(out@).take(head.len() as int) == head,
        decreases n - i,
    {
        let raw = chars_of(props[i].as_str());
        proof {
            assert(raws.skip(i as int)[0] == raw@);
            assert(raws.skip(i as int).drop_first() =~= raws.skip(i + 1));
        }
        match split_once_char(raw.as_slice(), '=') {
            None => {
                return Err(concat3("--prop must be `KEY=VALUE`, got `", raw.as_slice(), "`"));
            },
            Some((k, v)) => {
                let kt = trim_chars(k.as_slice());
                let vt = trim_chars(v.as_slice());
                let pair = (string_of(kt.as_slice()), string_of(vt.as_slice()));
                let ghost before = pairs_view(out@);
                out.push(pair);
                proof {
                    assert(pairs_view(out@) =~= before.push((kt@, vt@)));
                    assert(pairs_view(out@).take(head.len() as int) =~= before.take(
                        head.len() as int,
                    ));
                    match prop_filters(raws.skip(i + 1)) {
                        Ok(rest) => {
                            assert(pairs_view(out@).skip(head.len() as int) + rest =~= before.skip(
                                head.len() as int,
                            ) + (seq![(kt@, vt@)] + rest));
                        },
                        Err(_) => {},
                    }
                }
            },
        }
        i = i + 1;
    }
    proof {
        assert(raws.skip(n as int) =~= Seq::<Seq<char>>::empty());
        assert(pairs_view(out@) =~= head + pairs_view(out@).skip(head.len() as int));
        assert(pairs_view(out@).skip(head.len() as int) + Seq::<(Seq<char>, Seq<char>)>::empty()
            =~= pairs_view(out@).skip(head.len() as int));
    }
    Ok(out)
}

/// One `--not-prop` value: `KEY=VALUE` excludes that pair, a bare `KEY`
/// excludes the key; both sides trimmed.
pub open spec fn not_prop_filter(raw: Seq<char>) -> (Seq<char>, Option<Seq<char>>) {
    match split_once(raw, '=') {
        Some((k, v)) => (trim(k), Some(trim(v))),
        None => (trim(raw), None),
    }
}

pub open spec fn opt_pairs_view(v: Seq<(String, Option<String>)>) -> Seq<(Seq<char>, Option<Seq<char>>)> {
    v.map_values(
        |p: (String, Option<String>)|
            (
                p.0@,
                match p.1 {
                    Some(s) => Some(s@),
                    None => None,
                },
            ),
    )
}

/// Parse the `--not-prop KEY[=VALUE]` flags; every value is accepted.
pub fn parse_not_prop_filters(not_props: &[String]) -> (r: Result<
    Vec<(String, Option<String>)>,
    String,
>)
    ensures
        r matches Ok(v) && opt_pairs_view(v@) == strings_view(not_props@).map_values(
            |raw: Seq<char>| not_prop_filter(raw),
        ),
{
    let mut out: Vec<(String, Option<String>)> = Vec::new();
    let n = not_props.len();
    let mut i: usize = 0;
    while i < n
        invariant
            n == not_props@.len(),
            i <= n,
            out@.len() == i,
            forall|j: int|
                0 <= j < i ==> opt_pairs_view(out@)[j] == not_prop_filter(#[trigger] not_props@[j]@),
        decreases n - i,
    {
        let raw = chars_of(not_props[i].as_str());
        let entry = match split_once_char(raw.as_slice(), '=') {
            Some((k, v)) => {
                let kt = trim_chars(k.as_slice());
                let vt = trim_chars(v.as_slice());
                (string_of(kt.as_slice()), Some(string_of(vt.as_slice())))
            },
            None => {
                let t = trim_chars(raw.as_slice());
                (string_of(t.as_slice()), None)
            },
        };
        let ghost before = out@;
        out.push(entry);
        proof {
            assert forall|j: int| 0 <= j < i + 1 implies opt_pairs_view(out@)[j] == not_prop_filter(
                #[trigger] not_props@[j]@,
            ) by {
                if j < i {
                    assert(out@[j] == before[j]);
                }
            }
        }
        i = i + 1;
    }
    proof {
        assert(opt_pairs_view(out@) =~= strings_view(not_props@).map_values(
            |raw: Seq<char>| not_prop_filter(raw),
        ));
    }
    Ok(out)
}

/// Whether a property value equals `expected`: a scalar by its string, a
/// list when one of its scalar elements does.
pub open spec fn value_matches(v: PropValue, expected: Seq<char>) -> bool {
    match v {
        PropValue::Text(s) => s@ == expected,
        PropValue::Tag(s) => s@ == expected,
        PropValue::PageRef(s) => s@ == expected,
        PropValue::List(items) => exists|i: int|
            0 <= i < items@.len() && scalar_matches(#[trigger] items@[i], expected),
    }
}

/// A scalar element equal to `expected`; a nested list never is.
pub open spec fn scalar_matches(v: PropValue, expected: Seq<char>) -> bool {
    match v {
        PropValue::Text(s) => s@ == expected,
        PropValue::Tag(s) => s@ == expected,
        PropValue::PageRef(s) => s@ == expected,
        PropValue::List(_) => false,
    }
}

fn str_eq(a: &String, b: &str) -> (r: bool)
    ensures
        r == (a@ == b@),
{
    let ac = chars_of(a.as_str());
    let bc = chars_of(b);
    eq_chars(ac.as_slice(), bc.as_slice())
}

fn scalar_eq(v: &PropValue, expected: &str) -> (r: bool)
    ensures
        r == scalar_matches(*v, expected@),
{
    match v {
        PropValue::Text(s) => str_eq(s, expected),
        PropValue::Tag(s) => str_eq(s, expected),
        PropValue::PageRef(s) => str_eq(s, expected),
        PropValue::List(_) => false,
    }
}

fn value_eq(v: &PropValue, expected: &str) -> (r: bool)
    ensures
        r == value_matches(*v, expected@),
{
    match v {
        PropValue::List(items) => {
            let n = items.len();
            let mut i: usize = 0;
            while i < n
                invariant
                    *v == PropValue::List(*items),
                    n == items@.len(),
                    i <= n,
                    forall|j: int| 0 <= j < i ==> !scalar_matches(#[trigger] items@[j], expected@),
                decreases n - i,
            {
                if scalar_eq(&items[i], expected) {
                    proof {
                        let ghost it = (*v)->List_0;
                        assert(it == *items);
                        assert(scalar_matches(it@[i as int], expected@));
                        assert(value_matches(*v, expected@));
                    }
                    return true;
                }
                i = i + 1;
            }
            false
        },
        _ => scalar_eq(v, expected),
    }
}

/// Whether a page property — `value`, the page's value for the key, if
/// it has one — equals `expected`.
pub fn page_property_matches(value: Option<&PropValue>, expected: &str) -> (r: bool)
    ensures
        r == match value {
            Some(v) => value_matches(*v, expected@),
            None => false,
        },
{
    match value {
        None => false,
        Some(v) => value_eq(v, expected),
    }
}

/// Whether a page passes a `--since` cutoff: a dated page (`date`, the
/// day number its slug names) when on or after the cutoff; an undated
/// page unless it is a journal.
pub fn journal_after(date: Option<i64>, is_journal: bool, cutoff: i64) -> (r: bool)
    ensures
        r == match date {
            Some(d) => d >= cutoff,
            None => !is_journal,
        },
{
    match date {
        Some(d) => d >= cutoff,
        None => !is_journal,
    }
}

/// What `str::parse::<i64>` yields: an optional sign, then one or more
/// ASCII digits, within `i64`.
pub open spec fn parse_i64(s: Seq<char>) -> Option<int> {
    if s.len() > 0 && s[0] == '-' {
        let d = s.skip(1);
        if d.len() > 0 && all_digits(d) && digits_value(d) <= 0x8000_0000_0000_0000 {
            Some(-digits_value(d))
        } else {
            None
        }
    } else {
        match parse_unsigned(s, 0x7FFF_FFFF_FFFF_FFFF) {
            Some(v) => Some(v as int),
            None => None,
        }
    }
}

fn parse_i64_exec(s: &[char]) -> (r: Option<i64>)
    ensures
        match r {
            Some(v) => parse_i64(s@) == Some(v as int),
            None => parse_i64(s@) is None,
        },
{
    if s.len() > 0 && s[0] == '-' {
        let d = slice_range(s, 1, s.len());
        proof {
            assert(d@ =~= s@.skip(1));
        }
        if d.len() == 0 || d[0] == '+' {
            proof {
                if d@.len() > 0 {
                    assert(!crate::text::is_ascii_digit(d@[0]));
                }
            }
            return None;
        }
        match parse_unsigned_exec(d.as_slice(), 0x8000_0000_0000_0000) {
            Some(v) => {
                if v == 0x8000_0000_0000_0000 {
                    Some(i64::MIN)
                } else {
                    Some(-(v as i64))
                }
            },
            None => None,
        }
    } else {
        match parse_unsigned_exec(s, 0x7FFF_FFFF_FFFF_FFFF) {
            Some(v) => Some(v as i64),
            None => None,
        }
    }
}

/// The day a `--since` value names, given today's day number: `Nd` is N
/// days before today; anything else must be an ISO `YYYY-MM-DD` date.
/// `None` where the subtraction leaves the calendar's range.
pub open spec fn since_day(s: Seq<char>, today: i64) -> Option<Result<i64, Seq<char>>> {
    let t = trim(s);
    if t.len() > 0 && t.last() == 'd' {
        match parse_i64(t.drop_last()) {
            None => Some(Err("--since `"@ + s + "` is not a valid `Nd` form"@)),
            Some(days) => if EARLIEST_DAY <= today - days <= LATEST_DAY {
                Some(Ok((today - days) as i64))
            } else {
                None
            },
        }
    } else {
        match slug_date_day(t) {
            Some(d) => Some(Ok(d)),
            None => Some(Err("--since `"@ + s + "` is neither `Nd` nor ISO YYYY-MM-DD"@)),
        }
    }
}

/// [`since_day`], computed for a given `today`.
pub fn parse_since_at(s: &str, today: i64) -> (r: Option<Result<i64, String>>)
    requires
        EARLIEST_DAY <= today <= LATEST_DAY,
    ensures
        match (r, since_day(s@, today)) {
            (None, None) => true,
            (Some(Ok(d)), Some(Ok(e))) => d == e,
            (Some(Err(m)), Some(Err(e))) => m@ == e,
            _ => false,
        },
{
    let sc = chars_of(s);
    let t = trim_chars(sc.as_slice());
    let n = t.len();
    if n > 0 && t[n - 1] == 'd' {
        let rest = slice_range(t.as_slice(), 0, n - 1);
        proof {
            assert(rest@ =~= t@.drop_last());
        }
        match parse_i64_exec(rest.as_slice()) {
            None => Some(Err(concat3("--since `", sc.as_slice(), "` is not a valid `Nd` form"))),
            Some(days) => {
                if days < 0 {
                    if today > LATEST_DAY + days {
                        None
                    } else {
                        Some(Ok(today - days))
                    }
                } else if today < EARLIEST_DAY + days {
                    None
                } else {
                    Some(Ok(today - days))
                }
            },
        }
    } else {
        let ts = string_of(t.as_slice());
        match parse_journal_date(ts.as_str()) {
            Some(d) => Some(Ok(d)),
            None => Some(
                Err(concat3("--since `", sc.as_slice(), "` is neither `Nd` nor ISO YYYY-MM-DD")),
            ),
        }
    }
}

/// Parse a `--since` value against the local calendar's current day.
pub fn parse_since(s: &str) -> (r: Option<Result<i64, String>>)
    ensures
        exists|today: i64|
            EARLIEST_DAY <= today <= LATEST_DAY && #[trigger] since_day(s@, today) == match r {
                None => None,
                Some(Ok(d)) => Some(Ok(d)),
                Some(Err(m)) => Some(Err(m@)),
            },
{
    let today = today_day();
    let r = parse_since_at(s, today);
    proof {
        assert(since_day(s@, today) == match r {
            None => None,
            Some(Ok(d)) => Some(Ok(d)),
            Some(Err(m)) => Some(Err::<i64, Seq<char>>(m@)),
        });
    }
    r
}

// ── import ───────────────────────────────────────────────────────────

/// What the import guard found at the destination.
#[derive(Debug, Clone)]
pub struct Occupancy {
    /// Pages in the tree that aren't templates.
    pub pages: usize,
    /// Slug of the first page found carrying real text.
    pub first_with_content: Option<String>,
    /// `.md` files with no sidecar next to them.
    pub unreconciled_md: usize,
}

impl Occupancy {
    /// Whether the destination is untouched as far as the guard cares: no
    /// page with content and no unreconciled markdown.
    pub fn is_vacant(&self) -> (r: bool)
        ensures
            r == (self.first_with_content is None && self.unreconciled_md == 0),
    {
        self.first_with_content.is_none() && self.unreconciled_md == 0
    }
}

/// `n` copies of `c`.
pub open spec fn repeat(c: char, n: nat) -> Seq<char> {
    Seq::new(n, |i: int| c)
}

/// `s` right-aligned in `w` columns with spaces.
pub open spec fn pad_left(s: Seq<char>, w: nat) -> Seq<char> {
    if s.len() < w {
        repeat(' ', (w - s.len()) as nat) + s
    } else {
        s
    }
}

/// Percent done: `done * 100 / total`, or 100 with nothing to do.
pub open spec fn percent(done: usize, total: usize) -> nat {
    if total == 0 {
        100
    } else {
        ((done as int * 100) / (total as int)) as nat
    }
}

/// `[#####---------------]  25%`: twenty cells, one `#` per five percent.
pub open spec fn bar_text(done: usize, total: usize) -> Seq<char> {
    let pct = percent(done, total);
    let filled = pct / 5;
    "["@ + repeat('#', filled) + repeat('-', (20 - filled) as nat) + "] "@ + pad_left(decimal(pct), 3)
        + "%"@
}

fn push_repeat(s: &mut String, c: char, n: usize)
    ensures
        final(s)@ == old(s)@ + repeat(c, n as nat),
{
    let mut i: usize = 0;
    while i < n
        invariant
            i <= n,
            s@ == old(s)@ + repeat(c, i as nat),
        decreases n - i,
    {
        push_char(s, c);
        proof {
            assert(s@ =~= old(s)@ + repeat(c, (i + 1) as nat));
        }
        i = i + 1;
    }
}

/// The progress bar for `done` of `total`.
pub fn bar(done: usize, total: usize) -> (r: String)
    requires
        done * 100 <= usize::MAX,
        percent(done, total) <= 104,
    ensures
        r@ == bar_text(done, total),
{
    let pct: usize = if total == 0 {
        100
    } else {
        done * 100 / total
    };
    let filled = pct / 5;
    let mut r = crate::text::string_from_str("[");
    push_repeat(&mut r, '#', filled);
    push_repeat(&mut r, '-', 20 - filled);
    let sep = chars_of("] ");
    push_chars(&mut r, sep.as_slice());
    let d = decimal_exec(pct);
    if d.len() < 3 {
        push_repeat(&mut r, ' ', 3 - d.len());
    }
    push_chars(&mut r, d.as_slice());
    push_char(&mut r, '%');
    proof {
        reveal_strlit("%");
        assert(r@ =~= bar_text(done, total));
    }
    r
}

/// Elapsed time as `42s` under a minute, `3m07s` from one on.
pub open spec fn elapsed_text(secs: u64) -> Seq<char> {
    if secs < 60 {
        decimal(secs as nat) + "s"@
    } else {
        let rem = (secs % 60) as nat;
        decimal((secs / 60) as nat) + "m"@ + (if rem < 10 {
            "0"@
        } else {
            seq![]
        }) + decimal(rem) + "s"@
    }
}

/// [`elapsed_text`] for a number of whole seconds.
pub fn elapsed_secs_text(secs: u64) -> (r: String)
    ensures
        r@ == elapsed_text(secs),
{
    let mut r = String::new();
    if secs < 60 {
        let d = crate::text::decimal_u64(secs);
        push_chars(&mut r, d.as_slice());
    } else {
        let m = crate::text::decimal_u64(secs / 60);
        push_chars(&mut r, m.as_slice());
        push_char(&mut r, 'm');
        let rem = secs % 60;
        if rem < 10 {
            push_char(&mut r, '0');
        }
        let d = crate::text::decimal_u64(rem);
        push_chars(&mut r, d.as_slice());
    }
    push_char(&mut r, 's');
    proof {
        reveal_strlit("s");
        reveal_strlit("m");
        reveal_strlit("0");
        assert(r@ =~= elapsed_text(secs));
    }
    r
}

#[verifier::external_type_specification]
#[verifier::external_body]
pub struct ExInstant(std::time::Instant);

/// `Instant::elapsed`, in whole seconds: how long ago `start` was. The
/// clock decides it; nothing is stated of it.
#[verifier::external_body]
fn secs_since(start: std::time::Instant) -> u64 {
    start.elapsed().as_secs()
}

/// How long ago `start` was, as [`elapsed_text`] writes it.
pub fn elapsed(start: std::time::Instant) -> (r: String)
    ensures
        exists|secs: u64| #[trigger] elapsed_text(secs) == r@,
{
    let secs = secs_since(start);
    let r = elapsed_secs_text(secs);
    proof {
        assert(elapsed_text(secs) == r@);
    }
    r
}

// ── pairing ──────────────────────────────────────────────────────────

/// The widest line of `lines`, in chars, or 0 without lines.
pub open spec fn widest(ls: Seq<Seq<char>>) -> nat
    decreases ls.len(),
{
    if ls.len() == 0 {
        0
    } else {
        let w = widest(ls.drop_last());
        if ls.last().len() > w {
            ls.last().len()
        } else {
            w
        }
    }
}

/// The columns a rendered QR code takes: its widest line, counted in
/// chars (each block glyph is one column) rather than bytes.
pub fn qr_columns(rendered: &str) -> (r: usize)
    ensures
        r == widest(lines(rendered@)),
{
    let cs = chars_of(rendered);
    let ls = lines_exec(cs.as_slice());
    let ghost lv = lines(rendered@);
    let n = ls.len();
    let mut w: usize = 0;
    let mut i: usize = 0;
    proof {
        assert(lv.take(0) =~= Seq::<Seq<char>>::empty());
    }
    while i < n
        invariant
            n == ls@.len(),
            n == lv.len(),
            lv == lines(rendered@),
            forall|j: int| 0 <= j < n ==> (#[trigger] ls@[j])@ == lv[j],
            i <= n,
            w == widest(lv.take(i as int)),
        decreases n - i,
    {
        proof {
            assert(lv.take(i + 1).drop_last() =~= lv.take(i as int));
            assert(lv.take(i + 1).last() == ls@[i as int]@);
        }
        if ls[i].len() > w {
            w = ls[i].len();
        }
        i = i + 1;
    }
    proof {
        assert(lv.take(n as int) =~= lv);
    }
    w
}

// ── templates ────────────────────────────────────────────────────────

/// A comma-separated `params::` value as parameter names: each piece
/// trimmed, empty pieces dropped.
pub open spec fn param_list(value: Seq<char>) -> Seq<Seq<char>> {
    split_char(value, ',').map_values(|p: Seq<char>| trim(p)).filter(|p: Seq<char>| p.len() > 0)
}

/// Parse a comma-separated `params::` property value into a list of
/// trimmed, non-empty parameter names.
pub fn parse_param_list(value: &str) -> (r: Vec<String>)
    ensures
        strings_view(r@) == param_list(value@),
{
    let vc = chars_of(value);
    let parts = split_char_exec(vc.as_slice(), ',');
    let ghost tv = split_char(value@, ',').map_values(|p: Seq<char>| trim(p));
    let n = parts.len();
    let mut out: Vec<String> = Vec::new();
    let mut i: usize = 0;
    proof {
        reveal(Seq::filter);
        assert(tv.take(0) =~= Seq::<Seq<char>>::empty());
        assert(strings_view(out@) =~= Seq::<Seq<char>>::empty());
    }
    while i < n
        invariant
            n == parts@.len(),
            n == tv.len(),
            tv == split_char(value@, ',').map_values(|p: Seq<char>| trim(p)),
            forall|j: int| 0 <= j < n ==> (#[trigger] parts@[j])@ == split_char(value@, ',')[j],
            i <= n,
            strings_view(out@) == tv.take(i as int).filter(|p: Seq<char>| p.len() > 0),
        decreases n - i,
    {
        let t = trim_chars(parts[i].as_slice());
        proof {
            reveal(Seq::filter);
            assert(tv.take(i + 1).drop_last() =~= tv.take(i as int));
            assert(tv.take(i + 1).last() == t@);
        }
        if t.len() > 0 {
            let s = string_of(t.as_slice());
            proof {
                assert(strings_view(out@.push(s)) =~= strings_view(out@).push(t@));
            }
            out.push(s);
        }
        i = i + 1;
    }
    proof {
        assert(tv.take(n as int) =~= tv);
    }
    out
}

} // verus!
