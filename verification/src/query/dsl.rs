//! The line-based query DSL: `key: value` directives, one per line.
//!
//! ```text
//! # open work tagged ops, newest pages first
//! status: todo
//! tag: ops
//! prop priority: high
//! sort: page, status
//! limit: 10
//! ```
//!
//! [`spec_parse`] states the whole language as a function of the source
//! text; [`parse`] and [`parse_outcome`] compute it.

use vstd::prelude::*;

use crate::text::{
    chars_of, concat3, decimal, decimal_exec, eq_lit, lines, lines_exec, parse_unsigned,
    parse_unsigned_exec, push_chars, slice_range, split_char, split_char_exec, split_once,
    split_once_char, starts_with_lit, string_from_str, string_of, trim, trim_chars,
};

verus! {

// ── the parsed query ─────────────────────────────────────────────────

/// Parsed query.
#[derive(Debug)]
pub struct Query {
    /// Every filter, in source order; a block must pass all of them.
    pub filters: Vec<Filter>,
    /// Sort keys in priority order.
    pub sort: Vec<SortKey>,
    /// Maximum number of results.
    pub limit: Option<usize>,
}

/// One filter directive.
#[derive(Debug)]
pub enum Filter {
    Status(StatusFilter),
    Tag(String),
    /// Exclude blocks containing this tag.
    NotTag(String),
    /// Filter by block property (key, value).
    Prop(String, String),
    /// Exclude blocks with this property key (any value) or key-value pair.
    NotProp(String, Option<String>),
    /// Filter by hosting page slug.
    Page(String),
    Kind(KindFilter),
    Since(u32),
    Text(String),
}

#[derive(Debug, Clone, Copy, PartialEq, Eq, Structural)]
pub enum StatusFilter {
    Todo,
    Doing,
    Done,
    Open,
}

#[derive(Debug, Clone, Copy, PartialEq, Eq, Structural)]
pub enum KindFilter {
    Journal,
    Page,
}

#[derive(Debug, Clone, Copy, PartialEq, Eq, Structural)]
pub enum SortKey {
    Page,
    Status,
    Text,
}

/// A rejected directive.
#[derive(Debug)]
pub struct ParseError {
    /// 1-based line number where the error occurred.
    pub line: usize,
    /// Human-readable description.
    pub msg: String,
}

/// Everything [`parse_outcome`] can come back with. `Panics` stands for
/// the inputs on which the directive's arithmetic or byte slicing cannot
/// be carried out (a `since:` count whose day total leaves `u32`, or a
/// duration whose last char is not ASCII).
pub enum ParseOutcome {
    Parsed(Query),
    Rejected(ParseError),
    Panics,
}

// ── abstract views ───────────────────────────────────────────────────

pub enum FilterV {
    Status(StatusFilter),
    Tag(Seq<char>),
    NotTag(Seq<char>),
    Prop(Seq<char>, Seq<char>),
    NotProp(Seq<char>, Option<Seq<char>>),
    Page(Seq<char>),
    Kind(KindFilter),
    Since(u32),
    Text(Seq<char>),
}

pub struct QueryV {
    pub filters: Seq<FilterV>,
    pub sort: Seq<SortKey>,
    pub limit: Option<usize>,
}

pub struct ParseErrorV {
    pub line: int,
    pub msg: Seq<char>,
}

/// What the whole source parses to.
pub enum Parsed {
    Done(QueryV),
    Failed(ParseErrorV),
    Panics,
}

pub open spec fn opt_view(o: Option<String>) -> Option<Seq<char>> {
    match o {
        Some(s) => Some(s@),
        None => None,
    }
}

impl View for Filter {
    type V = FilterV;

    open spec fn view(&self) -> FilterV {
        match self {
            Filter::Status(s) => FilterV::Status(*s),
            Filter::Tag(t) => FilterV::Tag(t@),
            Filter::NotTag(t) => FilterV::NotTag(t@),
            Filter::Prop(k, v) => FilterV::Prop(k@, v@),
            Filter::NotProp(k, v) => FilterV::NotProp(k@, opt_view(*v)),
            Filter::Page(p) => FilterV::Page(p@),
            Filter::Kind(k) => FilterV::Kind(*k),
            Filter::Since(d) => FilterV::Since(*d),
            Filter::Text(t) => FilterV::Text(t@),
        }
    }
}

impl View for Query {
    type V = QueryV;

    open spec fn view(&self) -> QueryV {
        QueryV {
            filters: self.filters@.map_values(|f: Filter| f@),
            sort: self.sort@,
            limit: self.limit,
        }
    }
}

impl View for ParseError {
    type V = ParseErrorV;

    open spec fn view(&self) -> ParseErrorV {
        ParseErrorV { line: self.line as int, msg: self.msg@ }
    }
}

// ── the language ─────────────────────────────────────────────────────

/// `status:` values.
pub open spec fn status_of(v: Seq<char>) -> Option<StatusFilter> {
    if v == "todo"@ {
        Some(StatusFilter::Todo)
    } else if v == "doing"@ {
        Some(StatusFilter::Doing)
    } else if v == "done"@ {
        Some(StatusFilter::Done)
    } else if v == "open"@ {
        Some(StatusFilter::Open)
    } else {
        None
    }
}

/// `kind:` values.
pub open spec fn kind_of(v: Seq<char>) -> Option<KindFilter> {
    if v == "journal"@ {
        Some(KindFilter::Journal)
    } else if v == "page"@ {
        Some(KindFilter::Page)
    } else {
        None
    }
}

/// `sort:` keys.
pub open spec fn sort_key_of(v: Seq<char>) -> Option<SortKey> {
    if v == "page"@ {
        Some(SortKey::Page)
    } else if v == "status"@ {
        Some(SortKey::Status)
    } else if v == "text"@ {
        Some(SortKey::Text)
    } else {
        None
    }
}

/// The `sort:` words name three different keys: `page`, `status` and
/// `text` are the words accepted, and no two of them name the same key.
pub proof fn lemma_sort_words_name_distinct_keys(v: Seq<char>, w: Seq<char>)
    ensures
        sort_key_of(v) is Some <==> (v == "page"@ || v == "status"@ || v == "text"@),
        sort_key_of(v) is Some && sort_key_of(v) == sort_key_of(w) ==> v == w,
{
    reveal_strlit("page");
    reveal_strlit("status");
    reveal_strlit("text");
    assert("page"@.len() == 4 && "status"@.len() == 6 && "text"@.len() == 4);
    assert("page"@[0] == 'p' && "text"@[0] == 't');
    assert("page"@ != "text"@);
}

/// The `status:` words name four different filters: `todo`, `doing`,
/// `done` and `open` are the words accepted, and no two of them parse to
/// the same filter.
pub proof fn lemma_status_words_name_distinct_filters(v: Seq<char>, w: Seq<char>)
    ensures
        status_of(v) is Some <==> (v == "todo"@ || v == "doing"@ || v == "done"@ || v == "open"@),
        status_of(v) is Some && status_of(v) == status_of(w) ==> v == w,
{
    reveal_strlit("todo");
    reveal_strlit("doing");
    reveal_strlit("done");
    reveal_strlit("open");
    assert("todo"@.len() == 4 && "doing"@.len() == 5 && "done"@.len() == 4 && "open"@.len() == 4);
    assert("todo"@[0] == 't' && "done"@[0] == 'd' && "open"@[0] == 'o');
    assert("todo"@ != "done"@);
    assert("todo"@ != "open"@);
    assert("done"@ != "open"@);
}

/// What a single source line contributes to the query.
pub enum LineV {
    Skip,
    Add(FilterV),
    Sorts(Seq<SortKey>),
    Limit(usize),
    Fail(Seq<char>),
    Panics,
}

/// The comma-separated `sort:` list, each piece trimmed; the first bad
/// piece rejects the line.
pub open spec fn sorts_of(parts: Seq<Seq<char>>) -> Result<Seq<SortKey>, Seq<char>>
    decreases parts.len(),
{
    if parts.len() == 0 {
        Ok(seq![])
    } else {
        let p = trim(parts[0]);
        match sort_key_of(p) {
            Some(k) => match sorts_of(parts.drop_first()) {
                Ok(ks) => Ok(seq![k] + ks),
                Err(m) => Err(m),
            },
            None => Err("sort: must be 'page', 'status', or 'text', got '"@ + p + "'"@),
        }
    }
}

/// `Nd` / `Nw` / `Nm` as a day count.
pub open spec fn duration_of(v: Seq<char>) -> LineV {
    if v.len() == 0 {
        LineV::Fail("since requires a duration like '7d', '2w', '3m'"@)
    } else if (v.last() as u32) >= 128 {
        LineV::Panics
    } else {
        let unit = v.last();
        match parse_unsigned(v.drop_last(), u32::MAX as nat) {
            None => LineV::Fail("since: invalid number in '"@ + v + "'"@),
            Some(n) => if unit == 'd' {
                LineV::Add(FilterV::Since(n as u32))
            } else if unit == 'w' {
                if n * 7 > u32::MAX {
                    LineV::Panics
                } else {
                    LineV::Add(FilterV::Since((n * 7) as u32))
                }
            } else if unit == 'm' {
                if n * 30 > u32::MAX {
                    LineV::Panics
                } else {
                    LineV::Add(FilterV::Since((n * 30) as u32))
                }
            } else {
                LineV::Fail("since: unknown unit '"@ + seq![unit] + "' (use d, w, or m)"@)
            },
        }
    }
}

/// `prop` takes `key: value` or `key value`.
pub open spec fn prop_of(v: Seq<char>) -> Result<(Seq<char>, Seq<char>), Seq<char>> {
    let pair = match split_once(v, ':') {
        Some((k, val)) => Some((trim(k), trim(val))),
        None => match split_once(v, ' ') {
            Some((k, val)) => Some((trim(k), trim(val))),
            None => None,
        },
    };
    match pair {
        None => Err("prop requires 'key: value' or 'key value', got '"@ + v + "'"@),
        Some((k, val)) => if k.len() == 0 || val.len() == 0 {
            Err("prop requires non-empty key and value, got '"@ + v + "'"@)
        } else {
            Ok((k, val))
        },
    }
}

/// `not-prop` takes `key`, `key: value` or `key value`.
pub open spec fn not_prop_of(v: Seq<char>) -> Result<(Seq<char>, Option<Seq<char>>), Seq<char>> {
    let t = trim(v);
    if t.len() == 0 {
        Err("not-prop requires a key"@)
    } else {
        let pair = match split_once(t, ':') {
            Some((k, val)) => Some((trim(k), trim(val))),
            None => match split_once(t, ' ') {
                Some((k, val)) => Some((trim(k), trim(val))),
                None => None,
            },
        };
        match pair {
            None => Ok((t, None)),
            Some((k, val)) => if k.len() == 0 {
                Err("not-prop requires a key, got '"@ + v + "'"@)
            } else {
                Ok(
                    (
                        k,
                        if val.len() == 0 {
                            None
                        } else {
                            Some(val)
                        },
                    ),
                )
            },
        }
    }
}

/// A generic `key: value` directive, both sides already trimmed.
pub open spec fn keyed_of(key: Seq<char>, value: Seq<char>) -> LineV {
    if key == "status"@ {
        match status_of(value) {
            Some(s) => LineV::Add(FilterV::Status(s)),
            None => LineV::Fail(
                "status must be 'todo', 'doing', 'done', or 'open', got '"@ + value + "'"@,
            ),
        }
    } else if key == "tag"@ {
        LineV::Add(FilterV::Tag(value))
    } else if key == "not-tag"@ {
        LineV::Add(FilterV::NotTag(value))
    } else if key == "page"@ {
        LineV::Add(FilterV::Page(value))
    } else if key == "kind"@ {
        match kind_of(value) {
            Some(k) => LineV::Add(FilterV::Kind(k)),
            None => LineV::Fail("kind must be 'journal' or 'page', got '"@ + value + "'"@),
        }
    } else if key == "since"@ {
        duration_of(value)
    } else if key == "text"@ {
        LineV::Add(FilterV::Text(value))
    } else if key == "sort"@ {
        match sorts_of(split_char(value, ',')) {
            Ok(ks) => LineV::Sorts(ks),
            Err(m) => LineV::Fail(m),
        }
    } else if key == "limit"@ {
        match parse_unsigned(value, usize::MAX as nat) {
            Some(n) => LineV::Limit(n as usize),
            None => LineV::Fail("expected a number, got '"@ + value + "'"@),
        }
    } else {
        LineV::Fail("unknown key: '"@ + key + "'"@)
    }
}

/// The argument of a `prop` / `not-prop` directive: the rest of the line
/// after the `n`-char keyword, trimmed, with one optional `:` dropped.
pub open spec fn directive_rest(line: Seq<char>, n: int) -> Seq<char> {
    let rest = trim(line.skip(n));
    if rest.len() > 0 && rest[0] == ':' {
        trim(rest.skip(1))
    } else {
        rest
    }
}

/// `prop` as a whole word: alone, or followed by a space or a colon.
pub open spec fn is_prop_line(line: Seq<char>) -> bool {
    line == "prop"@ || "prop "@.is_prefix_of(line) || "prop:"@.is_prefix_of(line)
}

/// `not-prop` as a whole word.
pub open spec fn is_not_prop_line(line: Seq<char>) -> bool {
    line == "not-prop"@ || "not-prop "@.is_prefix_of(line) || "not-prop:"@.is_prefix_of(line)
}

/// One source line.
pub open spec fn line_of(raw: Seq<char>) -> LineV {
    let line = trim(raw);
    if line.len() == 0 || line[0] == '#' {
        LineV::Skip
    } else if is_prop_line(line) {
        let rest = directive_rest(line, 4);
        if rest.len() == 0 {
            LineV::Fail("prop requires 'key: value' or 'key value'"@)
        } else {
            match prop_of(rest) {
                Ok((k, v)) => LineV::Add(FilterV::Prop(k, v)),
                Err(m) => LineV::Fail(m),
            }
        }
    } else if is_not_prop_line(line) {
        let rest = directive_rest(line, 8);
        if rest.len() == 0 {
            LineV::Fail("not-prop requires a key"@)
        } else {
            match not_prop_of(rest) {
                Ok((k, v)) => LineV::Add(FilterV::NotProp(k, v)),
                Err(m) => LineV::Fail(m),
            }
        }
    } else {
        match split_once(line, ':') {
            None => LineV::Fail("expected 'key: value'"@),
            Some((k, v)) => keyed_of(trim(k), trim(v)),
        }
    }
}

/// Fold the lines from index `i` on into `acc`.
pub open spec fn parse_from(ls: Seq<Seq<char>>, i: int, acc: QueryV) -> Parsed
    decreases ls.len() - i,
{
    if i < 0 || i >= ls.len() {
        Parsed::Done(acc)
    } else {
        match line_of(ls[i]) {
            LineV::Skip => parse_from(ls, i + 1, acc),
            LineV::Add(f) => parse_from(ls, i + 1, QueryV { filters: acc.filters.push(f), ..acc }),
            LineV::Sorts(ks) => parse_from(ls, i + 1, QueryV { sort: acc.sort + ks, ..acc }),
            LineV::Limit(n) => parse_from(ls, i + 1, QueryV { limit: Some(n), ..acc }),
            LineV::Fail(m) => Parsed::Failed(ParseErrorV { line: i + 1, msg: m }),
            LineV::Panics => Parsed::Panics,
        }
    }
}

pub open spec fn empty_query() -> QueryV {
    QueryV { filters: seq![], sort: seq![], limit: None }
}

/// The query a DSL source denotes.
pub open spec fn spec_parse(source: Seq<char>) -> Parsed {
    parse_from(lines(source), 0, empty_query())
}

/// A line the parser passes over: blank, whitespace only, or a comment.
pub open spec fn ignorable(line: Seq<char>) -> bool {
    trim(line).len() == 0 || trim(line)[0] == '#'
}

/// The lines of `ls` that are not [`ignorable`], in order.
pub open spec fn kept_lines(ls: Seq<Seq<char>>) -> Seq<Seq<char>>
    decreases ls.len(),
{
    if ls.len() == 0 {
        Seq::empty()
    } else if ignorable(ls[0]) {
        kept_lines(ls.drop_first())
    } else {
        seq![ls[0]] + kept_lines(ls.drop_first())
    }
}

/// A parse outcome with the failing line's number erased.
pub open spec fn shape(p: Parsed) -> Parsed {
    match p {
        Parsed::Failed(e) => Parsed::Failed(ParseErrorV { line: 0, msg: e.msg }),
        other => other,
    }
}

proof fn lemma_parse_shift(ls: Seq<Seq<char>>, i: int, k: int, acc: QueryV)
    requires
        0 <= i <= ls.len(),
        0 <= k,
    ensures
        shape(parse_from(ls, i + k, acc)) == shape(parse_from(ls.skip(i), k, acc)),
    decreases ls.len() - i - k,
{
    if i + k < ls.len() {
        assert(ls.skip(i)[k] == ls[i + k]);
        match line_of(ls[i + k]) {
            LineV::Skip => lemma_parse_shift(ls, i, k + 1, acc),
            LineV::Add(f) => lemma_parse_shift(ls, i, k + 1, QueryV { filters: acc.filters.push(f), ..acc }),
            LineV::Sorts(ks) => lemma_parse_shift(ls, i, k + 1, QueryV { sort: acc.sort + ks, ..acc }),
            LineV::Limit(n) => lemma_parse_shift(ls, i, k + 1, QueryV { limit: Some(n), ..acc }),
            _ => {},
        }
    }
}

proof fn lemma_kept_lines_parse(ls: Seq<Seq<char>>, acc: QueryV)
    ensures
        shape(parse_from(ls, 0, acc)) == shape(parse_from(kept_lines(ls), 0, acc)),
    decreases ls.len(),
{
    if ls.len() > 0 {
        let rest = ls.drop_first();
        let kept = kept_lines(ls);
        assert(ls.skip(1) =~= rest);
        if ignorable(ls[0]) {
            assert(line_of(ls[0]) == LineV::Skip);
            lemma_parse_shift(ls, 1, 0, acc);
            lemma_kept_lines_parse(rest, acc);
        } else {
            assert(kept[0] == ls[0]);
            assert(kept.skip(1) =~= kept_lines(rest));
            let next = match line_of(ls[0]) {
                LineV::Add(f) => Some(QueryV { filters: acc.filters.push(f), ..acc }),
                LineV::Sorts(ks) => Some(QueryV { sort: acc.sort + ks, ..acc }),
                LineV::Limit(n) => Some(QueryV { limit: Some(n), ..acc }),
                _ => None,
            };
            if let Some(a2) = next {
                lemma_parse_shift(ls, 1, 0, a2);
                lemma_kept_lines_parse(rest, a2);
                lemma_parse_shift(kept, 1, 0, a2);
            }
        }
    }
}

/// Blank, whitespace-only and comment lines change nothing: two line lists
/// that agree once those are dropped parse to the same query, and fail or
/// panic together.
pub proof fn lemma_ignorable_lines_change_nothing(a: Seq<Seq<char>>, b: Seq<Seq<char>>, acc: QueryV)
    requires
        kept_lines(a) == kept_lines(b),
    ensures
        parse_from(a, 0, acc) is Done ==> parse_from(b, 0, acc) == parse_from(a, 0, acc),
        parse_from(a, 0, acc) is Done <==> parse_from(b, 0, acc) is Done,
        parse_from(a, 0, acc) is Failed <==> parse_from(b, 0, acc) is Failed,
        parse_from(a, 0, acc) is Panics <==> parse_from(b, 0, acc) is Panics,
{
    lemma_kept_lines_parse(a, acc);
    lemma_kept_lines_parse(b, acc);
}

// ── executable ───────────────────────────────────────────────────────

/// One line's contribution, computed.
enum LineResult {
    Skip,
    Add(Filter),
    Sorts(Vec<SortKey>),
    Limit(usize),
    Fail(String),
    Panics,
}

impl View for LineResult {
    type V = LineV;

    closed spec fn view(&self) -> LineV {
        match self {
            LineResult::Skip => LineV::Skip,
            LineResult::Add(f) => LineV::Add(f@),
            LineResult::Sorts(ks) => LineV::Sorts(ks@),
            LineResult::Limit(n) => LineV::Limit(*n),
            LineResult::Fail(m) => LineV::Fail(m@),
            LineResult::Panics => LineV::Panics,
        }
    }
}

pub(crate) fn parse_status(v: &[char]) -> (r: Option<StatusFilter>)
    ensures
        r == status_of(v@),
{
    if eq_lit(v, "todo") {
        Some(StatusFilter::Todo)
    } else if eq_lit(v, "doing") {
        Some(StatusFilter::Doing)
    } else if eq_lit(v, "done") {
        Some(StatusFilter::Done)
    } else if eq_lit(v, "open") {
        Some(StatusFilter::Open)
    } else {
        None
    }
}

pub(crate) fn parse_kind(v: &[char]) -> (r: Option<KindFilter>)
    ensures
        r == kind_of(v@),
{
    if eq_lit(v, "journal") {
        Some(KindFilter::Journal)
    } else if eq_lit(v, "page") {
        Some(KindFilter::Page)
    } else {
        None
    }
}

pub(crate) fn parse_sort_key(v: &[char]) -> (r: Option<SortKey>)
    ensures
        r == sort_key_of(v@),
{
    if eq_lit(v, "page") {
        Some(SortKey::Page)
    } else if eq_lit(v, "status") {
        Some(SortKey::Status)
    } else if eq_lit(v, "text") {
        Some(SortKey::Text)
    } else {
        None
    }
}

fn parse_sorts(value: &[char]) -> (r: Result<Vec<SortKey>, String>)
    ensures
        match (r, sorts_of(split_char(value@, ','))) {
            (Ok(ks), Ok(sk)) => ks@ == sk,
            (Err(m), Err(sm)) => m@ == sm,
            _ => false,
        },
{
    let parts = split_char_exec(value, ',');
    let ghost ps = split_char(value@, ',');
    let n = parts.len();
    let mut out: Vec<SortKey> = Vec::new();
    let mut i: usize = 0;
    proof {
        assert(ps.skip(0) =~= ps);
        match sorts_of(ps) {
            Ok(ks) => {
                assert(out@ + ks =~= ks);
            },
            Err(_) => {},
        }
    }
    while i < n
        invariant
            n == parts@.len(),
            n == ps.len(),
            ps == split_char(value@, ','),
            i <= n,
            forall|j: int| 0 <= j < n ==> (#[trigger] parts@[j])@ == ps[j],
            sorts_of(ps) == match sorts_of(ps.skip(i as int)) {
                Ok(ks) => Ok(out@ + ks),
                Err(m) => Err(m),
            },
        decreases n - i,
    {
        proof {
            assert(ps.skip(i as int).drop_first() =~= ps.skip(i + 1));
            assert(ps.skip(i as int)[0] == ps[i as int]);
        }
        let p = trim_chars(parts[i].as_slice());
        let ghost rest = ps.skip(i as int);
        match parse_sort_key(p.as_slice()) {
            Some(k) => {
                proof {
                    assert(sorts_of(rest) == match sorts_of(rest.drop_first()) {
                        Ok(ks) => Ok(seq![k] + ks),
                        Err(m) => Err(m),
                    });
                    match sorts_of(ps.skip(i + 1)) {
                        Ok(ks) => {
                            assert(out@ + (seq![k] + ks) =~= out@.push(k) + ks);
                        },
                        Err(_) => {},
                    }
                }
                out.push(k);
            },
            None => {
                let m = concat3("sort: must be 'page', 'status', or 'text', got '", p.as_slice(), "'");
                proof {
                    assert(sorts_of(rest) == Err::<Seq<SortKey>, Seq<char>>(m@));
                }
                return Err(m);
            },
        }
        i = i + 1;
    }
    proof {
        assert(ps.skip(n as int) =~= Seq::<Seq<char>>::empty());
        assert(out@ + Seq::<SortKey>::empty() =~= out@);
    }
    Ok(out)
}

fn parse_duration(v: &[char]) -> (r: LineResult)
    ensures
        r@ == duration_of(v@),
{
    let n = v.len();
    if n == 0 {
        return LineResult::Fail(
            string_from_str("since requires a duration like '7d', '2w', '3m'"),
        );
    }
    let unit = v[n - 1];
    if (unit as u32) >= 128 {
        return LineResult::Panics;
    }
    let num = slice_range(v, 0, n - 1);
    proof {
        assert(num@ =~= v@.drop_last());
    }
    match parse_unsigned_exec(num.as_slice(), 0xFFFF_FFFF) {
        None => LineResult::Fail(concat3("since: invalid number in '", v, "'")),
        Some(k) => {
            if unit == 'd' {
                LineResult::Add(Filter::Since(k as u32))
            } else if unit == 'w' {
                if k > 0xFFFF_FFFF / 7 {
                    LineResult::Panics
                } else {
                    LineResult::Add(Filter::Since((k * 7) as u32))
                }
            } else if unit == 'm' {
                if k > 0xFFFF_FFFF / 30 {
                    LineResult::Panics
                } else {
                    LineResult::Add(Filter::Since((k * 30) as u32))
                }
            } else {
                let u = slice_range(v, n - 1, n);
                proof {
                    assert(u@ =~= seq![unit]);
                }
                LineResult::Fail(concat3("since: unknown unit '", u.as_slice(), "' (use d, w, or m)"))
            }
        },
    }
}

/// A duration as a day count: `None` where the arithmetic or slicing
/// cannot be carried out, else the days or the message that rejects it.
pub(crate) fn duration_outcome(v: &[char]) -> (r: Option<Result<u32, String>>)
    ensures
        match r {
            None => duration_of(v@) is Panics,
            Some(Ok(n)) => duration_of(v@) == LineV::Add(FilterV::Since(n)),
            Some(Err(m)) => duration_of(v@) == LineV::Fail(m@),
        },
{
    match parse_duration(v) {
        LineResult::Add(Filter::Since(n)) => Some(Ok(n)),
        LineResult::Fail(m) => Some(Err(m)),
        LineResult::Panics => None,
        _ => {
            proof {
                assert(false);
            }
            None
        },
    }
}

/// Split on the first `:` or, failing that, the first space, trimming
/// both sides.
fn split_pair(v: &[char]) -> (r: Option<(Vec<char>, Vec<char>)>)
    ensures
        match (
            r,
            match split_once(v@, ':') {
                Some((k, val)) => Some((trim(k), trim(val))),
                None => match split_once(v@, ' ') {
                    Some((k, val)) => Some((trim(k), trim(val))),
                    None => None,
                },
            },
        ) {
            (Some((a, b)), Some((sa, sb))) => a@ == sa && b@ == sb,
            (None, None) => true,
            _ => false,
        },
{
    match split_once_char(v, ':') {
        Some((k, val)) => Some((trim_chars(k.as_slice()), trim_chars(val.as_slice()))),
        None => match split_once_char(v, ' ') {
            Some((k, val)) => Some((trim_chars(k.as_slice()), trim_chars(val.as_slice()))),
            None => None,
        },
    }
}

/// Parse `key: value` or `key value` from a prop directive value.
fn parse_prop(v: &[char]) -> (r: Result<(String, String), String>)
    ensures
        match (r, prop_of(v@)) {
            (Ok((k, val)), Ok((sk, sv))) => k@ == sk && val@ == sv,
            (Err(m), Err(sm)) => m@ == sm,
            _ => false,
        },
{
    match split_pair(v) {
        None => Err(concat3("prop requires 'key: value' or 'key value', got '", v, "'")),
        Some((k, val)) => {
            if k.len() == 0 || val.len() == 0 {
                Err(concat3("prop requires non-empty key and value, got '", v, "'"))
            } else {
                Ok((string_of(k.as_slice()), string_of(val.as_slice())))
            }
        },
    }
}

/// Parse `key` or `key: value` from a not-prop directive value.
fn parse_prop_optional_value(v: &[char]) -> (r: Result<(String, Option<String>), String>)
    ensures
        match (r, not_prop_of(v@)) {
            (Ok((k, val)), Ok((sk, sv))) => k@ == sk && opt_view(val) == sv,
            (Err(m), Err(sm)) => m@ == sm,
            _ => false,
        },
{
    let t = trim_chars(v);
    if t.len() == 0 {
        return Err(string_from_str("not-prop requires a key"));
    }
    match split_pair(t.as_slice()) {
        None => Ok((string_of(t.as_slice()), None)),
        Some((k, val)) => {
            if k.len() == 0 {
                Err(concat3("not-prop requires a key, got '", v, "'"))
            } else {
                let vv = if val.len() == 0 {
                    None
                } else {
                    Some(string_of(val.as_slice()))
                };
                Ok((string_of(k.as_slice()), vv))
            }
        },
    }
}

fn parse_keyed(key: &[char], value: &[char]) -> (r: LineResult)
    ensures
        r@ == keyed_of(key@, value@),
{
    if eq_lit(key, "status") {
        match parse_status(value) {
            Some(s) => LineResult::Add(Filter::Status(s)),
            None => LineResult::Fail(
                concat3("status must be 'todo', 'doing', 'done', or 'open', got '", value, "'"),
            ),
        }
    } else if eq_lit(key, "tag") {
        LineResult::Add(Filter::Tag(string_of(value)))
    } else if eq_lit(key, "not-tag") {
        LineResult::Add(Filter::NotTag(string_of(value)))
    } else if eq_lit(key, "page") {
        LineResult::Add(Filter::Page(string_of(value)))
    } else if eq_lit(key, "kind") {
        match parse_kind(value) {
            Some(k) => LineResult::Add(Filter::Kind(k)),
            None => LineResult::Fail(
                concat3("kind must be 'journal' or 'page', got '", value, "'"),
            ),
        }
    } else if eq_lit(key, "since") {
        parse_duration(value)
    } else if eq_lit(key, "text") {
        LineResult::Add(Filter::Text(string_of(value)))
    } else if eq_lit(key, "sort") {
        match parse_sorts(value) {
            Ok(ks) => LineResult::Sorts(ks),
            Err(m) => LineResult::Fail(m),
        }
    } else if eq_lit(key, "limit") {
        match parse_unsigned_exec(value, usize::MAX as u64) {
            Some(n) => LineResult::Limit(n as usize),
            None => LineResult::Fail(concat3("expected a number, got '", value, "'")),
        }
    } else {
        LineResult::Fail(concat3("unknown key: '", key, "'"))
    }
}

fn directive_rest_exec(line: &[char], n: usize) -> (r: Vec<char>)
    requires
        n <= line@.len(),
    ensures
        r@ == directive_rest(line@, n as int),
{
    let tail = slice_range(line, n, line.len());
    let rest = trim_chars(tail.as_slice());
    if rest.len() > 0 && rest[0] == ':' {
        let after = slice_range(rest.as_slice(), 1, rest.len());
        trim_chars(after.as_slice())
    } else {
        rest
    }
}

fn parse_line(raw: &[char]) -> (r: LineResult)
    ensures
        r@ == line_of(raw@),
{
    let line = trim_chars(raw);
    if line.len() == 0 || line[0] == '#' {
        return LineResult::Skip;
    }
    let is_prop = eq_lit(line.as_slice(), "prop") || starts_with_lit(line.as_slice(), "prop ")
        || starts_with_lit(line.as_slice(), "prop:");
    if is_prop {
        proof {
            reveal_strlit("prop");
            reveal_strlit("prop ");
            reveal_strlit("prop:");
        }
        let rest = directive_rest_exec(line.as_slice(), 4);
        if rest.len() == 0 {
            return LineResult::Fail(string_from_str("prop requires 'key: value' or 'key value'"));
        }
        return match parse_prop(rest.as_slice()) {
            Ok((k, v)) => LineResult::Add(Filter::Prop(k, v)),
            Err(m) => LineResult::Fail(m),
        };
    }
    let is_not_prop = eq_lit(line.as_slice(), "not-prop") || starts_with_lit(
        line.as_slice(),
        "not-prop ",
    ) || starts_with_lit(line.as_slice(), "not-prop:");
    if is_not_prop {
        proof {
            reveal_strlit("not-prop");
            reveal_strlit("not-prop ");
            reveal_strlit("not-prop:");
        }
        let rest = directive_rest_exec(line.as_slice(), 8);
        if rest.len() == 0 {
            return LineResult::Fail(string_from_str("not-prop requires a key"));
        }
        return match parse_prop_optional_value(rest.as_slice()) {
            Ok((k, v)) => LineResult::Add(Filter::NotProp(k, v)),
            Err(m) => LineResult::Fail(m),
        };
    }
    match split_once_char(line.as_slice(), ':') {
        None => LineResult::Fail(string_from_str("expected 'key: value'")),
        Some((k, v)) => {
            let key = trim_chars(k.as_slice());
            let value = trim_chars(v.as_slice());
            parse_keyed(key.as_slice(), value.as_slice())
        },
    }
}

/// Parse a query DSL source, reporting the inputs the directive
/// arithmetic cannot represent as [`ParseOutcome::Panics`].
pub fn parse_outcome(source: &str) -> (r: ParseOutcome)
    ensures
        match r {
            ParseOutcome::Parsed(q) => spec_parse(source@) == Parsed::Done(q@),
            ParseOutcome::Rejected(e) => spec_parse(source@) == Parsed::Failed(e@),
            ParseOutcome::Panics => spec_parse(source@) is Panics,
        },
{
    let src = chars_of(source);
    let ls = lines_exec(src.as_slice());
    let ghost sl = lines(source@);
    let n = ls.len();
    let mut filters: Vec<Filter> = Vec::new();
    let mut sort: Vec<SortKey> = Vec::new();
    let mut limit: Option<usize> = None;
    let mut i: usize = 0;
    proof {
        assert(filters@.map_values(|f: Filter| f@) =~= Seq::<FilterV>::empty());
        assert(sort@ =~= Seq::<SortKey>::empty());
    }
    while i < n
        invariant
            n == ls@.len(),
            n == sl.len(),
            sl == lines(source@),
            i <= n,
            forall|j: int| 0 <= j < n ==> (#[trigger] ls@[j])@ == sl[j],
            spec_parse(source@) == parse_from(
                sl,
                i as int,
                QueryV { filters: filters@.map_values(|f: Filter| f@), sort: sort@, limit },
            ),
        decreases n - i,
    {
        let ghost acc = QueryV {
            filters: filters@.map_values(|f: Filter| f@),
            sort: sort@,
            limit,
        };
        match parse_line(ls[i].as_slice()) {
            LineResult::Skip => {},
            LineResult::Add(f) => {
                proof {
                    assert(filters@.push(f).map_values(|f: Filter| f@) =~= acc.filters.push(f@));
                }
                filters.push(f);
            },
            LineResult::Sorts(ks) => {
                let mut ks = ks;
                sort.append(&mut ks);
            },
            LineResult::Limit(k) => {
                limit = Some(k);
            },
            LineResult::Fail(m) => {
                return ParseOutcome::Rejected(ParseError { line: i + 1, msg: m });
            },
            LineResult::Panics => {
                return ParseOutcome::Panics;
            },
        }
        i = i + 1;
    }
    ParseOutcome::Parsed(Query { filters, sort, limit })
}

/// Parse a query DSL source string into a [`Query`].
pub fn parse(source: &str) -> (r: Result<Query, ParseError>)
    requires
        !(spec_parse(source@) is Panics),
    ensures
        match r {
            Ok(q) => spec_parse(source@) == Parsed::Done(q@),
            Err(e) => spec_parse(source@) == Parsed::Failed(e@),
        },
{
    match parse_outcome(source) {
        ParseOutcome::Parsed(q) => Ok(q),
        ParseOutcome::Rejected(e) => Err(e),
        ParseOutcome::Panics => {
            proof {
                assert(false);
            }
            Err(ParseError { line: 0, msg: String::new() })
        },
    }
}

impl ParseError {
    /// The `line N: message` text the error displays as.
    pub fn message(&self) -> (r: String)
        ensures
            r@ == "line "@ + decimal(self.line as nat) + ": "@ + self.msg@,
    {
        let mut r = string_from_str("line ");
        let d = decimal_exec(self.line);
        push_chars(&mut r, d.as_slice());
        let sep = chars_of(": ");
        push_chars(&mut r, sep.as_slice());
        let m = chars_of(self.msg.as_str());
        push_chars(&mut r, m.as_slice());
        r
    }
}

} // verus!
