//! Execution engine — filter, collect and sort matching blocks.

use vstd::prelude::*;
use vstd::string::StrSliceExecFns;

use crate::query::dsl::{Filter, FilterV, KindFilter, Query, SortKey, StatusFilter, kind_of, status_of};
use crate::query::index::{
    BlockEntry, BlockEntryV, PageEntryV, WorkspaceIndex, blocks_view, journal_flag, pages_view,
};
use crate::sort::{asc_key, asc_key_exec, key_view, sorted_by, stable_sort};
use crate::text::{
    chars_of, contains_chars, contains_seq, slice_range, starts_with_lit,
    string_from_str, to_lowercase, unicode_lower,
};

verus! {

/// Task state of a block, as read off its text prefix.
#[derive(Debug, Clone, Copy, PartialEq, Eq, PartialOrd, Ord, Structural)]
pub enum Status {
    Todo,
    Doing,
    Done,
}

/// Lowercase wire form of a status.
pub open spec fn status_text(s: Status) -> Seq<char> {
    match s {
        Status::Todo => "todo"@,
        Status::Doing => "doing"@,
        Status::Done => "done"@,
    }
}

impl Status {
    /// Lowercase wire form used in `QueryHit.status`.
    pub fn as_str(self) -> (r: &'static str)
        ensures
            r@ == status_text(self),
    {
        match self {
            Status::Todo => "todo",
            Status::Doing => "doing",
            Status::Done => "done",
        }
    }
}

/// One query hit — the data needed to render an embed.
pub struct Hit {
    /// Block ref handle (`blk-XXXXXX`) for embed rendering.
    pub handle: String,
    /// Slug of the page hosting the block.
    pub page_slug: String,
    /// Task state, or `None` when the block is not a task.
    pub status: Option<Status>,
    /// Block text with the task prefix stripped.
    pub text: String,
}

pub struct HitV {
    pub handle: Seq<char>,
    pub page_slug: Seq<char>,
    pub status: Option<Status>,
    pub text: Seq<char>,
}

impl View for Hit {
    type V = HitV;

    open spec fn view(&self) -> HitV {
        HitV {
            handle: self.handle@,
            page_slug: self.page_slug@,
            status: self.status,
            text: self.text@,
        }
    }
}

pub open spec fn hits_view(hs: Seq<Hit>) -> Seq<HitV> {
    hs.map_values(|h: Hit| h@)
}

// ── task markers ─────────────────────────────────────────────────────

/// The task marker `text` opens with, and its length in chars.
pub open spec fn todo_marker(text: Seq<char>) -> Option<(Status, int)> {
    if "TODO "@.is_prefix_of(text) {
        Some((Status::Todo, "TODO "@.len() as int))
    } else if "DOING "@.is_prefix_of(text) {
        Some((Status::Doing, "DOING "@.len() as int))
    } else if "DONE "@.is_prefix_of(text) {
        Some((Status::Done, "DONE "@.len() as int))
    } else if "[ ] "@.is_prefix_of(text) {
        Some((Status::Todo, "[ ] "@.len() as int))
    } else if "[/] "@.is_prefix_of(text) {
        Some((Status::Doing, "[/] "@.len() as int))
    } else if "[x] "@.is_prefix_of(text) {
        Some((Status::Done, "[x] "@.len() as int))
    } else if "[X] "@.is_prefix_of(text) {
        Some((Status::Done, "[X] "@.len() as int))
    } else {
        None
    }
}

/// Length of the single `"> "` quote marker a task marker may sit behind.
pub open spec fn quote_len(raw: Seq<char>) -> int {
    if "> "@.is_prefix_of(raw) {
        "> "@.len() as int
    } else {
        0
    }
}

/// A block's task state and its text with the marker stripped. The marker
/// is recognised at the start of the text or behind one `"> "`; a
/// non-task keeps its whole text.
pub open spec fn split_todo_spec(raw: Seq<char>) -> (Option<Status>, Seq<char>) {
    let q = quote_len(raw);
    match todo_marker(raw.skip(q)) {
        Some((s, n)) => (Some(s), raw.skip(q + n)),
        None => (None, raw),
    }
}

/// Length of `lit` when it opens `text`.
fn marker_len(text: &[char], lit: &str) -> (r: Option<usize>)
    ensures
        match r {
            Some(n) => lit@.is_prefix_of(text@) && n == lit@.len(),
            None => !lit@.is_prefix_of(text@),
        },
{
    if starts_with_lit(text, lit) {
        let l = chars_of(lit);
        Some(l.len())
    } else {
        None
    }
}

fn todo_marker_exec(text: &[char]) -> (r: Option<(Status, usize)>)
    ensures
        match (r, todo_marker(text@)) {
            (Some((s, n)), Some((ss, sn))) => s == ss && n == sn,
            (None, None) => true,
            _ => false,
        },
{
    if let Some(n) = marker_len(text, "TODO ") {
        Some((Status::Todo, n))
    } else if let Some(n) = marker_len(text, "DOING ") {
        Some((Status::Doing, n))
    } else if let Some(n) = marker_len(text, "DONE ") {
        Some((Status::Done, n))
    } else if let Some(n) = marker_len(text, "[ ] ") {
        Some((Status::Todo, n))
    } else if let Some(n) = marker_len(text, "[/] ") {
        Some((Status::Doing, n))
    } else if let Some(n) = marker_len(text, "[x] ") {
        Some((Status::Done, n))
    } else if let Some(n) = marker_len(text, "[X] ") {
        Some((Status::Done, n))
    } else {
        None
    }
}

/// Split a block's text into `(status, body)`, accepting both the word
/// form (`"TODO body"`) and the checkbox form (`"[ ] body"`), optionally
/// behind a single `"> "` quote marker.
pub fn split_todo(raw: &str) -> (r: (Option<Status>, &str))
    ensures
        (r.0, r.1@) == split_todo_spec(raw@),
{
    let cs = chars_of(raw);
    let n = cs.len();
    let q: usize = match marker_len(cs.as_slice(), "> ") {
        Some(k) => k,
        None => 0,
    };
    let after = slice_range(cs.as_slice(), q, n);
    match todo_marker_exec(after.as_slice()) {
        Some((s, m)) => {
            proof {
                assert(q + m <= n);
            }
            (Some(s), raw.substring_char(q + m, n))
        },
        None => (None, raw),
    }
}

// ── filters ──────────────────────────────────────────────────────────

/// Day number (days since the common era, 0001-01-01 being day 1) of the
/// earliest date the calendar type represents.
pub const EARLIEST_DAY: i64 = -95_746_129;

/// Day number of the latest date the calendar type represents.
pub const LATEST_DAY: i64 = 95_745_399;

/// What the `%Y-%m-%d` date parser makes of a page slug, as a day number.
pub uninterp spec fn slug_date_day(slug: Seq<char>) -> Option<i64>;

/// `chrono::NaiveDate::parse_from_str(slug, "%Y-%m-%d")`, taken to its
/// day number with `Datelike::num_days_from_ce`. Every date chrono
/// represents lies between [`EARLIEST_DAY`] and [`LATEST_DAY`].
#[verifier::external_body]
pub(crate) fn parse_journal_date(slug: &str) -> (r: Option<i64>)
    ensures
        r == slug_date_day(slug@),
        r matches Some(d) ==> EARLIEST_DAY <= d <= LATEST_DAY,
{
    match chrono::NaiveDate::parse_from_str(slug, "%Y-%m-%d") {
        Ok(d) => Some(chrono::Datelike::num_days_from_ce(&d) as i64),
        Err(_) => None,
    }
}

/// `#<tag>`, lowercased.
pub open spec fn tag_needle(tag: Seq<char>) -> Seq<char> {
    seq!['#'] + unicode_lower(tag)
}

/// Some property matches `key` and `value`, case-insensitively.
pub open spec fn has_prop(props: Seq<(Seq<char>, Seq<char>)>, key: Seq<char>, value: Seq<char>) -> bool {
    exists|i: int|
        0 <= i < props.len() && unicode_lower(#[trigger] props[i].0) == unicode_lower(key)
            && unicode_lower(props[i].1) == unicode_lower(value)
}

/// Some property has `key`, case-insensitively.
pub open spec fn has_key(props: Seq<(Seq<char>, Seq<char>)>, key: Seq<char>) -> bool {
    exists|i: int| 0 <= i < props.len() && unicode_lower(#[trigger] props[i].0) == unicode_lower(key)
}

/// Whether a block passes one filter. `today` is the current day number.
pub open spec fn filter_matches(
    f: FilterV,
    e: BlockEntryV,
    status: Option<Status>,
    is_journal: Option<bool>,
    today: i64,
) -> bool {
    match f {
        FilterV::Status(sf) => match sf {
            StatusFilter::Todo => status == Some(Status::Todo),
            StatusFilter::Doing => status == Some(Status::Doing),
            StatusFilter::Done => status == Some(Status::Done),
            StatusFilter::Open => status is Some,
        },
        FilterV::Tag(t) => contains_seq(e.text_fold, tag_needle(t)),
        FilterV::NotTag(t) => !contains_seq(e.text_fold, tag_needle(t)),
        FilterV::Prop(k, v) => has_prop(e.properties, k, v),
        FilterV::NotProp(k, v) => match v {
            Some(val) => !has_prop(e.properties, k, val),
            None => !has_key(e.properties, k),
        },
        FilterV::Page(slug) => e.source_slug == slug,
        FilterV::Kind(kf) => match kf {
            KindFilter::Journal => is_journal == Some(true),
            KindFilter::Page => is_journal != Some(true),
        },
        FilterV::Since(days) => is_journal == Some(true) && match slug_date_day(e.source_slug) {
            Some(d) => d >= today - days,
            None => false,
        },
        FilterV::Text(needle) => contains_seq(e.text_fold, unicode_lower(needle)),
    }
}

/// A `since` filter whose cutoff date (`today` minus the days) falls
/// before the earliest representable date, evaluated on a journal block
/// whose slug is a date: the date subtraction cannot be carried out.
pub open spec fn since_panics(f: FilterV, e: BlockEntryV, is_journal: Option<bool>, today: i64) -> bool {
    match f {
        FilterV::Since(days) => is_journal == Some(true) && slug_date_day(e.source_slug) is Some
            && today - days < EARLIEST_DAY,
        _ => false,
    }
}

/// Evaluate the filters in order, stopping at the first that fails;
/// `None` when an evaluated filter cannot be carried out.
pub open spec fn eval_filters(
    fs: Seq<FilterV>,
    e: BlockEntryV,
    status: Option<Status>,
    is_journal: Option<bool>,
    today: i64,
) -> Option<bool>
    decreases fs.len(),
{
    if fs.len() == 0 {
        Some(true)
    } else if since_panics(fs[0], e, is_journal, today) {
        None
    } else if !filter_matches(fs[0], e, status, is_journal, today) {
        Some(false)
    } else {
        eval_filters(fs.drop_first(), e, status, is_journal, today)
    }
}

/// The hit a block produces when it passes.
pub open spec fn hit_of(e: BlockEntryV) -> HitV {
    HitV {
        handle: e.ref_handle,
        page_slug: e.source_slug,
        status: split_todo_spec(e.text).0,
        text: split_todo_spec(e.text).1,
    }
}

/// Hits over `blocks`, in order; `None` when some block's filters cannot
/// be carried out.
pub open spec fn hits_of(
    blocks: Seq<BlockEntryV>,
    pages: Seq<PageEntryV>,
    fs: Seq<FilterV>,
    today: i64,
) -> Option<Seq<HitV>>
    decreases blocks.len(),
{
    if blocks.len() == 0 {
        Some(seq![])
    } else {
        match hits_of(blocks.drop_last(), pages, fs, today) {
            None => None,
            Some(hs) => {
                let e = blocks.last();
                match eval_filters(
                    fs,
                    e,
                    split_todo_spec(e.text).0,
                    journal_flag(pages, e.source_slug),
                    today,
                ) {
                    None => None,
                    Some(true) => Some(hs.push(hit_of(e))),
                    Some(false) => Some(hs),
                }
            },
        }
    }
}

pub open spec fn filters_view(fs: Seq<Filter>) -> Seq<FilterV> {
    fs.map_values(|f: Filter| f@)
}

/// `s` lowercased, as chars.
fn lower_chars(s: &str) -> (r: Vec<char>)
    ensures
        r@ == unicode_lower(s@),
{
    let l = to_lowercase(s);
    chars_of(l.as_str())
}

fn prop_match(props: &Vec<(String, String)>, key: &str, value: Option<&str>) -> (r: bool)
    ensures
        r == match value {
            Some(v) => has_prop(crate::query::index::pairs_view(props@), key@, v@),
            None => has_key(crate::query::index::pairs_view(props@), key@),
        },
{
    let ghost pv = crate::query::index::pairs_view(props@);
    let key_fold = lower_chars(key);
    let n = props.len();
    let mut i: usize = 0;
    while i < n
        invariant
            n == props@.len(),
            pv == crate::query::index::pairs_view(props@),
            key_fold@ == unicode_lower(key@),
            i <= n,
            forall|j: int|
                0 <= j < i ==> !(unicode_lower(#[trigger] pv[j].0) == unicode_lower(key@) && match value {
                    Some(v) => unicode_lower(pv[j].1) == unicode_lower(v@),
                    None => true,
                }),
        decreases n - i,
    {
        let k = lower_chars(props[i].0.as_str());
        proof {
            assert(pv[i as int] == (props@[i as int].0@, props@[i as int].1@));
        }
        if crate::text::eq_chars(k.as_slice(), key_fold.as_slice()) {
            match value {
                Some(v) => {
                    let vf = lower_chars(v);
                    let pvf = lower_chars(props[i].1.as_str());
                    if crate::text::eq_chars(pvf.as_slice(), vf.as_slice()) {
                        proof {
                            assert(unicode_lower(pv[i as int].0) == unicode_lower(key@));
                            assert(unicode_lower(pv[i as int].1) == unicode_lower(v@));
                        }
                        return true;
                    }
                },
                None => {
                    proof {
                        assert(unicode_lower(pv[i as int].0) == unicode_lower(key@));
                    }
                    return true;
                },
            }
        }
        i = i + 1;
    }
    false
}

/// Whether `entry` passes filter `f`.
pub fn matches(
    f: &Filter,
    entry: &BlockEntry,
    status: Option<Status>,
    is_journal: Option<bool>,
    today: i64,
) -> (r: bool)
    requires
        !since_panics(f@, entry@, is_journal, today),
        EARLIEST_DAY <= today <= LATEST_DAY,
    ensures
        r == filter_matches(f@, entry@, status, is_journal, today),
{
    match f {
        Filter::Status(sf) => match sf {
            StatusFilter::Todo => status == Some(Status::Todo),
            StatusFilter::Doing => status == Some(Status::Doing),
            StatusFilter::Done => status == Some(Status::Done),
            StatusFilter::Open => status.is_some(),
        },
        Filter::Tag(tag) => {
            let needle = tag_needle_exec(tag.as_str());
            let fold = chars_of(entry.text_fold.as_str());
            contains_chars(fold.as_slice(), needle.as_slice())
        },
        Filter::NotTag(tag) => {
            let needle = tag_needle_exec(tag.as_str());
            let fold = chars_of(entry.text_fold.as_str());
            !contains_chars(fold.as_slice(), needle.as_slice())
        },
        Filter::Prop(key, value) => prop_match(&entry.properties, key.as_str(), Some(value.as_str())),
        Filter::NotProp(key, value) => match value {
            Some(v) => !prop_match(&entry.properties, key.as_str(), Some(v.as_str())),
            None => !prop_match(&entry.properties, key.as_str(), None),
        },
        Filter::Page(slug) => {
            let a = chars_of(entry.source_slug.as_str());
            let b = chars_of(slug.as_str());
            crate::text::eq_chars(a.as_slice(), b.as_slice())
        },
        Filter::Kind(kf) => match kf {
            KindFilter::Journal => is_journal == Some(true),
            KindFilter::Page => is_journal != Some(true),
        },
        Filter::Since(days) => {
            if is_journal == Some(true) {
                match parse_journal_date(entry.source_slug.as_str()) {
                    Some(d) => d >= today - (*days as i64),
                    None => false,
                }
            } else {
                false
            }
        },
        Filter::Text(needle) => {
            let n = lower_chars(needle.as_str());
            let fold = chars_of(entry.text_fold.as_str());
            contains_chars(fold.as_slice(), n.as_slice())
        },
    }
}

fn tag_needle_exec(tag: &str) -> (r: Vec<char>)
    ensures
        r@ == tag_needle(tag@),
{
    let mut r: Vec<char> = Vec::new();
    r.push('#');
    let mut l = lower_chars(tag);
    r.append(&mut l);
    proof {
        assert(r@ =~= tag_needle(tag@));
    }
    r
}

/// Whether the filters let `entry` through; `None` where an evaluated
/// `since` filter cannot be carried out.
fn passes(
    fs: &Vec<Filter>,
    entry: &BlockEntry,
    status: Option<Status>,
    is_journal: Option<bool>,
    today: i64,
) -> (r: Option<bool>)
    requires
        EARLIEST_DAY <= today <= LATEST_DAY,
    ensures
        r == eval_filters(filters_view(fs@), entry@, status, is_journal, today),
{
    let ghost fv = filters_view(fs@);
    let n = fs.len();
    let mut i: usize = 0;
    proof {
        assert(fv.skip(0) =~= fv);
    }
    while i < n
        invariant
            n == fs@.len(),
            fv == filters_view(fs@),
            i <= n,
            EARLIEST_DAY <= today <= LATEST_DAY,
            eval_filters(fv, entry@, status, is_journal, today) == eval_filters(
                fv.skip(i as int),
                entry@,
                status,
                is_journal,
                today,
            ),
        decreases n - i,
    {
        let ghost rest = fv.skip(i as int);
        proof {
            assert(rest[0] == fs@[i as int]@);
            assert(rest.drop_first() =~= fv.skip(i + 1));
        }
        if since_panics_exec(&fs[i], entry, is_journal, today) {
            return None;
        }
        if !matches(&fs[i], entry, status, is_journal, today) {
            return Some(false);
        }
        i = i + 1;
    }
    Some(true)
}

fn since_panics_exec(f: &Filter, entry: &BlockEntry, is_journal: Option<bool>, today: i64) -> (r:
    bool)
    requires
        EARLIEST_DAY <= today <= LATEST_DAY,
    ensures
        r == since_panics(f@, entry@, is_journal, today),
{
    match f {
        Filter::Since(days) => {
            if is_journal == Some(true) {
                match parse_journal_date(entry.source_slug.as_str()) {
                    Some(_) => today - (*days as i64) < EARLIEST_DAY,
                    None => false,
                }
            } else {
                false
            }
        },
        _ => false,
    }
}

/// Run `filters` over every block of `index`, in document order, with
/// `today` as the current day number. `None` when the filters cannot be
/// carried out on some block.
pub fn run_at(index: &WorkspaceIndex, filters: &Vec<Filter>, today: i64) -> (r: Option<Vec<Hit>>)
    requires
        EARLIEST_DAY <= today <= LATEST_DAY,
    ensures
        match r {
            Some(hs) => hits_of(
                blocks_view(index.blocks@),
                pages_view(index.pages@),
                filters_view(filters@),
                today,
            ) == Some(hits_view(hs@)),
            None => hits_of(
                blocks_view(index.blocks@),
                pages_view(index.pages@),
                filters_view(filters@),
                today,
            ) is None,
        },
{
    let ghost bv = blocks_view(index.blocks@);
    let ghost pv = pages_view(index.pages@);
    let ghost fv = filters_view(filters@);
    let n = index.blocks.len();
    let mut out: Vec<Hit> = Vec::new();
    let mut i: usize = 0;
    proof {
        assert(bv.take(0) =~= Seq::<BlockEntryV>::empty());
        assert(hits_view(out@) =~= Seq::<HitV>::empty());
    }
    while i < n
        invariant
            n == index.blocks@.len(),
            bv == blocks_view(index.blocks@),
            pv == pages_view(index.pages@),
            fv == filters_view(filters@),
            i <= n,
            EARLIEST_DAY <= today <= LATEST_DAY,
            hits_of(bv.take(i as int), pv, fv, today) == Some(hits_view(out@)),
        decreases n - i,
    {
        let entry = &index.blocks[i];
        proof {
            assert(bv.take(i + 1).drop_last() =~= bv.take(i as int));
            assert(bv.take(i + 1).last() == entry@);
        }
        let (status, body) = split_todo(entry.text.as_str());
        let is_journal = index.journal_flag_of(entry.source_slug.as_str());
        match passes(filters, entry, status, is_journal, today) {
            None => {
                proof {
                    lemma_hits_none_extends(bv, pv, fv, today, i as int + 1);
                    assert(bv.take(n as int) =~= bv);
                }
                return None;
            },
            Some(true) => {
                let h = Hit {
                    handle: entry.ref_handle.clone(),
                    page_slug: entry.source_slug.clone(),
                    status,
                    text: string_from_str(body),
                };
                proof {
                    assert(h@ == hit_of(entry@));
                    assert(hits_view(out@.push(h)) =~= hits_view(out@).push(h@));
                }
                out.push(h);
            },
            Some(false) => {},
        }
        i = i + 1;
    }
    proof {
        assert(bv.take(n as int) =~= bv);
    }
    Some(out)
}

/// Once a prefix of the blocks cannot be carried out, neither can any
/// longer prefix.
proof fn lemma_hits_none_extends(
    bv: Seq<BlockEntryV>,
    pv: Seq<PageEntryV>,
    fv: Seq<FilterV>,
    today: i64,
    k: int,
)
    requires
        0 <= k <= bv.len(),
        hits_of(bv.take(k), pv, fv, today) is None,
    ensures
        hits_of(bv, pv, fv, today) is None,
    decreases bv.len() - k,
{
    if k < bv.len() {
        assert(bv.take(k + 1).drop_last() =~= bv.take(k));
        lemma_hits_none_extends(bv, pv, fv, today, k + 1);
    } else {
        assert(bv.take(k) =~= bv);
    }
}

/// `chrono::Local::now()`'s calendar date, as a day number. Which day it
/// is depends on the clock and the machine's time zone: only the range of
/// every date chrono represents is stated.
#[verifier::external_body]
pub(crate) fn today_day() -> (d: i64)
    ensures
        EARLIEST_DAY <= d <= LATEST_DAY,
{
    chrono::Datelike::num_days_from_ce(&chrono::Local::now().date_naive()) as i64
}

pub open spec fn opt_hits_view(r: Option<Vec<Hit>>) -> Option<Seq<HitV>> {
    match r {
        Some(hs) => Some(hits_view(hs@)),
        None => None,
    }
}

/// Whether `r` is what the filters give over the blocks on `day`.
pub open spec fn run_outcome(
    index_blocks: Seq<BlockEntryV>,
    index_pages: Seq<PageEntryV>,
    filters: Seq<FilterV>,
    day: i64,
    r: Option<Seq<HitV>>,
) -> bool {
    r == hits_of(index_blocks, index_pages, filters, day)
}

/// Run `query` against `index` on the local calendar's current day,
/// returning all matching blocks in document order. `None` where a
/// `since` cutoff falls before the calendar's first day.
pub fn run(index: &WorkspaceIndex, query: &Query) -> (r: Option<Vec<Hit>>)
    ensures
        exists|day: i64|
            EARLIEST_DAY <= day <= LATEST_DAY && #[trigger] run_outcome(
                blocks_view(index.blocks@),
                pages_view(index.pages@),
                query@.filters,
                day,
                opt_hits_view(r),
            ),
{
    let day = today_day();
    let r = run_at(index, &query.filters, day);
    proof {
        assert(run_outcome(
            blocks_view(index.blocks@),
            pages_view(index.pages@),
            query@.filters,
            day,
            opt_hits_view(r),
        ));
    }
    r
}

// ── sorting ──────────────────────────────────────────────────────────

/// Position of a status in the order work moves through: TODO, DOING,
/// DONE. A non-task sorts with TODO.
pub open spec fn status_rank(s: Option<Status>) -> i64 {
    match s {
        None => 0,
        Some(Status::Todo) => 0,
        Some(Status::Doing) => 1,
        Some(Status::Done) => 2,
    }
}

/// One sort key's contribution to a hit's composite key.
pub open spec fn key_part(h: HitV, k: SortKey) -> Seq<i64> {
    match k {
        SortKey::Page => asc_key(h.page_slug),
        SortKey::Status => seq![status_rank(h.status)],
        SortKey::Text => asc_key(h.text),
    }
}

/// The composite key: the parts in priority order. Each part is
/// prefix-free, so the lexicographic order of the composite is "by the
/// first key, ties by the second, …".
pub open spec fn hit_key(h: HitV, keys: Seq<SortKey>) -> Seq<i64>
    decreases keys.len(),
{
    if keys.len() == 0 {
        seq![]
    } else {
        key_part(h, keys[0]) + hit_key(h, keys.drop_first())
    }
}

pub open spec fn hit_keys(hs: Seq<HitV>, keys: Seq<SortKey>) -> Seq<Seq<i64>> {
    Seq::new(hs.len(), |i: int| hit_key(hs[i], keys))
}

fn hit_key_exec(h: &Hit, keys: &[SortKey]) -> (r: Vec<i64>)
    ensures
        r@ == hit_key(h@, keys@),
{
    let n = keys.len();
    let mut r: Vec<i64> = Vec::new();
    let mut i: usize = n;
    proof {
        assert(keys@.skip(n as int) =~= Seq::<SortKey>::empty());
        assert(r@ =~= hit_key(h@, keys@.skip(n as int)));
    }
    while i > 0
        invariant
            n == keys@.len(),
            i <= n,
            r@ == hit_key(h@, keys@.skip(i as int)),
        decreases i,
    {
        let k = keys[i - 1];
        let mut part: Vec<i64> = match k {
            SortKey::Page => {
                let c = chars_of(h.page_slug.as_str());
                asc_key_exec(c.as_slice())
            },
            SortKey::Status => {
                let mut v: Vec<i64> = Vec::new();
                v.push(
                    match h.status {
                        None => 0,
                        Some(Status::Todo) => 0,
                        Some(Status::Doing) => 1,
                        Some(Status::Done) => 2,
                    },
                );
                v
            },
            SortKey::Text => {
                let c = chars_of(h.text.as_str());
                asc_key_exec(c.as_slice())
            },
        };
        proof {
            assert(keys@.skip(i - 1).drop_first() =~= keys@.skip(i as int));
            assert(keys@.skip(i - 1)[0] == k);
            assert(part@ == key_part(h@, k));
        }
        part.append(&mut r);
        r = part;
        i = i - 1;
    }
    proof {
        assert(keys@.skip(0) =~= keys@);
    }
    r
}

/// Sort hits by the given keys in priority order: the first key decides,
/// ties go to the next, and hits equal on every key keep their order.
pub fn sort_hits(hits: &mut Vec<Hit>, keys: &[SortKey])
    ensures
        sorted_by(
            hits_view(final(hits)@),
            hits_view(old(hits)@),
            hit_keys(hits_view(old(hits)@), keys@),
        ),
{
    let mut v: Vec<Hit> = Vec::new();
    std::mem::swap(hits, &mut v);
    let ghost orig = v@;
    let n = v.len();
    let mut ks: Vec<Vec<i64>> = Vec::new();
    let mut i: usize = 0;
    while i < n
        invariant
            n == v@.len(),
            v@ == orig,
            i <= n,
            ks@.len() == i,
            forall|j: int| 0 <= j < i ==> (#[trigger] ks@[j])@ == hit_key(orig[j]@, keys@),
        decreases n - i,
    {
        let k = hit_key_exec(&v[i], keys);
        ks.push(k);
        i = i + 1;
    }
    proof {
        assert(key_view(ks@) =~= hit_keys(hits_view(orig), keys@));
    }
    let sorted = stable_sort(v, &ks);
    proof {
        let kv = hit_keys(hits_view(orig), keys@);
        let perm = choose|perm: Seq<usize>|
            crate::sort::is_stable_order(kv, perm) && sorted@.len() == orig.len() && forall|k: int|
                0 <= k < sorted@.len() ==> #[trigger] sorted@[k] == orig[perm[k] as int];
        assert(crate::sort::is_stable_order(kv, perm) && hits_view(sorted@).len() == hits_view(
            orig,
        ).len() && forall|k: int|
            0 <= k < hits_view(sorted@).len() ==> #[trigger] hits_view(sorted@)[k] == hits_view(
                orig,
            )[perm[k] as int]);
    }
    *hits = sorted;
}

/// After sorting, the hits' composite keys never decrease: an earlier hit
/// never sorts after a later one by the first key, nor, on a tie, by the
/// next.
pub proof fn lemma_sorted_hits_ordered(
    out: Seq<HitV>,
    inp: Seq<HitV>,
    keys: Seq<SortKey>,
    i: int,
    j: int,
)
    requires
        sorted_by(out, inp, hit_keys(inp, keys)),
        0 <= i < j < out.len(),
    ensures
        !crate::sort::lex_lt(hit_key(out[j], keys), hit_key(out[i], keys)),
{
    let kv = hit_keys(inp, keys);
    let perm = choose|perm: Seq<usize>|
        crate::sort::is_stable_order(kv, perm) && out.len() == inp.len() && forall|k: int|
            0 <= k < out.len() ==> #[trigger] out[k] == inp[perm[k] as int];
    let (pi, pj) = (perm[i] as int, perm[j] as int);
    assert(out[i] == inp[pi] && out[j] == inp[pj]);
    assert(crate::sort::ord_lt(kv, pi, pj));
    let (ki, kj) = (hit_key(out[i], keys), hit_key(out[j], keys));
    assert(kv[pi] == ki && kv[pj] == kj);
    if crate::sort::lex_lt(kj, ki) {
        if crate::sort::lex_lt(ki, kj) {
            crate::sort::lemma_lex_transitive(ki, kj, ki);
        }
        crate::sort::lemma_lex_irreflexive(ki);
    }
}


/// A text filter passes a block exactly when the lowercased needle occurs
/// in the block's lowercased text, and a tag filter when `#` and the
/// lowercased tag do; `not-tag` passes exactly the blocks `tag` rejects.
/// The index holds each block's text lowercased in `text_fold`.
pub proof fn lemma_text_and_tag_search_fold_case(
    e: BlockEntryV,
    needle: Seq<char>,
    status: Option<Status>,
    is_journal: Option<bool>,
    today: i64,
)
    requires
        e.text_fold == unicode_lower(e.text),
    ensures
        filter_matches(FilterV::Text(needle), e, status, is_journal, today) <==> contains_seq(
            unicode_lower(e.text),
            unicode_lower(needle),
        ),
        filter_matches(FilterV::Tag(needle), e, status, is_journal, today) <==> contains_seq(
            unicode_lower(e.text),
            seq!['#'] + unicode_lower(needle),
        ),
        filter_matches(FilterV::NotTag(needle), e, status, is_journal, today) <==> !filter_matches(
            FilterV::Tag(needle),
            e,
            status,
            is_journal,
            today,
        ),
{
}

/// A `status:` line names a task state, or `open` for any of them: the
/// words `todo`, `doing`, `done` and `open` are the ones accepted, and the
/// filter a word parses to passes exactly the blocks in the state it names
/// (every task block for `open`), never a block that is not a task.
pub proof fn lemma_status_words_select_their_state(
    v: Seq<char>,
    e: BlockEntryV,
    status: Option<Status>,
    is_journal: Option<bool>,
    today: i64,
)
    ensures
        status_of(v) is Some <==> (v == "todo"@ || v == "doing"@ || v == "done"@ || v == "open"@),
        status_of(v) matches Some(sf) ==> (filter_matches(FilterV::Status(sf), e, status, is_journal, today)
            <==> (status matches Some(st) && (v == "open"@ || v == status_text(st)))),
{
    reveal_strlit("todo");
    reveal_strlit("doing");
    reveal_strlit("done");
    reveal_strlit("open");
    assert("todo"@.len() == 4 && "doing"@.len() == 5 && "done"@.len() == 4 && "open"@.len() == 4);
    assert("todo"@[0] == 't' && "done"@[0] == 'd' && "open"@[0] == 'o');
    assert("todo"@ != "done"@);
    assert("todo"@ != "open"@);
    assert("done"@ != "open"@);
}


/// Property filters compare case-insensitively: `prop` passes a block
/// exactly when some property's lowercased key and value equal the
/// lowercased key and value asked for, `not-prop` with a value passes
/// exactly the blocks that `prop` rejects, and a bare `not-prop` key
/// passes exactly the blocks with no property under that key. `page`
/// passes the blocks of that page, and `kind` journals or the rest.
pub proof fn lemma_property_page_and_kind_filters(
    e: BlockEntryV,
    k: Seq<char>,
    v: Seq<char>,
    status: Option<Status>,
    is_journal: Option<bool>,
    today: i64,
)
    ensures
        filter_matches(FilterV::Prop(k, v), e, status, is_journal, today) <==> exists|i: int|
            0 <= i < e.properties.len() && unicode_lower((#[trigger] e.properties[i]).0) == unicode_lower(k)
                && unicode_lower(e.properties[i].1) == unicode_lower(v),
        filter_matches(FilterV::NotProp(k, Some(v)), e, status, is_journal, today) <==> !filter_matches(
            FilterV::Prop(k, v),
            e,
            status,
            is_journal,
            today,
        ),
        filter_matches(FilterV::NotProp(k, None), e, status, is_journal, today) <==> forall|i: int|
            0 <= i < e.properties.len() ==> unicode_lower((#[trigger] e.properties[i]).0) != unicode_lower(k),
        filter_matches(FilterV::Page(k), e, status, is_journal, today) <==> e.source_slug == k,
        filter_matches(FilterV::Kind(KindFilter::Journal), e, status, is_journal, today) <==> is_journal
            == Some(true),
        filter_matches(FilterV::Kind(KindFilter::Page), e, status, is_journal, today) <==> !filter_matches(
            FilterV::Kind(KindFilter::Journal),
            e,
            status,
            is_journal,
            today,
        ),
{
}

/// Filters AND-compose: when none of them has a cutoff that cannot be
/// computed, a block passes the list exactly when it passes every filter.
pub proof fn lemma_every_filter_must_pass(
    fs: Seq<FilterV>,
    e: BlockEntryV,
    status: Option<Status>,
    is_journal: Option<bool>,
    today: i64,
)
    requires
        forall|i: int| 0 <= i < fs.len() ==> !since_panics(#[trigger] fs[i], e, is_journal, today),
    ensures
        eval_filters(fs, e, status, is_journal, today) == Some(
            forall|i: int| 0 <= i < fs.len() ==> filter_matches(#[trigger] fs[i], e, status, is_journal, today),
        ),
    decreases fs.len(),
{
    if fs.len() > 0 {
        let rest = fs.drop_first();
        assert forall|i: int| 0 <= i < rest.len() implies !since_panics(#[trigger] rest[i], e, is_journal, today) by {
            assert(rest[i] == fs[i + 1]);
        }
        lemma_every_filter_must_pass(rest, e, status, is_journal, today);
        assert(!since_panics(fs[0], e, is_journal, today));
        if filter_matches(fs[0], e, status, is_journal, today) {
            assert((forall|i: int| 0 <= i < fs.len() ==> filter_matches(#[trigger] fs[i], e, status, is_journal, today))
                == (forall|i: int| 0 <= i < rest.len() ==> filter_matches(#[trigger] rest[i], e, status, is_journal, today)))
                by {
                if forall|i: int| 0 <= i < rest.len() ==> filter_matches(#[trigger] rest[i], e, status, is_journal, today) {
                    assert forall|i: int| 0 <= i < fs.len() implies filter_matches(#[trigger] fs[i], e, status, is_journal, today) by {
                        if i > 0 {
                            assert(fs[i] == rest[i - 1]);
                        }
                    }
                }
                if forall|i: int| 0 <= i < fs.len() ==> filter_matches(#[trigger] fs[i], e, status, is_journal, today) {
                    assert forall|i: int| 0 <= i < rest.len() implies filter_matches(#[trigger] rest[i], e, status, is_journal, today) by {
                        assert(rest[i] == fs[i + 1]);
                    }
                }
            }
        }
    }
}

/// Whether block `e` passes every filter of `fs` over `pages` on `today`.
pub open spec fn block_passes(pages: Seq<PageEntryV>, fs: Seq<FilterV>, today: i64, e: BlockEntryV) -> bool {
    eval_filters(fs, e, split_todo_spec(e.text).0, journal_flag(pages, e.source_slug), today) == Some(true)
}

/// The hits are the blocks that pass, in block order, each once: when the
/// filters can be carried out, the hit list is the passing blocks, kept in
/// order, each turned into its hit.
pub proof fn lemma_hits_are_the_passing_blocks(
    blocks: Seq<BlockEntryV>,
    pages: Seq<PageEntryV>,
    fs: Seq<FilterV>,
    today: i64,
)
    ensures
        hits_of(blocks, pages, fs, today) matches Some(hs) ==> hs == blocks.filter(
            |e: BlockEntryV| block_passes(pages, fs, today, e),
        ).map_values(|e: BlockEntryV| hit_of(e)),
    decreases blocks.len(),
{
    reveal(Seq::filter);
    if blocks.len() > 0 {
        let init = blocks.drop_last();
        lemma_hits_are_the_passing_blocks(init, pages, fs, today);
        let pred = |e: BlockEntryV| block_passes(pages, fs, today, e);
        let f = |e: BlockEntryV| hit_of(e);
        let kept = init.filter(pred);
        assert(kept.push(blocks.last()).map_values(f) =~= kept.map_values(f).push(hit_of(blocks.last())));
    }
}

proof fn lemma_not_prefix(a: Seq<char>, b: Seq<char>, k: int)
    requires
        0 <= k < a.len(),
        k < b.len(),
        a[k] != b[k],
    ensures
        !a.is_prefix_of(b),
{
    if a.is_prefix_of(b) {
        assert(b.subrange(0, a.len() as int)[k] == b[k]);
    }
}

/// A task marker sets the block's state and is cut from its text: `TODO `,
/// `DOING ` and `DONE ` (and the checkboxes `[ ] `, `[/] `, `[x] `) open
/// a TODO, DOING and DONE block whose text is what follows the marker.
pub proof fn lemma_task_markers(rest: Seq<char>)
    ensures
        split_todo_spec("TODO "@ + rest) == (Some(Status::Todo), rest),
        split_todo_spec("DOING "@ + rest) == (Some(Status::Doing), rest),
        split_todo_spec("DONE "@ + rest) == (Some(Status::Done), rest),
        split_todo_spec("[ ] "@ + rest) == (Some(Status::Todo), rest),
        split_todo_spec("[/] "@ + rest) == (Some(Status::Doing), rest),
        split_todo_spec("[x] "@ + rest) == (Some(Status::Done), rest),
{
    reveal_strlit("TODO ");
    reveal_strlit("DOING ");
    reveal_strlit("DONE ");
    reveal_strlit("[ ] ");
    reveal_strlit("[/] ");
    reveal_strlit("[x] ");
    reveal_strlit("> ");
    let todo = "TODO "@ + rest;
    let doing = "DOING "@ + rest;
    let done = "DONE "@ + rest;
    let open_box = "[ ] "@ + rest;
    let half_box = "[/] "@ + rest;
    let full_box = "[x] "@ + rest;
    lemma_not_prefix("> "@, todo, 0);
    lemma_not_prefix("> "@, doing, 0);
    lemma_not_prefix("> "@, done, 0);
    lemma_not_prefix("> "@, open_box, 0);
    lemma_not_prefix("> "@, half_box, 0);
    lemma_not_prefix("> "@, full_box, 0);
    lemma_not_prefix("TODO "@, doing, 0);
    lemma_not_prefix("TODO "@, done, 0);
    lemma_not_prefix("DOING "@, done, 2);
    lemma_not_prefix("TODO "@, open_box, 0);
    lemma_not_prefix("DOING "@, open_box, 0);
    lemma_not_prefix("DONE "@, open_box, 0);
    lemma_not_prefix("TODO "@, half_box, 0);
    lemma_not_prefix("DOING "@, half_box, 0);
    lemma_not_prefix("DONE "@, half_box, 0);
    lemma_not_prefix("[ ] "@, half_box, 1);
    lemma_not_prefix("TODO "@, full_box, 0);
    lemma_not_prefix("DOING "@, full_box, 0);
    lemma_not_prefix("DONE "@, full_box, 0);
    lemma_not_prefix("[ ] "@, full_box, 1);
    lemma_not_prefix("[/] "@, full_box, 1);
    assert(todo.skip(0) =~= todo);
    assert(doing.skip(0) =~= doing);
    assert(done.skip(0) =~= done);
    assert(open_box.skip(0) =~= open_box);
    assert(half_box.skip(0) =~= half_box);
    assert(full_box.skip(0) =~= full_box);
    assert("TODO "@.is_prefix_of(todo)) by { assert(todo.subrange(0, 5) =~= "TODO "@); }
    assert("DOING "@.is_prefix_of(doing)) by { assert(doing.subrange(0, 6) =~= "DOING "@); }
    assert("DONE "@.is_prefix_of(done)) by { assert(done.subrange(0, 5) =~= "DONE "@); }
    assert("[ ] "@.is_prefix_of(open_box)) by { assert(open_box.subrange(0, 4) =~= "[ ] "@); }
    assert("[/] "@.is_prefix_of(half_box)) by { assert(half_box.subrange(0, 4) =~= "[/] "@); }
    assert("[x] "@.is_prefix_of(full_box)) by { assert(full_box.subrange(0, 4) =~= "[x] "@); }
    assert(todo.skip(5) =~= rest);
    assert(doing.skip(6) =~= rest);
    assert(done.skip(5) =~= rest);
    assert(open_box.skip(4) =~= rest);
    assert(half_box.skip(4) =~= rest);
    assert(full_box.skip(4) =~= rest);
}


/// A `kind:` line accepts `journal` and `page`; the filter `journal` parses
/// to passes exactly the blocks on journal pages, and the one `page`
/// parses to exactly the others.
pub proof fn lemma_kind_words_select_their_pages(
    v: Seq<char>,
    e: BlockEntryV,
    status: Option<Status>,
    is_journal: Option<bool>,
    today: i64,
)
    ensures
        kind_of(v) is Some <==> (v == "journal"@ || v == "page"@),
        kind_of(v) matches Some(kf) ==> (filter_matches(FilterV::Kind(kf), e, status, is_journal, today)
            <==> ((is_journal == Some(true)) == (v == "journal"@))),
{
    reveal_strlit("journal");
    reveal_strlit("page");
    assert("journal"@.len() == 7 && "page"@.len() == 4);
}


/// Sorting by status alone orders work as it moves: no DOING hit comes
/// before a TODO hit (or a non-task), and no DONE hit before one that is
/// not DONE.
pub proof fn lemma_status_sort_follows_the_work(out: Seq<HitV>, inp: Seq<HitV>, i: int, j: int)
    requires
        sorted_by(out, inp, hit_keys(inp, seq![SortKey::Status])),
        0 <= i < j < out.len(),
    ensures
        out[i].status == Some(Status::Done) ==> out[j].status == Some(Status::Done),
        out[i].status == Some(Status::Doing) ==> (out[j].status == Some(Status::Doing) || out[j].status
            == Some(Status::Done)),
{
    let keys = seq![SortKey::Status];
    lemma_sorted_hits_ordered(out, inp, keys, i, j);
    let ki = hit_key(out[i], keys);
    let kj = hit_key(out[j], keys);
    assert(keys.drop_first() =~= Seq::<SortKey>::empty());
    assert(keys[0] == SortKey::Status);
    assert(hit_key(out[i], keys.drop_first()) == Seq::<i64>::empty());
    assert(hit_key(out[j], keys.drop_first()) == Seq::<i64>::empty());
    assert(ki == key_part(out[i], SortKey::Status) + Seq::<i64>::empty());
    assert(kj == key_part(out[j], SortKey::Status) + Seq::<i64>::empty());
    assert(ki =~= seq![status_rank(out[i].status)]);
    assert(kj =~= seq![status_rank(out[j].status)]);
    assert(ki.drop_first() =~= Seq::<i64>::empty());
    assert(kj.drop_first() =~= Seq::<i64>::empty());
}

} // verus!
