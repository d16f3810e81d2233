//! `outl query` over pages: the flags become a page query, and the query
//! keeps the pages that pass every filter it holds, in page order.
//!
//! Filters AND-compose: kind, a `--since` cutoff on dated pages, a tag the
//! page must (or must not) mention, and property filters that must hold
//! (or must not). `--raw` is reserved for the query DSL and is refused.

use vstd::prelude::*;

use crate::batch::{ApiCode, BatchError};
use crate::cli::{
    not_prop_filter, opt_pairs_view, prop_filters, page_property_matches, pairs_view, parse_not_prop_filters,
    parse_prop_filters, parse_since_at, prop_filters_with, since_day, strings_view, value_matches,
    QueryArgs,
};
use crate::id::{parse_ulid, ulid_value_of};
use crate::property::PropValue;
use crate::query::engine::{EARLIEST_DAY, LATEST_DAY, today_day};
use crate::text::{chars_of, eq_chars, eq_lit, split_once, trim};

verus! {

/// The text a `--raw` query is refused with.
pub const RAW_REFUSAL: &'static str = "--raw is reserved for the query DSL and not yet implemented";

/// A page as the query reads it.
#[derive(Debug, Clone)]
pub struct PageRecord {
    /// The page id in its text form (a ULID).
    pub id: String,
    pub slug: String,
    pub title: String,
    /// `"page"` or `"journal"`.
    pub kind: String,
    /// The day number the slug names, when it names a date.
    pub date: Option<i64>,
    /// The tags the page's subtree mentions, as the tag lookup finds them.
    pub tags: Vec<String>,
    /// The page's properties, each key once.
    pub properties: Vec<(String, PropValue)>,
}

/// The filters of one `outl query`, parsed.
#[derive(Debug, Clone)]
pub struct PageQuery {
    pub kind: Option<String>,
    /// First day a dated page may carry.
    pub cutoff: Option<i64>,
    pub tag: Option<String>,
    pub not_tag: Option<String>,
    /// `(key, value)` pairs that must hold.
    pub props: Vec<(String, String)>,
    /// `(key, value)` pairs that must not hold; a bare key must be absent.
    pub not_props: Vec<(String, Option<String>)>,
}

/// A [`PageQuery`] as values.
pub ghost struct PageQueryV {
    pub kind: Option<Seq<char>>,
    pub cutoff: Option<i64>,
    pub tag: Option<Seq<char>>,
    pub not_tag: Option<Seq<char>>,
    pub props: Seq<(Seq<char>, Seq<char>)>,
    pub not_props: Seq<(Seq<char>, Option<Seq<char>>)>,
}

pub open spec fn opt_view(o: Option<String>) -> Option<Seq<char>> {
    match o {
        Some(s) => Some(s@),
        None => None,
    }
}

impl View for PageQuery {
    type V = PageQueryV;

    open spec fn view(&self) -> PageQueryV {
        PageQueryV {
            kind: opt_view(self.kind),
            cutoff: self.cutoff,
            tag: opt_view(self.tag),
            not_tag: opt_view(self.not_tag),
            props: pairs_view(self.props@),
            not_props: opt_pairs_view(self.not_props@),
        }
    }
}

/// What the flags of `args` parse to, given today's day number: the query,
/// or the `INVALID_ARG` message; `None` where a `--since Nd` leaves the
/// calendar's range.
pub open spec fn query_of(args: QueryArgs, today: i64) -> Option<Result<PageQueryV, Seq<char>>> {
    if args.raw is Some {
        Some(Err(RAW_REFUSAL@))
    } else {
        let cut: Option<Result<Option<i64>, Seq<char>>> = match args.since {
            None => Some(Ok(None)),
            Some(s) => match since_day(s@, today) {
                None => None,
                Some(Ok(d)) => Some(Ok(Some(d))),
                Some(Err(m)) => Some(Err(m)),
            },
        };
        match cut {
            None => None,
            Some(Err(m)) => Some(Err(m)),
            Some(Ok(c)) => match prop_filters_with(strings_view(args.props@), opt_view(args.priority)) {
                Err(m) => Some(Err(m)),
                Ok(props) => Some(
                    Ok(
                        PageQueryV {
                            kind: opt_view(args.kind),
                            cutoff: c,
                            tag: opt_view(args.tag),
                            not_tag: opt_view(args.not_tag),
                            props,
                            not_props: strings_view(args.not_props@).map_values(
                                |raw: Seq<char>| not_prop_filter(raw),
                            ),
                        },
                    ),
                ),
            },
        }
    }
}

/// The value `p` carries under `key`, looking from position `i` on.
pub open spec fn prop_from(props: Seq<(String, PropValue)>, key: Seq<char>, i: int) -> Option<PropValue>
    decreases props.len() - i,
{
    if i < 0 || i >= props.len() {
        None
    } else if props[i].0@ == key {
        Some(props[i].1)
    } else {
        prop_from(props, key, i + 1)
    }
}

/// The value page `p` carries under `key`.
pub open spec fn page_prop(p: PageRecord, key: Seq<char>) -> Option<PropValue> {
    prop_from(p.properties@, key, 0)
}

/// Page `p` carries `key` with a value equal to `value`.
pub open spec fn prop_holds(p: PageRecord, key: Seq<char>, value: Seq<char>) -> bool {
    page_prop(p, key) matches Some(v) && value_matches(v, value)
}

/// Page `p` mentions tag `t`.
pub open spec fn has_tag(p: PageRecord, t: Seq<char>) -> bool {
    exists|i: int| 0 <= i < p.tags@.len() && (#[trigger] p.tags@[i])@ == t
}

/// Whether page `p` passes query `q`; `id_ok` is whether its id parses.
pub open spec fn page_selected(q: PageQueryV, p: PageRecord, id_ok: bool) -> bool {
    &&& (q.kind matches Some(k) ==> p.kind@ == k)
    &&& (q.cutoff matches Some(c) ==> match p.date {
        Some(d) => d >= c,
        None => p.kind@ != "journal"@,
    })
    &&& id_ok
    &&& (q.tag matches Some(t) ==> has_tag(p, t))
    &&& (q.not_tag matches Some(t) ==> !has_tag(p, t))
    &&& forall|i: int| 0 <= i < q.props.len() ==> prop_holds(p, (#[trigger] q.props[i]).0, q.props[i].1)
    &&& forall|i: int|
        0 <= i < q.not_props.len() ==> match (#[trigger] q.not_props[i]).1 {
            Some(v) => !prop_holds(p, q.not_props[i].0, v),
            None => page_prop(p, q.not_props[i].0) is None,
        }
}

/// The positions of the pages that pass `q`, in page order.
pub open spec fn selected_positions(q: PageQueryV, pages: Seq<PageRecord>) -> Seq<usize>
    decreases pages.len(),
{
    if pages.len() == 0 {
        Seq::empty()
    } else {
        let rest = selected_positions(q, pages.drop_last());
        if page_selected(q, pages.last(), ulid_value_of(pages.last().id@) is Some) {
            rest.push((pages.len() - 1) as usize)
        } else {
            rest
        }
    }
}

/// What `outl query` answers over `pages` on day `today`.
pub open spec fn selection(args: QueryArgs, pages: Seq<PageRecord>, today: i64) -> Option<
    Result<Seq<usize>, Seq<char>>,
> {
    match query_of(args, today) {
        None => None,
        Some(Err(m)) => Some(Err(m)),
        Some(Ok(q)) => Some(Ok(selected_positions(q, pages))),
    }
}

proof fn lemma_prop_filters(raws: Seq<Seq<char>>)
    ensures
        prop_filters(raws) is Ok <==> forall|i: int| 0 <= i < raws.len() ==> split_once(#[trigger] raws[i], '=') is Some,
        prop_filters(raws) matches Ok(fs) ==> fs.len() == raws.len() && forall|i: int|
            0 <= i < raws.len() ==> (split_once(#[trigger] raws[i], '=') matches Some((k, v)) && fs[i] == (
                trim(k),
                trim(v),
            )),
    decreases raws.len(),
{
    if raws.len() > 0 {
        let rest = raws.drop_first();
        lemma_prop_filters(rest);
        assert forall|i: int| 0 <= i < rest.len() implies #[trigger] rest[i] == raws[i + 1] by {}
        if let Ok(fs) = prop_filters(raws) {
            let tail = prop_filters(rest)->Ok_0;
            assert forall|i: int| 0 <= i < raws.len() implies (split_once(#[trigger] raws[i], '=') matches Some((k, v))
                && fs[i] == (trim(k), trim(v))) by {
                if i > 0 {
                    assert(raws[i] == rest[i - 1]);
                    assert(fs[i] == tail[i - 1]);
                }
            }
        }
        if forall|i: int| 0 <= i < raws.len() ==> split_once(#[trigger] raws[i], '=') is Some {
            assert forall|i: int| 0 <= i < rest.len() implies split_once(#[trigger] rest[i], '=') is Some by {
                assert(rest[i] == raws[i + 1]);
            }
        }
        if prop_filters(raws) is Ok {
            assert forall|i: int| 0 <= i < rest.len() implies split_once(#[trigger] rest[i], '=') is Some by {
                assert(rest[i] == raws[i + 1]);
            }
        }
    }
}

/// The query reads its filters straight from the flags: `--raw` is always
/// refused; otherwise, once every flag parses, the kind and both tag
/// filters are the flags' values, a `--since` gives a cutoff exactly when
/// it is there, the `--priority` shorthand comes first as the
/// `priority` pair, then one pair per `--prop` — split at its first `=`,
/// both sides trimmed — and one exclusion per `--not-prop`, in order. A
/// `--prop` without `=` is refused.
pub proof fn lemma_query_reads_the_flags(args: QueryArgs, today: i64)
    ensures
        args.raw is Some ==> query_of(args, today) == Some(Err::<PageQueryV, Seq<char>>(RAW_REFUSAL@)),
        (exists|i: int| 0 <= i < args.props@.len() && split_once((#[trigger] args.props@[i])@, '=') is None)
            ==> !(query_of(args, today) matches Some(Ok(_))),
        query_of(args, today) matches Some(Ok(q)) ==> {
            let off: int = if args.priority is Some { 1 } else { 0 };
            &&& args.raw is None
            &&& q.kind == opt_view(args.kind)
            &&& q.tag == opt_view(args.tag)
            &&& q.not_tag == opt_view(args.not_tag)
            &&& (q.cutoff is Some <==> args.since is Some)
            &&& q.props.len() == off + args.props@.len()
            &&& (args.priority matches Some(p) ==> q.props[0] == ("priority"@, p@))
            &&& forall|i: int|
                0 <= i < args.props@.len() ==> (split_once((#[trigger] args.props@[i])@, '=') matches Some((k, v))
                    && q.props[off + i] == (trim(k), trim(v)))
            &&& q.not_props.len() == args.not_props@.len()
            &&& forall|i: int| 0 <= i < args.not_props@.len() ==> q.not_props[i] == not_prop_filter((#[trigger] args.not_props@[i])@)
        },
{
    let raws = strings_view(args.props@);
    lemma_prop_filters(raws);
    assert forall|i: int| 0 <= i < args.props@.len() implies #[trigger] raws[i] == args.props@[i]@ by {}
    if let Some(Ok(q)) = query_of(args, today) {
        let off: int = if args.priority is Some { 1 } else { 0 };
        let fs = prop_filters(raws)->Ok_0;
        assert forall|i: int| 0 <= i < args.props@.len() implies (split_once((#[trigger] args.props@[i])@, '=') matches Some((k, v))
            && q.props[off + i] == (trim(k), trim(v))) by {
            assert(raws[i] == args.props@[i]@);
            assert(q.props[off + i] == fs[i]);
        }
    }
}

/// What a page must satisfy to be listed, condition by condition: every
/// filter the query holds must pass (they AND-compose), each `--prop` pair
/// must be carried, each `--not-prop` pair (or bare key) must not be, and
/// the page's id must parse.
pub proof fn lemma_every_filter_must_hold(q: PageQueryV, p: PageRecord, id_ok: bool)
    ensures
        page_selected(q, p, id_ok) <==> {
            &&& id_ok
            &&& (q.kind is Some ==> p.kind@ == q.kind->0)
            &&& (q.cutoff is Some ==> (p.date is Some && p.date->0 >= q.cutoff->0) || (p.date is None
                && p.kind@ != "journal"@))
            &&& (q.tag is Some ==> exists|i: int| 0 <= i < p.tags@.len() && (#[trigger] p.tags@[i])@ == q.tag->0)
            &&& (q.not_tag is Some ==> forall|i: int|
                0 <= i < p.tags@.len() ==> (#[trigger] p.tags@[i])@ != q.not_tag->0)
            &&& forall|i: int|
                0 <= i < q.props.len() ==> (page_prop(p, (#[trigger] q.props[i]).0) matches Some(v)
                    && value_matches(v, q.props[i].1))
            &&& forall|i: int|
                0 <= i < q.not_props.len() ==> (match (#[trigger] q.not_props[i]).1 {
                    Some(w) => !(page_prop(p, q.not_props[i].0) matches Some(v) && value_matches(v, w)),
                    None => page_prop(p, q.not_props[i].0) is None,
                })
        },
{
}

/// A page's value for a key is the value of its first property under that
/// key, and there is none when no property has the key.
pub proof fn lemma_page_prop_is_first_with_key(p: PageRecord, key: Seq<char>)
    ensures
        page_prop(p, key) matches Some(v) ==> exists|i: int|
            0 <= i < p.properties@.len() && (#[trigger] p.properties@[i]).0@ == key && p.properties@[i].1 == v
                && forall|j: int| 0 <= j < i ==> (#[trigger] p.properties@[j]).0@ != key,
        page_prop(p, key) is None ==> forall|i: int|
            0 <= i < p.properties@.len() ==> (#[trigger] p.properties@[i]).0@ != key,
{
    lemma_prop_from(p.properties@, key, 0);
}

proof fn lemma_prop_from(props: Seq<(String, PropValue)>, key: Seq<char>, i: int)
    requires
        0 <= i,
    ensures
        prop_from(props, key, i) matches Some(v) ==> exists|k: int|
            i <= k < props.len() && (#[trigger] props[k]).0@ == key && props[k].1 == v && forall|j: int|
                i <= j < k ==> (#[trigger] props[j]).0@ != key,
        prop_from(props, key, i) is None ==> forall|k: int| i <= k < props.len() ==> (#[trigger] props[k]).0@ != key,
    decreases props.len() - i,
{
    if i < props.len() {
        lemma_prop_from(props, key, i + 1);
        if props[i].0@ != key {
            if let Some(v) = prop_from(props, key, i + 1) {
                let k = choose|k: int|
                    i + 1 <= k < props.len() && (#[trigger] props[k]).0@ == key && props[k].1 == v && forall|j: int|
                        i + 1 <= j < k ==> (#[trigger] props[j]).0@ != key;
                assert(forall|j: int| i <= j < k ==> (#[trigger] props[j]).0@ != key);
            }
        } else {
            assert(forall|j: int| i <= j < i ==> (#[trigger] props[j]).0@ != key);
        }
    }
}

/// `outl query` lists exactly the pages that pass, each once, in page
/// order: every listed position is a page that passes, positions rise
/// strictly, and every page that passes is listed.
pub proof fn lemma_selection_is_exactly_the_passing_pages(q: PageQueryV, pages: Seq<PageRecord>)
    requires
        pages.len() <= usize::MAX,
    ensures
        forall|k: int|
            0 <= k < selected_positions(q, pages).len() ==> (#[trigger] selected_positions(q, pages)[k]) < pages.len()
                && page_selected(
                q,
                pages[selected_positions(q, pages)[k] as int],
                ulid_value_of(pages[selected_positions(q, pages)[k] as int].id@) is Some,
            ),
        forall|k: int, l: int|
            0 <= k < l < selected_positions(q, pages).len() ==> #[trigger] selected_positions(q, pages)[k]
                < #[trigger] selected_positions(q, pages)[l],
        forall|j: int|
            0 <= j < pages.len() && page_selected(q, #[trigger] pages[j], ulid_value_of(pages[j].id@) is Some)
                ==> selected_positions(q, pages).contains(j as usize),
    decreases pages.len(),
{
    if pages.len() > 0 {
        let init = pages.drop_last();
        lemma_selection_is_exactly_the_passing_pages(q, init);
        let rest = selected_positions(q, init);
        let all = selected_positions(q, pages);
        let last = (pages.len() - 1) as usize;
        assert forall|k: int| 0 <= k < rest.len() implies (#[trigger] rest[k]) < init.len()
            && pages[rest[k] as int] == init[rest[k] as int] by {}
        if page_selected(q, pages.last(), ulid_value_of(pages.last().id@) is Some) {
            assert(all == rest.push(last));
            assert forall|k: int| 0 <= k < all.len() implies (#[trigger] all[k]) < pages.len() && page_selected(
                q,
                pages[all[k] as int],
                ulid_value_of(pages[all[k] as int].id@) is Some,
            ) by {
                if k < rest.len() {
                    assert(all[k] == rest[k]);
                } else {
                    assert(all[k] == last);
                }
            }
            assert forall|k: int, l: int| 0 <= k < l < all.len() implies #[trigger] all[k] < #[trigger] all[l] by {
                assert(all[k] == rest[k]);
                if l < rest.len() {
                    assert(all[l] == rest[l]);
                } else {
                    assert(all[l] == last);
                }
            }
            assert forall|j: int|
                0 <= j < pages.len() && page_selected(q, #[trigger] pages[j], ulid_value_of(pages[j].id@) is Some)
                implies all.contains(j as usize) by {
                if j < init.len() {
                    assert(init[j] == pages[j]);
                    let k = choose|k: int| 0 <= k < rest.len() && rest[k] == j as usize;
                    assert(all[k] == rest[k]);
                } else {
                    assert(all[rest.len() as int] == last);
                }
            }
        } else {
            assert(all == rest);
            assert forall|j: int|
                0 <= j < pages.len() && page_selected(q, #[trigger] pages[j], ulid_value_of(pages[j].id@) is Some)
                implies all.contains(j as usize) by {
                if j < init.len() {
                    assert(init[j] == pages[j]);
                }
            }
        }
    }
}

fn clone_opt(s: &Option<String>) -> (r: Option<String>)
    ensures
        r == *s,
{
    match s {
        Some(v) => Some(v.clone()),
        None => None,
    }
}

fn invalid_arg(message: String) -> (e: BatchError)
    ensures
        e.code == ApiCode::InvalidArg,
        e.message == message,
{
    BatchError { code: ApiCode::InvalidArg, message }
}

/// Parse the flags of `args` into a page query, with `today` the current
/// day number: `--raw`, a malformed `--since` and a `--prop` without `=`
/// are `INVALID_ARG`; `None` where `--since Nd` leaves the calendar.
pub fn build_page_query(args: &QueryArgs, today: i64) -> (r: Option<Result<PageQuery, BatchError>>)
    requires
        EARLIEST_DAY <= today <= LATEST_DAY,
    ensures
        match (r, query_of(*args, today)) {
            (None, None) => true,
            (Some(Ok(q)), Some(Ok(v))) => q@ == v,
            (Some(Err(e)), Some(Err(m))) => e.code == ApiCode::InvalidArg && e.message@ == m,
            _ => false,
        },
{
    if args.raw.is_some() {
        return Some(Err(invalid_arg(crate::text::string_from_str(RAW_REFUSAL))));
    }
    let cutoff: Option<i64> = match &args.since {
        None => None,
        Some(s) => match parse_since_at(s.as_str(), today) {
            None => {
                return None;
            },
            Some(Err(m)) => {
                return Some(Err(invalid_arg(m)));
            },
            Some(Ok(d)) => Some(d),
        },
    };
    let priority: Option<&str> = match &args.priority {
        Some(p) => Some(p.as_str()),
        None => None,
    };
    let props = match parse_prop_filters(args.props.as_slice(), priority) {
        Err(m) => {
            return Some(Err(invalid_arg(m)));
        },
        Ok(v) => v,
    };
    let not_props = match parse_not_prop_filters(args.not_props.as_slice()) {
        Err(m) => {
            return Some(Err(invalid_arg(m)));
        },
        Ok(v) => v,
    };
    let q = PageQuery {
        kind: clone_opt(&args.kind),
        cutoff,
        tag: clone_opt(&args.tag),
        not_tag: clone_opt(&args.not_tag),
        props,
        not_props,
    };
    proof {
        assert(opt_view(args.priority) == match priority {
            Some(p) => Some(p@),
            None => None::<Seq<char>>,
        });
        assert(q@ == query_of(*args, today)->Some_0->Ok_0);
    }
    Some(Ok(q))
}

fn str_eq(a: &str, b: &str) -> (r: bool)
    ensures
        r == (a@ == b@),
{
    let ac = chars_of(a);
    let bc = chars_of(b);
    eq_chars(ac.as_slice(), bc.as_slice())
}

/// Position of the first property of `props` under `key`.
fn prop_index(props: &Vec<(String, PropValue)>, key: &str) -> (r: Option<usize>)
    ensures
        match r {
            Some(i) => i < props@.len() && prop_from(props@, key@, 0) == Some(props@[i as int].1),
            None => prop_from(props@, key@, 0) is None,
        },
{
    let n = props.len();
    let mut i: usize = 0;
    while i < n
        invariant
            n == props@.len(),
            i <= n,
            prop_from(props@, key@, 0) == prop_from(props@, key@, i as int),
        decreases n - i,
    {
        if str_eq(props[i].0.as_str(), key) {
            return Some(i);
        }
        i = i + 1;
    }
    None
}

fn prop_holds_exec(p: &PageRecord, key: &str, value: &str) -> (r: bool)
    ensures
        r == prop_holds(*p, key@, value@),
{
    match prop_index(&p.properties, key) {
        Some(i) => page_property_matches(Some(&p.properties[i].1), value),
        None => false,
    }
}

fn has_tag_exec(p: &PageRecord, t: &str) -> (r: bool)
    ensures
        r == has_tag(*p, t@),
{
    let n = p.tags.len();
    let mut i: usize = 0;
    while i < n
        invariant
            n == p.tags@.len(),
            i <= n,
            forall|j: int| 0 <= j < i ==> (#[trigger] p.tags@[j])@ != t@,
        decreases n - i,
    {
        if str_eq(p.tags[i].as_str(), t) {
            proof {
                assert(p.tags@[i as int]@ == t@);
            }
            return true;
        }
        i = i + 1;
    }
    false
}

/// Whether page `p` passes query `q`, where `id_ok` says whether the page's
/// id parses as a ULID (a page whose id does not is never listed).
pub fn page_passes(q: &PageQuery, p: &PageRecord, id_ok: bool) -> (r: bool)
    ensures
        r == page_selected(q@, *p, id_ok),
{
    if let Some(k) = &q.kind {
        if !str_eq(p.kind.as_str(), k.as_str()) {
            return false;
        }
    }
    if let Some(c) = q.cutoff {
        let kc = chars_of(p.kind.as_str());
        let is_journal = eq_lit(kc.as_slice(), "journal");
        if !crate::cli::journal_after(p.date, is_journal, c) {
            return false;
        }
    }
    if !id_ok {
        return false;
    }
    if let Some(t) = &q.tag {
        if !has_tag_exec(p, t.as_str()) {
            return false;
        }
    }
    if let Some(t) = &q.not_tag {
        if has_tag_exec(p, t.as_str()) {
            return false;
        }
    }
    let n = q.props.len();
    let mut i: usize = 0;
    while i < n
        invariant
            n == q.props@.len(),
            i <= n,
            forall|j: int| 0 <= j < i ==> prop_holds(*p, (#[trigger] q@.props[j]).0, q@.props[j].1),
        decreases n - i,
    {
        if !prop_holds_exec(p, q.props[i].0.as_str(), q.props[i].1.as_str()) {
            proof {
                assert(q@.props[i as int] == (q.props@[i as int].0@, q.props@[i as int].1@));
            }
            return false;
        }
        proof {
            assert(q@.props[i as int] == (q.props@[i as int].0@, q.props@[i as int].1@));
        }
        i = i + 1;
    }
    let m = q.not_props.len();
    let mut i: usize = 0;
    while i < m
        invariant
            m == q.not_props@.len(),
            i <= m,
            forall|j: int| 0 <= j < n ==> prop_holds(*p, (#[trigger] q@.props[j]).0, q@.props[j].1),
            forall|j: int|
                0 <= j < i ==> match (#[trigger] q@.not_props[j]).1 {
                    Some(v) => !prop_holds(*p, q@.not_props[j].0, v),
                    None => page_prop(*p, q@.not_props[j].0) is None,
                },
        decreases m - i,
    {
        let key = q.not_props[i].0.as_str();
        proof {
            assert(q@.not_props[i as int].0 == q.not_props@[i as int].0@);
            assert(q@.not_props[i as int].1 == opt_view(q.not_props@[i as int].1));
        }
        match &q.not_props[i].1 {
            Some(v) => {
                if prop_holds_exec(p, key, v.as_str()) {
                    return false;
                }
            },
            None => {
                if prop_index(&p.properties, key).is_some() {
                    return false;
                }
            },
        }
        i = i + 1;
    }
    true
}

/// `outl query` over `pages` on day `today`: the positions of the pages
/// that pass every filter, in page order, or the flag error.
pub fn select_pages_at(args: &QueryArgs, pages: &[PageRecord], today: i64) -> (r: Option<
    Result<Vec<usize>, BatchError>,
>)
    requires
        EARLIEST_DAY <= today <= LATEST_DAY,
    ensures
        match (r, selection(*args, pages@, today)) {
            (None, None) => true,
            (Some(Ok(ix)), Some(Ok(s))) => ix@ == s,
            (Some(Err(e)), Some(Err(m))) => e.code == ApiCode::InvalidArg && e.message@ == m,
            _ => false,
        },
{
    let q = match build_page_query(args, today) {
        None => {
            return None;
        },
        Some(Err(e)) => {
            return Some(Err(e));
        },
        Some(Ok(q)) => q,
    };
    let ghost qv = q@;
    let n = pages.len();
    let mut out: Vec<usize> = Vec::new();
    let mut i: usize = 0;
    while i < n
        invariant
            n == pages@.len(),
            i <= n,
            qv == q@,
            out@ == selected_positions(qv, pages@.take(i as int)),
        decreases n - i,
    {
        proof {
            assert(pages@.take(i + 1).drop_last() =~= pages@.take(i as int));
            assert(pages@.take(i + 1).last() == pages@[i as int]);
        }
        let id_ok = parse_ulid(pages[i].id.as_str()).is_some();
        if page_passes(&q, &pages[i], id_ok) {
            out.push(i);
        }
        i = i + 1;
    }
    proof {
        assert(pages@.take(n as int) =~= pages@);
    }
    Some(Ok(out))
}

/// `outl query` over `pages`, against the local calendar's current day.
/// A `--raw` query is always refused with `INVALID_ARG`.
pub fn select_pages(args: &QueryArgs, pages: &[PageRecord]) -> (r: Option<Result<Vec<usize>, BatchError>>)
    ensures
        args.raw is Some ==> (r matches Some(Err(e)) && e.code == ApiCode::InvalidArg && e.message@
            == RAW_REFUSAL@),
        exists|today: i64|
            EARLIEST_DAY <= today <= LATEST_DAY && match (r, #[trigger] selection(*args, pages@, today)) {
                (None, None) => true,
                (Some(Ok(ix)), Some(Ok(s))) => ix@ == s,
                (Some(Err(e)), Some(Err(m))) => e.code == ApiCode::InvalidArg && e.message@ == m,
                _ => false,
            },
{
    let today = today_day();
    select_pages_at(args, pages, today)
}

} // verus!
