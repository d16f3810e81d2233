//! `query` runtime — declarative workspace queries.
//!
//! A ` ```query ` fence runs a line-by-line declarative DSL against the
//! workspace index and returns matching blocks as embed references
//! (`!((blk-XXXXXX))`), not copies, so toggling a TODO on the source
//! block shows everywhere the query result appears.
//!
//! Two entry points reach the same engine: the DSL string
//! ([`run_query_dsl_with_index`]) and the structured parameters a plugin
//! passes ([`run_query_structured`]). Both end in the same filter, sort
//! and limit pipeline.

pub mod dsl;
pub mod engine;
pub mod index;

use vstd::prelude::*;

use crate::query::dsl::{
    Filter, FilterV, LineV, Parsed, ParseErrorV, ParseOutcome, Query, QueryV, SortKey,
    duration_of, duration_outcome, kind_of, parse_kind, parse_outcome,
    parse_sort_key, parse_status, sort_key_of, spec_parse, status_of,
};
use crate::query::engine::{
    EARLIEST_DAY, HitV, Hit, LATEST_DAY, filters_view, hit_keys, hits_of, hits_view, opt_hits_view, run,
    run_at, run_outcome, sort_hits, status_text,
};
use crate::query::index::{BlockEntryV, PageEntryV, WorkspaceIndex, blocks_view, pages_view};
use crate::sort::sorted_by;
use crate::text::{chars_of, concat3, decimal, push_chars, string_from_str};

verus! {

// ── the structured API ───────────────────────────────────────────────

/// Structured query parameters — the plugin-facing API. Every field is
/// optional; an empty value matches every block.
#[derive(Debug, Default, Clone)]
pub struct QueryParams {
    /// `"todo"`, `"doing"`, `"done"`, or `"open"` (any task, DONE
    /// included).
    pub status: Option<String>,
    /// Partial tag match (without `#`).
    pub tag: Option<String>,
    /// Exclude blocks containing this tag.
    pub not_tag: Option<String>,
    /// Filter by block property (key, value).
    pub prop: Option<(String, String)>,
    /// Exclude blocks with this property key (any value) or key-value pair.
    pub not_prop: Option<(String, Option<String>)>,
    /// Filter by hosting page slug.
    pub page: Option<String>,
    /// `"journal"` or `"page"`.
    pub kind: Option<String>,
    /// Duration like `"7d"`, `"2w"`, `"3m"`.
    pub since: Option<String>,
    /// Substring search (case-insensitive).
    pub text: Option<String>,
    /// Sort keys in priority order.
    pub sort: Vec<String>,
    /// Maximum number of results.
    pub limit: Option<usize>,
}

/// One query result — structured, typed, no markdown.
#[derive(Debug, Clone)]
pub struct QueryHit {
    /// Block ref handle (`blk-XXXXXX`).
    pub handle: String,
    /// Slug of the hosting page.
    pub page: String,
    /// `"todo"`, `"doing"`, `"done"`, or `None` when the block is not a
    /// task.
    pub status: Option<String>,
    /// Block text with the task prefix stripped.
    pub text: String,
}

pub struct QueryParamsV {
    pub status: Option<Seq<char>>,
    pub tag: Option<Seq<char>>,
    pub not_tag: Option<Seq<char>>,
    pub prop: Option<(Seq<char>, Seq<char>)>,
    pub not_prop: Option<(Seq<char>, Option<Seq<char>>)>,
    pub page: Option<Seq<char>>,
    pub kind: Option<Seq<char>>,
    pub since: Option<Seq<char>>,
    pub text: Option<Seq<char>>,
    pub sort: Seq<Seq<char>>,
    pub limit: Option<usize>,
}

pub struct QueryHitV {
    pub handle: Seq<char>,
    pub page: Seq<char>,
    pub status: Option<Seq<char>>,
    pub text: Seq<char>,
}

pub open spec fn sview(o: Option<String>) -> Option<Seq<char>> {
    match o {
        Some(s) => Some(s@),
        None => None,
    }
}

impl View for QueryParams {
    type V = QueryParamsV;

    open spec fn view(&self) -> QueryParamsV {
        QueryParamsV {
            status: sview(self.status),
            tag: sview(self.tag),
            not_tag: sview(self.not_tag),
            prop: match self.prop {
                Some((k, v)) => Some((k@, v@)),
                None => None,
            },
            not_prop: match self.not_prop {
                Some((k, v)) => Some((k@, sview(v))),
                None => None,
            },
            page: sview(self.page),
            kind: sview(self.kind),
            since: sview(self.since),
            text: sview(self.text),
            sort: self.sort@.map_values(|s: String| s@),
            limit: self.limit,
        }
    }
}

impl View for QueryHit {
    type V = QueryHitV;

    open spec fn view(&self) -> QueryHitV {
        QueryHitV {
            handle: self.handle@,
            page: self.page@,
            status: sview(self.status),
            text: self.text@,
        }
    }
}

pub open spec fn query_hits_view(qs: Seq<QueryHit>) -> Seq<QueryHitV> {
    qs.map_values(|q: QueryHit| q@)
}

/// What [`build_query_from_params`] makes of the parameters.
pub enum Built {
    Done(QueryV),
    Failed(Seq<char>),
    Panics,
}

pub open spec fn status_part(s: Option<Seq<char>>) -> Result<Seq<FilterV>, Seq<char>> {
    match s {
        None => Ok(seq![]),
        Some(v) => match status_of(v) {
            Some(f) => Ok(seq![FilterV::Status(f)]),
            None => Err("invalid status '"@ + v + "' (use todo|doing|done|open)"@),
        },
    }
}

pub open spec fn kind_part(k: Option<Seq<char>>) -> Result<Seq<FilterV>, Seq<char>> {
    match k {
        None => Ok(seq![]),
        Some(v) => match kind_of(v) {
            Some(f) => Ok(seq![FilterV::Kind(f)]),
            None => Err("invalid kind '"@ + v + "' (use journal|page)"@),
        },
    }
}

/// The sort names in order; the first unknown one rejects the whole set.
pub open spec fn sort_part(names: Seq<Seq<char>>) -> Result<Seq<SortKey>, Seq<char>>
    decreases names.len(),
{
    if names.len() == 0 {
        Ok(seq![])
    } else {
        match sort_key_of(names[0]) {
            None => Err("invalid sort key '"@ + names[0] + "' (use page|status|text)"@),
            Some(k) => match sort_part(names.drop_first()) {
                Ok(ks) => Ok(seq![k] + ks),
                Err(m) => Err(m),
            },
        }
    }
}

/// The filters that cannot be rejected: tag, not-tag, prop, not-prop and
/// page, in that order.
pub open spec fn plain_part(p: QueryParamsV) -> Seq<FilterV> {
    (match p.tag {
        Some(t) => seq![FilterV::Tag(t)],
        None => seq![],
    }) + (match p.not_tag {
        Some(t) => seq![FilterV::NotTag(t)],
        None => seq![],
    }) + (match p.prop {
        Some((k, v)) => seq![FilterV::Prop(k, v)],
        None => seq![],
    }) + (match p.not_prop {
        Some((k, v)) => seq![FilterV::NotProp(k, v)],
        None => seq![],
    }) + (match p.page {
        Some(s) => seq![FilterV::Page(s)],
        None => seq![],
    })
}

pub open spec fn text_part(t: Option<Seq<char>>) -> Seq<FilterV> {
    match t {
        Some(s) => seq![FilterV::Text(s)],
        None => seq![],
    }
}

/// The rest of the build once the filters up to `since` are known.
pub open spec fn finish_build(p: QueryParamsV, fs: Seq<FilterV>) -> Built {
    match sort_part(p.sort) {
        Err(m) => Built::Failed(m),
        Ok(ks) => Built::Done(QueryV { filters: fs + text_part(p.text), sort: ks, limit: p.limit }),
    }
}

/// The query the parameters stand for: filters in the order status, tag,
/// not-tag, prop, not-prop, page, kind, since, text; the checks run in
/// the order status, kind, since, sort, and the first failure decides.
pub open spec fn build_spec(p: QueryParamsV) -> Built {
    match status_part(p.status) {
        Err(m) => Built::Failed(m),
        Ok(f1) => match kind_part(p.kind) {
            Err(m) => Built::Failed(m),
            Ok(fk) => {
                let pre = f1 + plain_part(p) + fk;
                match p.since {
                    None => finish_build(p, pre),
                    Some(s) => match duration_of(s) {
                        LineV::Add(f) => finish_build(p, pre.push(f)),
                        LineV::Fail(m) => Built::Failed(m),
                        _ => Built::Panics,
                    },
                }
            },
        },
    }
}

fn opt_string(s: &Option<String>) -> (r: Option<String>)
    ensures
        sview(r) == sview(*s),
{
    match s {
        Some(v) => Some(v.clone()),
        None => None,
    }
}

fn status_filters(s: &Option<String>) -> (r: Result<Vec<Filter>, String>)
    ensures
        match r {
            Ok(v) => status_part(sview(*s)) == Ok::<Seq<FilterV>, Seq<char>>(filters_view(v@)),
            Err(m) => status_part(sview(*s)) == Err::<Seq<FilterV>, Seq<char>>(m@),
        },
{
    let mut out: Vec<Filter> = Vec::new();
    if let Some(v) = s {
        let cs = chars_of(v.as_str());
        match parse_status(cs.as_slice()) {
            Some(f) => {
                out.push(Filter::Status(f));
            },
            None => {
                return Err(concat3("invalid status '", cs.as_slice(), "' (use todo|doing|done|open)"));
            },
        }
    }
    proof {
        assert(filters_view(out@) =~= match status_part(sview(*s)) {
            Ok(x) => x,
            Err(_) => seq![],
        });
    }
    Ok(out)
}

fn kind_filters(k: &Option<String>) -> (r: Result<Vec<Filter>, String>)
    ensures
        match r {
            Ok(v) => kind_part(sview(*k)) == Ok::<Seq<FilterV>, Seq<char>>(filters_view(v@)),
            Err(m) => kind_part(sview(*k)) == Err::<Seq<FilterV>, Seq<char>>(m@),
        },
{
    let mut out: Vec<Filter> = Vec::new();
    if let Some(v) = k {
        let cs = chars_of(v.as_str());
        match parse_kind(cs.as_slice()) {
            Some(f) => {
                out.push(Filter::Kind(f));
            },
            None => {
                return Err(concat3("invalid kind '", cs.as_slice(), "' (use journal|page)"));
            },
        }
    }
    proof {
        assert(filters_view(out@) =~= match kind_part(sview(*k)) {
            Ok(x) => x,
            Err(_) => seq![],
        });
    }
    Ok(out)
}

fn plain_filters(p: &QueryParams) -> (r: Vec<Filter>)
    ensures
        filters_view(r@) == plain_part(p@),
{
    let mut out: Vec<Filter> = Vec::new();
    if let Some(t) = &p.tag {
        out.push(Filter::Tag(t.clone()));
    }
    let ghost a = filters_view(out@);
    if let Some(t) = &p.not_tag {
        out.push(Filter::NotTag(t.clone()));
    }
    let ghost b = filters_view(out@);
    if let Some((k, v)) = &p.prop {
        out.push(Filter::Prop(k.clone(), v.clone()));
    }
    let ghost c = filters_view(out@);
    if let Some((k, v)) = &p.not_prop {
        out.push(Filter::NotProp(k.clone(), opt_string(v)));
    }
    let ghost d = filters_view(out@);
    if let Some(slug) = &p.page {
        out.push(Filter::Page(slug.clone()));
    }
    proof {
        let pv = p@;
        assert(a =~= (match pv.tag {
            Some(t) => seq![FilterV::Tag(t)],
            None => seq![],
        }));
        assert(b =~= a + (match pv.not_tag {
            Some(t) => seq![FilterV::NotTag(t)],
            None => seq![],
        }));
        assert(c =~= b + (match pv.prop {
            Some((k, v)) => seq![FilterV::Prop(k, v)],
            None => seq![],
        }));
        assert(d =~= c + (match pv.not_prop {
            Some((k, v)) => seq![FilterV::NotProp(k, v)],
            None => seq![],
        }));
        assert(filters_view(out@) =~= d + (match pv.page {
            Some(s) => seq![FilterV::Page(s)],
            None => seq![],
        }));
    }
    out
}

fn sort_keys(names: &Vec<String>) -> (r: Result<Vec<SortKey>, String>)
    ensures
        match r {
            Ok(ks) => sort_part(names@.map_values(|s: String| s@)) == Ok::<Seq<SortKey>, Seq<char>>(ks@),
            Err(m) => sort_part(names@.map_values(|s: String| s@)) == Err::<Seq<SortKey>, Seq<char>>(m@),
        },
{
    let ghost nv = names@.map_values(|s: String| s@);
    let mut sort: Vec<SortKey> = Vec::new();
    let n = names.len();
    let mut i: usize = 0;
    proof {
        assert(nv.skip(0) =~= nv);
        assert(sort@ + Seq::<SortKey>::empty() =~= sort@);
    }
    while i < n
        invariant
            n == names@.len(),
            nv == names@.map_values(|s: String| s@),
            i <= n,
            sort_part(nv) == match sort_part(nv.skip(i as int)) {
                Ok(ks) => Ok(sort@ + ks),
                Err(m) => Err::<Seq<SortKey>, Seq<char>>(m),
            },
        decreases n - i,
    {
        let cs = chars_of(names[i].as_str());
        proof {
            assert(nv.skip(i as int)[0] == cs@);
            assert(nv.skip(i as int).drop_first() =~= nv.skip(i + 1));
        }
        match parse_sort_key(cs.as_slice()) {
            Some(k) => {
                proof {
                    match sort_part(nv.skip(i + 1)) {
                        Ok(ks) => {
                            assert(sort@.push(k) + ks =~= sort@ + (seq![k] + ks));
                        },
                        Err(_) => {},
                    }
                }
                sort.push(k);
            },
            None => {
                return Err(concat3("invalid sort key '", cs.as_slice(), "' (use page|status|text)"));
            },
        }
        i = i + 1;
    }
    proof {
        assert(nv.skip(n as int) =~= Seq::<Seq<char>>::empty());
        assert(sort@ + Seq::<SortKey>::empty() =~= sort@);
    }
    Ok(sort)
}

/// The parameters as a query, `None` where the `since` duration cannot be
/// carried out.
pub fn build_query_outcome(p: &QueryParams) -> (r: Option<Result<Query, String>>)
    ensures
        match r {
            None => build_spec(p@) is Panics,
            Some(Ok(q)) => build_spec(p@) == Built::Done(q@),
            Some(Err(m)) => build_spec(p@) == Built::Failed(m@),
        },
{
    let mut filters = match status_filters(&p.status) {
        Ok(v) => v,
        Err(m) => {
            return Some(Err(m));
        },
    };
    let mut kinds = match kind_filters(&p.kind) {
        Ok(v) => v,
        Err(m) => {
            return Some(Err(m));
        },
    };
    let mut plain = plain_filters(p);
    let ghost f1 = filters_view(filters@);
    let ghost fk = filters_view(kinds@);
    filters.append(&mut plain);
    filters.append(&mut kinds);
    let ghost pre = f1 + plain_part(p@) + fk;
    proof {
        assert(filters_view(filters@) =~= pre);
    }
    if let Some(s) = &p.since {
        let cs = chars_of(s.as_str());
        match duration_outcome(cs.as_slice()) {
            None => {
                return None;
            },
            Some(Err(m)) => {
                return Some(Err(m));
            },
            Some(Ok(n)) => {
                filters.push(Filter::Since(n));
            },
        }
    }
    let ghost fs = filters_view(filters@);
    proof {
        match p@.since {
            None => assert(fs == pre),
            Some(s) => assert(fs =~= pre.push(FilterV::Since(duration_of(s)->Add_0->Since_0))),
        }
    }
    if let Some(t) = &p.text {
        filters.push(Filter::Text(t.clone()));
    }
    proof {
        assert(filters_view(filters@) =~= fs + text_part(p@.text));
    }
    let sort = match sort_keys(&p.sort) {
        Ok(ks) => ks,
        Err(m) => {
            return Some(Err(m));
        },
    };
    let q = Query { filters, sort, limit: p.limit };
    proof {
        assert(q@.filters == filters_view(q.filters@));
    }
    Some(Ok(q))
}

/// The parameters as a query, or the message that rejects them.
pub fn build_query_from_params(p: &QueryParams) -> (r: Result<Query, String>)
    requires
        !(build_spec(p@) is Panics),
    ensures
        match r {
            Ok(q) => build_spec(p@) == Built::Done(q@),
            Err(m) => build_spec(p@) == Built::Failed(m@),
        },
{
    match build_query_outcome(p) {
        Some(r) => r,
        None => {
            proof {
                assert(false);
            }
            Err(string_from_str(""))
        },
    }
}

/// A `since` duration (`"7d"`, `"2w"`, `"3m"`) as a day count.
pub fn parse_duration_pub(v: &str) -> (r: Result<u32, String>)
    requires
        !(duration_of(v@) is Panics),
    ensures
        match r {
            Ok(n) => duration_of(v@) == LineV::Add(FilterV::Since(n)),
            Err(m) => duration_of(v@) == LineV::Fail(m@),
        },
{
    let cs = chars_of(v);
    match duration_outcome(cs.as_slice()) {
        Some(r) => r,
        None => {
            proof {
                assert(false);
            }
            Err(string_from_str(""))
        },
    }
}

// ── from hits to answers ─────────────────────────────────────────────

pub open spec fn status_view(s: Option<crate::query::engine::Status>) -> Option<Seq<char>> {
    match s {
        Some(st) => Some(status_text(st)),
        None => None,
    }
}

/// A hit as the structured result carries it.
pub open spec fn query_hit_of(h: HitV) -> QueryHitV {
    QueryHitV { handle: h.handle, page: h.page_slug, status: status_view(h.status), text: h.text }
}

/// The first `limit` hits, or all of them without a limit.
pub open spec fn limited(hs: Seq<HitV>, limit: Option<usize>) -> Seq<HitV> {
    match limit {
        Some(n) => if n < hs.len() {
            hs.take(n as int)
        } else {
            hs
        },
        None => hs,
    }
}

pub open spec fn as_query_hits(hs: Seq<HitV>) -> Seq<QueryHitV> {
    hs.map_values(|h: HitV| query_hit_of(h))
}

/// `out` is `hits` sorted by the query's keys (stably), cut to its limit,
/// each hit in structured form.
pub open spec fn answers(out: Seq<QueryHitV>, hits: Seq<HitV>, q: QueryV) -> bool {
    exists|sorted: Seq<HitV>|
        #[trigger] sorted_by(sorted, hits, hit_keys(hits, q.sort)) && out == as_query_hits(
            limited(sorted, q.limit),
        )
}

/// Whether `r` is the answer to `q` over the index on `day`: `None`
/// exactly where the filters cannot be carried out.
pub open spec fn answer_at(
    blocks: Seq<BlockEntryV>,
    pages: Seq<PageEntryV>,
    q: QueryV,
    day: i64,
    r: Option<Seq<QueryHitV>>,
) -> bool {
    match (hits_of(blocks, pages, q.filters, day), r) {
        (Some(hs), Some(qs)) => answers(qs, hs, q),
        (None, None) => true,
        _ => false,
    }
}

pub open spec fn opt_query_hits(r: Option<Vec<QueryHit>>) -> Option<Seq<QueryHitV>> {
    match r {
        Some(qs) => Some(query_hits_view(qs@)),
        None => None,
    }
}

fn query_hit(h: Hit) -> (r: QueryHit)
    ensures
        r@ == query_hit_of(h@),
{
    let status = match h.status {
        Some(s) => Some(string_from_str(s.as_str())),
        None => None,
    };
    QueryHit { handle: h.handle, page: h.page_slug, status, text: h.text }
}

/// Sort the hits by the query's keys, cut them to its limit, and turn
/// each into a [`QueryHit`].
fn finish_hits(hits: Vec<Hit>, q: &Query) -> (r: Vec<QueryHit>)
    ensures
        answers(query_hits_view(r@), hits_view(hits@), q@),
{
    let mut hs = hits;
    sort_hits(&mut hs, q.sort.as_slice());
    let ghost sorted = hits_view(hs@);
    match q.limit {
        Some(limit) => {
            hs.truncate(limit);
        },
        None => {},
    }
    proof {
        assert(hits_view(hs@) =~= limited(sorted, q.limit));
    }
    let ghost cut = hits_view(hs@);
    let n = hs.len();
    let mut rest = hs;
    let mut back: Vec<QueryHit> = Vec::new();
    let mut i: usize = 0;
    while i < n
        invariant
            n == cut.len(),
            i <= n,
            rest@.len() == n - i,
            forall|j: int| 0 <= j < n - i ==> (#[trigger] rest@[j])@ == cut[j],
            back@.len() == i,
            forall|j: int| 0 <= j < i ==> (#[trigger] back@[j])@ == query_hit_of(cut[n - 1 - j]),
        decreases n - i,
    {
        let h = rest.pop().unwrap();
        back.push(query_hit(h));
        i = i + 1;
    }
    let mut out: Vec<QueryHit> = Vec::new();
    let mut i: usize = 0;
    while i < n
        invariant
            n == cut.len(),
            i <= n,
            back@.len() == n - i,
            forall|j: int| 0 <= j < n - i ==> (#[trigger] back@[j])@ == query_hit_of(cut[n - 1 - j]),
            out@.len() == i,
            forall|j: int| 0 <= j < i ==> (#[trigger] out@[j])@ == query_hit_of(cut[j]),
        decreases n - i,
    {
        let h = back.pop().unwrap();
        out.push(h);
        i = i + 1;
    }
    proof {
        assert(query_hits_view(out@) =~= as_query_hits(cut));
        assert(sorted_by(sorted, hits_view(hits@), hit_keys(hits_view(hits@), q@.sort)));
    }
    out
}

/// A query never answers more hits than its limit, nor more than the
/// blocks that passed its filters.
pub proof fn lemma_answer_within_limit(out: Seq<QueryHitV>, hits: Seq<HitV>, q: QueryV)
    requires
        answers(out, hits, q),
    ensures
        out.len() <= hits.len(),
        q.limit matches Some(n) ==> out.len() <= n,
{
    let sorted = choose|sorted: Seq<HitV>|
        #[trigger] sorted_by(sorted, hits, hit_keys(hits, q.sort)) && out == as_query_hits(
            limited(sorted, q.limit),
        );
    let perm = choose|perm: Seq<usize>|
        crate::sort::is_stable_order(hit_keys(hits, q.sort), perm) && sorted.len() == hits.len()
            && forall|k: int| 0 <= k < sorted.len() ==> #[trigger] sorted[k] == hits[perm[k] as int];
    assert(sorted.len() == hits.len());
}

/// The answer to a query over an index on a given day is determined:
/// whatever computes it, two answers are the same list.
pub proof fn lemma_answer_determined(
    blocks: Seq<BlockEntryV>,
    pages: Seq<PageEntryV>,
    q: QueryV,
    day: i64,
    r1: Option<Seq<QueryHitV>>,
    r2: Option<Seq<QueryHitV>>,
)
    requires
        answer_at(blocks, pages, q, day, r1),
        answer_at(blocks, pages, q, day, r2),
    ensures
        r1 == r2,
{
    if let Some(hs) = hits_of(blocks, pages, q.filters, day) {
        let (a, b) = (r1->0, r2->0);
        let s1 = choose|sorted: Seq<HitV>|
            #[trigger] sorted_by(sorted, hs, hit_keys(hs, q.sort)) && a == as_query_hits(
                limited(sorted, q.limit),
            );
        let s2 = choose|sorted: Seq<HitV>|
            #[trigger] sorted_by(sorted, hs, hit_keys(hs, q.sort)) && b == as_query_hits(
                limited(sorted, q.limit),
            );
        crate::sort::lemma_sorted_by_unique(s1, s2, hs, hit_keys(hs, q.sort));
    }
}

/// Run `query` against `index` on day `today`: the hits sorted and cut to
/// the limit. `None` where a `since` cutoff falls before the calendar's
/// first day.
pub fn run_against_at(query: &Query, index: &WorkspaceIndex, today: i64) -> (r: Option<
    Vec<QueryHit>,
>)
    requires
        EARLIEST_DAY <= today <= LATEST_DAY,
    ensures
        answer_at(blocks_view(index.blocks@), pages_view(index.pages@), query@, today, opt_query_hits(r)),
{
    match run_at(index, &query.filters, today) {
        Some(hits) => Some(finish_hits(hits, query)),
        None => None,
    }
}

/// Run `query` against `index` on the local calendar's current day.
pub fn run_against(query: &Query, index: &WorkspaceIndex) -> (r: Option<Vec<QueryHit>>)
    ensures
        exists|day: i64|
            EARLIEST_DAY <= day <= LATEST_DAY && #[trigger] answer_at(
                blocks_view(index.blocks@),
                pages_view(index.pages@),
                query@,
                day,
                opt_query_hits(r),
            ),
{
    let hits = run(index, query);
    let ghost day = choose|day: i64|
        EARLIEST_DAY <= day <= LATEST_DAY && #[trigger] run_outcome(
            blocks_view(index.blocks@),
            pages_view(index.pages@),
            query@.filters,
            day,
            opt_hits_view(hits),
        );
    let r = match hits {
        Some(hs) => Some(finish_hits(hs, query)),
        None => None,
    };
    proof {
        assert(answer_at(
            blocks_view(index.blocks@),
            pages_view(index.pages@),
            query@,
            day,
            opt_query_hits(r),
        ));
    }
    r
}

/// The `line N: message` text of a rejected directive.
pub open spec fn error_text(e: ParseErrorV) -> Seq<char> {
    "line "@ + decimal(e.line as nat) + ": "@ + e.msg
}

/// The hits of an answer that carries them.
pub open spec fn ok_hits(r: Option<Result<Vec<QueryHit>, String>>) -> Option<Seq<QueryHitV>> {
    match r {
        Some(Ok(qs)) => Some(query_hits_view(qs@)),
        _ => None,
    }
}

/// Whether `r` answers the parsed or built query `q` on some day of the
/// calendar.
pub open spec fn answered(
    index: &WorkspaceIndex,
    q: QueryV,
    r: Option<Result<Vec<QueryHit>, String>>,
) -> bool {
    !(r matches Some(Err(_))) && exists|day: i64|
        EARLIEST_DAY <= day <= LATEST_DAY && #[trigger] answer_at(
            blocks_view(index.blocks@),
            pages_view(index.pages@),
            q,
            day,
            ok_hits(r),
        )
}

fn answer(query: &Query, index: &WorkspaceIndex) -> (r: Option<Result<Vec<QueryHit>, String>>)
    ensures
        answered(index, query@, r),
{
    match run_against(query, index) {
        Some(qs) => Some(Ok(qs)),
        None => None,
    }
}

/// Run a DSL source against an index the caller already holds. `Err`
/// carries the rejected line's `line N: message`; `None` stands for the
/// inputs whose arithmetic cannot be carried out (a duration whose day
/// count leaves `u32`, or a `since` cutoff before the calendar's first
/// day).
pub fn run_query_dsl_with_index(dsl: &str, index: &WorkspaceIndex) -> (r: Option<
    Result<Vec<QueryHit>, String>,
>)
    ensures
        match spec_parse(dsl@) {
            Parsed::Panics => r is None,
            Parsed::Failed(e) => r matches Some(Err(m)) && m@ == error_text(e),
            Parsed::Done(q) => answered(index, q, r),
        },
{
    match parse_outcome(dsl) {
        ParseOutcome::Parsed(q) => answer(&q, index),
        ParseOutcome::Rejected(e) => Some(Err(e.message())),
        ParseOutcome::Panics => None,
    }
}

/// Run a query from structured parameters against `index`: sorted,
/// limited hits, or the message that rejects a parameter. `None` stands
/// for the inputs whose arithmetic cannot be carried out.
pub fn run_query_structured(params: &QueryParams, index: &WorkspaceIndex) -> (r: Option<
    Result<Vec<QueryHit>, String>,
>)
    ensures
        match build_spec(params@) {
            Built::Panics => r is None,
            Built::Failed(m) => r matches Some(Err(e)) && e@ == m,
            Built::Done(q) => answered(index, q, r),
        },
{
    match build_query_outcome(params) {
        None => None,
        Some(Err(m)) => Some(Err(m)),
        Some(Ok(q)) => answer(&q, index),
    }
}

// ── the code-block runtime ───────────────────────────────────────────

/// `!((handle))`: how a hit renders, as an embed reference.
pub open spec fn embed(handle: Seq<char>) -> Seq<char> {
    "!(("@ + handle + "))"@
}

/// The embeds of the hits, one per line.
pub open spec fn embeds_text(hs: Seq<QueryHitV>) -> Seq<char>
    decreases hs.len(),
{
    if hs.len() == 0 {
        seq![]
    } else if hs.len() == 1 {
        embed(hs[0].handle)
    } else {
        embeds_text(hs.drop_last()) + "\n"@ + embed(hs.last().handle)
    }
}

fn embeds_exec(hs: &Vec<QueryHit>) -> (r: String)
    ensures
        r@ == embeds_text(query_hits_view(hs@)),
{
    let ghost hv = query_hits_view(hs@);
    let mut out = String::new();
    let n = hs.len();
    let mut i: usize = 0;
    proof {
        assert(hv.take(0) =~= Seq::<QueryHitV>::empty());
    }
    while i < n
        invariant
            n == hs@.len(),
            hv == query_hits_view(hs@),
            i <= n,
            out@ == embeds_text(hv.take(i as int)),
        decreases n - i,
    {
        proof {
            assert(hv.take(i + 1).drop_last() =~= hv.take(i as int));
            assert(hv.take(i + 1).last() == hs@[i as int]@);
        }
        if i > 0 {
            let nl = chars_of("\n");
            push_chars(&mut out, nl.as_slice());
        }
        let h = chars_of(hs[i].handle.as_str());
        let e = concat3("!((", h.as_slice(), "))");
        let ec = chars_of(e.as_str());
        push_chars(&mut out, ec.as_slice());
        proof {
            if i == 0 {
                assert(out@ =~= embed(hv[0].handle));
                assert(hv.take(1).len() == 1);
            } else {
                assert(out@ =~= embeds_text(hv.take(i as int)) + "\n"@ + embed(hv[i as int].handle));
            }
        }
        i = i + 1;
    }
    proof {
        assert(hv.take(n as int) =~= hv);
    }
    out
}

/// The `query` code-block runtime: runs the fence's DSL against the
/// workspace index and renders each hit as an embed line.
pub struct QueryRuntime;

impl QueryRuntime {
    /// The fence language this runtime answers to.
    pub fn language(&self) -> (r: &'static str)
        ensures
            r@ == "query"@,
    {
        "query"
    }

    /// Query fences run as soon as they render.
    pub fn auto_run(&self) -> (r: bool)
        ensures
            r,
    {
        true
    }

    /// The runtime reads the workspace index.
    pub fn needs_workspace_index(&self) -> (r: bool)
        ensures
            r,
    {
        true
    }

    /// Run the fence body `source` against `index`: the embeds of the hits,
    /// one per line, or the message that rejects the source. `None` as for
    /// [`run_query_dsl_with_index`].
    pub fn execute(&self, source: &str, index: &WorkspaceIndex) -> (r: Option<Result<String, String>>)
        ensures
            execute_spec(source@, index, r),
    {
        match run_query_dsl_with_index(source, index) {
            None => None,
            Some(Err(m)) => Some(Err(m)),
            Some(Ok(hits)) => Some(Ok(embeds_exec(&hits))),
        }
    }
}

/// What [`QueryRuntime::execute`] gives: the embeds of some answer that
/// [`run_query_dsl_with_index`] could give, its error, or `None` with it.
pub open spec fn execute_spec(
    source: Seq<char>,
    index: &WorkspaceIndex,
    r: Option<Result<String, String>>,
) -> bool {
    match spec_parse(source) {
        Parsed::Panics => r is None,
        Parsed::Failed(e) => r matches Some(Err(m)) && m@ == error_text(e),
        Parsed::Done(q) => match r {
            Some(Err(_)) => false,
            Some(Ok(text)) => exists|qs: Seq<QueryHitV>, day: i64|
                EARLIEST_DAY <= day <= LATEST_DAY && #[trigger] answer_at(
                    blocks_view(index.blocks@),
                    pages_view(index.pages@),
                    q,
                    day,
                    Some(qs),
                ) && text@ == embeds_text(qs),
            None => exists|day: i64|
                EARLIEST_DAY <= day <= LATEST_DAY && #[trigger] answer_at(
                    blocks_view(index.blocks@),
                    pages_view(index.pages@),
                    q,
                    day,
                    None,
                ),
        },
    }
}

} // verus!
