//! Chronological ordering for a backlinks list.
//!
//! A block id is a ULID whose high bits are a millisecond timestamp, so
//! ids order by creation time. Backlinks are ordered by how recently each
//! source page was referenced — by the page's newest referencing block —
//! while a page's blocks keep their incoming (document) order and stay
//! together, so every renderer emits one header per page and agrees on
//! page order.

use vstd::prelude::*;

use crate::sort::{
    asc_key, asc_key_exec, desc_key, desc_key_exec, is_stable_order, key_view, lemma_lex_irreflexive,
    lemma_lex_transitive, lex_lt, lex_lt_exec, ord_lt, sorted_by, stable_sort,
};
use crate::text::chars_of;

verus! {

/// One backlink, as far as ordering it goes.
#[derive(Debug, Clone, PartialEq, Eq)]
pub struct Backlink {
    /// Id of the referencing block (a ULID).
    pub block_id: String,
    /// The referencing block's text.
    pub block_text: String,
    /// Slug of the page hosting the referencing block; `None` for a block
    /// outside any page.
    pub source_page: Option<String>,
}

pub struct BacklinkV {
    pub block_id: Seq<char>,
    pub block_text: Seq<char>,
    pub source_page: Option<Seq<char>>,
}

impl View for Backlink {
    type V = BacklinkV;

    open spec fn view(&self) -> BacklinkV {
        BacklinkV {
            block_id: self.block_id@,
            block_text: self.block_text@,
            source_page: match self.source_page {
                Some(s) => Some(s@),
                None => None,
            },
        }
    }
}

pub open spec fn links_view(ls: Seq<Backlink>) -> Seq<BacklinkV> {
    ls.map_values(|l: Backlink| l@)
}

/// The group a backlink sorts with: its source page's slug, or the empty
/// string for blocks outside any page, which cluster together.
pub open spec fn group_of(l: BacklinkV) -> Seq<char> {
    match l.source_page {
        Some(s) => s,
        None => seq![],
    }
}

/// String order, as the keys encode it.
pub open spec fn str_lt(a: Seq<char>, b: Seq<char>) -> bool {
    lex_lt(asc_key(a), asc_key(b))
}

/// The newest block id of group `g` among the first `n` links: the first
/// one met, replaced by each later one that sorts after it.
pub open spec fn rep_upto(ls: Seq<BacklinkV>, g: Seq<char>, n: int) -> Option<Seq<char>>
    decreases n,
{
    if n <= 0 {
        None
    } else {
        let prev = rep_upto(ls, g, n - 1);
        let e = ls[n - 1];
        if group_of(e) == g {
            match prev {
                None => Some(e.block_id),
                Some(r) => if str_lt(r, e.block_id) {
                    Some(e.block_id)
                } else {
                    Some(r)
                },
            }
        } else {
            prev
        }
    }
}

/// The newest block id of group `g`.
pub open spec fn group_rep(ls: Seq<BacklinkV>, g: Seq<char>) -> Seq<char> {
    match rep_upto(ls, g, ls.len() as int) {
        Some(r) => r,
        None => seq![],
    }
}

/// The sort key of link `i`: its group's newest id, descending for
/// newest-first and ascending otherwise.
pub open spec fn backlink_keys(ls: Seq<BacklinkV>, newest_first: bool) -> Seq<Seq<i64>> {
    Seq::new(
        ls.len(),
        |i: int|
            if newest_first {
                desc_key(group_rep(ls, group_of(ls[i])))
            } else {
                asc_key(group_rep(ls, group_of(ls[i])))
            },
    )
}

fn group_chars(l: &Backlink) -> (r: Vec<char>)
    ensures
        r@ == group_of(l@),
{
    match &l.source_page {
        Some(s) => chars_of(s.as_str()),
        None => Vec::new(),
    }
}

fn eq_chars_vec(a: &Vec<char>, b: &Vec<char>) -> (r: bool)
    ensures
        r == (a@ == b@),
{
    crate::text::eq_chars(a.as_slice(), b.as_slice())
}

/// The newest id of group `g` over `links`.
fn group_rep_exec(links: &Vec<Backlink>, g: &Vec<char>) -> (r: Vec<char>)
    ensures
        r@ == group_rep(links_view(links@), g@),
{
    let ghost lv = links_view(links@);
    let n = links.len();
    let mut rep: Option<Vec<char>> = None;
    let mut i: usize = 0;
    while i < n
        invariant
            n == links@.len(),
            lv == links_view(links@),
            i <= n,
            match rep {
                Some(r) => rep_upto(lv, g@, i as int) == Some(r@),
                None => rep_upto(lv, g@, i as int) is None,
            },
        decreases n - i,
    {
        let gi = group_chars(&links[i]);
        proof {
            assert(lv[i as int] == links@[i as int]@);
        }
        if eq_chars_vec(&gi, g) {
            let id = chars_of(links[i].block_id.as_str());
            match rep {
                None => {
                    rep = Some(id);
                },
                Some(r) => {
                    let ra = asc_key_exec(r.as_slice());
                    let ia = asc_key_exec(id.as_slice());
                    if lex_lt_exec(&ra, &ia) {
                        rep = Some(id);
                    } else {
                        rep = Some(r);
                    }
                },
            }
        }
        i = i + 1;
    }
    match rep {
        Some(r) => r,
        None => Vec::new(),
    }
}

/// Order backlinks by how recently each source page was referenced: pages
/// by their newest referencing block (newest first when `newest_first`,
/// oldest first otherwise), each page's blocks in their incoming order.
pub fn sort_backlinks(links: &mut Vec<Backlink>, newest_first: bool)
    ensures
        sorted_by(
            links_view(final(links)@),
            links_view(old(links)@),
            backlink_keys(links_view(old(links)@), newest_first),
        ),
{
    let mut v: Vec<Backlink> = Vec::new();
    std::mem::swap(links, &mut v);
    let ghost orig = v@;
    let ghost lv = links_view(orig);
    let n = v.len();
    let mut keys: Vec<Vec<i64>> = Vec::new();
    let mut i: usize = 0;
    while i < n
        invariant
            n == v@.len(),
            v@ == orig,
            lv == links_view(orig),
            i <= n,
            keys@.len() == i,
            forall|j: int|
                0 <= j < i ==> (#[trigger] keys@[j])@ == backlink_keys(lv, newest_first)[j],
        decreases n - i,
    {
        let g = group_chars(&v[i]);
        let rep = group_rep_exec(&v, &g);
        let k = if newest_first {
            desc_key_exec(rep.as_slice())
        } else {
            asc_key_exec(rep.as_slice())
        };
        proof {
            assert(lv[i as int] == v@[i as int]@);
        }
        keys.push(k);
        i = i + 1;
    }
    proof {
        assert(key_view(keys@) =~= backlink_keys(lv, newest_first));
    }
    let sorted = stable_sort(v, &keys);
    proof {
        let kv = backlink_keys(lv, newest_first);
        let perm = choose|perm: Seq<usize>|
            is_stable_order(kv, perm) && sorted@.len() == orig.len() && forall|k: int|
                0 <= k < sorted@.len() ==> #[trigger] sorted@[k] == orig[perm[k] as int];
        assert(is_stable_order(kv, perm) && links_view(sorted@).len() == lv.len() && forall|k: int|
            0 <= k < links_view(sorted@).len() ==> #[trigger] links_view(sorted@)[k]
                == lv[perm[k] as int]);
    }
    *links = sorted;
}

// ── laws ─────────────────────────────────────────────────────────────

/// The newest id of a group is the id of one of its links.
proof fn lemma_rep_is_member(ls: Seq<BacklinkV>, g: Seq<char>, n: int)
    requires
        0 <= n <= ls.len(),
        rep_upto(ls, g, n) is Some,
    ensures
        exists|m: int|
            0 <= m < n && group_of(#[trigger] ls[m]) == g && ls[m].block_id == rep_upto(
                ls,
                g,
                n,
            )->0,
    decreases n,
{
    let prev = rep_upto(ls, g, n - 1);
    let e = ls[n - 1];
    if group_of(e) == g && (prev is None || str_lt(prev->0, e.block_id)) {
        assert(group_of(ls[n - 1]) == g);
    } else {
        lemma_rep_is_member(ls, g, n - 1);
        let m = choose|m: int|
            0 <= m < n - 1 && group_of(#[trigger] ls[m]) == g && ls[m].block_id == rep_upto(
                ls,
                g,
                n - 1,
            )->0;
        assert(group_of(ls[m]) == g);
    }
}

/// A group with a link among the first `n` has a newest id there.
proof fn lemma_rep_some(ls: Seq<BacklinkV>, g: Seq<char>, n: int, m: int)
    requires
        0 <= m < n <= ls.len(),
        group_of(ls[m]) == g,
    ensures
        rep_upto(ls, g, n) is Some,
    decreases n,
{
    if m < n - 1 {
        lemma_rep_some(ls, g, n - 1, m);
    }
}

/// No link of group `g` among the first `n` has an id after the newest.
proof fn lemma_rep_upto_newest(ls: Seq<BacklinkV>, g: Seq<char>, n: int)
    requires
        0 <= n <= ls.len(),
    ensures
        rep_upto(ls, g, n) matches Some(r) ==> forall|m: int|
            0 <= m < n && group_of(#[trigger] ls[m]) == g ==> !str_lt(r, ls[m].block_id),
    decreases n,
{
    if n > 0 {
        lemma_rep_upto_newest(ls, g, n - 1);
        let prev = rep_upto(ls, g, n - 1);
        let e = ls[n - 1];
        if group_of(e) == g {
            lemma_lex_irreflexive(asc_key(e.block_id));
            match prev {
                None => {
                    assert forall|m: int| 0 <= m < n - 1 && group_of(#[trigger] ls[m]) == g implies false by {
                        lemma_rep_some(ls, g, n - 1, m);
                    }
                },
                Some(r) => {
                    if str_lt(r, e.block_id) {
                        assert forall|m: int| 0 <= m < n && group_of(#[trigger] ls[m]) == g implies !str_lt(
                            e.block_id,
                            ls[m].block_id,
                        ) by {
                            if m < n - 1 && str_lt(e.block_id, ls[m].block_id) {
                                lemma_lex_transitive(asc_key(r), asc_key(e.block_id), asc_key(ls[m].block_id));
                            }
                        }
                    }
                },
            }
        }
    }
}

/// A page's place in the list is set by its newest referencing block: the
/// representative of a group that has links is the id of one of them, and
/// no link of the group has an id that sorts after it.
pub proof fn lemma_group_rep_is_newest(ls: Seq<BacklinkV>, g: Seq<char>, m: int)
    requires
        0 <= m < ls.len(),
        group_of(ls[m]) == g,
    ensures
        exists|k: int| 0 <= k < ls.len() && group_of(#[trigger] ls[k]) == g && ls[k].block_id == group_rep(ls, g),
        forall|k: int| 0 <= k < ls.len() && group_of(#[trigger] ls[k]) == g ==> !str_lt(group_rep(ls, g), ls[k].block_id),
{
    lemma_rep_some(ls, g, ls.len() as int, m);
    lemma_rep_is_member(ls, g, ls.len() as int);
    lemma_rep_upto_newest(ls, g, ls.len() as int);
}

proof fn lemma_char_code_injective(c: char, d: char)
    ensures
        ((c as u32) as int == (d as u32) as int) ==> c == d,
{
    assert((c as u32) as int == c as int);
    assert((d as u32) as int == d as int);
}

proof fn lemma_asc_key_injective(a: Seq<char>, b: Seq<char>)
    requires
        asc_key(a) == asc_key(b),
    ensures
        a == b,
{
    assert(asc_key(a).len() == a.len() + 1);
    assert(asc_key(b).len() == b.len() + 1);
    assert forall|i: int| 0 <= i < a.len() implies a[i] == b[i] by {
        let fa = Seq::new(a.len(), |j: int| ((a[j] as u32) as int + 1) as i64);
        let fb = Seq::new(b.len(), |j: int| ((b[j] as u32) as int + 1) as i64);
        assert(asc_key(a) == fa.push(0));
        assert(asc_key(b) == fb.push(0));
        assert(asc_key(a)[i] == fa[i]);
        assert(asc_key(b)[i] == fb[i]);
        assert(fa[i] == fb[i]);
        let x = (a[i] as u32) as int;
        let y = (b[i] as u32) as int;
        assert(0 <= x < 0x1_0000_0000 && 0 <= y < 0x1_0000_0000);
        assert((x + 1) as i64 == x + 1);
        assert((y + 1) as i64 == y + 1);
        assert(x == y);
        lemma_char_code_injective(a[i], b[i]);
    }
    assert(a =~= b);
}

proof fn lemma_desc_key_injective(a: Seq<char>, b: Seq<char>)
    requires
        desc_key(a) == desc_key(b),
    ensures
        a == b,
{
    assert(desc_key(a).len() == a.len() + 1);
    assert(desc_key(b).len() == b.len() + 1);
    assert forall|i: int| 0 <= i < a.len() implies a[i] == b[i] by {
        let fa = Seq::new(a.len(), |j: int| (-((a[j] as u32) as int + 1)) as i64);
        let fb = Seq::new(b.len(), |j: int| (-((b[j] as u32) as int + 1)) as i64);
        assert(desc_key(a) == fa.push(0));
        assert(desc_key(b) == fb.push(0));
        assert(desc_key(a)[i] == fa[i]);
        assert(desc_key(b)[i] == fb[i]);
        assert(fa[i] == fb[i]);
        let x = (a[i] as u32) as int;
        let y = (b[i] as u32) as int;
        assert(0 <= x < 0x1_0000_0000 && 0 <= y < 0x1_0000_0000);
        assert((-(x + 1)) as i64 == -(x + 1));
        assert((-(y + 1)) as i64 == -(y + 1));
        assert(x == y);
        lemma_char_code_injective(a[i], b[i]);
    }
    assert(a =~= b);
}

/// Block ids are distinct.
pub open spec fn distinct_ids(ls: Seq<BacklinkV>) -> bool {
    forall|a: int, b: int|
        0 <= a < ls.len() && 0 <= b < ls.len() && a != b ==> #[trigger] ls[a].block_id
            != #[trigger] ls[b].block_id
}

/// Once sorted, every page's backlinks form one contiguous run, and
/// within the run they keep their incoming order — for any input whose
/// block ids are distinct.
pub proof fn lemma_pages_contiguous(
    out: Seq<BacklinkV>,
    inp: Seq<BacklinkV>,
    newest_first: bool,
    i: int,
    j: int,
    k: int,
)
    requires
        sorted_by(out, inp, backlink_keys(inp, newest_first)),
        distinct_ids(inp),
        0 <= i < j < k < out.len(),
        group_of(out[i]) == group_of(out[k]),
    ensures
        group_of(out[j]) == group_of(out[i]),
{
    let keys = backlink_keys(inp, newest_first);
    let perm = choose|perm: Seq<usize>|
        is_stable_order(keys, perm) && out.len() == inp.len() && forall|x: int|
            0 <= x < out.len() ==> #[trigger] out[x] == inp[perm[x] as int];
    let (pi, pj, pk) = (perm[i] as int, perm[j] as int, perm[k] as int);
    assert(out[i] == inp[pi] && out[j] == inp[pj] && out[k] == inp[pk]);
    assert(ord_lt(keys, pi, pj));
    assert(ord_lt(keys, pj, pk));
    let gi = group_of(inp[pi]);
    let gj = group_of(inp[pj]);
    assert(keys[pi] == keys[pk]);
    if lex_lt(keys[pi], keys[pj]) {
        if lex_lt(keys[pj], keys[pk]) {
            lemma_lex_transitive(keys[pi], keys[pj], keys[pk]);
        }
        lemma_lex_irreflexive(keys[pi]);
        assert(false);
    }
    if keys[pi] != keys[pj] {
        assert(false);
    }
    assert(keys[pi] == keys[pj]);
    if newest_first {
        lemma_desc_key_injective(group_rep(inp, gi), group_rep(inp, gj));
    } else {
        lemma_asc_key_injective(group_rep(inp, gi), group_rep(inp, gj));
    }
    lemma_rep_some(inp, gi, inp.len() as int, pi);
    lemma_rep_some(inp, gj, inp.len() as int, pj);
    lemma_rep_is_member(inp, gi, inp.len() as int);
    lemma_rep_is_member(inp, gj, inp.len() as int);
    let mi = choose|m: int|
        0 <= m < inp.len() && group_of(#[trigger] inp[m]) == gi && inp[m].block_id == rep_upto(
            inp,
            gi,
            inp.len() as int,
        )->0;
    let mj = choose|m: int|
        0 <= m < inp.len() && group_of(#[trigger] inp[m]) == gj && inp[m].block_id == rep_upto(
            inp,
            gj,
            inp.len() as int,
        )->0;
    if mi != mj {
        assert(inp[mi].block_id != inp[mj].block_id);
    }
}

/// Within one page, sorting keeps the incoming order.
pub proof fn lemma_page_order_kept(
    out: Seq<BacklinkV>,
    inp: Seq<BacklinkV>,
    newest_first: bool,
    i: int,
    j: int,
) -> (pair: (int, int))
    requires
        sorted_by(out, inp, backlink_keys(inp, newest_first)),
        0 <= i < j < out.len(),
        group_of(out[i]) == group_of(out[j]),
    ensures
        0 <= pair.0 < pair.1 < inp.len(),
        out[i] == inp[pair.0],
        out[j] == inp[pair.1],
{
    let keys = backlink_keys(inp, newest_first);
    let perm = choose|perm: Seq<usize>|
        is_stable_order(keys, perm) && out.len() == inp.len() && forall|x: int|
            0 <= x < out.len() ==> #[trigger] out[x] == inp[perm[x] as int];
    let (pi, pj) = (perm[i] as int, perm[j] as int);
    assert(out[i] == inp[pi] && out[j] == inp[pj]);
    assert(ord_lt(keys, pi, pj));
    assert(keys[pi] == keys[pj]);
    lemma_lex_irreflexive(keys[pi]);
    (pi, pj)
}

proof fn lemma_desc_asc_reversed(a: Seq<char>, b: Seq<char>)
    ensures
        lex_lt(desc_key(a), desc_key(b)) == lex_lt(asc_key(b), asc_key(a)),
    decreases a.len(),
{
    let (da, db, aa, ab) = (desc_key(a), desc_key(b), asc_key(a), asc_key(b));
    if a.len() > 0 && b.len() > 0 {
        let x = (a[0] as u32) as int;
        let y = (b[0] as u32) as int;
        assert((-(x + 1)) as i64 == -(x + 1));
        assert((-(y + 1)) as i64 == -(y + 1));
        assert((x + 1) as i64 == x + 1);
        assert((y + 1) as i64 == y + 1);
        assert(da[0] == (-((a[0] as u32) as int + 1)) as i64);
        assert(db[0] == (-((b[0] as u32) as int + 1)) as i64);
        assert(aa[0] == ((a[0] as u32) as int + 1) as i64);
        assert(ab[0] == ((b[0] as u32) as int + 1) as i64);
        assert(da.drop_first() =~= desc_key(a.drop_first()));
        assert(db.drop_first() =~= desc_key(b.drop_first()));
        assert(aa.drop_first() =~= asc_key(a.drop_first()));
        assert(ab.drop_first() =~= asc_key(b.drop_first()));
        lemma_desc_asc_reversed(a.drop_first(), b.drop_first());
        assert(lex_lt(da, db) == lex_lt(ab, aa));
    } else if a.len() == 0 && b.len() > 0 {
        let y = (b[0] as u32) as int;
        assert((-(y + 1)) as i64 == -(y + 1));
        assert((y + 1) as i64 == y + 1);
        assert(da[0] == 0);
        assert(db[0] == (-((b[0] as u32) as int + 1)) as i64);
        assert(aa[0] == 0);
        assert(ab[0] == ((b[0] as u32) as int + 1) as i64);
        assert(lex_lt(da, db) == lex_lt(ab, aa));
    } else if a.len() > 0 && b.len() == 0 {
        let x = (a[0] as u32) as int;
        assert((-(x + 1)) as i64 == -(x + 1));
        assert((x + 1) as i64 == x + 1);
        assert(db[0] == 0);
        assert(da[0] == (-((a[0] as u32) as int + 1)) as i64);
        assert(ab[0] == 0);
        assert(aa[0] == ((a[0] as u32) as int + 1) as i64);
        assert(lex_lt(da, db) == lex_lt(ab, aa));
    } else {
        assert(da =~= ab);
        assert(db =~= aa);
    }
}

/// Pages line up by recency: of two backlinks in sorted order, the
/// earlier one's page was referenced no less recently (newest first) or
/// no more recently (oldest first) than the later one's.
pub proof fn lemma_pages_by_recency(
    out: Seq<BacklinkV>,
    inp: Seq<BacklinkV>,
    newest_first: bool,
    i: int,
    j: int,
)
    requires
        sorted_by(out, inp, backlink_keys(inp, newest_first)),
        0 <= i < j < out.len(),
    ensures
        newest_first ==> !str_lt(group_rep(inp, group_of(out[i])), group_rep(inp, group_of(out[j]))),
        !newest_first ==> !str_lt(group_rep(inp, group_of(out[j])), group_rep(inp, group_of(out[i]))),
{
    let keys = backlink_keys(inp, newest_first);
    let perm = choose|perm: Seq<usize>|
        is_stable_order(keys, perm) && out.len() == inp.len() && forall|x: int|
            0 <= x < out.len() ==> #[trigger] out[x] == inp[perm[x] as int];
    let (pi, pj) = (perm[i] as int, perm[j] as int);
    assert(out[i] == inp[pi] && out[j] == inp[pj]);
    assert(ord_lt(keys, pi, pj));
    let ri = group_rep(inp, group_of(inp[pi]));
    let rj = group_rep(inp, group_of(inp[pj]));
    if newest_first {
        if keys[pi] == keys[pj] {
            lemma_desc_key_injective(ri, rj);
            lemma_lex_irreflexive(asc_key(ri));
        } else {
            lemma_desc_asc_reversed(ri, rj);
            if str_lt(ri, rj) {
                lemma_lex_transitive(asc_key(ri), asc_key(rj), asc_key(ri));
                lemma_lex_irreflexive(asc_key(ri));
            }
        }
    } else {
        if keys[pi] == keys[pj] {
            lemma_asc_key_injective(ri, rj);
            lemma_lex_irreflexive(asc_key(ri));
        } else if str_lt(rj, ri) {
            lemma_lex_transitive(asc_key(ri), asc_key(rj), asc_key(ri));
            lemma_lex_irreflexive(asc_key(ri));
        }
    }
}

} // verus!
