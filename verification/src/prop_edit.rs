//! Editing the `key:: value` properties of a block or a page.
//!
//! Block property keys compare ASCII case-insensitively (`Status` and
//! `status` are one key); page property keys compare exactly. Setting an
//! empty value removes the key.

use vstd::prelude::*;

use crate::query::index::pairs_view;
use crate::text::{
    ascii_lower_chars, ascii_lower_seq, chars_of, eq_chars, eq_ignore_ascii_case,
    eq_ignore_ascii_case_exec, eq_lit, push_chars, string_from_str, trim, trim_chars,
};

verus! {

pub type Pairs = Seq<(Seq<char>, Seq<char>)>;

/// Whether key `k` is `key`: ignoring ASCII case for block properties,
/// exactly for page properties.
pub open spec fn key_matches(k: Seq<char>, key: Seq<char>, ignore_case: bool) -> bool {
    if ignore_case {
        eq_ignore_ascii_case(k, key)
    } else {
        k == key
    }
}

/// The pairs whose key is not `key`, in order.
pub open spec fn without_key(ps: Pairs, key: Seq<char>, ignore_case: bool) -> Pairs
    decreases ps.len(),
{
    if ps.len() == 0 {
        seq![]
    } else {
        let rest = without_key(ps.drop_last(), key, ignore_case);
        if key_matches(ps.last().0, key, ignore_case) {
            rest
        } else {
            rest.push(ps.last())
        }
    }
}

/// Index of the first pair with key `key`, or `-1`.
pub open spec fn first_key(ps: Pairs, key: Seq<char>, ignore_case: bool) -> int
    decreases ps.len(),
{
    if ps.len() == 0 {
        -1
    } else if key_matches(ps[0].0, key, ignore_case) {
        0
    } else {
        let r = first_key(ps.drop_first(), key, ignore_case);
        if r < 0 {
            -1
        } else {
            r + 1
        }
    }
}

/// The pairs after setting `key` to `value`: an empty value removes every
/// pair with that key; otherwise the first such pair takes the value (its
/// key spelling kept), or a new pair is appended.
pub open spec fn set_spec(ps: Pairs, key: Seq<char>, value: Seq<char>, ignore_case: bool) -> Pairs {
    if value.len() == 0 {
        without_key(ps, key, ignore_case)
    } else {
        let i = first_key(ps, key, ignore_case);
        if i >= 0 {
            ps.update(i, (ps[i].0, value))
        } else {
            ps.push((key, value))
        }
    }
}

/// The value of `key`: that of its first pair.
pub open spec fn get_spec(ps: Pairs, key: Seq<char>, ignore_case: bool) -> Option<Seq<char>> {
    let i = first_key(ps, key, ignore_case);
    if i >= 0 {
        Some(ps[i].1)
    } else {
        None
    }
}

/// The status line a block property edit reports.
pub open spec fn block_status(ps: Pairs, key: Seq<char>, value: Seq<char>) -> Seq<char> {
    if value.len() == 0 {
        "removed property `"@ + key + "`"@
    } else if first_key(ps, key, true) >= 0 {
        "set "@ + key + " = "@ + value
    } else {
        "added "@ + key + " = "@ + value
    }
}

/// The status line a page property edit reports.
pub open spec fn page_status(ps: Pairs, key: Seq<char>, value: Seq<char>) -> Seq<char> {
    if value.len() == 0 {
        "removed page property `"@ + key + "`"@
    } else if first_key(ps, key, false) >= 0 {
        "set page "@ + key + " = "@ + value
    } else {
        "added page "@ + key + " = "@ + value
    }
}

proof fn lemma_first_key(ps: Pairs, key: Seq<char>, ic: bool, k: int)
    requires
        0 <= k <= ps.len(),
        forall|j: int| 0 <= j < k ==> !key_matches(#[trigger] ps[j].0, key, ic),
        k == ps.len() || key_matches(ps[k].0, key, ic),
    ensures
        first_key(ps, key, ic) == if k == ps.len() {
            -1
        } else {
            k
        },
    decreases k,
{
    if k > 0 {
        assert forall|j: int| 0 <= j < k - 1 implies !key_matches(
            #[trigger] ps.drop_first()[j].0,
            key,
            ic,
        ) by {
            assert(ps.drop_first()[j] == ps[j + 1]);
        }
        lemma_first_key(ps.drop_first(), key, ic, k - 1);
    }
}

fn key_is(k: &str, key: &Vec<char>, ignore_case: bool) -> (r: bool)
    ensures
        r == key_matches(k@, key@, ignore_case),
{
    let kc = chars_of(k);
    if ignore_case {
        eq_ignore_ascii_case_exec(kc.as_slice(), key.as_slice())
    } else {
        eq_chars(kc.as_slice(), key.as_slice())
    }
}

fn find_key(props: &Vec<(String, String)>, key: &Vec<char>, ignore_case: bool) -> (r: Option<usize>)
    ensures
        match r {
            Some(i) => first_key(pairs_view(props@), key@, ignore_case) == i as int && i
                < props@.len(),
            None => first_key(pairs_view(props@), key@, ignore_case) == -1,
        },
{
    let ghost pv = pairs_view(props@);
    let n = props.len();
    let mut i: usize = 0;
    while i < n
        invariant
            n == props@.len(),
            pv == pairs_view(props@),
            i <= n,
            forall|j: int| 0 <= j < i ==> !key_matches(#[trigger] pv[j].0, key@, ignore_case),
        decreases n - i,
    {
        proof {
            assert(pv[i as int].0 == props@[i as int].0@);
        }
        if key_is(props[i].0.as_str(), key, ignore_case) {
            proof {
                lemma_first_key(pv, key@, ignore_case, i as int);
            }
            return Some(i);
        }
        i = i + 1;
    }
    proof {
        lemma_first_key(pv, key@, ignore_case, n as int);
    }
    None
}

fn remove_key(props: &mut Vec<(String, String)>, key: &Vec<char>, ignore_case: bool)
    ensures
        pairs_view(final(props)@) == without_key(pairs_view(old(props)@), key@, ignore_case),
{
    let ghost pv = pairs_view(props@);
    let n = props.len();
    let mut kept: Vec<(String, String)> = Vec::new();
    let mut i: usize = 0;
    proof {
        assert(pv.take(0) =~= Seq::<(Seq<char>, Seq<char>)>::empty());
        assert(pairs_view(kept@) =~= Seq::<(Seq<char>, Seq<char>)>::empty());
    }
    while i < n
        invariant
            n == props@.len(),
            pv == pairs_view(props@),
            i <= n,
            pairs_view(kept@) == without_key(pv.take(i as int), key@, ignore_case),
        decreases n - i,
    {
        proof {
            assert(pv.take(i + 1).drop_last() =~= pv.take(i as int));
            assert(pv.take(i + 1).last() == pv[i as int]);
            assert(pv[i as int] == (props@[i as int].0@, props@[i as int].1@));
        }
        if !key_is(props[i].0.as_str(), key, ignore_case) {
            let pair = (props[i].0.clone(), props[i].1.clone());
            proof {
                assert(pairs_view(kept@.push(pair)) =~= pairs_view(kept@).push(pv[i as int]));
            }
            kept.push(pair);
        }
        i = i + 1;
    }
    proof {
        assert(pv.take(n as int) =~= pv);
    }
    *props = kept;
}

fn set_pair(props: &mut Vec<(String, String)>, key: &str, value: &str, ignore_case: bool) -> (existed:
    bool)
    ensures
        pairs_view(final(props)@) == set_spec(pairs_view(old(props)@), key@, value@, ignore_case),
        value@.len() > 0 ==> existed == (first_key(pairs_view(old(props)@), key@, ignore_case) >= 0),
{
    let kc = chars_of(key);
    let vc = chars_of(value);
    if vc.len() == 0 {
        remove_key(props, &kc, ignore_case);
        return false;
    }
    match find_key(props, &kc, ignore_case) {
        Some(i) => {
            let k = props[i].0.clone();
            let ghost before = pairs_view(props@);
            props.set(i, (k, string_from_str(value)));
            proof {
                assert(pairs_view(props@) =~= before.update(i as int, (before[i as int].0, value@)));
            }
            true
        },
        None => {
            let ghost before = pairs_view(props@);
            props.push((string_from_str(key), string_from_str(value)));
            proof {
                assert(pairs_view(props@) =~= before.push((key@, value@)));
            }
            false
        },
    }
}

fn cat3(a: &str, b: &str, c: &str) -> (r: String)
    ensures
        r@ == a@ + b@ + c@,
{
    let mut r = string_from_str(a);
    let bc = chars_of(b);
    push_chars(&mut r, bc.as_slice());
    let cc = chars_of(c);
    push_chars(&mut r, cc.as_slice());
    r
}

fn cat4(a: &str, b: &str, c: &str, d: &str) -> (r: String)
    ensures
        r@ == a@ + b@ + c@ + d@,
{
    let mut r = cat3(a, b, c);
    let dc = chars_of(d);
    push_chars(&mut r, dc.as_slice());
    r
}

/// Set property `key` of a block to `value` — keys compared ignoring
/// ASCII case; an empty value removes the key — and report what happened.
pub fn set_block_property(props: &mut Vec<(String, String)>, key: &str, value: &str) -> (status:
    String)
    ensures
        pairs_view(final(props)@) == set_spec(pairs_view(old(props)@), key@, value@, true),
        status@ == block_status(pairs_view(old(props)@), key@, value@),
{
    let existed = set_pair(props, key, value, true);
    if value.is_empty() {
        cat3("removed property `", key, "`")
    } else if existed {
        cat4("set ", key, " = ", value)
    } else {
        cat4("added ", key, " = ", value)
    }
}

/// The value of block property `key`, keys compared ignoring ASCII case.
pub fn block_property(props: &Vec<(String, String)>, key: &str) -> (r: Option<String>)
    ensures
        match r {
            Some(v) => get_spec(pairs_view(props@), key@, true) == Some(v@),
            None => get_spec(pairs_view(props@), key@, true) is None,
        },
{
    let kc = chars_of(key);
    match find_key(props, &kc, true) {
        Some(i) => Some(props[i].1.clone()),
        None => None,
    }
}

/// Set page property `key` to `value` — keys compared exactly; an empty
/// value removes the key — and report what happened.
pub fn set_page_property(props: &mut Vec<(String, String)>, key: &str, value: &str) -> (status:
    String)
    ensures
        pairs_view(final(props)@) == set_spec(pairs_view(old(props)@), key@, value@, false),
        status@ == page_status(pairs_view(old(props)@), key@, value@),
{
    let existed = set_pair(props, key, value, false);
    if value.is_empty() {
        cat3("removed page property `", key, "`")
    } else if existed {
        cat4("set page ", key, " = ", value)
    } else {
        cat4("added page ", key, " = ", value)
    }
}

/// A truthy `pinned::` value: `true`, `yes`, `1` or `on`, after trimming
/// and ignoring ASCII case.
pub open spec fn truthy(v: Seq<char>) -> bool {
    let t = ascii_lower_seq(trim(v));
    t == "true"@ || t == "yes"@ || t == "1"@ || t == "on"@
}

/// The page is pinned: some `pinned` pair holds a truthy value.
pub open spec fn is_pinned(ps: Pairs) -> bool {
    exists|i: int| 0 <= i < ps.len() && #[trigger] ps[i].0 == "pinned"@ && truthy(ps[i].1)
}

fn truthy_exec(v: &str) -> (r: bool)
    ensures
        r == truthy(v@),
{
    let vc = chars_of(v);
    let t = trim_chars(vc.as_slice());
    let l = ascii_lower_chars(t.as_slice());
    eq_lit(l.as_slice(), "true") || eq_lit(l.as_slice(), "yes") || eq_lit(l.as_slice(), "1")
        || eq_lit(l.as_slice(), "on")
}

/// Flip a page's pin: a pinned page loses every `pinned` pair; an
/// unpinned one loses them too and gains `pinned:: true`. Returns whether
/// the page was pinned before.
pub fn toggle_pinned(props: &mut Vec<(String, String)>) -> (was_pinned: bool)
    ensures
        was_pinned == is_pinned(pairs_view(old(props)@)),
        pairs_view(final(props)@) == if was_pinned {
            without_key(pairs_view(old(props)@), "pinned"@, false)
        } else {
            without_key(pairs_view(old(props)@), "pinned"@, false).push(("pinned"@, "true"@))
        },
{
    let ghost pv = pairs_view(props@);
    let n = props.len();
    let mut was = false;
    let mut i: usize = 0;
    while i < n
        invariant
            n == props@.len(),
            pv == pairs_view(props@),
            i <= n,
            was == exists|j: int| 0 <= j < i && #[trigger] pv[j].0 == "pinned"@ && truthy(pv[j].1),
        decreases n - i,
    {
        proof {
            assert(pv[i as int] == (props@[i as int].0@, props@[i as int].1@));
        }
        let kc = chars_of(props[i].0.as_str());
        let hit = eq_lit(kc.as_slice(), "pinned") && truthy_exec(props[i].1.as_str());
        proof {
            assert(hit == (pv[i as int].0 == "pinned"@ && truthy(pv[i as int].1)));
        }
        if hit {
            was = true;
        }
        i = i + 1;
    }
    let key = chars_of("pinned");
    remove_key(props, &key, false);
    if !was {
        let ghost before = pairs_view(props@);
        props.push((string_from_str("pinned"), string_from_str("true")));
        proof {
            assert(pairs_view(props@) =~= before.push(("pinned"@, "true"@)));
        }
    }
    was
}

// ── laws ─────────────────────────────────────────────────────────────

proof fn lemma_without_key_has_none(ps: Pairs, key: Seq<char>, ic: bool)
    ensures
        forall|j: int|
            0 <= j < without_key(ps, key, ic).len() ==> !key_matches(
                #[trigger] without_key(ps, key, ic)[j].0,
                key,
                ic,
            ),
    decreases ps.len(),
{
    if ps.len() > 0 {
        lemma_without_key_has_none(ps.drop_last(), key, ic);
        let rest = without_key(ps.drop_last(), key, ic);
        let w = without_key(ps, key, ic);
        assert forall|j: int| 0 <= j < w.len() implies !key_matches(#[trigger] w[j].0, key, ic) by {
            if j < rest.len() {
                assert(w[j] == rest[j]);
            }
        }
    }
}

/// Reading a key back after setting it gives the value set; after
/// setting it empty, the key is gone.
pub proof fn lemma_set_then_get(ps: Pairs, key: Seq<char>, value: Seq<char>, ignore_case: bool)
    ensures
        get_spec(set_spec(ps, key, value, ignore_case), key, ignore_case) == if value.len() == 0 {
            None
        } else {
            Some(value)
        },
{
    let out = set_spec(ps, key, value, ignore_case);
    if value.len() == 0 {
        lemma_without_key_has_none(ps, key, ignore_case);
        lemma_first_key(out, key, ignore_case, out.len() as int);
    } else {
        let i = first_key(ps, key, ignore_case);
        lemma_first_key_facts(ps, key, ignore_case);
        if i >= 0 {
            assert forall|j: int| 0 <= j < i implies !key_matches(#[trigger] out[j].0, key, ignore_case) by {
                assert(out[j] == ps[j]);
            }
            lemma_first_key(out, key, ignore_case, i);
        } else {
            assert forall|j: int| 0 <= j < ps.len() implies !key_matches(
                #[trigger] out[j].0,
                key,
                ignore_case,
            ) by {
                assert(out[j] == ps[j]);
            }
            if ignore_case {
                assert(eq_ignore_ascii_case(key, key));
            }
            lemma_first_key(out, key, ignore_case, ps.len() as int);
        }
    }
}

proof fn lemma_first_key_facts(ps: Pairs, key: Seq<char>, ic: bool)
    ensures
        -1 <= first_key(ps, key, ic) < ps.len(),
        first_key(ps, key, ic) >= 0 ==> key_matches(ps[first_key(ps, key, ic)].0, key, ic),
        forall|j: int|
            0 <= j < ps.len() && (first_key(ps, key, ic) < 0 || j < first_key(ps, key, ic))
                ==> !key_matches(#[trigger] ps[j].0, key, ic),
    decreases ps.len(),
{
    if ps.len() > 0 {
        lemma_first_key_facts(ps.drop_first(), key, ic);
        assert forall|j: int|
            0 <= j < ps.len() && (first_key(ps, key, ic) < 0 || j < first_key(ps, key, ic))
                implies !key_matches(#[trigger] ps[j].0, key, ic) by {
            if j > 0 {
                assert(ps[j] == ps.drop_first()[j - 1]);
            }
        }
    }
}

/// Toggling the pin flips whether the page is pinned.
pub proof fn lemma_toggle_pinned_flips(ps: Pairs)
    ensures
        is_pinned(ps) ==> !is_pinned(without_key(ps, "pinned"@, false)),
        !is_pinned(ps) ==> is_pinned(without_key(ps, "pinned"@, false).push(("pinned"@, "true"@))),
{
    let w = without_key(ps, "pinned"@, false);
    lemma_without_key_has_none(ps, "pinned"@, false);
    if is_pinned(w) {
        let i = choose|i: int| 0 <= i < w.len() && #[trigger] w[i].0 == "pinned"@ && truthy(w[i].1);
        assert(!key_matches(w[i].0, "pinned"@, false));
    }
    let p = w.push(("pinned"@, "true"@));
    reveal_strlit("true");
    reveal_strlit(" ");
    assert(p[w.len() as int].0 == "pinned"@);
    let t = "true"@;
    assert(crate::text::ws_lead(t) == 0);
    assert(crate::text::ws_trail(t) == 0);
    assert(trim(t) =~= t);
    assert(ascii_lower_seq(t) =~= t);
    assert(truthy(p[w.len() as int].1));
}

} // verus!
