//! Stable sorting by a lexicographic key.
//!
//! Every sort in the crate (query hits, backlinks) is a *stable* sort:
//! elements with equal keys keep their incoming order. [`stable_order`]
//! computes the permutation such a sort applies, and [`apply_order`]
//! moves the elements into it.
//!
//! Keys are sequences of integers compared lexicographically
//! ([`lex_lt`]); string keys are encoded with [`asc_key`] / [`desc_key`]
//! so that the integer order is the string order (or its reverse).

use vstd::prelude::*;

verus! {

/// Strict lexicographic order on integer sequences: the first differing
/// position decides, and a proper prefix sorts first.
pub open spec fn lex_lt(a: Seq<i64>, b: Seq<i64>) -> bool
    decreases a.len(),
{
    if a.len() == 0 {
        b.len() > 0
    } else if b.len() == 0 {
        false
    } else if a[0] < b[0] {
        true
    } else if a[0] > b[0] {
        false
    } else {
        lex_lt(a.drop_first(), b.drop_first())
    }
}

/// Strict total order on positions: by key, then by position.
pub open spec fn ord_lt(keys: Seq<Seq<i64>>, x: int, y: int) -> bool {
    lex_lt(keys[x], keys[y]) || (keys[x] == keys[y] && x < y)
}

/// `perm` lists every position of `keys` exactly once, ordered by key
/// with ties in position order — the order a stable sort produces.
pub open spec fn is_stable_order(keys: Seq<Seq<i64>>, perm: Seq<usize>) -> bool {
    &&& perm.len() == keys.len()
    &&& forall|k: int| 0 <= k < perm.len() ==> #[trigger] perm[k] < keys.len()
    &&& forall|x: usize| x < keys.len() ==> #[trigger] perm.contains(x)
    &&& forall|a: int, b: int|
        0 <= a < b < perm.len() ==> ord_lt(keys, #[trigger] perm[a] as int, #[trigger] perm[b] as int)
}

/// Key whose order is the string order of `s`.
pub open spec fn asc_key(s: Seq<char>) -> Seq<i64> {
    Seq::new(s.len(), |i: int| ((s[i] as u32) as int + 1) as i64).push(0)
}

/// Key whose order is the reverse string order of `s`.
pub open spec fn desc_key(s: Seq<char>) -> Seq<i64> {
    Seq::new(s.len(), |i: int| (-((s[i] as u32) as int + 1)) as i64).push(0)
}

// ── lemmas ───────────────────────────────────────────────────────────

pub proof fn lemma_lex_irreflexive(a: Seq<i64>)
    ensures
        !lex_lt(a, a),
    decreases a.len(),
{
    if a.len() > 0 {
        lemma_lex_irreflexive(a.drop_first());
    }
}

pub proof fn lemma_lex_transitive(a: Seq<i64>, b: Seq<i64>, c: Seq<i64>)
    requires
        lex_lt(a, b),
        lex_lt(b, c),
    ensures
        lex_lt(a, c),
    decreases a.len(),
{
    if a.len() > 0 && b.len() > 0 && c.len() > 0 && a[0] == b[0] && b[0] == c[0] {
        lemma_lex_transitive(a.drop_first(), b.drop_first(), c.drop_first());
    }
}

#[verifier::spinoff_prover]
pub proof fn lemma_lex_total(a: Seq<i64>, b: Seq<i64>)
    ensures
        a == b || lex_lt(a, b) || lex_lt(b, a),
    decreases a.len(),
{
    if a.len() > 0 && b.len() > 0 && a[0] == b[0] {
        lemma_lex_total(a.drop_first(), b.drop_first());
        if a.drop_first() == b.drop_first() {
            assert(a =~= seq![a[0]] + a.drop_first());
            assert(b =~= seq![b[0]] + b.drop_first());
        }
    } else if a.len() == 0 && b.len() == 0 {
        assert(a =~= b);
    }
}

proof fn lemma_ord_transitive(keys: Seq<Seq<i64>>, x: int, y: int, z: int)
    requires
        ord_lt(keys, x, y),
        ord_lt(keys, y, z),
    ensures
        ord_lt(keys, x, z),
{
    if lex_lt(keys[x], keys[y]) && lex_lt(keys[y], keys[z]) {
        lemma_lex_transitive(keys[x], keys[y], keys[z]);
    }
}

proof fn lemma_ord_irreflexive(keys: Seq<Seq<i64>>, x: int)
    ensures
        !ord_lt(keys, x, x),
{
    lemma_lex_irreflexive(keys[x]);
}

/// Positions in a stable order are distinct.
pub proof fn lemma_stable_order_injective(keys: Seq<Seq<i64>>, perm: Seq<usize>, a: int, b: int)
    requires
        is_stable_order(keys, perm),
        0 <= a < perm.len(),
        0 <= b < perm.len(),
        a != b,
    ensures
        perm[a] != perm[b],
{
    if a < b {
        lemma_ord_irreflexive(keys, perm[a] as int);
    } else {
        lemma_ord_irreflexive(keys, perm[b] as int);
    }
}

/// Two stable orders of the same keys agree on every position up to `k`.
proof fn lemma_stable_orders_agree(keys: Seq<Seq<i64>>, p: Seq<usize>, q: Seq<usize>, k: int)
    requires
        is_stable_order(keys, p),
        is_stable_order(keys, q),
        0 <= k < p.len(),
    ensures
        forall|j: int| 0 <= j <= k ==> p[j] == q[j],
    decreases k,
{
    if k > 0 {
        lemma_stable_orders_agree(keys, p, q, k - 1);
    }
    if p[k] != q[k] {
        let x = p[k];
        let y = q[k];
        assert(q.contains(x));
        assert(p.contains(y));
        let m = choose|m: int| 0 <= m < q.len() && q[m] == x;
        let m2 = choose|m: int| 0 <= m < p.len() && p[m] == y;
        if m < k {
            assert(q[m] == p[m]);
            lemma_stable_order_injective(keys, p, m, k);
        }
        if m2 < k {
            assert(p[m2] == q[m2]);
            lemma_stable_order_injective(keys, q, m2, k);
        }
        assert(m > k && m2 > k);
        assert(ord_lt(keys, y as int, x as int));
        assert(ord_lt(keys, x as int, y as int));
        lemma_ord_transitive(keys, x as int, y as int, x as int);
        lemma_ord_irreflexive(keys, x as int);
    }
}

/// A stable sort has exactly one outcome: two sequences that are both
/// `inp` stably sorted by the same keys are the same sequence.
pub proof fn lemma_sorted_by_unique<T>(a: Seq<T>, b: Seq<T>, inp: Seq<T>, keys: Seq<Seq<i64>>)
    requires
        sorted_by(a, inp, keys),
        sorted_by(b, inp, keys),
    ensures
        a == b,
{
    let p = choose|perm: Seq<usize>|
        is_stable_order(keys, perm) && a.len() == inp.len() && forall|k: int|
            0 <= k < a.len() ==> #[trigger] a[k] == inp[perm[k] as int];
    let q = choose|perm: Seq<usize>|
        is_stable_order(keys, perm) && b.len() == inp.len() && forall|k: int|
            0 <= k < b.len() ==> #[trigger] b[k] == inp[perm[k] as int];
    if a.len() > 0 {
        lemma_stable_orders_agree(keys, p, q, a.len() - 1);
    }
    assert forall|k: int| 0 <= k < a.len() implies a[k] == b[k] by {
        assert(p[k] == q[k]);
    }
    assert(a =~= b);
}

/// Lexicographic order of strings by char code — the order of `str`'s
/// `Ord`, since UTF-8 keeps code point order byte by byte.
pub open spec fn char_lex_lt(a: Seq<char>, b: Seq<char>) -> bool
    decreases a.len(),
{
    if a.len() == 0 {
        b.len() > 0
    } else if b.len() == 0 {
        false
    } else if (a[0] as u32) < (b[0] as u32) {
        true
    } else if (a[0] as u32) > (b[0] as u32) {
        false
    } else {
        char_lex_lt(a.drop_first(), b.drop_first())
    }
}

/// The ascending key orders strings exactly as `str` does.
pub proof fn lemma_asc_key_order(a: Seq<char>, b: Seq<char>)
    ensures
        lex_lt(asc_key(a), asc_key(b)) == char_lex_lt(a, b),
    decreases a.len(),
{
    let (ka, kb) = (asc_key(a), asc_key(b));
    if a.len() > 0 && b.len() > 0 {
        let x = (a[0] as u32) as int;
        let y = (b[0] as u32) as int;
        assert((x + 1) as i64 == x + 1);
        assert((y + 1) as i64 == y + 1);
        assert(ka[0] == (x + 1) as i64);
        assert(kb[0] == (y + 1) as i64);
        assert(ka.drop_first() =~= asc_key(a.drop_first()));
        assert(kb.drop_first() =~= asc_key(b.drop_first()));
        lemma_asc_key_order(a.drop_first(), b.drop_first());
    } else if a.len() == 0 && b.len() > 0 {
        let y = (b[0] as u32) as int;
        assert((y + 1) as i64 == y + 1);
        assert(ka[0] == 0);
        assert(kb[0] == (y + 1) as i64);
    } else if a.len() > 0 && b.len() == 0 {
        let x = (a[0] as u32) as int;
        assert((x + 1) as i64 == x + 1);
        assert(kb[0] == 0);
        assert(ka[0] == (x + 1) as i64);
    } else {
        assert(ka =~= kb);
        lemma_lex_irreflexive(ka);
    }
}

// ── executable ───────────────────────────────────────────────────────

/// The keys as abstract sequences.
pub open spec fn key_view(keys: Seq<Vec<i64>>) -> Seq<Seq<i64>> {
    keys.map_values(|k: Vec<i64>| k@)
}

/// `lex_lt`, computed.
pub fn lex_lt_exec(a: &Vec<i64>, b: &Vec<i64>) -> (r: bool)
    ensures
        r == lex_lt(a@, b@),
{
    let n = a.len();
    let m = b.len();
    let mut i: usize = 0;
    proof {
        assert(a@.skip(0) =~= a@);
        assert(b@.skip(0) =~= b@);
    }
    while i < n && i < m && a[i] == b[i]
        invariant
            i <= n,
            i <= m,
            n == a@.len(),
            m == b@.len(),
            lex_lt(a@, b@) == lex_lt(a@.skip(i as int), b@.skip(i as int)),
        decreases n - i,
    {
        proof {
            assert(a@.skip(i as int).drop_first() =~= a@.skip(i + 1));
            assert(b@.skip(i as int).drop_first() =~= b@.skip(i + 1));
        }
        i = i + 1;
    }
    proof {
        if i < n && i < m {
            assert(a@.skip(i as int)[0] == a@[i as int]);
            assert(b@.skip(i as int)[0] == b@[i as int]);
        }
    }
    if i == n {
        i < m
    } else if i == m {
        false
    } else {
        a[i] < b[i]
    }
}

/// The permutation a stable sort by `keys` applies.
pub fn stable_order(keys: &Vec<Vec<i64>>) -> (perm: Vec<usize>)
    ensures
        is_stable_order(key_view(keys@), perm@),
{
    let ghost kv = key_view(keys@);
    let n = keys.len();
    let mut perm: Vec<usize> = Vec::new();
    let mut i: usize = 0;
    while i < n
        invariant
            n == keys@.len(),
            kv == key_view(keys@),
            i <= n,
            perm@.len() == i,
            forall|k: int| 0 <= k < perm@.len() ==> #[trigger] perm@[k] < i,
            forall|x: usize| x < i ==> #[trigger] perm@.contains(x),
            forall|a: int, b: int|
                0 <= a < b < perm@.len() ==> ord_lt(
                    kv,
                    #[trigger] perm@[a] as int,
                    #[trigger] perm@[b] as int,
                ),
        decreases n - i,
    {
        // first slot whose key is strictly above keys[i]
        let mut j: usize = 0;
        while j < perm.len() && !lex_lt_exec(&keys[i], &keys[perm[j]])
            invariant
                n == keys@.len(),
                kv == key_view(keys@),
                i < n,
                j <= perm@.len(),
                perm@.len() == i,
                forall|k: int| 0 <= k < perm@.len() ==> #[trigger] perm@[k] < i,
                forall|a: int| 0 <= a < j ==> !lex_lt(kv[i as int], kv[#[trigger] perm@[a] as int]),
            decreases perm@.len() - j,
        {
            proof {
                assert(kv[i as int] == keys@[i as int]@);
                assert(kv[perm@[j as int] as int] == keys@[perm@[j as int] as int]@);
            }
            j = j + 1;
        }
        proof {
            if j < perm@.len() {
                assert(kv[i as int] == keys@[i as int]@);
                assert(kv[perm@[j as int] as int] == keys@[perm@[j as int] as int]@);
            }
        }
        let ghost old_perm = perm@;
        perm.insert(j, i);
        proof {
            // everything before j orders below i, everything after above it
            assert forall|a: int| 0 <= a < j implies ord_lt(kv, old_perm[a] as int, i as int) by {
                lemma_lex_total(kv[i as int], kv[old_perm[a] as int]);
            }
            assert forall|a: int| j <= a < old_perm.len() implies ord_lt(
                kv,
                i as int,
                old_perm[a] as int,
            ) by {
                // keys at and after j are strictly above keys[i]: j's key is,
                // and the order only grows from there.
                assert(lex_lt(kv[i as int], kv[old_perm[j as int] as int]));
                if a > j {
                    assert(ord_lt(kv, old_perm[j as int] as int, old_perm[a] as int));
                    if lex_lt(kv[old_perm[j as int] as int], kv[old_perm[a] as int]) {
                        lemma_lex_transitive(
                            kv[i as int],
                            kv[old_perm[j as int] as int],
                            kv[old_perm[a] as int],
                        );
                    }
                }
            }
            assert forall|a: int, b: int| 0 <= a < b < perm@.len() implies ord_lt(
                kv,
                #[trigger] perm@[a] as int,
                #[trigger] perm@[b] as int,
            ) by {
                if a < j && b < j {
                    assert(perm@[a] == old_perm[a] && perm@[b] == old_perm[b]);
                } else if a < j && b == j {
                } else if a < j && b > j {
                    assert(perm@[b] == old_perm[b - 1]);
                    lemma_ord_transitive(kv, old_perm[a] as int, i as int, old_perm[b - 1] as int);
                } else if a == j {
                    assert(perm@[b] == old_perm[b - 1]);
                } else {
                    assert(perm@[a] == old_perm[a - 1] && perm@[b] == old_perm[b - 1]);
                }
            }
            assert forall|x: usize| x < i + 1 implies #[trigger] perm@.contains(x) by {
                if x == i {
                    assert(perm@[j as int] == i);
                } else {
                    assert(old_perm.contains(x));
                    let k = choose|k: int| 0 <= k < old_perm.len() && old_perm[k] == x;
                    if k < j {
                        assert(perm@[k] == x);
                    } else {
                        assert(perm@[k + 1] == x);
                    }
                }
            }
            assert forall|k: int| 0 <= k < perm@.len() implies #[trigger] perm@[k] < i + 1 by {
                if k < j {
                    assert(perm@[k] == old_perm[k]);
                } else if k > j {
                    assert(perm@[k] == old_perm[k - 1]);
                }
            }
        }
        i = i + 1;
    }
    perm
}

/// The elements of `v` rearranged so that position `k` holds `v[perm[k]]`.
pub fn apply_order<T>(v: Vec<T>, perm: &Vec<usize>) -> (r: Vec<T>)
    requires
        perm@.len() == v@.len(),
        forall|k: int| 0 <= k < perm@.len() ==> #[trigger] perm@[k] < v@.len(),
        forall|a: int, b: int| 0 <= a < b < perm@.len() ==> perm@[a] != perm@[b],
    ensures
        r@.len() == v@.len(),
        forall|k: int| 0 <= k < r@.len() ==> #[trigger] r@[k] == v@[perm@[k] as int],
{
    let ghost orig = v@;
    let n = v.len();
    // slots[j] holds orig[n - 1 - j]
    let mut v = v;
    let mut slots: Vec<Option<T>> = Vec::new();
    while v.len() > 0
        invariant
            n == orig.len(),
            v@ == orig.take(v@.len() as int),
            slots@.len() + v@.len() == n,
            forall|j: int| 0 <= j < slots@.len() ==> #[trigger] slots@[j] == Some(orig[n - 1 - j]),
        decreases v@.len(),
    {
        let x = v.pop().unwrap();
        proof {
            assert(orig.take(v@.len() as int) =~= orig.take(v@.len() + 1 as int).drop_last());
        }
        slots.push(Some(x));
    }
    let mut out: Vec<T> = Vec::new();
    let mut k: usize = 0;
    while k < n
        invariant
            n == orig.len(),
            n == perm@.len(),
            slots@.len() == n,
            k <= n,
            out@.len() == k,
            forall|a: int| 0 <= a < perm@.len() ==> #[trigger] perm@[a] < n,
            forall|a: int, b: int| 0 <= a < b < perm@.len() ==> perm@[a] != perm@[b],
            forall|a: int| 0 <= a < k ==> #[trigger] out@[a] == orig[perm@[a] as int],
            forall|a: int|
                k <= a < n ==> #[trigger] slots@[n - 1 - perm@[a]] == Some(orig[perm@[a] as int]),
        decreases n - k,
    {
        let p = perm[k];
        let mut tmp: Option<T> = None;
        slots.set_and_swap(n - 1 - p, &mut tmp);
        proof {
            assert forall|a: int| k + 1 <= a < n implies #[trigger] slots@[n - 1 - perm@[a]]
                == Some(orig[perm@[a] as int]) by {
                assert(perm@[a] != perm@[k as int]);
            }
        }
        out.push(tmp.unwrap());
        k = k + 1;
    }
    out
}

/// `out` is `inp` stably sorted by `keys` (one key per element of `inp`).
pub open spec fn sorted_by<T>(out: Seq<T>, inp: Seq<T>, keys: Seq<Seq<i64>>) -> bool {
    keys.len() == inp.len() && exists|perm: Seq<usize>|
        is_stable_order(keys, perm) && out.len() == inp.len() && forall|k: int|
            0 <= k < out.len() ==> #[trigger] out[k] == inp[perm[k] as int]
}

/// Stable sort of `v` by `keys`.
pub fn stable_sort<T>(v: Vec<T>, keys: &Vec<Vec<i64>>) -> (r: Vec<T>)
    requires
        keys@.len() == v@.len(),
    ensures
        sorted_by(r@, v@, key_view(keys@)),
{
    let perm = stable_order(keys);
    proof {
        assert forall|a: int, b: int| 0 <= a < b < perm@.len() implies perm@[a] != perm@[b] by {
            lemma_stable_order_injective(key_view(keys@), perm@, a, b);
        }
    }
    let r = apply_order(v, &perm);
    proof {
        assert(is_stable_order(key_view(keys@), perm@) && r@.len() == v@.len() && forall|k: int|
            0 <= k < r@.len() ==> #[trigger] r@[k] == v@[perm@[k] as int]);
    }
    r
}

/// `asc_key`, computed.
pub fn asc_key_exec(s: &[char]) -> (r: Vec<i64>)
    ensures
        r@ == asc_key(s@),
{
    let mut r: Vec<i64> = Vec::new();
    let n = s.len();
    let mut i: usize = 0;
    while i < n
        invariant
            i <= n,
            n == s@.len(),
            r@.len() == i,
            forall|j: int| 0 <= j < i ==> r@[j] == ((s@[j] as u32) as int + 1) as i64,
        decreases n - i,
    {
        r.push((s[i] as u32) as i64 + 1);
        i = i + 1;
    }
    r.push(0);
    proof {
        assert(r@ =~= asc_key(s@));
    }
    r
}

/// `desc_key`, computed.
pub fn desc_key_exec(s: &[char]) -> (r: Vec<i64>)
    ensures
        r@ == desc_key(s@),
{
    let mut r: Vec<i64> = Vec::new();
    let n = s.len();
    let mut i: usize = 0;
    while i < n
        invariant
            i <= n,
            n == s@.len(),
            r@.len() == i,
            forall|j: int| 0 <= j < i ==> r@[j] == (-((s@[j] as u32) as int + 1)) as i64,
        decreases n - i,
    {
        r.push(-((s[i] as u32) as i64 + 1));
        i = i + 1;
    }
    r.push(0);
    proof {
        assert(r@ =~= desc_key(s@));
    }
    r
}

} // verus!
