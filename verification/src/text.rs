//! Character-level text primitives shared by every parser in the crate.
//!
//! Everything here works on sequences of `char`s (Unicode scalar values),
//! which is what the user-visible notions of "line", "column", "trim" and
//! "prefix" are defined over. Each executable function is tied to a spec
//! function that states its result directly over `Seq<char>`.

use vstd::prelude::*;

verus! {

// ── specification ────────────────────────────────────────────────────

/// The Unicode `White_Space` property: exactly the chars for which
/// `char::is_whitespace` holds.
pub open spec fn is_ws(c: char) -> bool {
    ||| ('\u{9}' <= c && c <= '\u{d}')
    ||| c == ' '
    ||| c == '\u{85}'
    ||| c == '\u{a0}'
    ||| c == '\u{1680}'
    ||| ('\u{2000}' <= c && c <= '\u{200a}')
    ||| c == '\u{2028}'
    ||| c == '\u{2029}'
    ||| c == '\u{202f}'
    ||| c == '\u{205f}'
    ||| c == '\u{3000}'
}

/// Number of whitespace chars at the front of `s`.
pub open spec fn ws_lead(s: Seq<char>) -> nat
    decreases s.len(),
{
    if s.len() > 0 && is_ws(s[0]) {
        1 + ws_lead(s.drop_first())
    } else {
        0
    }
}

/// Number of whitespace chars at the back of `s`.
pub open spec fn ws_trail(s: Seq<char>) -> nat
    decreases s.len(),
{
    if s.len() > 0 && is_ws(s.last()) {
        1 + ws_trail(s.drop_last())
    } else {
        0
    }
}

/// `str::trim_start`.
pub open spec fn trim_start(s: Seq<char>) -> Seq<char> {
    s.skip(ws_lead(s) as int)
}

/// `str::trim_end`.
pub open spec fn trim_end(s: Seq<char>) -> Seq<char> {
    s.take(s.len() - ws_trail(s))
}

/// `str::trim`.
pub open spec fn trim(s: Seq<char>) -> Seq<char> {
    trim_end(trim_start(s))
}

/// Index of the first occurrence of `c` in `s`, or `-1`.
pub open spec fn find_char(s: Seq<char>, c: char) -> int
    decreases s.len(),
{
    if s.len() == 0 {
        -1
    } else if s[0] == c {
        0
    } else {
        let r = find_char(s.drop_first(), c);
        if r < 0 {
            -1
        } else {
            r + 1
        }
    }
}

/// `str::split_once` on a single char.
pub open spec fn split_once(s: Seq<char>, c: char) -> Option<(Seq<char>, Seq<char>)> {
    let k = find_char(s, c);
    if k < 0 {
        None
    } else {
        Some((s.take(k), s.skip(k + 1)))
    }
}

/// `str::split` on a single char: every piece, empty ones included.
pub open spec fn split_char(s: Seq<char>, c: char) -> Seq<Seq<char>>
    decreases s.len(),
{
    let k = find_char(s, c);
    if k < 0 {
        seq![s]
    } else {
        proof {
            lemma_find_char_facts(s, c);
        }
        seq![s.take(k)] + split_char(s.skip(k + 1), c)
    }
}

/// The line `str::lines` yields for a segment that ended in `\n`: a
/// single trailing `\r` is part of the line ending.
pub open spec fn strip_cr(line: Seq<char>) -> Seq<char> {
    if line.len() > 0 && line.last() == '\r' {
        line.drop_last()
    } else {
        line
    }
}

/// `str::lines`: split at `\n` (and `\r\n`); a final line ending adds no
/// empty line, and the empty string has no lines.
pub open spec fn lines(s: Seq<char>) -> Seq<Seq<char>>
    decreases s.len(),
{
    if s.len() == 0 {
        seq![]
    } else {
        let k = find_char(s, '\n');
        if k < 0 {
            seq![s]
        } else {
            proof {
                lemma_find_char_facts(s, '\n');
            }
            seq![strip_cr(s.take(k))] + lines(s.skip(k + 1))
        }
    }
}

/// `s` contains `needle` as a contiguous run.
pub open spec fn contains_seq(s: Seq<char>, needle: Seq<char>) -> bool {
    exists|i: int|
        0 <= i && i + needle.len() <= s.len() && #[trigger] s.subrange(i, i + needle.len())
            == needle
}

pub open spec fn is_ascii_digit(c: char) -> bool {
    '0' <= c && c <= '9'
}

pub open spec fn all_digits(s: Seq<char>) -> bool {
    forall|i: int| 0 <= i < s.len() ==> is_ascii_digit(#[trigger] s[i])
}

/// Decimal value of a run of ASCII digits.
pub open spec fn digits_value(s: Seq<char>) -> nat
    decreases s.len(),
{
    if s.len() == 0 {
        0
    } else {
        digits_value(s.drop_last()) * 10 + ((s.last() as nat) - ('0' as nat)) as nat
    }
}

/// What `str::parse` yields for an unsigned integer type whose largest
/// value is `max`: an optional `+`, then one or more ASCII digits, with
/// a value no larger than `max`.
pub open spec fn parse_unsigned(s: Seq<char>, max: nat) -> Option<nat> {
    let d = if s.len() > 0 && s[0] == '+' {
        s.skip(1)
    } else {
        s
    };
    if d.len() > 0 && all_digits(d) && digits_value(d) <= max {
        Some(digits_value(d))
    } else {
        None
    }
}

/// `char::to_ascii_lowercase`.
pub open spec fn ascii_lower(c: char) -> char {
    if 'A' <= c && c <= 'Z' {
        ((c as u32) + 32) as char
    } else {
        c
    }
}

/// `str::to_ascii_lowercase`.
pub open spec fn ascii_lower_seq(s: Seq<char>) -> Seq<char> {
    Seq::new(s.len(), |i: int| ascii_lower(s[i]))
}

/// `str::eq_ignore_ascii_case`.
pub open spec fn eq_ignore_ascii_case(a: Seq<char>, b: Seq<char>) -> bool {
    ascii_lower_seq(a) == ascii_lower_seq(b)
}

/// What `str::to_lowercase` returns: the full Unicode lowercase mapping,
/// which may change the length of the text.
pub uninterp spec fn unicode_lower(s: Seq<char>) -> Seq<char>;

/// Decimal digits of `n`, as `Display` prints an unsigned integer.
pub open spec fn decimal(n: nat) -> Seq<char>
    decreases n,
{
    if n < 10 {
        seq![digit_char(n)]
    } else {
        decimal(n / 10).push(digit_char(n % 10))
    }
}

/// The ASCII digit for `d < 10`.
pub open spec fn digit_char(d: nat) -> char {
    (('0' as nat) + d) as char
}

// ── lemmas ───────────────────────────────────────────────────────────

/// Characterises `ws_lead` by the index of the first non-whitespace char.
pub proof fn lemma_ws_lead(s: Seq<char>, k: int)
    requires
        0 <= k <= s.len(),
        forall|j: int| 0 <= j < k ==> is_ws(#[trigger] s[j]),
        k == s.len() || !is_ws(s[k]),
    ensures
        ws_lead(s) == k,
    decreases s.len(),
{
    if s.len() > 0 && is_ws(s[0]) {
        assert(k > 0);
        let t = s.drop_first();
        assert forall|j: int| 0 <= j < k - 1 implies is_ws(#[trigger] t[j]) by {
            assert(t[j] == s[j + 1]);
        }
        if k < s.len() {
            assert(t[k - 1] == s[k]);
        }
        lemma_ws_lead(t, k - 1);
    }
}

/// Characterises `ws_trail` by the number of trailing whitespace chars.
pub proof fn lemma_ws_trail(s: Seq<char>, k: int)
    requires
        0 <= k <= s.len(),
        forall|j: int| s.len() - k <= j < s.len() ==> is_ws(#[trigger] s[j]),
        k == s.len() || !is_ws(s[s.len() - k - 1]),
    ensures
        ws_trail(s) == k,
    decreases s.len(),
{
    if s.len() > 0 && is_ws(s.last()) {
        assert(k > 0) by {
            if k == 0 {
                assert(s[s.len() - 1] == s.last());
            }
        }
        let t = s.drop_last();
        assert forall|j: int| t.len() - (k - 1) <= j < t.len() implies is_ws(#[trigger] t[j]) by {
            assert(t[j] == s[j]);
        }
        if k < s.len() {
            assert(t[t.len() - (k - 1) - 1] == s[s.len() - k - 1]);
        }
        lemma_ws_trail(t, k - 1);
    } else {
        if k > 0 {
            assert(is_ws(s[s.len() - 1]));
        }
    }
}

/// Characterises `find_char` by the first index holding `c`.
pub proof fn lemma_find_char(s: Seq<char>, c: char, k: int)
    requires
        0 <= k <= s.len(),
        forall|j: int| 0 <= j < k ==> #[trigger] s[j] != c,
        k == s.len() || s[k] == c,
    ensures
        find_char(s, c) == (if k < s.len() {
            k
        } else {
            -1
        }),
    decreases s.len(),
{
    if s.len() > 0 && s[0] != c {
        let t = s.drop_first();
        assert forall|j: int| 0 <= j < k - 1 implies #[trigger] t[j] != c by {
            assert(t[j] == s[j + 1]);
        }
        if k < s.len() {
            assert(t[k - 1] == s[k]);
        }
        lemma_find_char(t, c, k - 1);
    }
}

/// The first-occurrence facts `find_char` guarantees.
pub proof fn lemma_find_char_facts(s: Seq<char>, c: char)
    ensures
        -1 <= find_char(s, c) < s.len(),
        find_char(s, c) >= 0 ==> s[find_char(s, c)] == c,
        forall|j: int|
            0 <= j < s.len() && (find_char(s, c) < 0 || j < find_char(s, c)) ==> s[j] != c,
    decreases s.len(),
{
    if s.len() > 0 && s[0] != c {
        let t = s.drop_first();
        lemma_find_char_facts(t, c);
        assert forall|j: int|
            0 <= j < s.len() && (find_char(s, c) < 0 || j < find_char(s, c)) implies s[j] != c by {
            if j > 0 {
                assert(s[j] == t[j - 1]);
            }
        }
    }
}

proof fn lemma_digits_value_push(s: Seq<char>, c: char)
    ensures
        digits_value(s.push(c)) == digits_value(s) * 10 + ((c as nat) - ('0' as nat)) as nat,
{
    assert(s.push(c).drop_last() =~= s);
}

/// A longer run of digits is worth at least as much as its prefix.
proof fn lemma_digits_monotone(d: Seq<char>, k: int)
    requires
        0 <= k <= d.len(),
        all_digits(d),
    ensures
        digits_value(d.take(k)) <= digits_value(d),
    decreases d.len() - k,
{
    if k < d.len() {
        lemma_digits_monotone(d, k + 1);
        assert(d.take(k + 1).drop_last() =~= d.take(k));
        assert(is_ascii_digit(d[k]));
    } else {
        assert(d.take(k) =~= d);
    }
}

// ── executable ───────────────────────────────────────────────────────

/// The chars of `s`, in order.
pub fn chars_of(s: &str) -> (v: Vec<char>)
    ensures
        v@ == s@,
{
    let mut v: Vec<char> = Vec::new();
    for c in it: s.chars()
        invariant
            v@ == it.seq().take(it.index() as int),
    {
        v.push(c);
    }
    v
}

/// `String::push`.
#[verifier::external_body]
pub(crate) fn push_char(s: &mut String, c: char)
    ensures
        final(s)@ == old(s)@.push(c),
{
    s.push(c);
}

/// An owned copy of `s`.
pub fn string_from_str(s: &str) -> (r: String)
    ensures
        r@ == s@,
{
    s.to_owned()
}

/// `str::to_lowercase`, the full Unicode lowercase mapping.
#[verifier::external_body]
pub(crate) fn to_lowercase(s: &str) -> (r: String)
    ensures
        r@ == unicode_lower(s@),
{
    s.to_lowercase()
}

/// Append the chars of `cs` to `s`.
pub fn push_chars(s: &mut String, cs: &[char])
    ensures
        final(s)@ == old(s)@ + cs@,
{
    let ghost start = s@;
    let n = cs.len();
    let mut i: usize = 0;
    while i < n
        invariant
            n == cs@.len(),
            i <= n,
            s@ == start + cs@.take(i as int),
        decreases n - i,
    {
        push_char(s, cs[i]);
        proof {
            assert(cs@.take(i as int + 1) =~= cs@.take(i as int).push(cs@[i as int]));
        }
        i = i + 1;
    }
    proof {
        assert(cs@.take(n as int) =~= cs@);
    }
}

/// A `String` holding exactly the chars of `cs`.
pub fn string_of(cs: &[char]) -> (r: String)
    ensures
        r@ == cs@,
{
    let mut r = String::new();
    push_chars(&mut r, cs);
    r
}

/// The literal `lit` followed by `mid` and then the literal `tail`.
pub fn concat3(lit: &str, mid: &[char], tail: &str) -> (r: String)
    ensures
        r@ == lit@ + mid@ + tail@,
{
    let mut r = string_from_str(lit);
    push_chars(&mut r, mid);
    let tv = chars_of(tail);
    push_chars(&mut r, tv.as_slice());
    r
}

/// `char::is_whitespace`.
pub fn is_whitespace(c: char) -> (b: bool)
    ensures
        b == is_ws(c),
{
    ('\u{9}' <= c && c <= '\u{d}') || c == ' ' || c == '\u{85}' || c == '\u{a0}' || c
        == '\u{1680}' || ('\u{2000}' <= c && c <= '\u{200a}') || c == '\u{2028}' || c
        == '\u{2029}' || c == '\u{202f}' || c == '\u{205f}' || c == '\u{3000}'
}

/// `s[from..to]` as an owned vector.
pub fn slice_range(s: &[char], from: usize, to: usize) -> (r: Vec<char>)
    requires
        from <= to <= s@.len(),
    ensures
        r@ == s@.subrange(from as int, to as int),
{
    let mut r: Vec<char> = Vec::new();
    let mut i = from;
    while i < to
        invariant
            from <= i <= to,
            to <= s@.len(),
            r@ == s@.subrange(from as int, i as int),
        decreases to - i,
    {
        r.push(s[i]);
        proof {
            assert(s@.subrange(from as int, i + 1) =~= s@.subrange(from as int, i as int).push(
                s@[i as int],
            ));
        }
        i = i + 1;
    }
    r
}

/// `str::trim_start`.
pub fn trim_start_chars(s: &[char]) -> (r: Vec<char>)
    ensures
        r@ == trim_start(s@),
{
    let n = s.len();
    let mut i: usize = 0;
    while i < n && is_whitespace(s[i])
        invariant
            i <= n,
            n == s@.len(),
            forall|j: int| 0 <= j < i ==> is_ws(#[trigger] s@[j]),
        decreases n - i,
    {
        i = i + 1;
    }
    proof {
        lemma_ws_lead(s@, i as int);
    }
    slice_range(s, i, n)
}

/// `str::trim_end`.
pub fn trim_end_chars(s: &[char]) -> (r: Vec<char>)
    ensures
        r@ == trim_end(s@),
{
    let n = s.len();
    let mut k: usize = 0;
    while k < n && is_whitespace(s[n - 1 - k])
        invariant
            k <= n,
            n == s@.len(),
            forall|j: int| n - k <= j < n ==> is_ws(#[trigger] s@[j]),
        decreases n - k,
    {
        k = k + 1;
    }
    proof {
        lemma_ws_trail(s@, k as int);
    }
    slice_range(s, 0, n - k)
}

/// `str::trim`.
pub fn trim_chars(s: &[char]) -> (r: Vec<char>)
    ensures
        r@ == trim(s@),
{
    let a = trim_start_chars(s);
    trim_end_chars(a.as_slice())
}

/// Whether the two char runs are equal.
pub fn eq_chars(a: &[char], b: &[char]) -> (r: bool)
    ensures
        r == (a@ == b@),
{
    if a.len() != b.len() {
        return false;
    }
    let n = a.len();
    let mut i: usize = 0;
    while i < n
        invariant
            i <= n,
            n == a@.len(),
            n == b@.len(),
            forall|j: int| 0 <= j < i ==> a@[j] == b@[j],
        decreases n - i,
    {
        if a[i] != b[i] {
            return false;
        }
        i = i + 1;
    }
    proof {
        assert(a@ =~= b@);
    }
    true
}

/// Whether `a` spells exactly the literal `lit`.
pub fn eq_lit(a: &[char], lit: &str) -> (r: bool)
    ensures
        r == (a@ == lit@),
{
    let l = chars_of(lit);
    eq_chars(a, l.as_slice())
}

/// Whether `p` is a prefix of `s`.
pub fn starts_with_chars(s: &[char], p: &[char]) -> (r: bool)
    ensures
        r == p@.is_prefix_of(s@),
{
    if p.len() > s.len() {
        return false;
    }
    let n = p.len();
    let mut i: usize = 0;
    while i < n
        invariant
            i <= n,
            n == p@.len(),
            n <= s@.len(),
            forall|j: int| 0 <= j < i ==> p@[j] == s@[j],
        decreases n - i,
    {
        if p[i] != s[i] {
            return false;
        }
        i = i + 1;
    }
    true
}

/// Whether the literal `lit` is a prefix of `s`.
pub fn starts_with_lit(s: &[char], lit: &str) -> (r: bool)
    ensures
        r == lit@.is_prefix_of(s@),
{
    let l = chars_of(lit);
    starts_with_chars(s, l.as_slice())
}

/// Index of the first `c` in `s`.
pub fn find_char_exec(s: &[char], c: char) -> (r: Option<usize>)
    ensures
        match r {
            Some(k) => find_char(s@, c) == k as int,
            None => find_char(s@, c) == -1,
        },
{
    let n = s.len();
    let mut i: usize = 0;
    while i < n
        invariant
            i <= n,
            n == s@.len(),
            forall|j: int| 0 <= j < i ==> #[trigger] s@[j] != c,
        decreases n - i,
    {
        if s[i] == c {
            proof {
                lemma_find_char(s@, c, i as int);
            }
            return Some(i);
        }
        i = i + 1;
    }
    proof {
        lemma_find_char(s@, c, n as int);
    }
    None
}

/// `str::split_once` on a single char.
pub fn split_once_char(s: &[char], c: char) -> (r: Option<(Vec<char>, Vec<char>)>)
    ensures
        match (r, split_once(s@, c)) {
            (Some((a, b)), Some((sa, sb))) => a@ == sa && b@ == sb,
            (None, None) => true,
            _ => false,
        },
{
    proof {
        lemma_find_char_facts(s@, c);
    }
    match find_char_exec(s, c) {
        Some(k) => {
            let n = s.len();
            assert(k < n);
            let a = slice_range(s, 0, k);
            let b = slice_range(s, k + 1, n);
            Some((a, b))
        },
        None => None,
    }
}

/// `str::split` on a single char.
pub fn split_char_exec(s: &[char], c: char) -> (r: Vec<Vec<char>>)
    ensures
        r@.len() == split_char(s@, c).len(),
        forall|i: int| 0 <= i < r@.len() ==> (#[trigger] r@[i])@ == split_char(s@, c)[i],
{
    let mut out: Vec<Vec<char>> = Vec::new();
    let mut rest: Vec<char> = slice_range(s, 0, s.len());
    proof {
        assert(rest@ =~= s@);
    }
    loop
        invariant
            rest@.len() <= s@.len(),
            split_char(s@, c) == out@.map_values(|v: Vec<char>| v@) + split_char(rest@, c),
        decreases rest@.len(),
    {
        proof {
            lemma_find_char_facts(rest@, c);
        }
        match find_char_exec(rest.as_slice(), c) {
            Some(k) => {
                let rl = rest.len();
                assert(k < rl);
                let head = slice_range(rest.as_slice(), 0, k);
                let tail = slice_range(rest.as_slice(), k + 1, rl);
                proof {
                    assert(split_char(rest@, c) == seq![head@] + split_char(tail@, c));
                    assert(out@.push(head).map_values(|v: Vec<char>| v@) =~= out@.map_values(
                        |v: Vec<char>| v@,
                    ).push(head@));
                    assert(out@.map_values(|v: Vec<char>| v@) + (seq![head@] + split_char(
                        tail@,
                        c,
                    )) =~= out@.map_values(|v: Vec<char>| v@).push(head@) + split_char(tail@, c));
                }
                out.push(head);
                rest = tail;
            },
            None => {
                proof {
                    assert(split_char(rest@, c) == seq![rest@]);
                    assert(out@.push(rest).map_values(|v: Vec<char>| v@) =~= out@.map_values(
                        |v: Vec<char>| v@,
                    ) + seq![rest@]);
                }
                out.push(rest);
                proof {
                    assert forall|i: int| 0 <= i < out@.len() implies (#[trigger] out@[i])@
                        == split_char(s@, c)[i] by {
                        assert(out@.map_values(|v: Vec<char>| v@)[i] == out@[i]@);
                    }
                }
                return out;
            },
        }
    }
}

/// `str::lines`.
pub fn lines_exec(s: &[char]) -> (r: Vec<Vec<char>>)
    ensures
        r@.len() == lines(s@).len(),
        forall|i: int| 0 <= i < r@.len() ==> (#[trigger] r@[i])@ == lines(s@)[i],
{
    let mut out: Vec<Vec<char>> = Vec::new();
    let mut rest: Vec<char> = slice_range(s, 0, s.len());
    proof {
        assert(rest@ =~= s@);
    }
    loop
        invariant
            rest@.len() <= s@.len(),
            lines(s@) == out@.map_values(|v: Vec<char>| v@) + lines(rest@),
        decreases rest@.len(),
    {
        if rest.len() == 0 {
            proof {
                assert(out@.map_values(|v: Vec<char>| v@) + lines(rest@) =~= out@.map_values(
                    |v: Vec<char>| v@,
                ));
                assert forall|i: int| 0 <= i < out@.len() implies (#[trigger] out@[i])@ == lines(
                    s@,
                )[i] by {
                    assert(out@.map_values(|v: Vec<char>| v@)[i] == out@[i]@);
                }
            }
            return out;
        }
        proof {
            lemma_find_char_facts(rest@, '\n');
        }
        match find_char_exec(rest.as_slice(), '\n') {
            Some(k) => {
                let mut end = k;
                if k > 0 && rest[k - 1] == '\r' {
                    end = k - 1;
                }
                let rl = rest.len();
                assert(k < rl);
                let head = slice_range(rest.as_slice(), 0, end);
                let tail = slice_range(rest.as_slice(), k + 1, rl);
                proof {
                    assert(head@ =~= strip_cr(rest@.take(k as int)));
                    assert(lines(rest@) == seq![head@] + lines(tail@));
                    assert(out@.push(head).map_values(|v: Vec<char>| v@) =~= out@.map_values(
                        |v: Vec<char>| v@,
                    ).push(head@));
                    assert(out@.map_values(|v: Vec<char>| v@) + (seq![head@] + lines(tail@))
                        =~= out@.map_values(|v: Vec<char>| v@).push(head@) + lines(tail@));
                }
                out.push(head);
                rest = tail;
            },
            None => {
                proof {
                    assert(lines(rest@) == seq![rest@]);
                    assert(out@.push(rest).map_values(|v: Vec<char>| v@) =~= out@.map_values(
                        |v: Vec<char>| v@,
                    ) + seq![rest@]);
                }
                out.push(rest);
                proof {
                    assert forall|i: int| 0 <= i < out@.len() implies (#[trigger] out@[i])@
                        == lines(s@)[i] by {
                        assert(out@.map_values(|v: Vec<char>| v@)[i] == out@[i]@);
                    }
                }
                return out;
            },
        }
    }
}

/// Whether `needle` occurs in `s`.
pub fn contains_chars(s: &[char], needle: &[char]) -> (r: bool)
    ensures
        r == contains_seq(s@, needle@),
{
    let n = s.len();
    let m = needle.len();
    if m > n {
        return false;
    }
    let limit = n - m;
    let mut i: usize = 0;
    loop
        invariant
            m <= n,
            limit == n - m,
            n == s@.len(),
            m == needle@.len(),
            i <= limit,
            forall|k: int| 0 <= k < i ==> #[trigger] s@.subrange(k, k + m) != needle@,
        decreases limit - i,
    {
        let mut j: usize = 0;
        let mut ok = true;
        while j < m
            invariant
                j <= m,
                m == needle@.len(),
                i + m <= n,
                n == s@.len(),
                ok ==> forall|t: int| 0 <= t < j ==> s@[i + t] == needle@[t],
                !ok ==> s@.subrange(i as int, i + m) != needle@,
            decreases m - j,
        {
            if ok && s[i + j] != needle[j] {
                proof {
                    assert(s@.subrange(i as int, i + m)[j as int] == s@[i + j]);
                }
                ok = false;
            }
            j = j + 1;
        }
        if ok {
            proof {
                assert(s@.subrange(i as int, i + m) =~= needle@);
            }
            return true;
        }
        if i == limit {
            return false;
        }
        i = i + 1;
    }
}

/// The char for an ASCII code point.
fn char_from_ascii(v: u32) -> (c: char)
    requires
        v < 128,
    ensures
        c == v as char,
{
    let b = v as u8;
    b as char
}

/// `char::to_ascii_lowercase`.
pub fn ascii_lower_exec(c: char) -> (r: char)
    ensures
        r == ascii_lower(c),
{
    if 'A' <= c && c <= 'Z' {
        let v = (c as u32) + 32;
        char_from_ascii(v)
    } else {
        c
    }
}

/// `str::eq_ignore_ascii_case`.
pub fn eq_ignore_ascii_case_exec(a: &[char], b: &[char]) -> (r: bool)
    ensures
        r == eq_ignore_ascii_case(a@, b@),
{
    if a.len() != b.len() {
        proof {
            assert(ascii_lower_seq(a@).len() != ascii_lower_seq(b@).len());
        }
        return false;
    }
    let n = a.len();
    let mut i: usize = 0;
    while i < n
        invariant
            i <= n,
            n == a@.len(),
            n == b@.len(),
            forall|j: int| 0 <= j < i ==> ascii_lower(a@[j]) == ascii_lower(b@[j]),
        decreases n - i,
    {
        if ascii_lower_exec(a[i]) != ascii_lower_exec(b[i]) {
            proof {
                assert(ascii_lower_seq(a@)[i as int] != ascii_lower_seq(b@)[i as int]);
            }
            return false;
        }
        i = i + 1;
    }
    proof {
        assert(ascii_lower_seq(a@) =~= ascii_lower_seq(b@));
    }
    true
}

/// `str::to_ascii_lowercase`.
pub fn ascii_lower_chars(s: &[char]) -> (r: Vec<char>)
    ensures
        r@ == ascii_lower_seq(s@),
{
    let mut r: Vec<char> = Vec::new();
    let n = s.len();
    let mut i: usize = 0;
    while i < n
        invariant
            i <= n,
            n == s@.len(),
            r@.len() == i,
            forall|j: int| 0 <= j < i ==> r@[j] == ascii_lower(s@[j]),
        decreases n - i,
    {
        r.push(ascii_lower_exec(s[i]));
        i = i + 1;
    }
    proof {
        assert(r@ =~= ascii_lower_seq(s@));
    }
    r
}

/// `str::parse` for an unsigned integer type bounded by `max`.
pub fn parse_unsigned_exec(s: &[char], max: u64) -> (r: Option<u64>)
    requires
        max >= 9,
    ensures
        match r {
            Some(v) => parse_unsigned(s@, max as nat) == Some(v as nat),
            None => parse_unsigned(s@, max as nat) is None,
        },
{
    let start: usize = if s.len() > 0 && s[0] == '+' {
        1
    } else {
        0
    };
    let ghost d = s@.skip(start as int);
    proof {
        assert(d =~= (if s@.len() > 0 && s@[0] == '+' {
            s@.skip(1)
        } else {
            s@
        }));
    }
    let n = s.len();
    if start >= n {
        proof {
            assert(d.len() == 0);
        }
        return None;
    }
    let mut acc: u64 = 0;
    let mut i = start;
    while i < n
        invariant
            start <= i <= n,
            n == s@.len(),
            d == s@.skip(start as int),
            d == (if s@.len() > 0 && s@[0] == '+' {
                s@.skip(1)
            } else {
                s@
            }),
            acc as nat == digits_value(s@.subrange(start as int, i as int)),
            all_digits(s@.subrange(start as int, i as int)),
            acc <= max,
            9 <= max,
        decreases n - i,
    {
        let c = s[i];
        let ghost pre = s@.subrange(start as int, i as int);
        proof {
            assert(s@.subrange(start as int, i + 1) =~= pre.push(c));
            lemma_digits_value_push(pre, c);
        }
        if !('0' <= c && c <= '9') {
            proof {
                assert(d[i - start] == c);
                assert(!is_ascii_digit(d[i - start]));
                assert(!all_digits(d));
            }
            return None;
        }
        assert(('0' as u32) <= (c as u32) <= ('9' as u32));
        let dv = (c as u32) - ('0' as u32);
        if acc > (max - dv as u64) / 10 {
            proof {
                assert(acc * 10 + dv > max) by (nonlinear_arith)
                    requires
                        acc > (max - dv) / 10,
                        dv <= 9,
                        9 <= max,
                ;
                assert(d.take((i - start) as int + 1) =~= pre.push(c));
                if all_digits(d) {
                    lemma_digits_monotone(d, (i - start) as int + 1);
                }
            }
            return None;
        }
        proof {
            assert(acc * 10 + dv <= max) by (nonlinear_arith)
                requires
                    acc <= (max - dv) / 10,
                    dv <= 9,
                    9 <= max,
            ;
            assert(all_digits(pre.push(c)));
        }
        acc = acc * 10 + dv as u64;
        i = i + 1;
    }
    proof {
        assert(s@.subrange(start as int, n as int) =~= d);
    }
    Some(acc)
}

/// `n` printed in decimal.
pub fn decimal_exec(n: usize) -> (r: Vec<char>)
    ensures
        r@ == decimal(n as nat),
    decreases n,
{
    if n < 10 {
        let mut r = Vec::new();
        r.push(char_from_ascii(('0' as u32) + n as u32));
        r
    } else {
        let mut r = decimal_exec(n / 10);
        r.push(char_from_ascii(('0' as u32) + (n % 10) as u32));
        r
    }
}

/// Decimal digits of a `u64`.
pub fn decimal_u64(n: u64) -> (r: Vec<char>)
    ensures
        r@ == decimal(n as nat),
    decreases n,
{
    if n < 10 {
        let mut r = Vec::new();
        r.push(char_from_ascii(('0' as u32) + n as u32));
        r
    } else {
        let mut r = decimal_u64(n / 10);
        r.push(char_from_ascii(('0' as u32) + (n % 10) as u32));
        r
    }
}


/// Decimal digits of a `u128`.
pub fn decimal_u128(n: u128) -> (r: Vec<char>)
    ensures
        r@ == decimal(n as nat),
    decreases n,
{
    if n < 10 {
        let mut r = Vec::new();
        r.push(char_from_ascii(('0' as u32) + n as u32));
        r
    } else {
        let mut r = decimal_u128(n / 10);
        r.push(char_from_ascii(('0' as u32) + (n % 10) as u32));
        r
    }
}

} // verus!
