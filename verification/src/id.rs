//! Block and page ids: 128-bit ULIDs, written as 26 Crockford base32
//! chars.

use vstd::prelude::*;

verus! {

/// A block or page id: the 128 bits of a ULID.
#[derive(Debug, Clone, Copy, PartialEq, Eq, Hash, Structural)]
pub struct NodeId(pub u128);

/// The Crockford base32 digit for `d` (`0..32`): `0-9`, then `A-Z`
/// without `I`, `L`, `O` and `U`.
pub open spec fn crockford_digit(d: nat) -> char {
    "0123456789ABCDEFGHJKMNPQRSTVWXYZ"@[d as int]
}

/// The last `k` base32 digits of `bits`, most significant first.
pub open spec fn base32_digits(bits: nat, k: nat) -> Seq<char>
    decreases k,
{
    if k == 0 {
        seq![]
    } else {
        base32_digits(bits / 32, (k - 1) as nat).push(crockford_digit(bits % 32))
    }
}

/// A ULID's text: its 128 bits as 26 base32 digits.
pub open spec fn ulid_text(bits: u128) -> Seq<char> {
    base32_digits(bits as nat, 26)
}

/// `ulid::Ulid::to_string`: the 26-digit Crockford base32 encoding of
/// the id's bits, most significant digit first (five bits a digit, the
/// top digit taking the remaining three).
#[verifier::external_body]
fn ulid_string(bits: u128) -> (r: String)
    ensures
        r@ == ulid_text(bits),
{
    ulid::Ulid::from(bits).to_string()
}

impl NodeId {
    /// The id as its 26-char ULID text.
    pub fn to_string(&self) -> (r: String)
        ensures
            r@ == ulid_text(self.0),
    {
        ulid_string(self.0)
    }
}

pub proof fn lemma_base32_digits_len(bits: nat, k: nat)
    ensures
        base32_digits(bits, k).len() == k,
    decreases k,
{
    if k > 0 {
        lemma_base32_digits_len(bits / 32, (k - 1) as nat);
    }
}

/// Every digit is one of `0-9` or an uppercase letter.
pub proof fn lemma_base32_digits_alnum(bits: nat, k: nat, i: int)
    requires
        0 <= i < k,
    ensures
        ('0' <= base32_digits(bits, k)[i] <= '9') || ('A' <= base32_digits(bits, k)[i] <= 'Z'),
    decreases k,
{
    reveal_strlit("0123456789ABCDEFGHJKMNPQRSTVWXYZ");
    lemma_base32_digits_len(bits / 32, (k - 1) as nat);
    if i < k - 1 {
        lemma_base32_digits_alnum(bits / 32, (k - 1) as nat, i);
    } else {
        let d = bits % 32;
        assert(0 <= d < 32);
        let s = "0123456789ABCDEFGHJKMNPQRSTVWXYZ"@;
        assert(forall|j: int| 0 <= j < 32 ==> ('0' <= #[trigger] s[j] <= '9') || ('A' <= s[j] <= 'Z'));
    }
}


/// What `ulid::Ulid::from_string` decodes `s` to, as the id's bits; `None`
/// where it refuses the text.
pub uninterp spec fn ulid_value_of(s: Seq<char>) -> Option<u128>;

/// `ulid::Ulid::from_string`: the bits a ULID's text form decodes to, or
/// `None` when the text is not a ULID. What it accepts is left to the
/// crate's decoder and named, not spelled out.
#[verifier::external_body]
pub(crate) fn parse_ulid(s: &str) -> (r: Option<u128>)
    ensures
        r == ulid_value_of(s@),
{
    match ulid::Ulid::from_string(s) {
        Ok(u) => Some(u.0),
        Err(_) => None,
    }
}

} // verus!
