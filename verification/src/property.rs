//! Property model: key-value pairs attached to a node, and the one rule
//! that turns a value into the flat string filters compare against.

use vstd::prelude::*;

use crate::text::{chars_of, push_chars};

verus! {

/// Value types supported as property values.
#[derive(Debug, PartialEq, Eq)]
pub enum PropValue {
    /// Plain text value.
    Text(String),
    /// Reference to a page by name (e.g. `[[avelino]]`).
    PageRef(String),
    /// Tag reference (e.g. `#produto`).
    Tag(String),
    /// Multiple values (e.g. `tags:: #a #b`).
    List(Vec<PropValue>),
}

/// A property on a node — name + value.
#[derive(Debug, PartialEq, Eq)]
pub struct Property {
    /// Property key (e.g. `priority`).
    pub key: String,
    /// Property value.
    pub value: PropValue,
}

/// The flat string of a value: a scalar's inner string verbatim; a list's
/// elements flattened and joined with `", "`, recursively.
pub open spec fn flat(v: PropValue) -> Seq<char>
    decreases v,
{
    match v {
        PropValue::Text(s) => s@,
        PropValue::PageRef(s) => s@,
        PropValue::Tag(s) => s@,
        PropValue::List(items) => flat_list(items@, items@.len() as int),
    }
}

/// The first `n` items flattened and joined with `", "`.
pub open spec fn flat_list(items: Seq<PropValue>, n: int) -> Seq<char>
    decreases items, n,
{
    if n <= 0 || n > items.len() {
        seq![]
    } else if n == 1 {
        flat(items[0])
    } else {
        flat_list(items, n - 1) + ", "@ + flat(items[n - 1])
    }
}

impl Clone for PropValue {
    fn clone(&self) -> (r: Self)
        ensures
            flat(r) == flat(*self),
        decreases *self,
    {
        match self {
            PropValue::Text(s) => PropValue::Text(s.clone()),
            PropValue::PageRef(s) => PropValue::PageRef(s.clone()),
            PropValue::Tag(s) => PropValue::Tag(s.clone()),
            PropValue::List(items) => {
                let mut out: Vec<PropValue> = Vec::new();
                let n = items.len();
                let mut i: usize = 0;
                while i < n
                    invariant
                        *self == PropValue::List(*items),
                        n == items@.len(),
                        i <= n,
                        out@.len() == i,
                        forall|j: int| 0 <= j < i ==> flat(#[trigger] out@[j]) == flat(items@[j]),
                    decreases n - i,
                {
                    proof {
                        assert(decreases_to!(*self => (*self)->List_0));
                        assert(decreases_to!(*items => items@));
                        assert(decreases_to!(items@ => items@[i as int]));
                    }
                    out.push(items[i].clone());
                    i = i + 1;
                }
                proof {
                    lemma_flat_list_same(out@, items@, n as int);
                }
                PropValue::List(out)
            },
        }
    }
}

proof fn lemma_flat_list_same(a: Seq<PropValue>, b: Seq<PropValue>, n: int)
    requires
        a.len() == b.len(),
        0 <= n <= a.len(),
        forall|j: int| 0 <= j < a.len() ==> flat(#[trigger] a[j]) == flat(b[j]),
    ensures
        flat_list(a, n) == flat_list(b, n),
    decreases n,
{
    if n > 1 {
        lemma_flat_list_same(a, b, n - 1);
        assert(flat(a[n - 1]) == flat(b[n - 1]));
    } else if n == 1 {
        assert(flat(a[0]) == flat(b[0]));
    }
}

impl Clone for Property {
    fn clone(&self) -> (r: Self)
        ensures
            r.key@ == self.key@,
            flat(r.value) == flat(self.value),
    {
        Property { key: self.key.clone(), value: self.value.clone() }
    }
}

impl PropValue {
    /// The value as a flat string — the single owner of the
    /// stringification rule every surface compares filters against.
    pub fn flatten(&self) -> (r: String)
        ensures
            r@ == flat(*self),
        decreases *self,
    {
        match self {
            PropValue::Text(s) => s.clone(),
            PropValue::PageRef(s) => s.clone(),
            PropValue::Tag(s) => s.clone(),
            PropValue::List(items) => {
                let mut out = String::new();
                let n = items.len();
                let mut i: usize = 0;
                while i < n
                    invariant
                        *self == PropValue::List(*items),
                        n == items@.len(),
                        i <= n,
                        out@ == flat_list(items@, i as int),
                    decreases n - i,
                {
                    proof {
                        assert(decreases_to!(*self => (*self)->List_0));
                        assert(decreases_to!(*items => items@));
                        assert(decreases_to!(items@ => items@[i as int]));
                    }
                    let part = items[i].flatten();
                    if i > 0 {
                        let sep = chars_of(", ");
                        push_chars(&mut out, sep.as_slice());
                    }
                    let pc = chars_of(part.as_str());
                    push_chars(&mut out, pc.as_slice());
                    proof {
                        if i == 0 {
                            assert(out@ =~= flat(items@[0]));
                        } else {
                            assert(out@ =~= flat_list(items@, i as int) + ", "@ + flat(items@[i as int]));
                        }
                    }
                    i = i + 1;
                }
                out
            },
        }
    }
}

} // verus!
