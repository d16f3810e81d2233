//! Read queries a plugin runs against the [`ReadModel`] snapshot: the block
//! filter behind `ctx.blocks.query`, and lookup of one block by id.
//!
//! A filter is `{ page?, todo?, textContains?, prop? }`. Every field that is
//! present must hold; `prop` is a set of `key → value` pairs that must all
//! hold exactly (no case folding, no substring).
//!
//! [`ReadModel`]: crate::plugin_model::ReadModel

use vstd::prelude::*;

use crate::plugin_model::BlockView;
use crate::text::{chars_of, contains_chars, contains_seq, eq_chars};

verus! {

/// A block filter as the script side wrote it. A field that was absent, or
/// not of the kind it should be (a string, or for `prop` an object), is
/// `None`; inside `prop`, a value that was not a string is `None`.
#[derive(Debug, Clone, Default)]
pub struct BlockFilter {
    /// The block's page slug must equal this.
    pub page: Option<String>,
    /// The block's task state must equal this.
    pub todo: Option<String>,
    /// The block's text must contain this.
    pub text_contains: Option<String>,
    /// Every pair must be carried by the block's properties.
    pub prop: Option<Vec<(String, Option<String>)>>,
}

/// Some property of `props` has exactly `key` and exactly `value`.
pub open spec fn carries(props: Seq<(String, String)>, key: Seq<char>, value: Seq<char>) -> bool {
    exists|i: int| 0 <= i < props.len() && (#[trigger] props[i]).0@ == key && props[i].1@ == value
}

/// Every wanted pair is carried; a wanted value that is not a string never is.
pub open spec fn props_hold(props: Seq<(String, String)>, wanted: Seq<(String, Option<String>)>) -> bool {
    forall|j: int|
        0 <= j < wanted.len() ==> match (#[trigger] wanted[j]).1 {
            Some(w) => carries(props, wanted[j].0@, w@),
            None => false,
        }
}

/// Whether block `b` passes filter `f`.
pub open spec fn admits(f: BlockFilter, b: BlockView) -> bool {
    &&& (f.page matches Some(p) ==> b.page@ == p@)
    &&& (f.todo matches Some(t) ==> (b.todo matches Some(bt) && bt@ == t@))
    &&& (f.text_contains matches Some(n) ==> contains_seq(b.text@, n@))
    &&& (f.prop matches Some(ps) ==> props_hold(b.properties@, ps@))
}

/// Every condition a filter holds must pass: the page and the task state
/// match exactly, the text contains the needle, and every wanted property
/// is a string value carried by the block under exactly that key.
pub proof fn lemma_filter_conditions_all_hold(f: BlockFilter, b: BlockView)
    ensures
        admits(f, b) <==> {
            &&& (f.page is Some ==> b.page@ == f.page->0@)
            &&& (f.todo is Some ==> b.todo is Some && b.todo->0@ == f.todo->0@)
            &&& (f.text_contains is Some ==> contains_seq(b.text@, f.text_contains->0@))
            &&& (f.prop is Some ==> forall|j: int|
                0 <= j < f.prop->0@.len() ==> (#[trigger] f.prop->0@[j]).1 is Some && exists|i: int|
                    0 <= i < b.properties@.len() && (#[trigger] b.properties@[i]).0@ == f.prop->0@[j].0@
                        && b.properties@[i].1@ == f.prop->0@[j].1->0@)
        },
{
}

/// The positions of the blocks that pass `f`, in model order.
pub open spec fn admitted_positions(blocks: Seq<BlockView>, f: BlockFilter) -> Seq<usize>
    decreases blocks.len(),
{
    if blocks.len() == 0 {
        Seq::empty()
    } else {
        let rest = admitted_positions(blocks.drop_last(), f);
        if admits(f, blocks.last()) {
            rest.push((blocks.len() - 1) as usize)
        } else {
            rest
        }
    }
}

/// On a well-formed block a key carries at most one value, so [`carries`]
/// is the map lookup `properties[key] == value`.
pub proof fn lemma_one_value_per_key(b: BlockView, key: Seq<char>, v1: Seq<char>, v2: Seq<char>)
    requires
        b.wf(),
        carries(b.properties@, key, v1),
        carries(b.properties@, key, v2),
    ensures
        v1 == v2,
{
    let p = b.properties@;
    let i = choose|i: int| 0 <= i < p.len() && (#[trigger] p[i]).0@ == key && p[i].1@ == v1;
    let j = choose|j: int| 0 <= j < p.len() && (#[trigger] p[j]).0@ == key && p[j].1@ == v2;
    if i < j {
        assert(p[i].0@ != p[j].0@);
    } else if j < i {
        assert(p[j].0@ != p[i].0@);
    }
}

/// Every position that [`matching_blocks`] lists passes the filter, and the
/// positions rise strictly.
pub proof fn lemma_admitted_positions_sound(blocks: Seq<BlockView>, f: BlockFilter)
    requires
        blocks.len() <= usize::MAX,
    ensures
        forall|k: int|
            0 <= k < admitted_positions(blocks, f).len() ==> (#[trigger] admitted_positions(
                blocks,
                f,
            )[k]) < blocks.len() && admits(f, blocks[admitted_positions(blocks, f)[k] as int]),
        forall|k: int, l: int|
            0 <= k < l < admitted_positions(blocks, f).len() ==> #[trigger] admitted_positions(
                blocks,
                f,
            )[k] < #[trigger] admitted_positions(blocks, f)[l],
    decreases blocks.len(),
{
    if blocks.len() > 0 {
        let init = blocks.drop_last();
        lemma_admitted_positions_sound(init, f);
        let rest = admitted_positions(init, f);
        let all = admitted_positions(blocks, f);
        let last = (blocks.len() - 1) as usize;
        assert forall|k: int| 0 <= k < rest.len() implies (#[trigger] rest[k]) < init.len()
            && blocks[rest[k] as int] == init[rest[k] as int] && admits(f, blocks[rest[k] as int]) by {}
        if admits(f, blocks.last()) {
            assert(all == rest.push(last));
            assert forall|k: int| 0 <= k < all.len() implies (#[trigger] all[k]) < blocks.len()
                && admits(f, blocks[all[k] as int]) by {
                if k < rest.len() {
                    assert(all[k] == rest[k]);
                } else {
                    assert(all[k] == last);
                }
            }
            assert forall|k: int, l: int| 0 <= k < l < all.len() implies #[trigger] all[k]
                < #[trigger] all[l] by {
                assert(all[k] == rest[k]);
                if l < rest.len() {
                    assert(all[l] == rest[l]);
                } else {
                    assert(all[l] == last);
                }
            }
        } else {
            assert(all == rest);
        }
    }
}

/// Whether `props` carries `key` with exactly `value`.
fn carries_exec(props: &Vec<(String, String)>, key: &str, value: &str) -> (r: bool)
    ensures
        r == carries(props@, key@, value@),
{
    let k = chars_of(key);
    let v = chars_of(value);
    let n = props.len();
    let mut i: usize = 0;
    while i < n
        invariant
            n == props@.len(),
            i <= n,
            k@ == key@,
            v@ == value@,
            forall|j: int|
                0 <= j < i ==> !((#[trigger] props@[j]).0@ == key@ && props@[j].1@ == value@),
        decreases n - i,
    {
        let pk = chars_of(props[i].0.as_str());
        if eq_chars(pk.as_slice(), k.as_slice()) {
            let pv = chars_of(props[i].1.as_str());
            if eq_chars(pv.as_slice(), v.as_slice()) {
                proof {
                    assert(props@[i as int].0@ == key@ && props@[i as int].1@ == value@);
                }
                return true;
            }
        }
        i = i + 1;
    }
    false
}

/// Whether `b` passes `filter`: the page, task state and text conditions
/// that are present hold, and every `prop` pair is carried exactly.
pub fn block_matches(b: &BlockView, filter: &BlockFilter) -> (r: bool)
    ensures
        r == admits(*filter, *b),
{
    if let Some(page) = &filter.page {
        let a = chars_of(b.page.as_str());
        let p = chars_of(page.as_str());
        if !eq_chars(a.as_slice(), p.as_slice()) {
            return false;
        }
    }
    if let Some(todo) = &filter.todo {
        match &b.todo {
            Some(bt) => {
                let a = chars_of(bt.as_str());
                let t = chars_of(todo.as_str());
                if !eq_chars(a.as_slice(), t.as_slice()) {
                    return false;
                }
            },
            None => {
                return false;
            },
        }
    }
    if let Some(needle) = &filter.text_contains {
        let t = chars_of(b.text.as_str());
        let nd = chars_of(needle.as_str());
        if !contains_chars(t.as_slice(), nd.as_slice()) {
            return false;
        }
    }
    if let Some(wanted) = &filter.prop {
        let n = wanted.len();
        let mut i: usize = 0;
        while i < n
            invariant
                n == wanted@.len(),
                i <= n,
                filter.prop == Some(*wanted),
                forall|j: int|
                    0 <= j < i ==> match (#[trigger] wanted@[j]).1 {
                        Some(w) => carries(b.properties@, wanted@[j].0@, w@),
                        None => false,
                    },
            decreases n - i,
        {
            match &wanted[i].1 {
                None => {
                    proof {
                        assert(!props_hold(b.properties@, wanted@)) by {
                            assert(wanted@[i as int].1 is None);
                        }
                    }
                    return false;
                },
                Some(want) => {
                    if !carries_exec(&b.properties, wanted[i].0.as_str(), want.as_str()) {
                        proof {
                            assert(!props_hold(b.properties@, wanted@)) by {
                                assert(wanted@[i as int].1 == Some(*want));
                            }
                        }
                        return false;
                    }
                },
            }
            i = i + 1;
        }
    }
    true
}

/// The positions in `blocks` of the blocks that pass `filter`, in order:
/// what `ctx.blocks.query` answers.
pub fn matching_blocks(blocks: &Vec<BlockView>, filter: &BlockFilter) -> (r: Vec<usize>)
    ensures
        r@ == admitted_positions(blocks@, *filter),
{
    let n = blocks.len();
    let mut out: Vec<usize> = Vec::new();
    let mut i: usize = 0;
    while i < n
        invariant
            n == blocks@.len(),
            i <= n,
            out@ == admitted_positions(blocks@.take(i as int), *filter),
        decreases n - i,
    {
        proof {
            assert(blocks@.take(i + 1).drop_last() =~= blocks@.take(i as int));
            assert(blocks@.take(i + 1).last() == blocks@[i as int]);
        }
        if block_matches(&blocks[i], filter) {
            out.push(i);
        }
        i = i + 1;
    }
    proof {
        assert(blocks@.take(n as int) =~= blocks@);
    }
    out
}

/// The position of the first block whose id is `id`, if any.
pub fn find_block(blocks: &Vec<BlockView>, id: &str) -> (r: Option<usize>)
    ensures
        match r {
            Some(i) => i < blocks@.len() && blocks@[i as int].id@ == id@ && forall|j: int|
                0 <= j < i ==> (#[trigger] blocks@[j]).id@ != id@,
            None => forall|j: int| 0 <= j < blocks@.len() ==> (#[trigger] blocks@[j]).id@ != id@,
        },
{
    let want = chars_of(id);
    let n = blocks.len();
    let mut i: usize = 0;
    while i < n
        invariant
            n == blocks@.len(),
            i <= n,
            want@ == id@,
            forall|j: int| 0 <= j < i ==> (#[trigger] blocks@[j]).id@ != id@,
        decreases n - i,
    {
        let bid = chars_of(blocks[i].id.as_str());
        if eq_chars(bid.as_slice(), want.as_slice()) {
            return Some(i);
        }
        i = i + 1;
    }
    None
}

} // verus!
