//! Desynced projections: a page whose `.md` and sidecar agree with each
//! other but hold blocks the op log never saw. Two checks decide whether
//! the sidecar can be trusted to line up with the parsed `.md`.

use vstd::prelude::*;

use crate::id::NodeId;
use crate::sidecar::{Sidecar, SidecarBlock, content_hash, content_hash_of, file_hash, hash_text, utf8};
use crate::text::{chars_of, eq_chars};

verus! {

/// A parsed outline block: its text, its children and its `key:: value`
/// properties.
#[derive(Debug, PartialEq, Eq)]
pub struct OutlineNode {
    pub text: String,
    pub children: Vec<OutlineNode>,
    pub properties: Vec<(String, String)>,
}

/// A block of the depth-first preorder flattening of a parsed `.md`.
#[derive(Debug, Clone, PartialEq, Eq)]
pub struct FlatBlock {
    /// Nesting depth (0 for top-level blocks).
    pub indent: u32,
    /// The block's text.
    pub text: String,
}

/// Number of nodes in `block`'s subtree, itself included.
pub open spec fn subtree_size(block: OutlineNode) -> nat
    decreases block,
{
    1 + children_size(block.children@, block.children@.len() as int)
}

/// Total subtree size of the first `n` children.
pub open spec fn children_size(children: Seq<OutlineNode>, n: int) -> nat
    decreases children, n,
{
    if n <= 0 || n > children.len() {
        0
    } else {
        children_size(children, n - 1) + subtree_size(children[n - 1])
    }
}

proof fn lemma_children_size_mono(children: Seq<OutlineNode>, a: int, b: int)
    requires
        0 <= a <= b <= children.len(),
    ensures
        children_size(children, a) <= children_size(children, b),
    decreases b - a,
{
    if a < b {
        lemma_children_size_mono(children, a, b - 1);
    }
}

/// Number of nodes in `block`'s subtree, itself included.
pub fn subtree_len(block: &OutlineNode) -> (r: usize)
    requires
        subtree_size(*block) <= usize::MAX,
    ensures
        r == subtree_size(*block),
    decreases *block,
{
    let n = block.children.len();
    let mut total: usize = 1;
    let mut i: usize = 0;
    while i < n
        invariant
            n == block.children@.len(),
            i <= n,
            subtree_size(*block) <= usize::MAX,
            subtree_size(*block) == 1 + children_size(block.children@, n as int),
            total == 1 + children_size(block.children@, i as int),
        decreases n - i,
    {
        proof {
            lemma_children_size_mono(block.children@, i + 1, n as int);
            assert(decreases_to!(*block => block.children));
            assert(decreases_to!(block.children => block.children@));
            assert(decreases_to!(block.children@ => block.children@[i as int]));
        }
        let sub = subtree_len(&block.children[i]);
        total = total + sub;
        i = i + 1;
    }
    total
}

/// Where each block of a sibling list sits in the depth-first preorder
/// sidecar list, when the list's first block sits at `start`: after
/// `start` come the whole subtrees of the siblings before it.
pub fn child_indices(blocks: &[OutlineNode], start: usize) -> (r: Vec<usize>)
    requires
        start + children_size(blocks@, blocks@.len() as int) <= usize::MAX,
    ensures
        r@.len() == blocks@.len(),
        forall|i: int| 0 <= i < r@.len() ==> #[trigger] r@[i] == start + children_size(blocks@, i),
{
    let n = blocks.len();
    let mut out: Vec<usize> = Vec::new();
    let mut idx: usize = start;
    let mut i: usize = 0;
    while i < n
        invariant
            n == blocks@.len(),
            i <= n,
            start + children_size(blocks@, n as int) <= usize::MAX,
            idx == start + children_size(blocks@, i as int),
            out@.len() == i,
            forall|j: int| 0 <= j < i ==> #[trigger] out@[j] == start + children_size(blocks@, j),
        decreases n - i,
    {
        out.push(idx);
        proof {
            lemma_children_size_mono(blocks@, i + 1, n as int);
        }
        let sub = subtree_len(&blocks[i]);
        idx = idx + sub;
        i = i + 1;
    }
    out
}

/// The flattening pairs one to one with the sidecar's entries: as many
/// blocks as entries, and each block's content hash equal to its entry's.
pub open spec fn lockstep(flat: Seq<FlatBlock>, entries: Seq<SidecarBlock>) -> bool {
    flat.len() == entries.len() && forall|i: int|
        0 <= i < flat.len() ==> content_hash_of(#[trigger] flat[i].text@) == entries[i].content_hash@
}

/// Whether the depth-first preorder flattening `flat` pairs one to one
/// (count and per-block content hash) with the sidecar's block list.
pub fn lockstep_matches(flat: &[FlatBlock], entries: &[SidecarBlock]) -> (r: bool)
    ensures
        r == lockstep(flat@, entries@),
{
    if flat.len() != entries.len() {
        return false;
    }
    let n = flat.len();
    let mut i: usize = 0;
    while i < n
        invariant
            n == flat@.len(),
            n == entries@.len(),
            i <= n,
            forall|j: int|
                0 <= j < i ==> content_hash_of(#[trigger] flat@[j].text@) == entries@[j].content_hash@,
        decreases n - i,
    {
        let h = content_hash(flat[i].text.as_str());
        let a = chars_of(h.as_str());
        let b = chars_of(entries[i].content_hash.as_str());
        if !eq_chars(a.as_slice(), b.as_slice()) {
            return false;
        }
        i = i + 1;
    }
    true
}


/// Sidecar `sc` is hash-in-sync with `text` but carries an id, the page's
/// or a block's, that is not among `known` (the ids the tree holds).
pub open spec fn desynced(text: Seq<char>, sc: Sidecar, known: Seq<NodeId>) -> bool {
    &&& sc.last_synced_hash@ == hash_text(utf8(text))
    &&& (!known.contains(sc.page_id) || exists|i: int|
        0 <= i < sc.blocks@.len() && !known.contains(#[trigger] sc.blocks@[i].id))
}

fn knows(known: &Vec<NodeId>, id: NodeId) -> (r: bool)
    ensures
        r == known@.contains(id),
{
    let n = known.len();
    let mut i: usize = 0;
    while i < n
        invariant
            n == known@.len(),
            i <= n,
            forall|j: int| 0 <= j < i ==> known@[j] != id,
        decreases n - i,
    {
        if known[i].0 == id.0 {
            proof {
                assert(known@[i as int] == id);
            }
            return true;
        }
        i = i + 1;
    }
    false
}

/// Whether the page with `.md` text `text` and sidecar `sidecar` is a
/// desynced projection: the sidecar's hash matches the file, yet the tree
/// (which holds exactly the ids in `known`) lacks the page id or a block id
/// the sidecar lists. With no readable sidecar the page belongs to the
/// orphan scan, not this one.
pub fn is_desynced(text: &str, sidecar: Option<&Sidecar>, known: &Vec<NodeId>) -> (r: bool)
    ensures
        r == (sidecar matches Some(sc) && desynced(text@, *sc, known@)),
{
    let sc = match sidecar {
        None => {
            return false;
        },
        Some(sc) => sc,
    };
    let h = file_hash(text);
    let hc = chars_of(h.as_str());
    let sh = chars_of(sc.last_synced_hash.as_str());
    if !eq_chars(sh.as_slice(), hc.as_slice()) {
        return false;
    }
    if !knows(known, sc.page_id) {
        return true;
    }
    let n = sc.blocks.len();
    let mut i: usize = 0;
    while i < n
        invariant
            n == sc.blocks@.len(),
            i <= n,
            sidecar == Some(sc),
            sc.last_synced_hash@ == hash_text(utf8(text@)),
            forall|j: int| 0 <= j < i ==> known@.contains(#[trigger] sc.blocks@[j].id),
        decreases n - i,
    {
        if !knows(known, sc.blocks[i].id) {
            proof {
                assert(!known@.contains(sc.blocks@[i as int].id));
            }
            return true;
        }
        i = i + 1;
    }
    false
}

} // verus!
