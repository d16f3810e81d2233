//! The read model a query runs against: every block with the text and
//! properties the filters read, and every page with its kind.

use vstd::prelude::*;

use crate::text::eq_chars;
use crate::text::chars_of;

verus! {

/// One indexed block.
pub struct BlockEntry {
    /// Block ref handle (`blk-XXXXXX`).
    pub ref_handle: String,
    /// Slug of the page hosting the block.
    pub source_slug: String,
    /// Block text as written (task prefix included).
    pub text: String,
    /// `text`, lowercased — what tag and text filters search.
    pub text_fold: String,
    /// Block properties as `(key, value)` pairs, values flattened.
    pub properties: Vec<(String, String)>,
}

/// One indexed page.
pub struct PageEntry {
    /// Page slug.
    pub slug: String,
    /// Whether the page is a journal (dated) page.
    pub is_journal: bool,
}

/// Blocks in document order, plus the pages they live on.
pub struct WorkspaceIndex {
    pub blocks: Vec<BlockEntry>,
    pub pages: Vec<PageEntry>,
}

pub struct BlockEntryV {
    pub ref_handle: Seq<char>,
    pub source_slug: Seq<char>,
    pub text: Seq<char>,
    pub text_fold: Seq<char>,
    pub properties: Seq<(Seq<char>, Seq<char>)>,
}

pub struct PageEntryV {
    pub slug: Seq<char>,
    pub is_journal: bool,
}

pub open spec fn pairs_view(ps: Seq<(String, String)>) -> Seq<(Seq<char>, Seq<char>)> {
    ps.map_values(|p: (String, String)| (p.0@, p.1@))
}

impl View for BlockEntry {
    type V = BlockEntryV;

    open spec fn view(&self) -> BlockEntryV {
        BlockEntryV {
            ref_handle: self.ref_handle@,
            source_slug: self.source_slug@,
            text: self.text@,
            text_fold: self.text_fold@,
            properties: pairs_view(self.properties@),
        }
    }
}

impl View for PageEntry {
    type V = PageEntryV;

    open spec fn view(&self) -> PageEntryV {
        PageEntryV { slug: self.slug@, is_journal: self.is_journal }
    }
}

pub open spec fn blocks_view(bs: Seq<BlockEntry>) -> Seq<BlockEntryV> {
    bs.map_values(|b: BlockEntry| b@)
}

pub open spec fn pages_view(ps: Seq<PageEntry>) -> Seq<PageEntryV> {
    ps.map_values(|p: PageEntry| p@)
}

/// Whether the first page with `slug` is a journal, or `None` when no page
/// has that slug.
pub open spec fn journal_flag(pages: Seq<PageEntryV>, slug: Seq<char>) -> Option<bool>
    decreases pages.len(),
{
    if pages.len() == 0 {
        None
    } else if pages[0].slug == slug {
        Some(pages[0].is_journal)
    } else {
        journal_flag(pages.drop_first(), slug)
    }
}

impl WorkspaceIndex {
    /// Journal flag of the page with `slug`, if the index holds one.
    pub fn journal_flag_of(&self, slug: &str) -> (r: Option<bool>)
        ensures
            r == journal_flag(pages_view(self.pages@), slug@),
    {
        let target = chars_of(slug);
        let n = self.pages.len();
        let ghost pv = pages_view(self.pages@);
        let mut i: usize = 0;
        proof {
            assert(pv.skip(0) =~= pv);
        }
        while i < n
            invariant
                n == self.pages@.len(),
                pv == pages_view(self.pages@),
                i <= n,
                journal_flag(pv, slug@) == journal_flag(pv.skip(i as int), slug@),
                target@ == slug@,
            decreases n - i,
        {
            proof {
                assert(pv.skip(i as int).drop_first() =~= pv.skip(i + 1));
                assert(pv.skip(i as int)[0] == self.pages@[i as int]@);
            }
            let s = chars_of(self.pages[i].slug.as_str());
            if eq_chars(s.as_slice(), target.as_slice()) {
                return Some(self.pages[i].is_journal);
            }
            i = i + 1;
        }
        proof {
            assert(pv.skip(n as int).len() == 0);
        }
        None
    }
}

} // verus!
