//! `outl reconcile`: which pass a run makes, and the verdicts its passes
//! read off each page — a stale projection, the recorded orphans.

use vstd::prelude::*;

use crate::guard::OrphanGuard;
use crate::sidecar::{file_hash, hash_text, utf8};
use crate::text::{chars_of, eq_chars, lines, lines_exec, trim, trim_chars};

verus! {

/// The pass one `outl reconcile` run makes.
#[derive(Debug, Clone, Copy, PartialEq, Eq, Structural)]
pub enum ReconcilePass {
    /// Take in every page whose `.md` runs ahead of the op log, held to
    /// the given orphan guard.
    AheadOfLog(OrphanGuard),
    /// Apply the deletions the orphan guard refused earlier.
    AllowBulkDelete,
    /// List the recorded orphans, read-only.
    ListOrphans,
}

/// The pass for the command's flags: `--ahead-of-log` wins, with the
/// guard disabled by `--allow-bulk-delete`; `--allow-bulk-delete` alone
/// applies refused deletions; no flag lists orphans.
pub fn reconcile_pass(ahead_of_log: bool, allow_bulk_delete: bool) -> (r: ReconcilePass)
    ensures
        r == if ahead_of_log {
            ReconcilePass::AheadOfLog(
                if allow_bulk_delete {
                    OrphanGuard::Disabled
                } else {
                    OrphanGuard::Enforced
                },
            )
        } else if allow_bulk_delete {
            ReconcilePass::AllowBulkDelete
        } else {
            ReconcilePass::ListOrphans
        },
{
    let guard = if allow_bulk_delete {
        OrphanGuard::Disabled
    } else {
        OrphanGuard::Enforced
    };
    if ahead_of_log {
        ReconcilePass::AheadOfLog(guard)
    } else if allow_bulk_delete {
        ReconcilePass::AllowBulkDelete
    } else {
        ReconcilePass::ListOrphans
    }
}

/// A page is stale when its `.md` no longer hashes to what its sidecar
/// recorded at the last sync — an external edit not yet taken in.
pub fn is_stale(last_synced_hash: &str, disk: &str) -> (r: bool)
    ensures
        r == (last_synced_hash@ != hash_text(utf8(disk@))),
{
    let h = file_hash(disk);
    let a = chars_of(last_synced_hash);
    let b = chars_of(h.as_str());
    !eq_chars(a.as_slice(), b.as_slice())
}

/// The recorded orphans: the lines of the orphans file that hold more
/// than whitespace.
pub open spec fn orphan_lines_spec(text: Seq<char>) -> Seq<Seq<char>> {
    lines(text).filter(|l: Seq<char>| trim(l).len() > 0)
}

/// The recorded orphans in the orphans file `text`, one per non-blank
/// line.
pub fn orphan_lines(text: &str) -> (r: Vec<Vec<char>>)
    ensures
        r@.map_values(|l: Vec<char>| l@) == orphan_lines_spec(text@),
{
    let tc = chars_of(text);
    let ls = lines_exec(tc.as_slice());
    let ghost lv = lines(text@);
    let n = ls.len();
    let mut out: Vec<Vec<char>> = Vec::new();
    proof {
        reveal(Seq::filter);
        assert(lv.take(0) =~= Seq::<Seq<char>>::empty());
        assert(out@.map_values(|l: Vec<char>| l@) =~= Seq::<Seq<char>>::empty());
    }
    let mut ls = ls;
    let mut rest: Vec<Vec<char>> = Vec::new();
    let mut k: usize = n;
    while k > 0
        invariant
            k <= n,
            n == lv.len(),
            lv == lines(text@),
            ls@.len() == k,
            forall|j: int| 0 <= j < k ==> (#[trigger] ls@[j])@ == lv[j],
            rest@.len() == n - k,
            forall|j: int| 0 <= j < n - k ==> (#[trigger] rest@[j])@ == lv[n - 1 - j],
        decreases k,
    {
        let l = ls.pop().unwrap();
        rest.push(l);
        k = k - 1;
    }
    let mut i: usize = 0;
    while i < n
        invariant
            n == lv.len(),
            lv == lines(text@),
            i <= n,
            rest@.len() == n - i,
            forall|j: int| 0 <= j < n - i ==> (#[trigger] rest@[j])@ == lv[n - 1 - j],
            out@.map_values(|l: Vec<char>| l@) == lv.take(i as int).filter(
                |l: Seq<char>| trim(l).len() > 0,
            ),
        decreases n - i,
    {
        let l = rest.pop().unwrap();
        let t = trim_chars(l.as_slice());
        proof {
            reveal(Seq::filter);
            assert(lv.take(i + 1).drop_last() =~= lv.take(i as int));
            assert(lv.take(i + 1).last() == l@);
        }
        if t.len() > 0 {
            proof {
                assert(out@.push(l).map_values(|x: Vec<char>| x@) =~= out@.map_values(
                    |x: Vec<char>| x@,
                ).push(l@));
            }
            out.push(l);
        }
        i = i + 1;
    }
    proof {
        assert(lv.take(n as int) =~= lv);
    }
    out
}

} // verus!
