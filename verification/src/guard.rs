//! Volume guard over orphaned blocks.
//!
//! Matching a re-read `.md` against its sidecar treats one orphan and five
//! thousand orphans alike, and every orphan becomes a move to the trash.
//! A `.md` that arrived truncated would empty its page as quietly as one
//! deleted bullet, so the volume is asked separately, after the match:
//!
//! - it cannot lose half a page — the match is pure, so refusing after it
//!   ran is refusing before anything exists to apply;
//! - it is never silent — a refusal is an `Err`, not a shorter orphan
//!   list;
//! - it has an explicit way out — [`OrphanGuard::Disabled`].

use vstd::prelude::*;

use crate::sidecar::SidecarBlock;
use crate::text::{concat3, decimal, decimal_exec, decimal_u128, push_chars};

verus! {

/// Absolute ceiling on orphans produced by a single reconcile of one page.
pub const MAX_ORPHANED_BLOCKS: usize = 500;

/// Relative ceiling — the share of a page's previously known blocks that
/// may orphan in one pass — as the fraction
/// `MAX_ORPHANED_SHARE_NUM / MAX_ORPHANED_SHARE_DEN` (three quarters).
pub const MAX_ORPHANED_SHARE_NUM: u128 = 3;

pub const MAX_ORPHANED_SHARE_DEN: u128 = 4;

/// Below this many previously known blocks, the share never fires.
pub const RATIO_FLOOR_BLOCKS: usize = 20;

/// How much of a page one reconcile pass proposes to delete.
#[derive(Clone, Copy, Debug, PartialEq, Eq, Structural)]
pub struct OrphanVolume {
    /// Blocks that found no counterpart in the new `.md`.
    pub orphaned: usize,
    /// Blocks the previous sidecar recorded.
    pub previously_known: usize,
}

/// Refusal raised by [`OrphanGuard::check`].
#[derive(Clone, Copy, Debug, PartialEq, Eq, Structural)]
pub enum MatchGuardError {
    /// The proposed deletion is too large to apply without the user
    /// saying so.
    BulkDelete {
        /// What the pass proposed to delete.
        volume: OrphanVolume,
    },
}

/// Whether a reconcile pass is held to the ceilings above.
#[derive(Clone, Copy, Debug, PartialEq, Eq, Structural)]
pub enum OrphanGuard {
    /// The shipped policy.
    Enforced,
    /// The explicit way out: "yes, I meant to delete that".
    Disabled,
}

impl Default for OrphanGuard {
    fn default() -> (r: Self)
        ensures
            r == OrphanGuard::Enforced,
    {
        OrphanGuard::Enforced
    }
}

/// The deletion's share of the known blocks exceeds three quarters:
/// `orphaned / previously_known > 3/4`, an empty page never exceeding it.
pub open spec fn past_share(v: OrphanVolume) -> bool {
    v.previously_known > 0 && (v.orphaned as int) * 4 > (v.previously_known as int) * 3
}

/// Whether the enforced policy refuses `v`: something is deleted, and
/// either more than [`MAX_ORPHANED_BLOCKS`] blocks or, on a page of at
/// least [`RATIO_FLOOR_BLOCKS`] blocks, more than the allowed share.
pub open spec fn refuses(v: OrphanVolume) -> bool {
    v.orphaned != 0 && (v.orphaned > MAX_ORPHANED_BLOCKS || (v.previously_known
        >= RATIO_FLOOR_BLOCKS && past_share(v)))
}

impl OrphanGuard {
    /// Verdict on a proposed deletion.
    pub fn check(&self, volume: OrphanVolume) -> (r: Result<(), MatchGuardError>)
        ensures
            r is Err <==> (*self == OrphanGuard::Enforced && refuses(volume)),
            r matches Err(MatchGuardError::BulkDelete { volume: v }) ==> v == volume,
    {
        if *self == OrphanGuard::Disabled || volume.orphaned == 0 {
            return Ok(());
        }
        let past_absolute = volume.orphaned > MAX_ORPHANED_BLOCKS;
        let share = volume.previously_known >= RATIO_FLOOR_BLOCKS && volume.previously_known > 0
            && (volume.orphaned as u128) * MAX_ORPHANED_SHARE_DEN > (volume.previously_known as u128)
            * MAX_ORPHANED_SHARE_NUM;
        if past_absolute || share {
            return Err(MatchGuardError::BulkDelete { volume });
        }
        Ok(())
    }
}

/// The outcome of matching a page: the matches, then the orphans, with
/// the volume of the resulting deletion checked before the caller can act
/// on it. Exactly the match's own result when the volume is within
/// `guard`; otherwise `Err`, with nothing else changed anywhere.
pub fn match_blocks_guarded<M, O>(
    matched: (Vec<M>, Vec<O>),
    old_blocks: &[SidecarBlock],
    guard: &OrphanGuard,
) -> (r: Result<(Vec<M>, Vec<O>), MatchGuardError>)
    ensures
        ({
            let volume = OrphanVolume {
                orphaned: matched.1@.len() as usize,
                previously_known: old_blocks@.len() as usize,
            };
            &&& (*guard == OrphanGuard::Enforced && refuses(volume)) ==> r == Err::<
                (Vec<M>, Vec<O>),
                MatchGuardError,
            >(MatchGuardError::BulkDelete { volume })
            &&& !(*guard == OrphanGuard::Enforced && refuses(volume)) ==> r == Ok::<
                (Vec<M>, Vec<O>),
                MatchGuardError,
            >(matched)
        }),
{
    let volume = OrphanVolume { orphaned: matched.1.len(), previously_known: old_blocks.len() };
    match guard.check(volume) {
        Err(e) => Err(e),
        Ok(()) => Ok(matched),
    }
}

/// With the escape hatch, every deletion the match found goes through.
pub proof fn lemma_disabled_never_refuses(volume: OrphanVolume)
    ensures
        !(OrphanGuard::Disabled == OrphanGuard::Enforced && refuses(volume)),
{
}

/// A pass that deletes nothing is never refused, whatever the page held
/// before.
pub proof fn lemma_nothing_deleted_never_refused(previously_known: usize)
    ensures
        !refuses(OrphanVolume { orphaned: 0, previously_known }),
{
}

/// A page under the floor is held only to the absolute ceiling, which its
/// size cannot reach: small pages are never refused.
pub proof fn lemma_small_pages_unguarded(volume: OrphanVolume)
    requires
        volume.orphaned <= volume.previously_known,
        volume.previously_known < RATIO_FLOOR_BLOCKS,
    ensures
        !refuses(volume),
{
}

/// Refusal only grows with the deletion: deleting more blocks from the
/// same page is refused whenever deleting fewer was.
pub proof fn lemma_refusal_monotone(a: OrphanVolume, b: OrphanVolume)
    requires
        a.previously_known == b.previously_known,
        a.orphaned <= b.orphaned,
        refuses(a),
    ensures
        refuses(b),
{
}


/// The deleted share of the known blocks as a whole percentage, rounded
/// to the nearest with ties to even; 0 for a page with nothing recorded.
pub open spec fn share_percent(v: OrphanVolume) -> nat {
    if v.previously_known == 0 {
        0
    } else {
        let num = 100 * v.orphaned as nat;
        let k = v.previously_known as nat;
        let q = num / k;
        let r = num % k;
        if 2 * r > k || (2 * r == k && q % 2 == 1) {
            q + 1
        } else {
            q
        }
    }
}

/// `30 of 30 known block(s), 100%`.
pub open spec fn volume_text(v: OrphanVolume) -> Seq<char> {
    decimal(v.orphaned as nat) + " of "@ + decimal(v.previously_known as nat) + " known block(s), "@
        + decimal(share_percent(v)) + "%"@
}

/// The refusal as the user reads it.
pub open spec fn refusal_text(v: OrphanVolume) -> Seq<char> {
    "refusing to delete "@ + volume_text(v)
        + " in one pass — nothing was written, the page is left exactly as the op log has it. Re-run with the bulk-delete escape hatch if the deletion is intentional"@
}

impl OrphanVolume {
    /// The volume as the refusal prints it: both counts and the share.
    pub fn describe(&self) -> (r: String)
        ensures
            r@ == volume_text(*self),
    {
        let pct: u128 = if self.previously_known == 0 {
            0
        } else {
            let num: u128 = 100 * (self.orphaned as u128);
            let k: u128 = self.previously_known as u128;
            let q: u128 = num / k;
            let rem: u128 = num % k;
            if 2 * rem > k || (2 * rem == k && q % 2 == 1) {
                q + 1
            } else {
                q
            }
        };
        let o = decimal_exec(self.orphaned);
        let k = decimal_exec(self.previously_known);
        let p = decimal_u128(pct);
        assert(pct as nat == share_percent(*self));
        let mut out = String::new();
        push_chars(&mut out, o.as_slice());
        let mid = concat3(" of ", k.as_slice(), " known block(s), ");
        let mid_c = crate::text::chars_of(mid.as_str());
        push_chars(&mut out, mid_c.as_slice());
        push_chars(&mut out, p.as_slice());
        let tail = crate::text::chars_of("%");
        push_chars(&mut out, tail.as_slice());
        proof {
            assert(out@ =~= volume_text(*self));
        }
        out
    }
}

impl MatchGuardError {
    /// The text the refusal displays as.
    pub fn message(&self) -> (r: String)
        ensures
            r@ == match self {
                MatchGuardError::BulkDelete { volume } => refusal_text(*volume),
            },
    {
        match self {
            MatchGuardError::BulkDelete { volume } => {
                let v = volume.describe();
                let vc = crate::text::chars_of(v.as_str());
                let r = concat3(
                    "refusing to delete ",
                    vc.as_slice(),
                    " in one pass — nothing was written, the page is left exactly as the op log has it. Re-run with the bulk-delete escape hatch if the deletion is intentional",
                );
                proof {
                    assert(r@ =~= refusal_text(*volume));
                }
                r
            },
        }
    }
}

} // verus!
