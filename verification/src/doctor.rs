//! `outl doctor`: the verdict on each page's `.md` projection.
//!
//! For every page in the op log the doctor compares the `.md` on disk
//! with its sidecar and with what the log renders, and decides what
//! `--repair` may safely do. Reading the files and rendering the page are
//! the caller's; the verdict is decided here.

use vstd::prelude::*;

use crate::sidecar::{file_hash, hash_text, utf8};
use crate::text::{concat3, decimal, decimal_u128, chars_of, eq_chars, push_char, slice_range, string_from_str, string_of, trim, trim_chars};

verus! {

/// What the doctor concludes about one page's projection.
#[derive(Debug, Clone, Copy, PartialEq, Eq, Structural)]
pub enum ProjectionVerdict {
    /// The page is in the op log but has no `.md`: safe to write.
    MissingMd,
    /// The `.md` equals what the log renders but has no sidecar: the
    /// sidecar is rebuilt.
    SidecarOnly,
    /// No sidecar and the `.md` differs from the log: never repaired here.
    DiffersWithoutSidecar,
    /// An external edit awaits `outl reconcile`.
    PendingEdit,
    /// The `.md` holds this many lines no op carries.
    AheadOfLog(usize),
    /// A faithful but outdated projection: safe to re-project, which
    /// removes this many content lines from the `.md`.
    Stale(usize),
    /// Disk, sidecar and log agree.
    Healthy,
}

/// The verdict on a page. `disk` is the `.md`'s text (`None` when there is
/// no file); `sidecar_exists` whether a sidecar file is there;
/// `sidecar_hash` the hash a readable sidecar recorded; `rendered` what
/// the op log renders; `unlogged` how many of the `.md`'s content lines no
/// op carries (zero when the log is damaged or the sidecar cannot tell);
/// `removed` how many of the `.md`'s content lines the rendered page no
/// longer holds, what a re-projection would remove.
pub open spec fn verdict_spec(
    disk: Option<Seq<char>>,
    sidecar_exists: bool,
    sidecar_hash: Option<Seq<char>>,
    rendered: Seq<char>,
    log_damaged: bool,
    unlogged: usize,
    removed: usize,
) -> ProjectionVerdict {
    match disk {
        None => ProjectionVerdict::MissingMd,
        Some(d) => {
            let disk_hash = hash_text(utf8(d));
            let faithful = sidecar_hash == Some(disk_hash);
            let rendered_matches = hash_text(utf8(rendered)) == disk_hash;
            let withheld = sidecar_hash == Some(Seq::<char>::empty());
            if !sidecar_exists {
                if rendered_matches {
                    ProjectionVerdict::SidecarOnly
                } else {
                    ProjectionVerdict::DiffersWithoutSidecar
                }
            } else if !faithful && (!withheld || log_damaged) {
                ProjectionVerdict::PendingEdit
            } else if !rendered_matches {
                if unlogged > 0 {
                    ProjectionVerdict::AheadOfLog(unlogged)
                } else {
                    ProjectionVerdict::Stale(removed)
                }
            } else {
                ProjectionVerdict::Healthy
            }
        },
    }
}

fn same(a: &str, b: &str) -> (r: bool)
    ensures
        r == (a@ == b@),
{
    let ac = chars_of(a);
    let bc = chars_of(b);
    eq_chars(ac.as_slice(), bc.as_slice())
}

/// Decide what the doctor says about one page, and what `--repair` may do.
pub fn classify_projection(
    disk: Option<&str>,
    sidecar_exists: bool,
    sidecar_hash: Option<&str>,
    rendered: &str,
    log_damaged: bool,
    unlogged: usize,
    removed: usize,
) -> (r: ProjectionVerdict)
    ensures
        r == verdict_spec(
            match disk {
                Some(d) => Some(d@),
                None => None,
            },
            sidecar_exists,
            match sidecar_hash {
                Some(h) => Some(h@),
                None => None,
            },
            rendered@,
            log_damaged,
            unlogged,
            removed,
        ),
{
    let d = match disk {
        None => {
            return ProjectionVerdict::MissingMd;
        },
        Some(d) => d,
    };
    let disk_hash = file_hash(d);
    let faithful = match sidecar_hash {
        Some(h) => same(h, disk_hash.as_str()),
        None => false,
    };
    let rendered_hash = file_hash(rendered);
    let rendered_matches = same(rendered_hash.as_str(), disk_hash.as_str());
    let withheld = match sidecar_hash {
        Some(h) => {
            let hc = chars_of(h);
            proof {
                if hc@.len() == 0 {
                    assert(h@ =~= Seq::<char>::empty());
                }
            }
            hc.len() == 0
        },
        None => false,
    };
    if !sidecar_exists {
        if rendered_matches {
            ProjectionVerdict::SidecarOnly
        } else {
            ProjectionVerdict::DiffersWithoutSidecar
        }
    } else if !faithful && (!withheld || log_damaged) {
        ProjectionVerdict::PendingEdit
    } else if !rendered_matches {
        if unlogged > 0 {
            ProjectionVerdict::AheadOfLog(unlogged)
        } else {
            ProjectionVerdict::Stale(removed)
        }
    } else {
        ProjectionVerdict::Healthy
    }
}

/// A page whose `.md` holds content no op carries is never offered for
/// re-projection, and neither is one without a sidecar that differs from
/// the log: the doctor only repairs what cannot lose content.
pub proof fn lemma_repairs_never_lose_unlogged_content(
    disk: Option<Seq<char>>,
    sidecar_exists: bool,
    sidecar_hash: Option<Seq<char>>,
    rendered: Seq<char>,
    log_damaged: bool,
    unlogged: usize,
    removed: usize,
)
    requires
        verdict_spec(disk, sidecar_exists, sidecar_hash, rendered, log_damaged, unlogged, removed)
            is Stale,
    ensures
        sidecar_exists,
        unlogged == 0,
        disk matches Some(d) && hash_text(utf8(rendered)) != hash_text(utf8(d)),
{
}

/// `text` on one line: every `\n` and `\r` a space.
pub open spec fn one_line(text: Seq<char>) -> Seq<char> {
    Seq::new(text.len(), |i: int| if text[i] == '\n' || text[i] == '\r' { ' ' } else { text[i] })
}

/// How the doctor previews a trashed block: on one line, trimmed, cut to
/// 80 chars with `…` when longer; `(empty block)` for an empty one.
pub open spec fn preview_spec(text: Seq<char>) -> Seq<char> {
    let t = trim(one_line(text));
    if t.len() == 0 {
        "(empty block)"@
    } else if t.len() > 80 {
        t.take(80).push('…')
    } else {
        t
    }
}

/// The doctor's one-line preview of a block's text.
pub fn preview_text(text: &str) -> (r: String)
    ensures
        r@ == preview_spec(text@),
{
    let cs = chars_of(text);
    let n = cs.len();
    let mut line: Vec<char> = Vec::new();
    let mut i: usize = 0;
    while i < n
        invariant
            n == cs@.len(),
            cs@ == text@,
            i <= n,
            line@ == one_line(text@).take(i as int),
        decreases n - i,
    {
        let c = cs[i];
        line.push(if c == '\n' || c == '\r' { ' ' } else { c });
        proof {
            assert(line@ =~= one_line(text@).take(i + 1));
        }
        i = i + 1;
    }
    proof {
        assert(line@ =~= one_line(text@));
    }
    let t = trim_chars(line.as_slice());
    if t.len() == 0 {
        return string_from_str("(empty block)");
    }
    if t.len() > 80 {
        let head = slice_range(t.as_slice(), 0, 80);
        let mut r = string_of(head.as_slice());
        push_char(&mut r, '…');
        proof {
            assert(head@ =~= t@.take(80));
        }
        r
    } else {
        string_of(t.as_slice())
    }
}


/// Content lines the re-projections remove in all, each page's count in
/// `removed`.
pub open spec fn removal_total(removed: Seq<usize>) -> nat
    decreases removed.len(),
{
    if removed.len() == 0 {
        0
    } else {
        removal_total(removed.drop_last()) + removed.last() as nat
    }
}

/// How many of the pages lose at least one line.
pub open spec fn pages_losing_lines(removed: Seq<usize>) -> nat
    decreases removed.len(),
{
    if removed.len() == 0 {
        0
    } else {
        pages_losing_lines(removed.drop_last()) + if removed.last() > 0 { 1nat } else { 0nat }
    }
}

/// The headline over the stale pages offered for re-projection: how many
/// content lines re-projecting them removes and across how many pages;
/// none when nothing is removed.
pub open spec fn removal_headline(removed: Seq<usize>) -> Option<Seq<char>> {
    if removal_total(removed) > 0 {
        Some(
            "re-projecting the stale page(s) above removes "@ + decimal(removal_total(removed))
                + " content line(s) across "@ + decimal(pages_losing_lines(removed))
                + " page(s) — read the list before running `--repair`"@,
        )
    } else {
        None
    }
}

/// The warning on one stale page at `path`.
pub open spec fn stale_warning(path: Seq<char>, removed: usize) -> Seq<char> {
    path + ": `.md` is a stale projection — the op log renders different content (re-projecting removes "@
        + decimal(removed as nat) + " content line(s) from disk)"@
}

/// The doctor's warning on the stale page at `path` whose re-projection
/// removes `removed` content lines.
pub fn stale_warning_text(path: &str, removed: usize) -> (r: String)
    ensures
        r@ == stale_warning(path@, removed),
{
    let d = crate::text::decimal_exec(removed);
    let tail = concat3(
        ": `.md` is a stale projection — the op log renders different content (re-projecting removes ",
        d.as_slice(),
        " content line(s) from disk)",
    );
    let mut r = string_from_str(path);
    let tc = chars_of(tail.as_str());
    crate::text::push_chars(&mut r, tc.as_slice());
    proof {
        assert(r@ =~= stale_warning(path@, removed));
    }
    r
}

proof fn lemma_total_bound(removed: Seq<usize>)
    ensures
        removal_total(removed) <= removed.len() * 0xFFFF_FFFF_FFFF_FFFFnat,
        pages_losing_lines(removed) <= removed.len(),
    decreases removed.len(),
{
    if removed.len() > 0 {
        lemma_total_bound(removed.drop_last());
        let n = removed.len();
        assert((n - 1) * 0xFFFF_FFFF_FFFF_FFFFnat + 0xFFFF_FFFF_FFFF_FFFFnat == n * 0xFFFF_FFFF_FFFF_FFFFnat)
            by (nonlinear_arith);
    }
}

/// The headline over the stale pages whose re-projections remove the
/// counts in `removed`.
pub fn removal_headline_text(removed: &[usize]) -> (r: Option<String>)
    ensures
        match (r, removal_headline(removed@)) {
            (Some(t), Some(s)) => t@ == s,
            (None, None) => true,
            _ => false,
        },
{
    let n = removed.len();
    let mut total: u128 = 0;
    let mut pages: u128 = 0;
    let mut i: usize = 0;
    while i < n
        invariant
            n == removed@.len(),
            i <= n,
            total == removal_total(removed@.take(i as int)),
            pages == pages_losing_lines(removed@.take(i as int)),
        decreases n - i,
    {
        proof {
            assert(removed@.take(i + 1).drop_last() =~= removed@.take(i as int));
            lemma_total_bound(removed@.take(i + 1));
            assert(usize::MAX <= 0xFFFF_FFFF_FFFF_FFFF);
            assert((i + 1) * 0xFFFF_FFFF_FFFF_FFFFnat <= 0xFFFF_FFFF_FFFF_FFFFnat * 0xFFFF_FFFF_FFFF_FFFFnat)
                by (nonlinear_arith)
                requires
                    i + 1 <= 0xFFFF_FFFF_FFFF_FFFF,
            ;
        }
        total = total + removed[i] as u128;
        if removed[i] > 0 {
            pages = pages + 1;
        }
        i = i + 1;
    }
    proof {
        assert(removed@.take(n as int) =~= removed@);
    }
    if total == 0 {
        return None;
    }
    let t = decimal_u128(total);
    let p = decimal_u128(pages);
    let head = concat3("re-projecting the stale page(s) above removes ", t.as_slice(), " content line(s) across ");
    let tail = concat3("", p.as_slice(), " page(s) — read the list before running `--repair`");
    let mut r = head;
    let tc = chars_of(tail.as_str());
    crate::text::push_chars(&mut r, tc.as_slice());
    proof {
        reveal_strlit("");
        assert(r@ =~= removal_headline(removed@)->Some_0);
    }
    Some(r)
}

} // verus!
