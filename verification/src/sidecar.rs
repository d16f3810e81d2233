//! The `.outl` sidecar next to each `.md`: the ids, content hashes and
//! ref handles the clean markdown cannot hold.
//!
//! This module owns what a sidecar says and how its values are derived:
//! the block entry and its constructor, the ref-handle derivation, the
//! content and file hashes, the sidecar paths, and the version gate a
//! freshly read payload has to pass. Reading and writing the JSON file is
//! the caller's I/O.

use vstd::prelude::*;

use crate::id::{NodeId, lemma_base32_digits_alnum, lemma_base32_digits_len, ulid_text};
use crate::text::{
    ascii_lower_chars, ascii_lower_seq, chars_of, is_whitespace, is_ws, push_chars, slice_range,
    string_from_str, string_of,
};

verus! {

// ── format constants ─────────────────────────────────────────────────

/// Current sidecar format version. An additive field does not bump it;
/// only a change that an older reader would misread does.
pub const SIDECAR_VERSION: u32 = 2;

/// Lowest sidecar version this crate is willing to read.
pub const MIN_READABLE_SIDECAR_VERSION: u32 = 1;

/// Prefix every block ref handle carries in the `.md` file.
pub const REF_HANDLE_PREFIX: &'static str = "blk-";

/// Number of base32 chars taken from the tail of the block's ULID to form
/// its ref handle.
pub const REF_HANDLE_TAIL_LEN: usize = 6;

/// The reconcile-pipeline version this build writes to fresh sidecars and
/// expects before treating a page as fully reconciled.
pub const CURRENT_PIPELINE_VERSION: u32 = 4;

// ── ref handles ──────────────────────────────────────────────────────

/// `blk-` and the last six chars of the id's ULID text, lowercased.
pub open spec fn ref_handle_of(bits: u128) -> Seq<char> {
    "blk-"@ + ascii_lower_seq(ulid_text(bits).skip(20))
}

/// Derive the canonical ref handle for a block id. The same id always
/// yields the same handle, so two devices building a sidecar
/// independently agree on what `((blk-XXXXXX))` means.
pub fn derive_ref_handle(id: NodeId) -> (r: String)
    ensures
        r@ == ref_handle_of(id.0),
        r@.len() == 10,
        forall|i: int|
            4 <= i < 10 ==> ('0' <= #[trigger] r@[i] <= '9') || ('a' <= r@[i] <= 'z'),
{
    let s = id.to_string();
    let cs = chars_of(s.as_str());
    proof {
        lemma_base32_digits_len(id.0 as nat, 26);
    }
    let total = cs.len();
    let skip = if total > REF_HANDLE_TAIL_LEN {
        total - REF_HANDLE_TAIL_LEN
    } else {
        0
    };
    let tail = slice_range(cs.as_slice(), skip, total);
    let lower = ascii_lower_chars(tail.as_slice());
    let mut r = string_from_str(REF_HANDLE_PREFIX);
    push_chars(&mut r, lower.as_slice());
    proof {
        reveal_strlit("blk-");
        assert(tail@ =~= ulid_text(id.0).skip(20));
        assert forall|i: int| 4 <= i < 10 implies ('0' <= #[trigger] r@[i] <= '9') || ('a' <= r@[i]
            <= 'z') by {
            lemma_base32_digits_alnum(id.0 as nat, 26, 20 + i - 4);
        }
    }
    r
}

// ── hashes ───────────────────────────────────────────────────────────

/// UTF-8 encoding of one char.
pub open spec fn utf8_char(c: char) -> Seq<u8> {
    let v = c as u32 as int;
    if v < 0x80 {
        seq![v as u8]
    } else if v < 0x800 {
        seq![(0xC0 + v / 64) as u8, (0x80 + v % 64) as u8]
    } else if v < 0x10000 {
        seq![(0xE0 + v / 4096) as u8, (0x80 + (v / 64) % 64) as u8, (0x80 + v % 64) as u8]
    } else {
        seq![
            (0xF0 + v / 262144) as u8,
            (0x80 + (v / 4096) % 64) as u8,
            (0x80 + (v / 64) % 64) as u8,
            (0x80 + v % 64) as u8,
        ]
    }
}

/// UTF-8 encoding of a string.
pub open spec fn utf8(s: Seq<char>) -> Seq<u8>
    decreases s.len(),
{
    if s.len() == 0 {
        seq![]
    } else {
        utf8(s.drop_last()) + utf8_char(s.last())
    }
}

/// The bytes of `s` as UTF-8.
pub fn utf8_bytes(s: &str) -> (r: Vec<u8>)
    ensures
        r@ == utf8(s@),
{
    let cs = chars_of(s);
    let n = cs.len();
    let mut out: Vec<u8> = Vec::new();
    let mut i: usize = 0;
    while i < n
        invariant
            n == cs@.len(),
            cs@ == s@,
            i <= n,
            out@ == utf8(s@.take(i as int)),
        decreases n - i,
    {
        let c = cs[i];
        let v = c as u32;
        proof {
            assert(s@.take(i + 1).drop_last() =~= s@.take(i as int));
            assert(s@.take(i + 1).last() == c);
        }
        let ghost before = out@;
        if v < 0x80 {
            out.push(v as u8);
        } else if v < 0x800 {
            out.push((0xC0 + v / 64) as u8);
            out.push((0x80 + v % 64) as u8);
        } else if v < 0x10000 {
            out.push((0xE0 + v / 4096) as u8);
            out.push((0x80 + (v / 64) % 64) as u8);
            out.push((0x80 + v % 64) as u8);
        } else {
            out.push((0xF0 + v / 262144) as u8);
            out.push((0x80 + (v / 4096) % 64) as u8);
            out.push((0x80 + (v / 64) % 64) as u8);
            out.push((0x80 + v % 64) as u8);
        }
        proof {
            assert(out@ =~= before + utf8_char(c));
        }
        i = i + 1;
    }
    proof {
        assert(s@.take(n as int) =~= s@);
    }
    out
}

/// What SHA-256 makes of `bytes`.
pub uninterp spec fn sha256_of(bytes: Seq<u8>) -> Seq<u8>;

/// `sha2::Sha256` over `bytes`: the 32-byte digest.
#[verifier::external_body]
fn sha256(bytes: &[u8]) -> (r: Vec<u8>)
    ensures
        r@ == sha256_of(bytes@),
        r@.len() == 32,
{
    let mut h = <sha2::Sha256 as sha2::Digest>::new();
    sha2::Digest::update(&mut h, bytes);
    sha2::Digest::finalize(h).to_vec()
}

/// The lowercase hex digit of `d` (`0..16`).
pub open spec fn hex_digit(d: nat) -> char {
    "0123456789abcdef"@[d as int]
}

/// Two lowercase hex digits per byte, high nibble first.
pub open spec fn hex_text(bytes: Seq<u8>) -> Seq<char>
    decreases bytes.len(),
{
    if bytes.len() == 0 {
        seq![]
    } else {
        hex_text(bytes.drop_last()).push(hex_digit(bytes.last() as nat / 16)).push(
            hex_digit(bytes.last() as nat % 16),
        )
    }
}

/// `hex::encode`: each byte as two lowercase hex digits, high nibble
/// first.
#[verifier::external_body]
fn hex_encode(bytes: &[u8]) -> (r: String)
    ensures
        r@ == hex_text(bytes@),
{
    hex::encode(bytes)
}

/// The words of `s`: its maximal runs of non-whitespace chars.
pub open spec fn words(s: Seq<char>) -> Seq<Seq<char>>
    decreases s.len(),
{
    if s.len() == 0 {
        seq![]
    } else if is_ws(s[0]) {
        words(s.drop_first())
    } else {
        let w = word_len(s);
        proof {
            lemma_word_len_bound(s);
        }
        seq![s.take(w as int)] + words(s.skip(w as int))
    }
}

proof fn lemma_words_skip_ws(s: Seq<char>, k: int)
    requires
        0 <= k <= s.len(),
        forall|j: int| 0 <= j < k ==> is_ws(#[trigger] s[j]),
    ensures
        words(s) == words(s.skip(k)),
    decreases k,
{
    if k > 0 {
        assert(s.drop_first().skip(k - 1) =~= s.skip(k));
        lemma_words_skip_ws(s.drop_first(), k - 1);
    } else {
        assert(s.skip(0) =~= s);
    }
}

/// Length of the run of non-whitespace chars `s` opens with.
pub open spec fn word_len(s: Seq<char>) -> nat
    decreases s.len(),
{
    if s.len() > 0 && !is_ws(s[0]) {
        1 + word_len(s.drop_first())
    } else {
        0
    }
}

/// The words joined by single spaces.
pub open spec fn join_words(ws: Seq<Seq<char>>) -> Seq<char>
    decreases ws.len(),
{
    if ws.len() == 0 {
        seq![]
    } else if ws.len() == 1 {
        ws[0]
    } else {
        join_words(ws.drop_last()) + " "@ + ws.last()
    }
}

/// Whitespace collapsed to single spaces, leading and trailing trimmed.
pub open spec fn normalize_spec(text: Seq<char>) -> Seq<char> {
    join_words(words(text))
}

/// `sha256:` and the hex digest of `bytes`.
pub open spec fn hash_text(bytes: Seq<u8>) -> Seq<char> {
    "sha256:"@ + hex_text(sha256_of(bytes))
}

/// The content hash of a block's text: of its whitespace-normalized form.
pub open spec fn content_hash_of(text: Seq<char>) -> Seq<char> {
    hash_text(utf8(normalize_spec(text)))
}

proof fn lemma_word_len(s: Seq<char>, k: int)
    requires
        0 <= k <= s.len(),
        forall|j: int| 0 <= j < k ==> !is_ws(#[trigger] s[j]),
        k == s.len() || is_ws(s[k]),
    ensures
        word_len(s) == k,
    decreases k,
{
    if k > 0 {
        lemma_word_len(s.drop_first(), k - 1);
    }
}

pub proof fn lemma_word_len_bound(s: Seq<char>)
    ensures
        word_len(s) <= s.len(),
    decreases s.len(),
{
    if s.len() > 0 && !is_ws(s[0]) {
        lemma_word_len_bound(s.drop_first());
    }
}

/// `text.split_whitespace()` joined by single spaces.
fn normalize(text: &str) -> (r: String)
    ensures
        r@ == normalize_spec(text@),
{
    let cs = chars_of(text);
    let n = cs.len();
    let mut out: Vec<char> = Vec::new();
    let ghost mut done: Seq<Seq<char>> = seq![];
    let mut first = true;
    let mut i: usize = 0;
    proof {
        assert(text@.skip(0) =~= text@);
    }
    while i < n
        invariant
            n == cs@.len(),
            cs@ == text@,
            i <= n,
            words(text@) == done + words(text@.skip(i as int)),
            out@ == join_words(done),
            first == (done.len() == 0),
        decreases n - i,
    {
        let mut j = i;
        while j < n && is_whitespace(cs[j])
            invariant
                i <= j <= n,
                n == cs@.len(),
                forall|k: int| i <= k < j ==> is_ws(#[trigger] cs@[k]),
            decreases n - j,
        {
            j = j + 1;
        }
        let ghost rest = text@.skip(i as int);
        proof {
            assert forall|k: int| 0 <= k < j - i implies is_ws(#[trigger] rest[k]) by {
                assert(rest[k] == cs@[i + k]);
            }
            lemma_words_skip_ws(rest, j - i);
            assert(rest.skip(j - i) =~= text@.skip(j as int));
        }
        if j == n {
            proof {
                assert(text@.skip(j as int).len() == 0);
                assert(done + words(rest) =~= done);
            }
            i = n;
        } else {
            let mut k = j;
            while k < n && !is_whitespace(cs[k])
                invariant
                    j <= k <= n,
                    n == cs@.len(),
                    forall|m: int| j <= m < k ==> !is_ws(#[trigger] cs@[m]),
                decreases n - k,
            {
                k = k + 1;
            }
            let ghost t = text@.skip(j as int);
            proof {
                assert forall|m: int| 0 <= m < k - j implies !is_ws(#[trigger] t[m]) by {
                    assert(t[m] == cs@[j + m]);
                }
                lemma_word_len(t, k - j);
                assert(t.take(k - j) =~= cs@.subrange(j as int, k as int));
                assert(t.skip(k - j) =~= text@.skip(k as int));
                assert(!is_ws(t[0]));
                assert(words(rest) == seq![t.take(k - j)] + words(text@.skip(k as int)));
            }
            let ghost w = cs@.subrange(j as int, k as int);
            if !first {
                out.push(' ');
            }
            first = false;
            let mut word = slice_range(cs.as_slice(), j, k);
            out.append(&mut word);
            proof {
                if done.len() == 0 {
                    assert(out@ =~= w);
                    assert(join_words(done.push(w)) == w);
                } else {
                    assert(done.push(w).drop_last() =~= done);
                    assert(out@ =~= join_words(done) + " "@ + w) by {
                        reveal_strlit(" ");
                    }
                }
                assert(done + (seq![w] + words(text@.skip(k as int))) =~= done.push(w) + words(
                    text@.skip(k as int),
                ));
                done = done.push(w);
            }
            i = k;
        }
    }
    proof {
        assert(text@.skip(n as int) =~= Seq::<char>::empty());
        assert(words(Seq::<char>::empty()) =~= Seq::<Seq<char>>::empty());
        assert(done + Seq::<Seq<char>>::empty() =~= done);
    }
    string_of(out.as_slice())
}

fn hash_string(bytes: &[u8]) -> (r: String)
    ensures
        r@ == hash_text(bytes@),
{
    let digest = sha256(bytes);
    let hex = hex_encode(digest.as_slice());
    let mut r = string_from_str("sha256:");
    let hc = chars_of(hex.as_str());
    push_chars(&mut r, hc.as_slice());
    r
}

/// The canonical content hash of a block's text: whitespace-normalized
/// (runs collapsed to one space, ends trimmed), then `sha256:<hex>`.
pub fn content_hash(text: &str) -> (r: String)
    ensures
        r@ == content_hash_of(text@),
{
    let normalized = normalize(text);
    let bytes = utf8_bytes(normalized.as_str());
    hash_string(bytes.as_slice())
}

/// The hash of the full `.md` file content, `sha256:<hex>`.
pub fn file_hash(md: &str) -> (r: String)
    ensures
        r@ == hash_text(utf8(md@)),
{
    let bytes = utf8_bytes(md);
    hash_string(bytes.as_slice())
}

/// Two texts that differ only in whitespace layout hash alike.
pub proof fn lemma_content_hash_ignores_spacing(a: Seq<char>, b: Seq<char>)
    requires
        normalize_spec(a) == normalize_spec(b),
    ensures
        content_hash_of(a) == content_hash_of(b),
{
}

// ── block entries ────────────────────────────────────────────────────

/// One block entry in the sidecar.
#[derive(Clone, Debug, PartialEq, Eq)]
pub struct SidecarBlock {
    /// Block id.
    pub id: NodeId,
    /// 1-indexed line number in the `.md` at last sync.
    pub line: usize,
    /// Indent level (0 for top-level outline items).
    pub indent: u32,
    /// `sha256:<hex>` of the block's normalized text.
    pub content_hash: String,
    /// Short handle for `((blk-XXXXXX))` references; stable as long as the
    /// block keeps its id.
    pub ref_handle: String,
    /// The block's text as of the last sync, verbatim.
    pub text: String,
}

impl SidecarBlock {
    /// An entry for `text` at `line` / `indent`, with the content hash and
    /// the default ref handle derived from the same text and id.
    pub fn from_text(id: NodeId, line: usize, indent: u32, text: String) -> (r: Self)
        ensures
            r.id == id,
            r.line == line,
            r.indent == indent,
            r.content_hash@ == content_hash_of(text@),
            r.ref_handle@ == ref_handle_of(id.0),
            r.text@ == text@,
    {
        let content_hash = content_hash(text.as_str());
        let ref_handle = derive_ref_handle(id);
        SidecarBlock { id, line, indent, content_hash, ref_handle, text }
    }
}

// ── the payload ──────────────────────────────────────────────────────

/// Full sidecar payload.
#[derive(Clone, Debug, PartialEq, Eq)]
pub struct Sidecar {
    /// Format version. Always present.
    pub version: u32,
    /// Page id (also the root block id).
    pub page_id: NodeId,
    /// `sha256:<hex>` of the full `.md` at last sync.
    pub last_synced_hash: String,
    /// When the sidecar was last written: ISO 8601 (RFC 3339) with its
    /// UTC offset, as the JSON file carries it.
    pub last_synced_at: String,
    /// Block entries in depth-first preorder.
    pub blocks: Vec<SidecarBlock>,
    /// Reconcile-pipeline version that produced the tree state described.
    pub pipeline_version: u32,
}

/// `chrono::Local::now().fixed_offset()`, written as RFC 3339: the
/// current local time. What it holds depends on the clock; nothing is
/// stated of it.
#[verifier::external_body]
fn now_local() -> String {
    chrono::Local::now().fixed_offset().to_rfc3339()
}

impl Sidecar {
    /// An empty sidecar for a new page, stamped with the current format
    /// and pipeline versions and the current local time.
    pub fn new_for_page(page_id: NodeId, md_hash: &str) -> (r: Self)
        ensures
            r.version == SIDECAR_VERSION,
            r.page_id == page_id,
            r.last_synced_hash@ == md_hash@,
            r.blocks@.len() == 0,
            r.pipeline_version == CURRENT_PIPELINE_VERSION,
    {
        Sidecar {
            version: SIDECAR_VERSION,
            page_id,
            last_synced_hash: string_from_str(md_hash),
            last_synced_at: now_local(),
            blocks: Vec::new(),
            pipeline_version: CURRENT_PIPELINE_VERSION,
        }
    }
}

/// Whether a payload of `version` can be read.
pub open spec fn readable_version(version: u32) -> bool {
    MIN_READABLE_SIDECAR_VERSION <= version <= SIDECAR_VERSION
}

/// `a` is block `b` as reading upgrades it: a missing handle is derived
/// from the id, everything else (a missing text included) is kept.
pub open spec fn block_upgraded(a: SidecarBlock, b: SidecarBlock) -> bool {
    &&& a.id == b.id
    &&& a.line == b.line
    &&& a.indent == b.indent
    &&& a.content_hash@ == b.content_hash@
    &&& a.text@ == b.text@
    &&& a.ref_handle@ == if b.ref_handle@.len() == 0 {
        ref_handle_of(b.id.0)
    } else {
        b.ref_handle@
    }
}

/// `out` is payload `sc` as an accepted read leaves it.
pub open spec fn accepted(out: Sidecar, sc: Sidecar) -> bool {
    &&& out.version == SIDECAR_VERSION
    &&& out.page_id == sc.page_id
    &&& out.last_synced_hash@ == sc.last_synced_hash@
    &&& out.last_synced_at@ == sc.last_synced_at@
    &&& out.pipeline_version == sc.pipeline_version
    &&& out.blocks@.len() == sc.blocks@.len()
    &&& forall|i: int|
        0 <= i < sc.blocks@.len() ==> block_upgraded(#[trigger] out.blocks@[i], sc.blocks@[i])
}

/// Gate a freshly read payload: a version outside
/// `[MIN_READABLE_SIDECAR_VERSION, SIDECAR_VERSION]` is refused with that
/// version; an accepted one gets a handle derived for every block that
/// lacks one, and the current version number.
pub fn accept_read(sc: Sidecar) -> (r: Result<Sidecar, u32>)
    ensures
        !readable_version(sc.version) ==> r == Err::<Sidecar, u32>(sc.version),
        readable_version(sc.version) ==> (r matches Ok(out) && accepted(out, sc)),
{
    if sc.version < MIN_READABLE_SIDECAR_VERSION || sc.version > SIDECAR_VERSION {
        return Err(sc.version);
    }
    let mut sc = sc;
    let ghost orig = sc.blocks@;
    let mut blocks: Vec<SidecarBlock> = Vec::new();
    std::mem::swap(&mut blocks, &mut sc.blocks);
    let n = blocks.len();
    let mut out: Vec<SidecarBlock> = Vec::new();
    let mut rest = blocks;
    let mut back: Vec<SidecarBlock> = Vec::new();
    let mut i: usize = 0;
    while i < n
        invariant
            n == orig.len(),
            i <= n,
            rest@.len() == n - i,
            forall|j: int| 0 <= j < n - i ==> #[trigger] rest@[j] == orig[j],
            back@.len() == i,
            forall|j: int| 0 <= j < i ==> #[trigger] back@[j] == orig[n - 1 - j],
        decreases n - i,
    {
        let b = rest.pop().unwrap();
        back.push(b);
        i = i + 1;
    }
    let mut i: usize = 0;
    while i < n
        invariant
            n == orig.len(),
            i <= n,
            back@.len() == n - i,
            forall|j: int| 0 <= j < n - i ==> #[trigger] back@[j] == orig[n - 1 - j],
            out@.len() == i,
            forall|j: int| 0 <= j < i ==> block_upgraded(#[trigger] out@[j], orig[j]),
        decreases n - i,
    {
        let mut b = back.pop().unwrap();
        let handle = chars_of(b.ref_handle.as_str());
        if handle.len() == 0 {
            b.ref_handle = derive_ref_handle(b.id);
        }
        out.push(b);
        i = i + 1;
    }
    sc.blocks = out;
    sc.version = SIDECAR_VERSION;
    Ok(sc)
}

// ── paths ────────────────────────────────────────────────────────────

/// What `Path::parent` gives for `path`, as text.
pub uninterp spec fn path_parent_of(path: Seq<char>) -> Option<Seq<char>>;

/// What `Path::file_stem` gives for `path`, as text.
pub uninterp spec fn path_file_stem_of(path: Seq<char>) -> Option<Seq<char>>;

/// What `Path::join` gives for `base` and `name`, as text. The separator
/// it inserts is the build target's (`/` on Unix, `\` on Windows), so the
/// name stands for the join of the platform the crate is built for, as
/// `usize` stands for its width.
pub uninterp spec fn path_join_of(base: Seq<char>, name: Seq<char>) -> Seq<char>;

pub open spec fn opt_text(o: Option<String>) -> Option<Seq<char>> {
    match o {
        Some(s) => Some(s@),
        None => None,
    }
}

/// `std::path::Path::parent`, as text.
#[verifier::external_body]
fn path_parent(path: &str) -> (r: Option<String>)
    ensures
        opt_text(r) == path_parent_of(path@),
{
    match std::path::Path::new(path).parent() {
        Some(p) => Some(p.to_string_lossy().to_string()),
        None => None,
    }
}

/// `std::path::Path::file_stem`, as text.
#[verifier::external_body]
fn path_file_stem(path: &str) -> (r: Option<String>)
    ensures
        opt_text(r) == path_file_stem_of(path@),
{
    match std::path::Path::new(path).file_stem() {
        Some(s) => Some(s.to_string_lossy().to_string()),
        None => None,
    }
}

/// `std::path::Path::join`, as text.
#[verifier::external_body]
fn path_join(base: &str, name: &str) -> (r: String)
    ensures
        r@ == path_join_of(base@, name@),
{
    std::path::Path::new(base).join(name).to_string_lossy().to_string()
}

/// The directory of `md_path`, or `.` when it has none.
pub open spec fn dir_of(md_path: Seq<char>) -> Seq<char> {
    match path_parent_of(md_path) {
        Some(p) => p,
        None => "."@,
    }
}

/// The file stem of `md_path`, or `untitled` when it has none.
pub open spec fn stem_of(md_path: Seq<char>) -> Seq<char> {
    match path_file_stem_of(md_path) {
        Some(s) => s,
        None => "untitled"@,
    }
}

fn dir_and_stem(md_path: &str) -> (r: (String, String))
    ensures
        r.0@ == dir_of(md_path@),
        r.1@ == stem_of(md_path@),
{
    let parent = match path_parent(md_path) {
        Some(p) => p,
        None => string_from_str("."),
    };
    let stem = match path_file_stem(md_path) {
        Some(s) => s,
        None => string_from_str("untitled"),
    };
    (parent, stem)
}

/// The sidecar path for a `.md` path: `pages/foo.md` → `pages/foo.outl`,
/// visible next to its `.md`, the `.md` extension dropped.
pub fn sidecar_path_for(md_path: &str) -> (r: String)
    ensures
        r@ == path_join_of(dir_of(md_path@), stem_of(md_path@) + ".outl"@),
{
    let (parent, stem) = dir_and_stem(md_path);
    let mut name = stem;
    let ext = chars_of(".outl");
    push_chars(&mut name, ext.as_slice());
    path_join(parent.as_str(), name.as_str())
}

/// The dotted sidecar path older builds used: `pages/.foo.outl`.
pub fn legacy_sidecar_path_for(md_path: &str) -> (r: String)
    ensures
        r@ == path_join_of(dir_of(md_path@), "."@ + stem_of(md_path@) + ".outl"@),
{
    let (parent, stem) = dir_and_stem(md_path);
    let mut name = string_from_str(".");
    let sc = chars_of(stem.as_str());
    push_chars(&mut name, sc.as_slice());
    let ext = chars_of(".outl");
    push_chars(&mut name, ext.as_slice());
    path_join(parent.as_str(), name.as_str())
}

} // verus!
