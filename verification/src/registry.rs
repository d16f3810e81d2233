//! Plugin registry: the index of published plugins, searched locally, and
//! the marketplace rows a client lists.
//!
//! Fetching the index and installing a plugin are network and disk work
//! for the caller; what the index holds and how a query matches it live
//! here.

use vstd::prelude::*;

use crate::text::{chars_of, concat3, contains_chars, eq_chars, contains_seq, to_lowercase, trim, trim_chars, unicode_lower};

verus! {

/// Where the official registry index lives.
pub const DEFAULT_REGISTRY_URL: &'static str = "https://plugins.outl.app/registry.json";

/// Base URL of the official registry's per-plugin files.
pub const DEFAULT_REGISTRY_BASE: &'static str = "https://plugins.outl.app";

/// The registry index: every published plugin.
#[derive(Debug, Clone)]
pub struct RegistryIndex {
    /// Index format version.
    pub version: u32,
    /// When the index was last regenerated.
    pub updated: Option<String>,
    /// Every published plugin.
    pub plugins: Vec<RegistryEntry>,
}

/// One published plugin.
#[derive(Debug, Clone)]
pub struct RegistryEntry {
    pub id: String,
    pub name: String,
    pub description: String,
    pub author: Option<String>,
    /// Where the plugin's source lives (`github:owner/repo/...`).
    pub repository: String,
    pub category: Option<String>,
    pub keywords: Vec<String>,
    pub capabilities: Vec<String>,
    pub permissions: Vec<String>,
    /// Latest published version.
    pub latest: Option<String>,
    pub versions: Vec<String>,
}

/// A registry failure, by stage.
#[derive(Debug, Clone, PartialEq, Eq)]
pub enum RegistryError {
    Parse(String),
    Fetch(String),
    Install(String),
}

impl RegistryError {
    /// The text the error displays as.
    pub fn message(&self) -> (r: String)
        ensures
            r@ == match self {
                RegistryError::Parse(m) => "registry parse error: "@ + m@,
                RegistryError::Fetch(m) => "registry fetch error: "@ + m@,
                RegistryError::Install(m) => "registry install error: "@ + m@,
            },
    {
        match self {
            RegistryError::Parse(m) => with_lead("registry parse error: ", m),
            RegistryError::Fetch(m) => with_lead("registry fetch error: ", m),
            RegistryError::Install(m) => with_lead("registry install error: ", m),
        }
    }
}

fn with_lead(lead: &str, m: &String) -> (r: String)
    ensures
        r@ == lead@ + m@,
{
    let mut r = crate::text::string_from_str(lead);
    let mc = chars_of(m.as_str());
    crate::text::push_chars(&mut r, mc.as_slice());
    r
}

/// `s` lowercased contains `q`.
pub open spec fn lower_has(s: Seq<char>, q: Seq<char>) -> bool {
    contains_seq(unicode_lower(s), q)
}

/// Whether entry `e` matches the lowercased query `q`: in its id, name,
/// description, category or any keyword, case-insensitively.
pub open spec fn entry_matches(e: RegistryEntry, q: Seq<char>) -> bool {
    ||| lower_has(e.id@, q)
    ||| lower_has(e.name@, q)
    ||| lower_has(e.description@, q)
    ||| (e.category matches Some(c) && lower_has(c@, q))
    ||| exists|k: int| 0 <= k < e.keywords@.len() && lower_has(#[trigger] e.keywords@[k]@, q)
}

/// The query as matching reads it: trimmed and lowercased.
pub open spec fn query_fold(query: Seq<char>) -> Seq<char> {
    unicode_lower(trim(query))
}

/// Search looks in every text field of an entry, case-insensitively: an
/// entry matches a query exactly when the trimmed, lowercased query occurs
/// in the lowercased id, name, description, category or one of the
/// keywords.
pub proof fn lemma_search_reads_every_field(e: RegistryEntry, query: Seq<char>)
    ensures
        entry_matches(e, query_fold(query)) <==> {
            let q = unicode_lower(trim(query));
            ||| contains_seq(unicode_lower(e.id@), q)
            ||| contains_seq(unicode_lower(e.name@), q)
            ||| contains_seq(unicode_lower(e.description@), q)
            ||| (e.category matches Some(c) && contains_seq(unicode_lower(c@), q))
            ||| exists|k: int|
                0 <= k < e.keywords@.len() && contains_seq(unicode_lower(#[trigger] e.keywords@[k]@), q)
        },
{
}

fn lower_contains(s: &str, q: &Vec<char>) -> (r: bool)
    ensures
        r == lower_has(s@, q@),
{
    let l = to_lowercase(s);
    let lc = chars_of(l.as_str());
    contains_chars(lc.as_slice(), q.as_slice())
}

impl RegistryEntry {
    /// Whether this entry matches the lowercased query `q`.
    fn matches(&self, q: &Vec<char>) -> (r: bool)
        ensures
            r == entry_matches(*self, q@),
    {
        if lower_contains(self.id.as_str(), q) || lower_contains(self.name.as_str(), q)
            || lower_contains(self.description.as_str(), q) {
            return true;
        }
        if let Some(c) = &self.category {
            if lower_contains(c.as_str(), q) {
                return true;
            }
        }
        let n = self.keywords.len();
        let mut i: usize = 0;
        while i < n
            invariant
                n == self.keywords@.len(),
                i <= n,
                forall|k: int| 0 <= k < i ==> !lower_has(#[trigger] self.keywords@[k]@, q@),
            decreases n - i,
        {
            if lower_contains(self.keywords[i].as_str(), q) {
                return true;
            }
            i = i + 1;
        }
        false
    }
}

pub open spec fn entry_refs(r: Seq<&RegistryEntry>) -> Seq<RegistryEntry> {
    r.map_values(|e: &RegistryEntry| *e)
}

impl RegistryIndex {
    /// The plugins matching `query` — trimmed, case-insensitive, in id,
    /// name, description, category or keywords — in index order. An
    /// empty query matches every plugin.
    pub fn search(&self, query: &str) -> (r: Vec<&RegistryEntry>)
        ensures
            entry_refs(r@) == self.plugins@.filter(
                |e: RegistryEntry| entry_matches(e, query_fold(query@)),
            ),
    {
        let qc = chars_of(query);
        let t = trim_chars(qc.as_slice());
        let ts = crate::text::string_of(t.as_slice());
        let ql = to_lowercase(ts.as_str());
        let q = chars_of(ql.as_str());
        let ghost pred = |e: RegistryEntry| entry_matches(e, query_fold(query@));
        let n = self.plugins.len();
        let mut out: Vec<&RegistryEntry> = Vec::new();
        let mut i: usize = 0;
        proof {
            reveal(Seq::filter);
            assert(self.plugins@.take(0) =~= Seq::<RegistryEntry>::empty());
            assert(entry_refs(out@) =~= Seq::<RegistryEntry>::empty());
        }
        while i < n
            invariant
                n == self.plugins@.len(),
                i <= n,
                q@ == query_fold(query@),
                pred == (|e: RegistryEntry| entry_matches(e, query_fold(query@))),
                entry_refs(out@) == self.plugins@.take(i as int).filter(pred),
            decreases n - i,
        {
            let e = &self.plugins[i];
            proof {
                reveal(Seq::filter);
                assert(self.plugins@.take(i + 1).drop_last() =~= self.plugins@.take(i as int));
                assert(self.plugins@.take(i + 1).last() == *e);
            }
            if e.matches(&q) {
                proof {
                    assert(entry_refs(out@.push(e)) =~= entry_refs(out@).push(*e));
                }
                out.push(e);
            }
            i = i + 1;
        }
        proof {
            assert(self.plugins@.take(n as int) =~= self.plugins@);
        }
        out
    }
}

/// A registry entry joined with its local install state, for a
/// marketplace list.
#[derive(Debug, Clone)]
pub struct MarketplaceItem {
    pub id: String,
    pub name: String,
    pub description: String,
    pub author: Option<String>,
    pub category: Option<String>,
    pub capabilities: Vec<String>,
    pub permissions: Vec<String>,
    pub latest: Option<String>,
    /// Whether the plugin is installed locally.
    pub installed: bool,
    /// Whether it is installed and enabled.
    pub enabled: bool,
}

/// The marketplace row for `e`; `install` is the entry's local install
/// record — `Some(enabled)` when installed, `None` when not.
pub fn marketplace_item(e: RegistryEntry, install: Option<bool>) -> (r: MarketplaceItem)
    ensures
        r.id == e.id,
        r.name == e.name,
        r.description == e.description,
        r.author == e.author,
        r.category == e.category,
        r.capabilities == e.capabilities,
        r.permissions == e.permissions,
        r.latest == e.latest,
        r.installed == install is Some,
        r.enabled == (install == Some(true)),
{
    MarketplaceItem {
        installed: install.is_some(),
        enabled: match install {
            Some(en) => en,
            None => false,
        },
        id: e.id,
        name: e.name,
        description: e.description,
        author: e.author,
        category: e.category,
        capabilities: e.capabilities,
        permissions: e.permissions,
        latest: e.latest,
    }
}


/// One installed plugin as the local lockfile records it. The lockfile
/// keys its records by plugin id, so a well-formed record list holds each
/// id once ([`install_records_wf`]).
#[derive(Debug, Clone)]
pub struct InstallRecord {
    pub id: String,
    pub enabled: bool,
}

/// No plugin id occurs in two records.
pub open spec fn install_records_wf(installed: Seq<InstallRecord>) -> bool {
    forall|i: int, j: int|
        0 <= i < j < installed.len() ==> (#[trigger] installed[i]).id@ != (#[trigger] installed[j]).id@
}

/// In a well-formed record list the record found for `id` is the only
/// one: any record with that id sits at [`install_pos`], so the lookup is
/// the lockfile's lookup by key.
pub proof fn lemma_install_pos_unique(installed: Seq<InstallRecord>, id: Seq<char>, j: int)
    requires
        install_records_wf(installed),
        0 <= j < installed.len(),
        installed[j].id@ == id,
    ensures
        install_pos(installed, id) == j,
{
    lemma_install_pos(installed, id);
    let p = install_pos(installed, id);
    if p >= 0 && p != j {
        if p < j {
            assert(installed[p].id@ != installed[j].id@);
        } else {
            assert(installed[j].id@ != installed[p].id@);
        }
    }
}

/// Position of the first record for plugin `id`, or `-1` when none is.
pub open spec fn install_pos(installed: Seq<InstallRecord>, id: Seq<char>) -> int
    decreases installed.len(),
{
    if installed.len() == 0 {
        -1
    } else {
        let before = install_pos(installed.drop_last(), id);
        if before >= 0 {
            before
        } else if installed.last().id@ == id {
            installed.len() - 1
        } else {
            -1
        }
    }
}

/// The local install record of plugin `id`: `Some(enabled)` when it is
/// installed, `None` when not.
pub open spec fn install_of(installed: Seq<InstallRecord>, id: Seq<char>) -> Option<bool> {
    let p = install_pos(installed, id);
    if p >= 0 {
        Some(installed[p].enabled)
    } else {
        None
    }
}

/// `install_pos` is the first position whose record has `id`.
pub proof fn lemma_install_pos(installed: Seq<InstallRecord>, id: Seq<char>)
    ensures
        -1 <= install_pos(installed, id) < installed.len(),
        install_pos(installed, id) >= 0 ==> installed[install_pos(installed, id)].id@ == id,
        forall|j: int|
            0 <= j < installed.len() && (j < install_pos(installed, id) || install_pos(installed, id)
                < 0) ==> (#[trigger] installed[j]).id@ != id,
    decreases installed.len(),
{
    if installed.len() > 0 {
        let init = installed.drop_last();
        lemma_install_pos(init, id);
        let p = install_pos(installed, id);
        assert forall|j: int|
            0 <= j < installed.len() && (j < p || p < 0) implies (#[trigger] installed[j]).id@
            != id by {
            if j < init.len() {
                assert(init[j] == installed[j]);
            }
        }
    }
}

/// The marketplace rows for every plugin of `index`, in index order, each
/// joined with its record in `installed` (the local lockfile).
pub fn marketplace_list(index: RegistryIndex, installed: &Vec<InstallRecord>) -> (r: Vec<
    MarketplaceItem,
>)
    ensures
        r@.len() == index.plugins@.len(),
        forall|i: int|
            0 <= i < r@.len() ==> {
                let e = index.plugins@[i];
                let it = #[trigger] r@[i];
                let ins = install_of(installed@, e.id@);
                &&& it.id == e.id
                &&& it.name == e.name
                &&& it.description == e.description
                &&& it.author == e.author
                &&& it.category == e.category
                &&& it.capabilities == e.capabilities
                &&& it.permissions == e.permissions
                &&& it.latest == e.latest
                &&& it.installed == ins is Some
                &&& it.enabled == (ins == Some(true))
            },
{
    let ghost orig = index.plugins@;
    let mut plugins = index.plugins;
    let mut out: Vec<MarketplaceItem> = Vec::new();
    let n = plugins.len();
    let mut k: usize = 0;
    while k < n
        invariant
            n == orig.len(),
            k <= n,
            plugins@ == orig.skip(k as int),
            out@.len() == k,
            forall|i: int|
                0 <= i < k ==> {
                    let e = orig[i];
                    let it = #[trigger] out@[i];
                    let ins = install_of(installed@, e.id@);
                    &&& it.id == e.id
                    &&& it.name == e.name
                    &&& it.description == e.description
                    &&& it.author == e.author
                    &&& it.category == e.category
                    &&& it.capabilities == e.capabilities
                    &&& it.permissions == e.permissions
                    &&& it.latest == e.latest
                    &&& it.installed == ins is Some
                    &&& it.enabled == (ins == Some(true))
                },
        decreases n - k,
    {
        let e = plugins.remove(0);
        proof {
            assert(e == orig[k as int]);
            assert(plugins@ =~= orig.skip(k + 1));
        }
        let ins = find_install(installed, e.id.as_str());
        out.push(marketplace_item(e, ins));
        k = k + 1;
    }
    out
}

/// The install record of plugin `id` in `installed`.
fn find_install(installed: &Vec<InstallRecord>, id: &str) -> (r: Option<bool>)
    ensures
        r == install_of(installed@, id@),
{
    match first_install(installed, id) {
        Some(i) => Some(installed[i].enabled),
        None => None,
    }
}

/// Position of the first record for `id`.
fn first_install(installed: &Vec<InstallRecord>, id: &str) -> (r: Option<usize>)
    ensures
        match r {
            Some(i) => i < installed@.len() && install_pos(installed@, id@) == i as int,
            None => install_pos(installed@, id@) < 0,
        },
{
    let want = chars_of(id);
    let n = installed.len();
    let mut i: usize = 0;
    proof {
        lemma_install_pos(installed@, id@);
    }
    while i < n
        invariant
            n == installed@.len(),
            i <= n,
            want@ == id@,
            forall|j: int| 0 <= j < i ==> (#[trigger] installed@[j]).id@ != id@,
            -1 <= install_pos(installed@, id@) < installed@.len(),
            install_pos(installed@, id@) >= 0 ==> installed@[install_pos(installed@, id@)].id@ == id@,
            forall|j: int|
                0 <= j < installed@.len() && (j < install_pos(installed@, id@) || install_pos(
                    installed@,
                    id@,
                ) < 0) ==> (#[trigger] installed@[j]).id@ != id@,
        decreases n - i,
    {
        let rid = chars_of(installed[i].id.as_str());
        if eq_chars(rid.as_slice(), want.as_slice()) {
            proof {
                let p = install_pos(installed@, id@);
                if p >= 0 && p != i {
                    assert(installed@[p].id@ == id@);
                }
            }
            return Some(i);
        }
        i = i + 1;
    }
    None
}

/// Turn plugin `id` on or off in the install records. A plugin that is not
/// installed is an `Install` error naming it, and the records stay as they
/// were; otherwise its record (the first, the only one in a well-formed
/// list) takes the new flag and nothing else changes, so a well-formed
/// list stays well formed.
pub fn set_enabled(installed: &mut Vec<InstallRecord>, id: &str, enabled: bool) -> (r: Result<
    (),
    RegistryError,
>)
    ensures
        install_records_wf(old(installed)@) ==> install_records_wf(final(installed)@),
        match r {
            Ok(()) => install_pos(old(installed)@, id@) >= 0 && final(installed)@ == old(
                installed,
            )@.update(
                install_pos(old(installed)@, id@),
                InstallRecord {
                    id: old(installed)@[install_pos(old(installed)@, id@)].id,
                    enabled,
                },
            ),
            Err(e) => {
                &&& install_pos(old(installed)@, id@) < 0
                &&& final(installed)@ == old(installed)@
                &&& e matches RegistryError::Install(m)
                &&& m@ == "`"@ + id@ + "` is not installed"@
            },
        },
{
    match first_install(installed, id) {
        Some(i) => {
            let mut rec = installed.remove(i);
            rec.enabled = enabled;
            installed.insert(i, rec);
            proof {
                assert(installed@ =~= old(installed)@.update(
                    i as int,
                    InstallRecord { id: old(installed)@[i as int].id, enabled },
                ));
            }
            Ok(())
        },
        None => {
            let idc = chars_of(id);
            Err(RegistryError::Install(concat3("`", idc.as_slice(), "` is not installed")))
        },
    }
}

} // verus!
