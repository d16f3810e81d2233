//! What a client lists from the plugins it has loaded: the commands for its
//! palette, its toolbar buttons, the content transformers it may call, and
//! the capabilities a plugin asked for that the client cannot honour.
//!
//! A loaded plugin appears here as the data these lists read: its id, the
//! capabilities granted and missing on this client, and what its manifest
//! contributes.

use vstd::prelude::*;

use crate::plugin_model::{CommandEntry, ToolbarButtonEntry, TransformerEntry};
use crate::text::{chars_of, eq_chars, eq_lit};

verus! {

/// A capability a plugin can declare and a client can grant.
#[derive(Debug, Clone, Copy, PartialEq, Eq, Structural)]
pub enum Capability {
    /// Contributes palette / slash commands.
    SlashCommand,
    /// Contributes keybindings.
    Keybinding,
    /// Contributes toolbar buttons.
    ToolbarButton,
    /// Renders code fences as text.
    ContentTransformerText,
    /// Renders code fences as rich content.
    ContentTransformerRich,
    /// Hears applied ops.
    OpHook,
    /// Renders its own views.
    UiRender,
    /// Carries ops to and from a remote.
    SyncTransport,
}

/// A command a manifest contributes.
#[derive(Debug, Clone)]
pub struct CommandContribution {
    pub id: String,
    pub title: String,
}

/// A toolbar button a manifest contributes; `when` names the only client
/// that shows it.
#[derive(Debug, Clone)]
pub struct ToolbarContribution {
    pub command: String,
    pub icon: String,
    pub title: Option<String>,
    pub when: Option<String>,
}

/// A content transformer a manifest contributes: `kind` is `"text"` or
/// `"rich"`.
#[derive(Debug, Clone)]
pub struct TransformerContribution {
    pub lang: String,
    pub kind: String,
}

/// One loaded plugin, as the client's lists see it.
#[derive(Debug, Clone)]
pub struct LoadedPlugin {
    /// Manifest id.
    pub id: String,
    /// Declared capabilities this client granted.
    pub granted: Vec<Capability>,
    /// Declared capabilities this client cannot honour.
    pub missing: Vec<Capability>,
    pub commands: Vec<CommandContribution>,
    pub toolbar: Vec<ToolbarContribution>,
    pub transformers: Vec<TransformerContribution>,
}

/// `p` holds capability `c` on this client.
pub open spec fn has(p: LoadedPlugin, c: Capability) -> bool {
    p.granted@.contains(c)
}

/// The palette entries of `p`'s first `n` commands.
pub open spec fn command_entries(p: LoadedPlugin, n: int) -> Seq<CommandEntry>
    decreases n,
{
    if n <= 0 || n > p.commands@.len() {
        Seq::empty()
    } else {
        let c = p.commands@[n - 1];
        command_entries(p, n - 1).push(CommandEntry { plugin_id: p.id, command_id: c.id, title: c.title })
    }
}

/// `p`'s palette entries: all its commands when it holds `SlashCommand`.
pub open spec fn plugin_commands(p: LoadedPlugin) -> Seq<CommandEntry> {
    if has(p, Capability::SlashCommand) {
        command_entries(p, p.commands@.len() as int)
    } else {
        Seq::empty()
    }
}

/// The palette: every plugin's entries, in load order.
pub open spec fn all_commands(ps: Seq<LoadedPlugin>) -> Seq<CommandEntry>
    decreases ps.len(),
{
    if ps.len() == 0 {
        Seq::empty()
    } else {
        all_commands(ps.drop_last()) + plugin_commands(ps.last())
    }
}

/// A contribution limited by `when` shows only on the client it names.
pub open spec fn shown_on(when: Option<String>, client: Seq<char>) -> bool {
    match when {
        Some(w) => w@ == client,
        None => true,
    }
}

/// The toolbar buttons of `p`'s first `n` toolbar contributions that show
/// on `client`.
pub open spec fn toolbar_entries(p: LoadedPlugin, n: int, client: Seq<char>) -> Seq<ToolbarButtonEntry>
    decreases n,
{
    if n <= 0 || n > p.toolbar@.len() {
        Seq::empty()
    } else {
        let t = p.toolbar@[n - 1];
        let rest = toolbar_entries(p, n - 1, client);
        if shown_on(t.when, client) {
            rest.push(
                ToolbarButtonEntry { plugin_id: p.id, command_id: t.command, icon: t.icon, title: t.title },
            )
        } else {
            rest
        }
    }
}

/// `p`'s toolbar buttons on `client`, when it holds `ToolbarButton`.
pub open spec fn plugin_toolbar(p: LoadedPlugin, client: Seq<char>) -> Seq<ToolbarButtonEntry> {
    if has(p, Capability::ToolbarButton) {
        toolbar_entries(p, p.toolbar@.len() as int, client)
    } else {
        Seq::empty()
    }
}

/// Every plugin's toolbar buttons on `client`, in load order.
pub open spec fn all_toolbar(ps: Seq<LoadedPlugin>, client: Seq<char>) -> Seq<ToolbarButtonEntry>
    decreases ps.len(),
{
    if ps.len() == 0 {
        Seq::empty()
    } else {
        all_toolbar(ps.drop_last(), client) + plugin_toolbar(ps.last(), client)
    }
}

/// The capability a transformer of `kind` needs.
pub open spec fn transformer_cap(kind: Seq<char>) -> Capability {
    if kind == "rich"@ {
        Capability::ContentTransformerRich
    } else {
        Capability::ContentTransformerText
    }
}

/// The entries of `p`'s first `n` transformers whose capability `p` holds.
pub open spec fn transformer_entries(p: LoadedPlugin, n: int) -> Seq<TransformerEntry>
    decreases n,
{
    if n <= 0 || n > p.transformers@.len() {
        Seq::empty()
    } else {
        let t = p.transformers@[n - 1];
        let rest = transformer_entries(p, n - 1);
        if has(p, transformer_cap(t.kind@)) {
            rest.push(TransformerEntry { plugin_id: p.id, lang: t.lang, kind: t.kind })
        } else {
            rest
        }
    }
}

/// Every granted transformer, in load order.
pub open spec fn all_transformers(ps: Seq<LoadedPlugin>) -> Seq<TransformerEntry>
    decreases ps.len(),
{
    if ps.len() == 0 {
        Seq::empty()
    } else {
        all_transformers(ps.drop_last()) + transformer_entries(ps.last(), ps.last().transformers@.len() as int)
    }
}

proof fn lemma_command_entries_from(p: LoadedPlugin, n: int)
    requires
        0 <= n <= p.commands@.len(),
    ensures
        command_entries(p, n).len() == n,
        forall|k: int|
            0 <= k < n ==> #[trigger] command_entries(p, n)[k] == (CommandEntry {
                plugin_id: p.id,
                command_id: p.commands@[k].id,
                title: p.commands@[k].title,
            }),
    decreases n,
{
    if n > 0 {
        lemma_command_entries_from(p, n - 1);
        assert forall|k: int| 0 <= k < n implies #[trigger] command_entries(p, n)[k] == (CommandEntry {
            plugin_id: p.id,
            command_id: p.commands@[k].id,
            title: p.commands@[k].title,
        }) by {
            if k < n - 1 {
                assert(command_entries(p, n)[k] == command_entries(p, n - 1)[k]);
            }
        }
    }
}

/// `e` is command `c` of loaded plugin `i`, and that plugin holds
/// `SlashCommand`.
pub open spec fn granted_command(ps: Seq<LoadedPlugin>, e: CommandEntry) -> bool {
    exists|i: int, c: int|
        #![trigger ps[i].commands@[c]]
        0 <= i < ps.len() && has(ps[i], Capability::SlashCommand) && 0 <= c < ps[i].commands@.len() && e
            == (CommandEntry {
            plugin_id: ps[i].id,
            command_id: ps[i].commands@[c].id,
            title: ps[i].commands@[c].title,
        })
}

/// The palette holds only commands of plugins granted `SlashCommand`, and
/// all of them: every entry is a command contributed by a loaded plugin
/// holding the capability, under that plugin's id and the command's own id
/// and title, and there are exactly as many entries as the granted
/// plugins contribute commands.
pub proof fn lemma_palette_is_the_granted_commands(ps: Seq<LoadedPlugin>)
    ensures
        forall|k: int| 0 <= k < all_commands(ps).len() ==> granted_command(ps, #[trigger] all_commands(ps)[k]),
        all_commands(ps).len() == plugin_command_count(ps),
    decreases ps.len(),
{
    if ps.len() > 0 {
        let init = ps.drop_last();
        let p = ps.last();
        lemma_palette_is_the_granted_commands(init);
        lemma_command_entries_from(p, p.commands@.len() as int);
        let before = all_commands(init);
        let all = all_commands(ps);
        assert forall|k: int| 0 <= k < all.len() implies granted_command(ps, #[trigger] all[k]) by {
            if k < before.len() {
                assert(all[k] == before[k]);
                assert(granted_command(init, before[k]));
                let (i, c) = choose|i: int, c: int|
                    #![trigger init[i].commands@[c]]
                    0 <= i < init.len() && has(init[i], Capability::SlashCommand) && 0 <= c
                        < init[i].commands@.len() && before[k] == (CommandEntry {
                        plugin_id: init[i].id,
                        command_id: init[i].commands@[c].id,
                        title: init[i].commands@[c].title,
                    });
                assert(init[i] == ps[i]);
                assert(ps[i].commands@[c] == init[i].commands@[c]);
            } else {
                let c = k - before.len();
                let i = ps.len() - 1;
                assert(all[k] == plugin_commands(p)[c]);
                assert(ps[i] == p);
                assert(ps[i].commands@[c] == p.commands@[c]);
            }
        }
    }
}

/// How many palette entries the loaded plugins give: each plugin holding
/// `SlashCommand` one per command it contributes.
pub open spec fn plugin_command_count(ps: Seq<LoadedPlugin>) -> nat
    decreases ps.len(),
{
    if ps.len() == 0 {
        0
    } else {
        plugin_command_count(ps.drop_last()) + if has(ps.last(), Capability::SlashCommand) {
            ps.last().commands@.len()
        } else {
            0
        }
    }
}

fn holds(p: &LoadedPlugin, c: Capability) -> (r: bool)
    ensures
        r == has(*p, c),
{
    let n = p.granted.len();
    let mut i: usize = 0;
    while i < n
        invariant
            n == p.granted@.len(),
            i <= n,
            forall|j: int| 0 <= j < i ==> p.granted@[j] != c,
        decreases n - i,
    {
        if p.granted[i] == c {
            proof {
                assert(p.granted@[i as int] == c);
            }
            return true;
        }
        i = i + 1;
    }
    false
}

fn clone_opt(s: &Option<String>) -> (r: Option<String>)
    ensures
        r == *s,
{
    match s {
        Some(v) => Some(v.clone()),
        None => None,
    }
}

/// Every command contributed by a loaded plugin that holds `SlashCommand`,
/// in load order: what a client's palette offers.
pub fn commands(plugins: &Vec<LoadedPlugin>) -> (r: Vec<CommandEntry>)
    ensures
        r@ == all_commands(plugins@),
{
    let mut out: Vec<CommandEntry> = Vec::new();
    let n = plugins.len();
    let mut i: usize = 0;
    while i < n
        invariant
            n == plugins@.len(),
            i <= n,
            out@ == all_commands(plugins@.take(i as int)),
        decreases n - i,
    {
        let p = &plugins[i];
        proof {
            assert(plugins@.take(i + 1).drop_last() =~= plugins@.take(i as int));
            assert(plugins@.take(i + 1).last() == *p);
        }
        if holds(p, Capability::SlashCommand) {
            let m = p.commands.len();
            let mut j: usize = 0;
            let ghost before = out@;
            while j < m
                invariant
                    m == p.commands@.len(),
                    j <= m,
                    out@ == before + command_entries(*p, j as int),
                decreases m - j,
            {
                let c = &p.commands[j];
                out.push(
                    CommandEntry { plugin_id: p.id.clone(), command_id: c.id.clone(), title: c.title.clone() },
                );
                j = j + 1;
                proof {
                    assert(out@ =~= before + command_entries(*p, j as int));
                }
            }
        } else {
            proof {
                assert(out@ =~= out@ + plugin_commands(*p));
            }
        }
        i = i + 1;
    }
    proof {
        assert(plugins@.take(n as int) =~= plugins@);
    }
    out
}

/// Every toolbar button contributed for `client` (`"tui"`, `"desktop"`,
/// `"mobile"`) by a loaded plugin that holds `ToolbarButton`, in load
/// order. A button whose `when` names another client is left out.
pub fn toolbar_buttons(plugins: &Vec<LoadedPlugin>, client: &str) -> (r: Vec<ToolbarButtonEntry>)
    ensures
        r@ == all_toolbar(plugins@, client@),
{
    let cc = chars_of(client);
    let mut out: Vec<ToolbarButtonEntry> = Vec::new();
    let n = plugins.len();
    let mut i: usize = 0;
    while i < n
        invariant
            cc@ == client@,
            n == plugins@.len(),
            i <= n,
            out@ == all_toolbar(plugins@.take(i as int), client@),
        decreases n - i,
    {
        let p = &plugins[i];
        proof {
            assert(plugins@.take(i + 1).drop_last() =~= plugins@.take(i as int));
            assert(plugins@.take(i + 1).last() == *p);
        }
        if holds(p, Capability::ToolbarButton) {
            let m = p.toolbar.len();
            let mut j: usize = 0;
            let ghost before = out@;
            while j < m
                invariant
                    cc@ == client@,
                    m == p.toolbar@.len(),
                    j <= m,
                    out@ == before + toolbar_entries(*p, j as int, client@),
                decreases m - j,
            {
                let t = &p.toolbar[j];
                let shown = match &t.when {
                    Some(w) => {
                        let wc = chars_of(w.as_str());
                        eq_chars(wc.as_slice(), cc.as_slice())
                    },
                    None => true,
                };
                if shown {
                    out.push(
                        ToolbarButtonEntry {
                            plugin_id: p.id.clone(),
                            command_id: t.command.clone(),
                            icon: t.icon.clone(),
                            title: clone_opt(&t.title),
                        },
                    );
                }
                j = j + 1;
                proof {
                    assert(out@ =~= before + toolbar_entries(*p, j as int, client@));
                }
            }
        } else {
            proof {
                assert(out@ =~= out@ + plugin_toolbar(*p, client@));
            }
        }
        i = i + 1;
    }
    proof {
        assert(plugins@.take(n as int) =~= plugins@);
    }
    out
}

/// Every content transformer a client may call, in load order: a `"rich"`
/// one when its plugin holds `ContentTransformerRich`, any other when it
/// holds `ContentTransformerText`.
pub fn transformers(plugins: &Vec<LoadedPlugin>) -> (r: Vec<TransformerEntry>)
    ensures
        r@ == all_transformers(plugins@),
{
    let mut out: Vec<TransformerEntry> = Vec::new();
    let n = plugins.len();
    let mut i: usize = 0;
    while i < n
        invariant
            n == plugins@.len(),
            i <= n,
            out@ == all_transformers(plugins@.take(i as int)),
        decreases n - i,
    {
        let p = &plugins[i];
        proof {
            assert(plugins@.take(i + 1).drop_last() =~= plugins@.take(i as int));
            assert(plugins@.take(i + 1).last() == *p);
        }
        let m = p.transformers.len();
        let mut j: usize = 0;
        let ghost before = out@;
        while j < m
            invariant
                m == p.transformers@.len(),
                j <= m,
                out@ == before + transformer_entries(*p, j as int),
            decreases m - j,
        {
            let t = &p.transformers[j];
            let kc = chars_of(t.kind.as_str());
            let rich = eq_lit(kc.as_slice(), "rich");
            let cap = if rich {
                Capability::ContentTransformerRich
            } else {
                Capability::ContentTransformerText
            };
            if holds(p, cap) {
                out.push(TransformerEntry { plugin_id: p.id.clone(), lang: t.lang.clone(), kind: t.kind.clone() });
            }
            j = j + 1;
            proof {
                assert(out@ =~= before + transformer_entries(*p, j as int));
            }
        }
        i = i + 1;
    }
    proof {
        assert(plugins@.take(n as int) =~= plugins@);
    }
    out
}

/// The capabilities the first loaded plugin with id `plugin_id` declared
/// but this client cannot honour; none when no such plugin is loaded.
pub fn missing_capabilities(plugins: &Vec<LoadedPlugin>, plugin_id: &str) -> (r: Vec<Capability>)
    ensures
        match first_with_id(plugins@, plugin_id@) {
            Some(k) => r@ == plugins@[k].missing@,
            None => r@.len() == 0,
        },
{
    let want = chars_of(plugin_id);
    let n = plugins.len();
    let mut i: usize = 0;
    while i < n
        invariant
            want@ == plugin_id@,
            n == plugins@.len(),
            i <= n,
            forall|j: int| 0 <= j < i ==> (#[trigger] plugins@[j]).id@ != plugin_id@,
        decreases n - i,
    {
        let pid = chars_of(plugins[i].id.as_str());
        if eq_chars(pid.as_slice(), want.as_slice()) {
            proof {
                lemma_first_with_id(plugins@, plugin_id@, i as int);
            }
            let src = &plugins[i].missing;
            let mut out: Vec<Capability> = Vec::new();
            let m = src.len();
            let mut j: usize = 0;
            while j < m
                invariant
                    m == src@.len(),
                    j <= m,
                    out@ == src@.take(j as int),
                decreases m - j,
            {
                out.push(src[j]);
                j = j + 1;
                proof {
                    assert(out@ =~= src@.take(j as int));
                }
            }
            proof {
                assert(src@.take(m as int) =~= src@);
            }
            return out;
        }
        i = i + 1;
    }
    proof {
        lemma_first_with_id_none(plugins@, plugin_id@);
    }
    Vec::new()
}

/// Position of the first plugin whose id is `id`.
pub open spec fn first_with_id(ps: Seq<LoadedPlugin>, id: Seq<char>) -> Option<int> {
    if exists|k: int| 0 <= k < ps.len() && (#[trigger] ps[k]).id@ == id {
        Some(choose|k: int| 0 <= k < ps.len() && (#[trigger] ps[k]).id@ == id && forall|j: int|
            0 <= j < k ==> (#[trigger] ps[j]).id@ != id)
    } else {
        None
    }
}

proof fn lemma_first_with_id(ps: Seq<LoadedPlugin>, id: Seq<char>, k: int)
    requires
        0 <= k < ps.len(),
        ps[k].id@ == id,
        forall|j: int| 0 <= j < k ==> (#[trigger] ps[j]).id@ != id,
    ensures
        first_with_id(ps, id) == Some(k),
{
    assert(exists|k2: int| 0 <= k2 < ps.len() && (#[trigger] ps[k2]).id@ == id);
    let c = choose|k2: int| 0 <= k2 < ps.len() && (#[trigger] ps[k2]).id@ == id && forall|j: int|
        0 <= j < k2 ==> (#[trigger] ps[j]).id@ != id;
    assert(0 <= c < ps.len() && ps[c].id@ == id && forall|j: int| 0 <= j < c ==> (#[trigger] ps[j]).id@ != id);
    if c < k {
        assert(ps[c].id@ != id);
    } else if k < c {
        assert(ps[k].id@ != id);
    }
}

proof fn lemma_first_with_id_none(ps: Seq<LoadedPlugin>, id: Seq<char>)
    requires
        forall|j: int| 0 <= j < ps.len() ==> (#[trigger] ps[j]).id@ != id,
    ensures
        first_with_id(ps, id) == None::<int>,
{
}

} // verus!
