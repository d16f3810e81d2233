//! Data that crosses the plugin runtime boundary.
//!
//! The plugin runtime is describe → apply: the script side reads from a
//! pre-computed [`ReadModel`] and emits [`HostIntent`]s into a buffer; the
//! host drains the buffer and applies each intent. Every type here is
//! owned, so it can be handed across as plain data.

use vstd::prelude::*;

verus! {

/// A capability a plugin must have been granted.
#[derive(Debug, Clone, Copy, PartialEq, Eq, Structural)]
pub enum Permission {
    /// Edit or create blocks and pages (`write-page`).
    WritePage,
    /// Submit ops to the log (`submit-op`), the companion of `write-page`.
    SubmitOp,
}

/// What a content transformer returned for a block: how to render it.
#[derive(Debug, Clone, PartialEq, Eq)]
pub struct TransformResult {
    /// `"text"` (text/markdown rendered normally) or `"rich"` (HTML run in
    /// a sandboxed frame).
    pub kind: String,
    /// The rendered content.
    pub content: String,
}

/// A read-only snapshot the script side queries during a turn.
#[derive(Debug, Clone, Default)]
pub struct ReadModel {
    /// Every block with its text and todo state.
    pub blocks: Vec<BlockView>,
    /// Every page (and journal) by slug.
    pub pages: Vec<PageView>,
    /// Every template.
    pub templates: Vec<TemplateView>,
    /// The op being dispatched, inside an `onOp` turn.
    pub op: Option<LogOpView>,
}

/// A block as the script side sees it.
#[derive(Debug, Clone)]
pub struct BlockView {
    /// Opaque ULID string.
    pub id: String,
    /// Block text as written.
    pub text: String,
    /// `"TODO"` / `"DOING"` / `"DONE"` when the block is a task.
    pub todo: Option<String>,
    /// Parent block id, `None` for a top-level block.
    pub parent: Option<String>,
    /// Slug of the hosting page.
    pub page: String,
    /// Block properties as `(key, value)` pairs, values flattened, in key
    /// order with each key once (see [`BlockView::wf`]).
    pub properties: Vec<(String, String)>,
}

impl BlockView {
    /// No key occurs twice among the properties.
    pub open spec fn wf(&self) -> bool {
        forall|i: int, j: int|
            0 <= i < j < self.properties@.len() ==> (#[trigger] self.properties@[i]).0@
                != (#[trigger] self.properties@[j]).0@
    }
}

/// A page as the script side sees it.
#[derive(Debug, Clone)]
pub struct PageView {
    pub slug: String,
    pub title: String,
    /// `"page"` or `"journal"`.
    pub kind: String,
}

/// A template page.
#[derive(Debug, Clone)]
pub struct TemplateView {
    pub name: String,
    pub slug: String,
    /// Declared parameters.
    pub params: Vec<String>,
}

/// The op being dispatched to an `onOp` hook.
#[derive(Debug, Clone)]
pub struct LogOpView {
    pub kind: String,
    pub node: String,
    pub text: Option<String>,
    pub todo: Option<String>,
}

/// A change the script side asks the host to make.
#[derive(Debug, Clone, PartialEq, Eq)]
pub enum HostIntent {
    EditText { node: String, text: String },
    CreateUnder { parent: String, text: String },
    CreateAfter { after: String, text: String },
    Move { node: String, target: MoveTarget },
    ToggleTodo { node: String },
    Delete { node: String },
    EnsurePage { slug: String },
    InstantiateTemplate { name: String, under: String },
    AppendTree { target: MoveTarget, tree: Vec<TreeNode> },
}

/// One node of a tree appended in a single intent.
#[derive(Debug, PartialEq, Eq)]
pub struct TreeNode {
    pub text: String,
    pub children: Vec<TreeNode>,
}

impl Clone for TreeNode {
    fn clone(&self) -> (r: Self)
        ensures
            r.text@ == self.text@,
            r.children@.len() == self.children@.len(),
        decreases *self,
    {
        let mut children: Vec<TreeNode> = Vec::new();
        let n = self.children.len();
        let mut i: usize = 0;
        while i < n
            invariant
                n == self.children@.len(),
                i <= n,
                children@.len() == i,
            decreases n - i,
        {
            proof {
                assert(decreases_to!(*self => self.children));
                assert(decreases_to!(self.children => self.children@));
                assert(decreases_to!(self.children@ => self.children@[i as int]));
            }
            children.push(self.children[i].clone());
            i = i + 1;
        }
        TreeNode { text: self.text.clone(), children }
    }
}

impl HostIntent {
    /// The permission applying this intent needs: every intent writes, so
    /// every one needs `write-page`.
    pub fn required_permission(&self) -> (r: Permission)
        ensures
            r == Permission::WritePage,
    {
        Permission::WritePage
    }
}

/// Where a moved node or an appended tree goes.
#[derive(Debug, Clone, PartialEq, Eq)]
pub enum MoveTarget {
    ToPage { to_page: String },
    ToParent { to_parent: String },
}

/// Everything one script turn produced.
#[derive(Debug, Clone, Default)]
pub struct TurnOutput {
    pub intents: Vec<HostIntent>,
    pub logs: Vec<String>,
    pub notifications: Vec<String>,
    pub views: Vec<String>,
}

/// A plugin command, for a client's command palette.
#[derive(Debug, Clone)]
pub struct CommandEntry {
    /// Owning plugin id.
    pub plugin_id: String,
    /// Command id.
    pub command_id: String,
    /// Human title.
    pub title: String,
}

/// A content transformer a plugin contributes for a code-fence language.
#[derive(Debug, Clone)]
pub struct TransformerEntry {
    /// Owning plugin id.
    pub plugin_id: String,
    /// Code-fence language this transformer handles.
    pub lang: String,
    /// `"text"` or `"rich"`.
    pub kind: String,
}

/// A toolbar button a plugin contributes to a client's chrome.
#[derive(Debug, Clone)]
pub struct ToolbarButtonEntry {
    /// Owning plugin id.
    pub plugin_id: String,
    /// Command id to run on tap.
    pub command_id: String,
    /// Glyph to render.
    pub icon: String,
    /// Optional tooltip / accessible label.
    pub title: Option<String>,
}

/// The result of running a command or a hook sweep.
#[derive(Debug, Clone, Default)]
pub struct PluginRun {
    /// Number of intents applied.
    pub applied: usize,
    /// Log lines.
    pub logs: Vec<String>,
    /// Notification messages.
    pub notifications: Vec<String>,
    /// Rendered view payloads.
    pub views: Vec<String>,
    /// Non-fatal errors.
    pub errors: Vec<String>,
}

} // verus!
