//! `outl batch`: a JSON list of ops applied in order, stopping at the
//! first failure.
//!
//! Each entry names an op and carries its arguments. Which op an entry
//! asks for, and whether its arguments are complete, is decided here;
//! applying the op to the workspace is the caller's.

use vstd::prelude::*;

use crate::text::{chars_of, concat3, eq_chars, eq_lit, string_from_str};

verus! {

/// One argument value, as far as decoding an op reads it.
#[derive(Debug, Clone, PartialEq, Eq)]
pub enum ArgValue {
    /// JSON `null`.
    Null,
    /// A JSON boolean.
    Bool(bool),
    /// A JSON string.
    Str(String),
    /// Any other JSON value (number, array, object).
    Other,
}

/// One `key: value` of an op's `args` object, with the value's JSON text
/// for arguments that carry a structure (`content`, `tree`).
#[derive(Debug, Clone)]
pub struct OpArg {
    pub key: String,
    pub value: ArgValue,
    pub json: String,
}

/// The error class a batch failure reports.
#[derive(Debug, Clone, Copy, PartialEq, Eq, Structural)]
pub enum ApiCode {
    /// A missing or malformed argument, or an unknown op.
    InvalidArg,
    /// A delete that was not confirmed.
    ConfirmRequired,
}

/// Why an op could not be decoded.
#[derive(Debug, Clone)]
pub struct BatchError {
    pub code: ApiCode,
    pub message: String,
}

/// A decoded op, ready to apply.
#[derive(Debug, Clone)]
pub enum BatchOp {
    PageCreate { slug: String, title: Option<String>, icon: Option<String>, content: Option<String> },
    PageUpdate { slug: String, title: Option<String>, icon: Option<String> },
    PageDelete { slug: String },
    PageRename { old_slug: String, new_slug: String },
    BlockAppend { page: Option<String>, parent: Option<String>, text: String },
    BlockAppendTree { page: Option<String>, parent: Option<String>, tree: String },
    BlockInsert { after: String, text: String },
    BlockUpdate { id: String, text: String },
    BlockMove { id: String, parent: Option<String>, after: Option<String> },
    BlockDelete { id: String },
    BlockToggleTodo { id: String },
    /// `value: None` clears the property.
    BlockPropSet { id: String, key: String, value: Option<String> },
    DailyAppend { text: String, date: Option<String> },
    /// `value: None` clears the property.
    PagePropSet { page: String, key: String, value: Option<String> },
}

// ── abstract views ───────────────────────────────────────────────────

pub enum ArgV {
    Null,
    Bool(bool),
    Str(Seq<char>),
    Other,
}

pub type Args = Seq<(Seq<char>, ArgV, Seq<char>)>;

pub open spec fn arg_view(v: ArgValue) -> ArgV {
    match v {
        ArgValue::Null => ArgV::Null,
        ArgValue::Bool(b) => ArgV::Bool(b),
        ArgValue::Str(s) => ArgV::Str(s@),
        ArgValue::Other => ArgV::Other,
    }
}

pub open spec fn args_view(args: Seq<OpArg>) -> Args {
    args.map_values(|a: OpArg| (a.key@, arg_view(a.value), a.json@))
}

pub type Text = Seq<char>;

pub enum BatchOpV {
    PageCreate { slug: Text, title: Option<Text>, icon: Option<Text>, content: Option<Text> },
    PageUpdate { slug: Text, title: Option<Text>, icon: Option<Text> },
    PageDelete { slug: Text },
    PageRename { old_slug: Text, new_slug: Text },
    BlockAppend { page: Option<Text>, parent: Option<Text>, text: Text },
    BlockAppendTree { page: Option<Text>, parent: Option<Text>, tree: Text },
    BlockInsert { after: Text, text: Text },
    BlockUpdate { id: Text, text: Text },
    BlockMove { id: Text, parent: Option<Text>, after: Option<Text> },
    BlockDelete { id: Text },
    BlockToggleTodo { id: Text },
    BlockPropSet { id: Text, key: Text, value: Option<Text> },
    DailyAppend { text: Text, date: Option<Text> },
    PagePropSet { page: Text, key: Text, value: Option<Text> },
}

pub open spec fn ot(o: Option<String>) -> Option<Text> {
    match o {
        Some(s) => Some(s@),
        None => None,
    }
}

pub open spec fn op_view(op: BatchOp) -> BatchOpV {
    match op {
        BatchOp::PageCreate { slug, title, icon, content } => BatchOpV::PageCreate {
            slug: slug@,
            title: ot(title),
            icon: ot(icon),
            content: ot(content),
        },
        BatchOp::PageUpdate { slug, title, icon } => BatchOpV::PageUpdate {
            slug: slug@,
            title: ot(title),
            icon: ot(icon),
        },
        BatchOp::PageDelete { slug } => BatchOpV::PageDelete { slug: slug@ },
        BatchOp::PageRename { old_slug, new_slug } => BatchOpV::PageRename {
            old_slug: old_slug@,
            new_slug: new_slug@,
        },
        BatchOp::BlockAppend { page, parent, text } => BatchOpV::BlockAppend {
            page: ot(page),
            parent: ot(parent),
            text: text@,
        },
        BatchOp::BlockAppendTree { page, parent, tree } => BatchOpV::BlockAppendTree {
            page: ot(page),
            parent: ot(parent),
            tree: tree@,
        },
        BatchOp::BlockInsert { after, text } => BatchOpV::BlockInsert { after: after@, text: text@ },
        BatchOp::BlockUpdate { id, text } => BatchOpV::BlockUpdate { id: id@, text: text@ },
        BatchOp::BlockMove { id, parent, after } => BatchOpV::BlockMove {
            id: id@,
            parent: ot(parent),
            after: ot(after),
        },
        BatchOp::BlockDelete { id } => BatchOpV::BlockDelete { id: id@ },
        BatchOp::BlockToggleTodo { id } => BatchOpV::BlockToggleTodo { id: id@ },
        BatchOp::BlockPropSet { id, key, value } => BatchOpV::BlockPropSet {
            id: id@,
            key: key@,
            value: ot(value),
        },
        BatchOp::DailyAppend { text, date } => BatchOpV::DailyAppend { text: text@, date: ot(date) },
        BatchOp::PagePropSet { page, key, value } => BatchOpV::PagePropSet {
            page: page@,
            key: key@,
            value: ot(value),
        },
    }
}

// ── the decoding rules ───────────────────────────────────────────────

/// The first argument named `key`, with its JSON text.
pub open spec fn arg_of(args: Args, key: Text) -> Option<(ArgV, Text)>
    decreases args.len(),
{
    if args.len() == 0 {
        None
    } else if args[0].0 == key {
        Some((args[0].1, args[0].2))
    } else {
        arg_of(args.drop_first(), key)
    }
}

/// The argument `key` when it is a string.
pub open spec fn str_arg(args: Args, key: Text) -> Option<Text> {
    match arg_of(args, key) {
        Some((ArgV::Str(s), _)) => Some(s),
        _ => None,
    }
}

pub type Decoded<T> = Result<T, (ApiCode, Text)>;

/// A string argument the op cannot do without.
pub open spec fn required(args: Args, key: Text) -> Decoded<Text> {
    match str_arg(args, key) {
        Some(s) => Ok(s),
        None => Err((ApiCode::InvalidArg, "missing required string `"@ + key + "`"@)),
    }
}

/// A delete goes through only with `confirm: true`.
pub open spec fn confirmed(args: Args, label: Text) -> Decoded<()> {
    match arg_of(args, "confirm"@) {
        Some((ArgV::Bool(true), _)) => Ok(()),
        _ => Err((ApiCode::ConfirmRequired, "refusing to delete "@ + label + " without confirm:true"@)),
    }
}

/// A property value: absent or `null` clears, a string sets, anything
/// else is refused so a mistyped value never silently deletes.
pub open spec fn value_arg(args: Args) -> Decoded<Option<Text>> {
    match arg_of(args, "value"@) {
        None => Ok(None),
        Some((ArgV::Null, _)) => Ok(None),
        Some((ArgV::Str(s), _)) => Ok(Some(s)),
        _ => Err((ApiCode::InvalidArg, "`value` must be a string"@)),
    }
}

/// A structured argument's JSON text, absent or `null` reading as none.
pub open spec fn json_arg(args: Args, key: Text) -> Option<Text> {
    match arg_of(args, key) {
        None => None,
        Some((ArgV::Null, _)) => None,
        Some((_, j)) => Some(j),
    }
}

/// The op `name` asks for with `args`, or the first complaint about them.
pub open spec fn decode_spec(name: Text, args: Args) -> Decoded<BatchOpV> {
    if name == "page_create"@ {
        match required(args, "slug"@) {
            Err(e) => Err(e),
            Ok(slug) => Ok(BatchOpV::PageCreate {
                slug,
                title: str_arg(args, "title"@),
                icon: str_arg(args, "icon"@),
                content: json_arg(args, "content"@),
            }),
        }
    } else if name == "page_update"@ {
        match required(args, "slug"@) {
            Err(e) => Err(e),
            Ok(slug) => Ok(BatchOpV::PageUpdate {
                slug,
                title: str_arg(args, "title"@),
                icon: str_arg(args, "icon"@),
            }),
        }
    } else if name == "page_delete"@ {
        match required(args, "slug"@) {
            Err(e) => Err(e),
            Ok(slug) => match confirmed(args, "page `"@ + slug + "`"@) {
                Err(e) => Err(e),
                Ok(_) => Ok(BatchOpV::PageDelete { slug }),
            },
        }
    } else if name == "page_rename"@ {
        match required(args, "old_slug"@) {
            Err(e) => Err(e),
            Ok(old_slug) => match required(args, "new_slug"@) {
                Err(e) => Err(e),
                Ok(new_slug) => Ok(BatchOpV::PageRename { old_slug, new_slug }),
            },
        }
    } else if name == "block_append"@ {
        match required(args, "text"@) {
            Err(e) => Err(e),
            Ok(text) => Ok(BatchOpV::BlockAppend {
                page: str_arg(args, "page"@),
                parent: str_arg(args, "parent"@),
                text,
            }),
        }
    } else if name == "block_append_tree"@ {
        match arg_of(args, "tree"@) {
            None => Err((ApiCode::InvalidArg, "missing `tree`"@)),
            Some((_, tree)) => Ok(BatchOpV::BlockAppendTree {
                page: str_arg(args, "page"@),
                parent: str_arg(args, "parent"@),
                tree,
            }),
        }
    } else if name == "block_insert"@ {
        match required(args, "after"@) {
            Err(e) => Err(e),
            Ok(after) => match required(args, "text"@) {
                Err(e) => Err(e),
                Ok(text) => Ok(BatchOpV::BlockInsert { after, text }),
            },
        }
    } else if name == "block_update"@ {
        match required(args, "id"@) {
            Err(e) => Err(e),
            Ok(id) => match required(args, "text"@) {
                Err(e) => Err(e),
                Ok(text) => Ok(BatchOpV::BlockUpdate { id, text }),
            },
        }
    } else if name == "block_move"@ {
        match required(args, "id"@) {
            Err(e) => Err(e),
            Ok(id) => Ok(BatchOpV::BlockMove {
                id,
                parent: str_arg(args, "parent"@),
                after: str_arg(args, "after"@),
            }),
        }
    } else if name == "block_delete"@ {
        match required(args, "id"@) {
            Err(e) => Err(e),
            Ok(id) => match confirmed(args, "block `"@ + id + "`"@) {
                Err(e) => Err(e),
                Ok(_) => Ok(BatchOpV::BlockDelete { id }),
            },
        }
    } else if name == "block_toggle_todo"@ {
        match required(args, "id"@) {
            Err(e) => Err(e),
            Ok(id) => Ok(BatchOpV::BlockToggleTodo { id }),
        }
    } else if name == "block_prop_set"@ {
        match required(args, "id"@) {
            Err(e) => Err(e),
            Ok(id) => match required(args, "key"@) {
                Err(e) => Err(e),
                Ok(key) => match value_arg(args) {
                    Err(e) => Err(e),
                    Ok(value) => Ok(BatchOpV::BlockPropSet { id, key, value }),
                },
            },
        }
    } else if name == "daily_append"@ {
        match required(args, "text"@) {
            Err(e) => Err(e),
            Ok(text) => Ok(BatchOpV::DailyAppend { text, date: str_arg(args, "date"@) }),
        }
    } else if name == "page_prop_set"@ {
        match required(args, "page"@) {
            Err(e) => Err(e),
            Ok(page) => match required(args, "key"@) {
                Err(e) => Err(e),
                Ok(key) => match value_arg(args) {
                    Err(e) => Err(e),
                    Ok(value) => Ok(BatchOpV::PagePropSet { page, key, value }),
                },
            },
        }
    } else {
        Err((ApiCode::InvalidArg, "unknown batch op `"@ + name + "`"@))
    }
}

// ── decoding ─────────────────────────────────────────────────────────

fn find_arg<'a>(args: &'a [OpArg], key: &str) -> (r: Option<&'a OpArg>)
    ensures
        match (r, arg_of(args_view(args@), key@)) {
            (Some(a), Some((v, j))) => arg_view(a.value) == v && a.json@ == j,
            (None, None) => true,
            _ => false,
        },
{
    let ghost av = args_view(args@);
    let kc = chars_of(key);
    let n = args.len();
    let mut i: usize = 0;
    proof {
        assert(av.skip(0) =~= av);
    }
    while i < n
        invariant
            n == args@.len(),
            av == args_view(args@),
            kc@ == key@,
            i <= n,
            arg_of(av, key@) == arg_of(av.skip(i as int), key@),
        decreases n - i,
    {
        proof {
            assert(av.skip(i as int)[0] == av[i as int]);
            assert(av.skip(i as int).drop_first() =~= av.skip(i + 1));
        }
        let k = chars_of(args[i].key.as_str());
        if eq_chars(k.as_slice(), kc.as_slice()) {
            return Some(&args[i]);
        }
        i = i + 1;
    }
    None
}

fn str_arg_exec(args: &[OpArg], key: &str) -> (r: Option<String>)
    ensures
        ot(r) == str_arg(args_view(args@), key@),
{
    match find_arg(args, key) {
        Some(a) => match &a.value {
            ArgValue::Str(s) => Some(s.clone()),
            _ => None,
        },
        None => None,
    }
}

fn invalid(lead: &str, mid: &str, tail: &str) -> (r: BatchError)
    ensures
        r.code == ApiCode::InvalidArg,
        r.message@ == lead@ + mid@ + tail@,
{
    let m = chars_of(mid);
    BatchError { code: ApiCode::InvalidArg, message: concat3(lead, m.as_slice(), tail) }
}

pub open spec fn err_view(e: BatchError) -> (ApiCode, Text) {
    (e.code, e.message@)
}

fn required_exec(args: &[OpArg], key: &str) -> (r: Result<String, BatchError>)
    ensures
        match (r, required(args_view(args@), key@)) {
            (Ok(s), Ok(t)) => s@ == t,
            (Err(e), Err(t)) => err_view(e) == t,
            _ => false,
        },
{
    match str_arg_exec(args, key) {
        Some(s) => Ok(s),
        None => Err(invalid("missing required string `", key, "`")),
    }
}

fn confirmed_exec(args: &[OpArg], label: &str) -> (r: Result<(), BatchError>)
    ensures
        match (r, confirmed(args_view(args@), label@)) {
            (Ok(_), Ok(_)) => true,
            (Err(e), Err(t)) => err_view(e) == t,
            _ => false,
        },
{
    if let Some(a) = find_arg(args, "confirm") {
        if let ArgValue::Bool(true) = a.value {
            return Ok(());
        }
    }
    Err(BatchError { code: ApiCode::ConfirmRequired, message: concat3("refusing to delete ", chars_of(label).as_slice(), " without confirm:true") })
}

fn value_exec(args: &[OpArg]) -> (r: Result<Option<String>, BatchError>)
    ensures
        match (r, value_arg(args_view(args@))) {
            (Ok(v), Ok(t)) => ot(v) == t,
            (Err(e), Err(t)) => err_view(e) == t,
            _ => false,
        },
{
    match find_arg(args, "value") {
        None => Ok(None),
        Some(a) => match &a.value {
            ArgValue::Null => Ok(None),
            ArgValue::Str(s) => Ok(Some(s.clone())),
            _ => Err(BatchError { code: ApiCode::InvalidArg, message: string_from_str("`value` must be a string") }),
        },
    }
}

fn json_exec(args: &[OpArg], key: &str) -> (r: Option<String>)
    ensures
        ot(r) == json_arg(args_view(args@), key@),
{
    match find_arg(args, key) {
        None => None,
        Some(a) => match &a.value {
            ArgValue::Null => None,
            _ => Some(a.json.clone()),
        },
    }
}

/// Decode the op `name` with its `args`: the op to apply, or the first
/// missing or malformed argument (an unknown name included).
pub fn decode_op(name: &str, args: &[OpArg]) -> (r: Result<BatchOp, BatchError>)
    ensures
        match (r, decode_spec(name@, args_view(args@))) {
            (Ok(op), Ok(v)) => op_view(op) == v,
            (Err(e), Err(t)) => err_view(e) == t,
            _ => false,
        },
{
    let n = chars_of(name);
    let s = n.as_slice();
    if eq_lit(s, "page_create") {
        let slug = required_exec(args, "slug")?;
        Ok(BatchOp::PageCreate {
            slug,
            title: str_arg_exec(args, "title"),
            icon: str_arg_exec(args, "icon"),
            content: json_exec(args, "content"),
        })
    } else if eq_lit(s, "page_update") {
        let slug = required_exec(args, "slug")?;
        Ok(BatchOp::PageUpdate { slug, title: str_arg_exec(args, "title"), icon: str_arg_exec(args, "icon") })
    } else if eq_lit(s, "page_delete") {
        let slug = required_exec(args, "slug")?;
        let label = concat3("page `", chars_of(slug.as_str()).as_slice(), "`");
        confirmed_exec(args, label.as_str())?;
        Ok(BatchOp::PageDelete { slug })
    } else if eq_lit(s, "page_rename") {
        let old_slug = required_exec(args, "old_slug")?;
        let new_slug = required_exec(args, "new_slug")?;
        Ok(BatchOp::PageRename { old_slug, new_slug })
    } else if eq_lit(s, "block_append") {
        let text = required_exec(args, "text")?;
        Ok(BatchOp::BlockAppend { page: str_arg_exec(args, "page"), parent: str_arg_exec(args, "parent"), text })
    } else if eq_lit(s, "block_append_tree") {
        match find_arg(args, "tree") {
            None => Err(BatchError { code: ApiCode::InvalidArg, message: string_from_str("missing `tree`") }),
            Some(a) => Ok(BatchOp::BlockAppendTree {
                page: str_arg_exec(args, "page"),
                parent: str_arg_exec(args, "parent"),
                tree: a.json.clone(),
            }),
        }
    } else if eq_lit(s, "block_insert") {
        let after = required_exec(args, "after")?;
        let text = required_exec(args, "text")?;
        Ok(BatchOp::BlockInsert { after, text })
    } else if eq_lit(s, "block_update") {
        let id = required_exec(args, "id")?;
        let text = required_exec(args, "text")?;
        Ok(BatchOp::BlockUpdate { id, text })
    } else if eq_lit(s, "block_move") {
        let id = required_exec(args, "id")?;
        Ok(BatchOp::BlockMove { id, parent: str_arg_exec(args, "parent"), after: str_arg_exec(args, "after") })
    } else if eq_lit(s, "block_delete") {
        let id = required_exec(args, "id")?;
        let label = concat3("block `", chars_of(id.as_str()).as_slice(), "`");
        confirmed_exec(args, label.as_str())?;
        Ok(BatchOp::BlockDelete { id })
    } else if eq_lit(s, "block_toggle_todo") {
        let id = required_exec(args, "id")?;
        Ok(BatchOp::BlockToggleTodo { id })
    } else if eq_lit(s, "block_prop_set") {
        let id = required_exec(args, "id")?;
        let key = required_exec(args, "key")?;
        let value = value_exec(args)?;
        Ok(BatchOp::BlockPropSet { id, key, value })
    } else if eq_lit(s, "daily_append") {
        let text = required_exec(args, "text")?;
        Ok(BatchOp::DailyAppend { text, date: str_arg_exec(args, "date") })
    } else if eq_lit(s, "page_prop_set") {
        let page = required_exec(args, "page")?;
        let key = required_exec(args, "key")?;
        let value = value_exec(args)?;
        Ok(BatchOp::PagePropSet { page, key, value })
    } else {
        Err(invalid("unknown batch op `", name, "`"))
    }
}

} // verus!
