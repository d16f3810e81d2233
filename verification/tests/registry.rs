use outl::registry::{
    marketplace_item, marketplace_list, set_enabled, InstallRecord, RegistryEntry, RegistryError,
    RegistryIndex,
};
use serde_json::Value;

const SAMPLE: &str = r#"{
    "version": 1,
    "plugins": [
        { "id": "app.outl.examples.todo-archiver", "name": "TODO Archiver",
          "description": "Archive DONE blocks.", "repository": "github:outlmd/outl/examples/todo-archiver",
          "category": "productivity", "keywords": ["todo", "archive"],
          "capabilities": ["op-hook"], "permissions": ["read-page"], "latest": "1.0.0" },
        { "id": "app.outl.examples.confetti", "name": "Confetti on Done",
          "description": "Throws confetti.", "repository": "github:outlmd/outl/examples/confetti",
          "category": "fun", "keywords": ["fun"], "capabilities": ["ui-render"], "permissions": [] }
    ]
}"#;

fn text(v: &Value, key: &str) -> Option<String> {
    v.get(key).and_then(Value::as_str).map(str::to_string)
}

fn list(v: &Value, key: &str) -> Vec<String> {
    v.get(key)
        .and_then(Value::as_array)
        .map(|a| a.iter().filter_map(|x| x.as_str().map(str::to_string)).collect())
        .unwrap_or_default()
}

/// The index as the registry's JSON describes it: unknown keys ignored,
/// missing optional ones defaulted.
fn parse(json: &str) -> RegistryIndex {
    let v: Value = serde_json::from_str(json).unwrap();
    let plugins = v
        .get("plugins")
        .and_then(Value::as_array)
        .map(|ps| {
            ps.iter()
                .map(|p| RegistryEntry {
                    id: text(p, "id").unwrap(),
                    name: text(p, "name").unwrap(),
                    description: text(p, "description").unwrap_or_default(),
                    author: text(p, "author"),
                    repository: text(p, "repository").unwrap(),
                    category: text(p, "category"),
                    keywords: list(p, "keywords"),
                    capabilities: list(p, "capabilities"),
                    permissions: list(p, "permissions"),
                    latest: text(p, "latest"),
                    versions: list(p, "versions"),
                })
                .collect()
        })
        .unwrap_or_default();
    RegistryIndex {
        version: v.get("version").and_then(Value::as_u64).unwrap_or(0) as u32,
        updated: text(&v, "updated"),
        plugins,
    }
}

#[test]
fn parses_and_lists() {
    let idx = parse(SAMPLE);
    assert_eq!(idx.plugins.len(), 2);
    assert_eq!(idx.plugins[0].repository, "github:outlmd/outl/examples/todo-archiver");
}

#[test]
fn empty_query_returns_all() {
    let idx = parse(SAMPLE);
    assert_eq!(idx.search("").len(), 2);
}

#[test]
fn matches_name_id_description_category_keywords() {
    let idx = parse(SAMPLE);
    assert_eq!(idx.search("archive").len(), 1);
    assert_eq!(idx.search("confetti").len(), 1);
    assert_eq!(idx.search("FUN").len(), 1);
    assert_eq!(idx.search("todo").len(), 1);
    assert!(idx.search("nonsense").is_empty());
}

#[test]
fn tolerates_unknown_fields_and_missing_optionals() {
    let json = r#"{ "version": 1, "extra": "ignored", "plugins": [
        { "id": "x.y", "name": "Y", "repository": "github:a/b", "future_field": 42 }
    ] }"#;
    let idx = parse(json);
    assert_eq!(idx.plugins[0].id, "x.y");
    assert!(idx.plugins[0].permissions.is_empty());
    assert_eq!(idx.plugins[0].latest, None);
}

// ── further cases ───────────────────────────────────────────────────────────────────────────────────────────────

#[test]
fn the_query_is_trimmed_and_keeps_index_order() {
    let idx = parse(SAMPLE);
    let hits = idx.search("  examples  ");
    assert_eq!(hits.len(), 2);
    assert_eq!(hits[0].id, "app.outl.examples.todo-archiver");
}

#[test]
fn a_marketplace_row_joins_the_install_state() {
    let idx = parse(SAMPLE);
    let e = idx.plugins[0].clone();
    let row = marketplace_item(e.clone(), Some(false));
    assert!(row.installed && !row.enabled);
    assert_eq!(row.id, e.id);
    let row = marketplace_item(e.clone(), Some(true));
    assert!(row.installed && row.enabled);
    let row = marketplace_item(e, None);
    assert!(!row.installed && !row.enabled);
}

#[test]
fn errors_say_which_stage_failed() {
    assert_eq!(RegistryError::Parse("bad".into()).message(), "registry parse error: bad");
    assert_eq!(RegistryError::Fetch("down".into()).message(), "registry fetch error: down");
    assert_eq!(RegistryError::Install("no".into()).message(), "registry install error: no");
}

fn rec(id: &str, enabled: bool) -> InstallRecord {
    InstallRecord { id: id.into(), enabled }
}

#[test]
fn the_marketplace_lists_every_plugin_with_its_install_state() {
    let idx = parse(SAMPLE);
    let installed = vec![rec("app.outl.examples.confetti", true)];
    let rows = marketplace_list(idx, &installed);
    assert_eq!(rows.len(), 2);
    assert_eq!(rows[0].id, "app.outl.examples.todo-archiver");
    assert!(!rows[0].installed && !rows[0].enabled);
    assert_eq!(rows[1].id, "app.outl.examples.confetti");
    assert!(rows[1].installed && rows[1].enabled);
    assert_eq!(rows[1].name, "Confetti on Done");
    assert_eq!(rows[0].latest.as_deref(), Some("1.0.0"));
}

#[test]
fn an_installed_but_disabled_plugin_lists_as_installed_only() {
    let idx = parse(SAMPLE);
    let installed = vec![rec("app.outl.examples.todo-archiver", false)];
    let rows = marketplace_list(idx, &installed);
    assert!(rows[0].installed && !rows[0].enabled);
    assert!(!rows[1].installed);
}

#[test]
fn set_enabled_flips_only_the_named_plugin() {
    let mut installed = vec![rec("a", true), rec("b", true)];
    assert_eq!(set_enabled(&mut installed, "b", false), Ok(()));
    assert!(installed[0].enabled);
    assert!(!installed[1].enabled);
    assert_eq!(installed[1].id, "b");
    assert_eq!(set_enabled(&mut installed, "b", true), Ok(()));
    assert!(installed[1].enabled);
}

#[test]
fn set_enabled_refuses_a_plugin_that_is_not_installed() {
    let mut installed = vec![rec("a", true)];
    let err = set_enabled(&mut installed, "zzz", false).unwrap_err();
    assert_eq!(err, RegistryError::Install("`zzz` is not installed".into()));
    assert_eq!(err.message(), "registry install error: `zzz` is not installed");
    assert_eq!(installed.len(), 1);
    assert!(installed[0].enabled);
}
