use outl::plugin_host::{
    commands, missing_capabilities, toolbar_buttons, transformers, Capability,
    CommandContribution, LoadedPlugin, ToolbarContribution, TransformerContribution,
};

fn plugin(id: &str, granted: Vec<Capability>) -> LoadedPlugin {
    LoadedPlugin {
        id: id.into(),
        granted,
        missing: vec![],
        commands: vec![
            CommandContribution { id: "archive".into(), title: "Archive done".into() },
            CommandContribution { id: "count".into(), title: "Count blocks".into() },
        ],
        toolbar: vec![
            ToolbarContribution {
                command: "archive".into(),
                icon: "📦".into(),
                title: Some("Archive".into()),
                when: None,
            },
            ToolbarContribution {
                command: "count".into(),
                icon: "#".into(),
                title: None,
                when: Some("desktop".into()),
            },
        ],
        transformers: vec![
            TransformerContribution { lang: "mermaid".into(), kind: "rich".into() },
            TransformerContribution { lang: "upper".into(), kind: "text".into() },
        ],
    }
}

#[test]
fn only_plugins_granted_slash_commands_reach_the_palette() {
    let ps = vec![
        plugin("a", vec![Capability::SlashCommand]),
        plugin("b", vec![Capability::OpHook]),
        plugin("c", vec![Capability::SlashCommand, Capability::ToolbarButton]),
    ];
    let cmds = commands(&ps);
    let got: Vec<(String, String, String)> = cmds
        .into_iter()
        .map(|c| (c.plugin_id, c.command_id, c.title))
        .collect();
    assert_eq!(
        got,
        vec![
            ("a".into(), "archive".into(), "Archive done".into()),
            ("a".into(), "count".into(), "Count blocks".into()),
            ("c".into(), "archive".into(), "Archive done".into()),
            ("c".into(), "count".into(), "Count blocks".into()),
        ]
    );
}

#[test]
fn toolbar_buttons_respect_the_capability_and_the_client() {
    let ps = vec![
        plugin("a", vec![Capability::ToolbarButton]),
        plugin("b", vec![Capability::SlashCommand]),
    ];
    let tui = toolbar_buttons(&ps, "tui");
    assert_eq!(tui.len(), 1);
    assert_eq!(tui[0].plugin_id, "a");
    assert_eq!(tui[0].command_id, "archive");
    assert_eq!(tui[0].icon, "📦");
    assert_eq!(tui[0].title.as_deref(), Some("Archive"));
    let desktop = toolbar_buttons(&ps, "desktop");
    assert_eq!(desktop.len(), 2);
    assert_eq!(desktop[1].command_id, "count");
    assert_eq!(desktop[1].title, None);
}

#[test]
fn transformers_need_the_capability_of_their_kind() {
    let ps = vec![
        plugin("text-only", vec![Capability::ContentTransformerText]),
        plugin("rich-only", vec![Capability::ContentTransformerRich]),
        plugin("none", vec![]),
    ];
    let ts = transformers(&ps);
    let got: Vec<(String, String, String)> =
        ts.into_iter().map(|t| (t.plugin_id, t.lang, t.kind)).collect();
    assert_eq!(
        got,
        vec![
            ("text-only".into(), "upper".into(), "text".into()),
            ("rich-only".into(), "mermaid".into(), "rich".into()),
        ]
    );
}

#[test]
fn missing_capabilities_come_from_the_named_plugin() {
    let mut a = plugin("a", vec![]);
    a.missing = vec![Capability::UiRender, Capability::SyncTransport];
    let b = plugin("b", vec![]);
    let ps = vec![a, b];
    assert_eq!(
        missing_capabilities(&ps, "a"),
        vec![Capability::UiRender, Capability::SyncTransport]
    );
    assert!(missing_capabilities(&ps, "b").is_empty());
    assert!(missing_capabilities(&ps, "zzz").is_empty());
}
