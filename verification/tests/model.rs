use outl::plugin_model::{HostIntent, MoveTarget, Permission, TreeNode};

#[test]
fn all_intents_require_write() {
    let i = HostIntent::Delete { node: "n".into() };
    assert_eq!(i.required_permission(), Permission::WritePage);
}

#[test]
fn append_tree_all_requires_write() {
    let i = HostIntent::AppendTree {
        target: MoveTarget::ToParent { to_parent: "n".into() },
        tree: vec![],
    };
    assert_eq!(i.required_permission(), Permission::WritePage);
}

#[test]
fn a_cloned_tree_keeps_its_nesting() {
    let t = TreeNode {
        text: "#ouraring".into(),
        children: vec![TreeNode { text: "Sleep — 85".into(), children: vec![] }],
    };
    let c = t.clone();
    assert_eq!(c, t);
}
