use outl::batch::{decode_op, ApiCode, ArgValue, BatchOp, OpArg};

fn arg(key: &str, value: ArgValue, json: &str) -> OpArg {
    OpArg { key: key.into(), value, json: json.into() }
}

fn s(key: &str, v: &str) -> OpArg {
    arg(key, ArgValue::Str(v.into()), &format!("{v:?}"))
}

#[test]
fn a_page_create_reads_its_strings_and_content() {
    let args = vec![
        s("slug", "inbox"),
        arg("title", ArgValue::Other, "3"),
        arg("content", ArgValue::Other, "[{\"text\":\"a\"}]"),
    ];
    match decode_op("page_create", &args).unwrap() {
        BatchOp::PageCreate { slug, title, icon, content } => {
            assert_eq!(slug, "inbox");
            assert_eq!(title, None, "a non-string title is no title");
            assert_eq!(icon, None);
            assert_eq!(content.as_deref(), Some("[{\"text\":\"a\"}]"));
        }
        other => panic!("unexpected {other:?}"),
    }
}

#[test]
fn a_missing_required_string_is_named() {
    let e = decode_op("block_update", &[s("id", "n1")]).unwrap_err();
    assert_eq!(e.code, ApiCode::InvalidArg);
    assert_eq!(e.message, "missing required string `text`");
}

#[test]
fn deletes_need_confirm_true() {
    let e = decode_op("page_delete", &[s("slug", "old")]).unwrap_err();
    assert_eq!(e.code, ApiCode::ConfirmRequired);
    assert_eq!(e.message, "refusing to delete page `old` without confirm:true");
    let ok = decode_op(
        "block_delete",
        &[s("id", "n1"), arg("confirm", ArgValue::Bool(true), "true")],
    )
    .unwrap();
    assert!(matches!(ok, BatchOp::BlockDelete { id } if id == "n1"));
}

#[test]
fn a_null_or_absent_value_clears_and_a_number_is_refused() {
    let base = vec![s("id", "n1"), s("key", "k")];
    let cleared = decode_op("block_prop_set", &base).unwrap();
    assert!(matches!(cleared, BatchOp::BlockPropSet { value: None, .. }));
    let mut with_null = base.clone();
    with_null.push(arg("value", ArgValue::Null, "null"));
    assert!(matches!(
        decode_op("block_prop_set", &with_null).unwrap(),
        BatchOp::BlockPropSet { value: None, .. }
    ));
    let mut with_num = base.clone();
    with_num.push(arg("value", ArgValue::Other, "5"));
    assert_eq!(decode_op("block_prop_set", &with_num).unwrap_err().message, "`value` must be a string");
    let mut empty = base;
    empty.push(s("value", ""));
    assert!(matches!(
        decode_op("block_prop_set", &empty).unwrap(),
        BatchOp::BlockPropSet { value: Some(v), .. } if v.is_empty()
    ));
}

#[test]
fn an_append_tree_needs_its_tree() {
    let e = decode_op("block_append_tree", &[s("page", "p")]).unwrap_err();
    assert_eq!(e.message, "missing `tree`");
    let ok = decode_op("block_append_tree", &[arg("tree", ArgValue::Other, "[]")]).unwrap();
    assert!(matches!(ok, BatchOp::BlockAppendTree { tree, page: None, .. } if tree == "[]"));
}

#[test]
fn an_unknown_op_is_named() {
    let e = decode_op("page_explode", &[]).unwrap_err();
    assert_eq!(e.code, ApiCode::InvalidArg);
    assert_eq!(e.message, "unknown batch op `page_explode`");
}
