use outl::property::{PropValue, Property};

#[test]
fn flatten_yields_the_inner_string_for_scalar_variants() {
    assert_eq!(PropValue::Text("16".into()).flatten(), "16");
    assert_eq!(PropValue::PageRef("avelino".into()).flatten(), "avelino");
    assert_eq!(PropValue::Tag("produto".into()).flatten(), "produto");
}

#[test]
fn flatten_joins_list_elements_with_comma_space() {
    let list = PropValue::List(vec![PropValue::Tag("a".into()), PropValue::Tag("b".into())]);
    assert_eq!(list.flatten(), "a, b");
}

#[test]
fn flatten_is_recursive_over_nested_lists() {
    let nested = PropValue::List(vec![
        PropValue::Text("x".into()),
        PropValue::List(vec![PropValue::Text("y".into()), PropValue::Text("z".into())]),
    ]);
    assert_eq!(nested.flatten(), "x, y, z");
}

#[test]
fn flatten_of_an_empty_list_is_empty() {
    assert_eq!(PropValue::List(vec![]).flatten(), "");
}

#[test]
fn a_cloned_property_flattens_alike() {
    let p = Property {
        key: "tags".into(),
        value: PropValue::List(vec![PropValue::Tag("a".into()), PropValue::List(vec![])]),
    };
    let q = p.clone();
    assert_eq!(q.key, "tags");
    assert_eq!(q.value.flatten(), p.value.flatten());
    assert_eq!(q, p);
}
