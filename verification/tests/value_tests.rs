use elmo_sqlite3::value::{copy_bytes, same_bytes, Value};

fn text(s: &str) -> Value {
    Value::Text(String::from(s))
}

fn doc(pairs: Vec<(&str, Value)>) -> Value {
    Value::Document(pairs.into_iter().map(|(k, v)| (String::from(k), v)).collect())
}

fn sample() -> Value {
    doc(vec![
        ("_id", Value::Int32(1)),
        ("address", doc(vec![("city", text("Oslo")), ("zip", Value::Null)])),
        ("tags", Value::Array(vec![text("a"), text("b")])),
        ("rows", Value::Array(vec![doc(vec![("n", Value::Int64(7))])])),
        ("_id", Value::Int32(2)),
    ])
}

#[test]
fn find_path_reads_nested_fields() {
    let d = sample();
    assert_eq!(d.find_path("address.city"), text("Oslo"));
    assert_eq!(d.find_path("address.zip"), Value::Null);
    assert_eq!(d.find_path("address"), doc(vec![("city", text("Oslo")), ("zip", Value::Null)]));
}

#[test]
fn find_path_takes_the_first_field_of_a_name() {
    assert_eq!(sample().find_path("_id"), Value::Int32(1));
}

#[test]
fn find_path_steps_into_arrays_by_position() {
    let d = sample();
    assert_eq!(d.find_path("tags.0"), text("a"));
    assert_eq!(d.find_path("tags.1"), text("b"));
    assert_eq!(d.find_path("tags.01"), text("b"));
    assert_eq!(d.find_path("rows.0.n"), Value::Int64(7));
}

#[test]
fn find_path_gives_undefined_where_the_path_leads_nowhere() {
    let d = sample();
    assert_eq!(d.find_path("missing"), Value::Undefined);
    assert_eq!(d.find_path("tags.2"), Value::Undefined);
    assert_eq!(d.find_path("tags.x"), Value::Undefined);
    assert_eq!(d.find_path("tags."), Value::Undefined);
    assert_eq!(d.find_path("tags.-1"), Value::Undefined);
    assert_eq!(d.find_path("tags.99999999999999999999999999"), Value::Undefined);
    assert_eq!(d.find_path("_id.deeper"), Value::Undefined);
    assert_eq!(d.find_path("address..city"), Value::Undefined);
    assert_eq!(d.find_path(""), Value::Undefined);
}

#[test]
fn find_key_looks_only_at_the_top_of_a_document() {
    let d = sample();
    assert_eq!(d.find_key("tags"), Some(&Value::Array(vec![text("a"), text("b")])));
    assert_eq!(d.find_key("city"), None);
    assert_eq!(d.find_key("address.city"), None);
    assert_eq!(text("x").find_key("x"), None);
    assert_eq!(Value::Array(vec![]).find_key("sparse"), None);
}

#[test]
fn flag_is_wants_the_boolean_itself() {
    let o = doc(vec![("sparse", Value::Boolean(true)), ("unique", Value::Int32(1))]);
    assert!(o.flag_is("sparse", true));
    assert!(!o.flag_is("sparse", false));
    assert!(!o.flag_is("unique", true));
    assert!(!o.flag_is("missing", false));
    assert!(!Value::Array(vec![]).flag_is("sparse", true));
}

#[test]
fn same_compares_content() {
    let d = sample();
    assert!(d.same(&sample()));
    assert!(d.same(&d.copy()));
    assert!(d.same(&d.clone()));
    assert!(!d.same(&Value::Null));
    assert!(!Value::Int32(1).same(&Value::Int64(1)));
    assert!(!Value::Null.same(&Value::Undefined));
    assert!(!text("a").same(&text("b")));
    assert!(!Value::Array(vec![text("a")]).same(&Value::Array(vec![text("a"), text("a")])));
    assert!(!doc(vec![("a", Value::Null)]).same(&doc(vec![("b", Value::Null)])));
    assert!(Value::Other(7, vec![1, 2, 3]).same(&Value::Other(7, vec![1, 2, 3])));
    assert!(!Value::Other(7, vec![1, 2, 3]).same(&Value::Other(8, vec![1, 2, 3])));
    assert!(!Value::Other(7, vec![1, 2, 3]).same(&Value::Other(7, vec![1, 2])));
    assert!(Value::Double(1.5f64.to_bits()).same(&Value::Double(1.5f64.to_bits())));
    assert!(!Value::Double(0.0f64.to_bits()).same(&Value::Double((-0.0f64).to_bits())));
}

#[test]
fn copy_is_equal_to_its_original() {
    let d = sample();
    assert_eq!(d.copy(), d);
    assert_eq!(d.clone(), d);
    assert_eq!(Value::Other(3, vec![9, 8]).copy(), Value::Other(3, vec![9, 8]));
}

#[test]
fn replace_undefined_touches_undefined_only() {
    assert_eq!(Value::Undefined.replace_undefined(), Value::Null);
    assert_eq!(Value::Null.replace_undefined(), Value::Null);
    assert_eq!(Value::Int32(0).replace_undefined(), Value::Int32(0));
    assert_eq!(
        Value::Array(vec![Value::Undefined]).replace_undefined(),
        Value::Array(vec![Value::Undefined])
    );
}

#[test]
fn collect_texts_finds_every_text_in_order() {
    let mut out = vec![String::from("first")];
    sample().collect_texts(&mut out);
    assert_eq!(out, vec!["first", "Oslo", "a", "b"]);
    let mut none = Vec::new();
    Value::Int32(1).collect_texts(&mut none);
    assert!(none.is_empty());
}

#[test]
fn same_bytes_and_copy_bytes() {
    assert!(same_bytes(&vec![], &vec![]));
    assert!(same_bytes(&vec![1, 2], &vec![1, 2]));
    assert!(!same_bytes(&vec![1, 2], &vec![1, 3]));
    assert!(!same_bytes(&vec![1, 2], &vec![1]));
    assert_eq!(copy_bytes(&vec![5, 6, 7]), vec![5, 6, 7]);
}
