use elmo_sqlite3::entries::{
    collect_leaves, contains_value, copy_entry, dedupe, expand_arrays, find_index_entry_vals,
    get_index_entries, multiply, text_values, texts_of_field,
};
use elmo_sqlite3::index::{get_normalized_spec, IndexInfo, IndexType};
use elmo_sqlite3::value::Value;

fn text(s: &str) -> Value {
    Value::Text(String::from(s))
}

fn num(n: i32) -> Value {
    Value::Int32(n)
}

fn arr(items: Vec<Value>) -> Value {
    Value::Array(items)
}

fn doc(pairs: Vec<(&str, Value)>) -> Value {
    Value::Document(pairs.into_iter().map(|(k, v)| (String::from(k), v)).collect())
}

fn fields(pairs: Vec<(&str, IndexType)>) -> Vec<(String, IndexType)> {
    pairs.into_iter().map(|(k, t)| (String::from(k), t)).collect()
}

fn weights(pairs: Vec<(&str, i32)>) -> Option<Vec<(String, i32)>> {
    Some(pairs.into_iter().map(|(k, w)| (String::from(k), w)).collect())
}

fn token(t: &str, w: i32) -> Value {
    arr(vec![text(t), num(w)])
}

fn sparse() -> Value {
    doc(vec![("sparse", Value::Boolean(true))])
}

fn plain() -> Value {
    doc(vec![])
}

fn distinct(entries: &Vec<Vec<(Value, bool)>>) -> bool {
    for i in 0..entries.len() {
        for j in 0..i {
            if entries[i] == entries[j] {
                return false;
            }
        }
    }
    true
}

#[test]
fn a_document_without_arrays_has_one_entry() {
    let d = doc(vec![("a", num(1)), ("b", text("x")), ("c", doc(vec![("d", num(2))]))]);
    let spec = fields(vec![
        ("a", IndexType::Forward),
        ("b", IndexType::Backward),
        ("c.d", IndexType::Forward),
        ("c", IndexType::Geo2d),
    ]);
    let entries = get_index_entries(&d, &spec, &None, &plain());
    assert_eq!(
        entries,
        vec![vec![
            (num(1), false),
            (text("x"), true),
            (num(2), false),
            (doc(vec![("d", num(2))]), false),
        ]]
    );
}

#[test]
fn an_index_without_fields_has_the_empty_entry() {
    let d = doc(vec![("a", num(1))]);
    assert_eq!(get_index_entries(&d, &vec![], &None, &plain()), vec![vec![]]);
    assert_eq!(get_index_entries(&d, &vec![], &None, &sparse()), vec![vec![]]);
}

#[test]
fn an_array_of_n_distinct_values_gives_n_entries() {
    let d = doc(vec![("a", num(7)), ("f", arr(vec![num(1), num(2), num(3)])), ("z", text("q"))]);
    let spec = fields(vec![
        ("a", IndexType::Forward),
        ("f", IndexType::Backward),
        ("z", IndexType::Forward),
    ]);
    let entries = get_index_entries(&d, &spec, &None, &plain());
    assert_eq!(entries.len(), 3);
    for (j, e) in entries.iter().enumerate() {
        assert_eq!(
            e,
            &vec![(num(7), false), (num(j as i32 + 1), true), (text("q"), false)]
        );
    }
}

#[test]
fn repeated_array_items_are_entered_once() {
    let d = doc(vec![("f", arr(vec![num(1), num(2), num(1), num(2), num(1)]))]);
    let entries = get_index_entries(&d, &fields(vec![("f", IndexType::Forward)]), &None, &plain());
    assert_eq!(entries, vec![vec![(num(1), false)], vec![(num(2), false)]]);
}

#[test]
fn arrays_within_arrays_fan_out_too() {
    let d = doc(vec![("f", arr(vec![arr(vec![num(1), num(2)]), num(2), arr(vec![arr(vec![num(3)])])]))]);
    let entries = get_index_entries(&d, &fields(vec![("f", IndexType::Forward)]), &None, &plain());
    assert_eq!(
        entries,
        vec![vec![(num(1), false)], vec![(num(2), false)], vec![(num(3), false)]]
    );
}

#[test]
fn an_empty_array_gives_no_entry() {
    let d = doc(vec![("a", num(1)), ("f", arr(vec![]))]);
    let spec = fields(vec![("a", IndexType::Forward), ("f", IndexType::Forward)]);
    assert!(get_index_entries(&d, &spec, &None, &plain()).is_empty());
}

#[test]
fn two_arrays_give_every_combination() {
    let d = doc(vec![("a", arr(vec![num(1), num(2)])), ("b", arr(vec![text("x"), text("y")]))]);
    let spec = fields(vec![("a", IndexType::Forward), ("b", IndexType::Backward)]);
    let entries = get_index_entries(&d, &spec, &None, &plain());
    assert_eq!(
        entries,
        vec![
            vec![(num(1), false), (text("x"), true)],
            vec![(num(1), false), (text("y"), true)],
            vec![(num(2), false), (text("x"), true)],
            vec![(num(2), false), (text("y"), true)],
        ]
    );
    assert!(distinct(&entries));
}

#[test]
fn a_sparse_index_leaves_out_a_document_without_the_field() {
    let d = doc(vec![("other", num(1))]);
    let spec = fields(vec![("f", IndexType::Forward)]);
    assert!(get_index_entries(&d, &spec, &None, &sparse()).is_empty());
    assert!(get_index_entries(&d, &spec, &weights(vec![("other", 1)]), &sparse()).is_empty());
}

#[test]
fn an_index_that_is_not_sparse_enters_null_for_a_missing_field() {
    let d = doc(vec![("other", num(1))]);
    let spec = fields(vec![("f", IndexType::Backward)]);
    assert_eq!(get_index_entries(&d, &spec, &None, &plain()), vec![vec![(Value::Null, true)]]);
    let off = doc(vec![("sparse", Value::Boolean(false))]);
    assert_eq!(get_index_entries(&d, &spec, &None, &off), vec![vec![(Value::Null, true)]]);
    let odd = doc(vec![("sparse", num(1))]);
    assert_eq!(get_index_entries(&d, &spec, &None, &odd), vec![vec![(Value::Null, true)]]);
    assert_eq!(
        get_index_entries(&d, &spec, &None, &Value::Array(vec![])),
        vec![vec![(Value::Null, true)]]
    );
}

#[test]
fn a_sparse_index_keeps_an_explicit_null() {
    let d = doc(vec![("f", Value::Null)]);
    let spec = fields(vec![("f", IndexType::Forward)]);
    assert_eq!(get_index_entries(&d, &spec, &None, &sparse()), vec![vec![(Value::Null, false)]]);
}

#[test]
fn a_sparse_index_on_several_fields_skips_the_missing_ones() {
    let spec = fields(vec![("a", IndexType::Forward), ("b", IndexType::Backward)]);
    let only_b = doc(vec![("b", num(2))]);
    assert_eq!(get_index_entries(&only_b, &spec, &None, &sparse()), vec![vec![(num(2), true)]]);
    let neither = doc(vec![("c", num(3))]);
    assert!(get_index_entries(&neither, &spec, &None, &sparse()).is_empty());
    assert_eq!(
        get_index_entries(&neither, &spec, &None, &plain()),
        vec![vec![(Value::Null, false), (Value::Null, true)]]
    );
}

#[test]
fn a_text_index_has_one_entry_for_each_distinct_token() {
    let d = doc(vec![("a", num(1)), ("title", text("the cat  the hat"))]);
    let spec = fields(vec![("a", IndexType::Forward)]);
    let entries = get_index_entries(&d, &spec, &weights(vec![("title", 3)]), &plain());
    assert_eq!(
        entries,
        vec![
            vec![(num(1), false), (token("the", 3), false)],
            vec![(num(1), false), (token("cat", 3), false)],
            vec![(num(1), false), (token("hat", 3), false)],
        ]
    );
}

#[test]
fn a_text_index_reads_texts_in_arrays() {
    let d = doc(vec![("tags", arr(vec![text("red fish"), num(5), text("blue fish"), arr(vec![text("no")])]))]);
    let entries = get_index_entries(&d, &vec![], &weights(vec![("tags", 1)]), &plain());
    assert_eq!(
        entries,
        vec![
            vec![(token("red", 1), false)],
            vec![(token("fish", 1), false)],
            vec![(token("blue", 1), false)],
        ]
    );
}

#[test]
fn a_text_index_tells_weights_apart() {
    let d = doc(vec![("title", text("cat")), ("body", text("cat dog"))]);
    let entries =
        get_index_entries(&d, &vec![], &weights(vec![("title", 2), ("body", 1)]), &plain());
    assert_eq!(
        entries,
        vec![
            vec![(token("cat", 2), false)],
            vec![(token("cat", 1), false)],
            vec![(token("dog", 1), false)],
        ]
    );
    let same = get_index_entries(&d, &vec![], &weights(vec![("title", 1), ("body", 1)]), &plain());
    assert_eq!(same, vec![vec![(token("cat", 1), false)], vec![(token("dog", 1), false)]]);
}

#[test]
fn a_text_index_without_tokens_has_no_entry() {
    let d = doc(vec![("a", num(1)), ("title", num(5))]);
    let spec = fields(vec![("a", IndexType::Forward)]);
    assert!(get_index_entries(&d, &spec, &weights(vec![("title", 1)]), &plain()).is_empty());
    assert!(get_index_entries(&d, &spec, &weights(vec![("missing", 1)]), &plain()).is_empty());
    assert!(get_index_entries(&d, &spec, &weights(vec![]), &plain()).is_empty());
}

#[test]
fn the_wildcard_reads_every_text_of_the_document() {
    let d = doc(vec![
        ("a", text("one")),
        ("b", doc(vec![("c", arr(vec![text("two three"), doc(vec![("d", text("one"))])]))])),
        ("n", num(1)),
    ]);
    let entries = get_index_entries(&d, &vec![], &weights(vec![("&**", 4)]), &plain());
    assert_eq!(
        entries,
        vec![
            vec![(token("one", 4), false)],
            vec![(token("two", 4), false)],
            vec![(token("three", 4), false)],
        ]
    );
}

#[test]
fn text_entries_multiply_with_array_entries() {
    let d = doc(vec![("k", arr(vec![num(1), num(2)])), ("t", text("x y"))]);
    let spec = fields(vec![("k", IndexType::Backward)]);
    let entries = get_index_entries(&d, &spec, &weights(vec![("t", 1)]), &plain());
    assert_eq!(
        entries,
        vec![
            vec![(num(1), true), (token("x", 1), false)],
            vec![(num(1), true), (token("y", 1), false)],
            vec![(num(2), true), (token("x", 1), false)],
            vec![(num(2), true), (token("y", 1), false)],
        ]
    );
    assert!(distinct(&entries));
}

#[test]
fn entries_are_a_function_of_their_inputs() {
    let d = doc(vec![("k", arr(vec![num(2), num(1), num(2)])), ("t", text("b a b"))]);
    let spec = fields(vec![("k", IndexType::Forward)]);
    let w = weights(vec![("t", 1)]);
    assert_eq!(
        get_index_entries(&d, &spec, &w, &plain()),
        get_index_entries(&d.clone(), &spec.clone(), &w.clone(), &plain())
    );
}

#[test]
fn backfill_of_tags_gives_two_entries() {
    let d = doc(vec![("_id", num(1)), ("tags", arr(vec![text("a"), text("b")]))]);
    let info = IndexInfo {
        db: String::from("app"),
        coll: String::from("users"),
        name: String::from("tags_1"),
        spec: doc(vec![("tags", num(1))]),
        options: plain(),
    };
    let (spec, w) = get_normalized_spec(&info).unwrap();
    let entries = get_index_entries(&d, &spec, &w, &info.options);
    assert_eq!(entries, vec![vec![(text("a"), false)], vec![(text("b"), false)]]);
}

#[test]
fn find_index_entry_vals_reads_every_field() {
    let d = doc(vec![("a", num(1)), ("b", arr(vec![num(2)]))]);
    let spec = fields(vec![
        ("a", IndexType::Backward),
        ("missing", IndexType::Forward),
        ("b", IndexType::Geo2d),
    ]);
    assert_eq!(
        find_index_entry_vals(&spec, &d, false),
        vec![(num(1), true), (Value::Null, false), (arr(vec![num(2)]), false)]
    );
    assert_eq!(
        find_index_entry_vals(&spec, &d, true),
        vec![(num(1), true), (arr(vec![num(2)]), false)]
    );
}

#[test]
fn the_parts_of_the_generator() {
    let mut leaves = vec![num(0)];
    collect_leaves(&arr(vec![num(1), arr(vec![num(2), num(1)]), arr(vec![])]), &mut leaves);
    assert_eq!(leaves, vec![num(0), num(1), num(2), num(1)]);
    assert_eq!(dedupe(&leaves), vec![num(0), num(1), num(2)]);
    assert!(contains_value(&leaves, &num(2)));
    assert!(!contains_value(&leaves, &Value::Int64(2)));
    let e = vec![(num(1), true), (text("x"), false)];
    assert_eq!(copy_entry(&e), e);
    assert_eq!(
        multiply(&vec![vec![], vec![(num(9), false)]], &vec![num(1), num(2)], true),
        vec![
            vec![(num(1), true)],
            vec![(num(2), true)],
            vec![(num(9), false), (num(1), true)],
            vec![(num(9), false), (num(2), true)],
        ]
    );
    assert!(multiply(&vec![], &vec![num(1)], true).is_empty());
    assert!(multiply(&vec![vec![]], &vec![], true).is_empty());
    assert_eq!(expand_arrays(&vec![]), vec![vec![]]);
    assert_eq!(
        expand_arrays(&vec![(arr(vec![num(1), num(1)]), true)]),
        vec![vec![(num(1), true)]]
    );
    let d = doc(vec![("t", text("a b")), ("u", arr(vec![text("c"), num(1)]))]);
    assert_eq!(texts_of_field(&d, &String::from("t")), vec!["a b"]);
    assert_eq!(texts_of_field(&d, &String::from("u")), vec!["c"]);
    assert_eq!(texts_of_field(&d, &String::from("&**")), vec!["a b", "c"]);
    assert!(texts_of_field(&d, &String::from("v")).is_empty());
    assert_eq!(
        text_values(&d, &vec![(String::from("t"), 2), (String::from("u"), 3)]),
        vec![token("a", 2), token("b", 2), token("c", 3)]
    );
}
