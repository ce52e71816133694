use elmo_sqlite3::error::{Error, ErrorKind};
use elmo_sqlite3::index::{
    decode_index_type, get_normalized_spec, is_negative_double, slice_find, truncate_double,
    weight_of, IndexInfo, IndexType,
};
use elmo_sqlite3::value::Value;

fn text(s: &str) -> Value {
    Value::Text(String::from(s))
}

fn double(x: f64) -> Value {
    Value::Double(x.to_bits())
}

fn doc(pairs: Vec<(&str, Value)>) -> Value {
    Value::Document(pairs.into_iter().map(|(k, v)| (String::from(k), v)).collect())
}

fn info(spec: Value, options: Value) -> IndexInfo {
    IndexInfo {
        db: String::from("app"),
        coll: String::from("users"),
        name: String::from("ndx"),
        spec,
        options,
    }
}

fn fields(pairs: Vec<(&str, IndexType)>) -> Vec<(String, IndexType)> {
    pairs.into_iter().map(|(k, t)| (String::from(k), t)).collect()
}

fn weights(pairs: Vec<(&str, i32)>) -> Option<Vec<(String, i32)>> {
    Some(pairs.into_iter().map(|(k, w)| (String::from(k), w)).collect())
}

const DOUBLES: [f64; 28] = [
    0.0,
    -0.0,
    1.0,
    -1.0,
    0.5,
    -0.5,
    0.999999,
    -0.999999,
    1.5,
    -1.5,
    2.0,
    -2.0,
    1234.5678,
    -1234.5678,
    2147483646.9,
    2147483647.0,
    2147483648.0,
    -2147483648.0,
    -2147483648.9,
    -2147483649.0,
    1e300,
    -1e300,
    f64::INFINITY,
    f64::NEG_INFINITY,
    f64::NAN,
    f64::MIN_POSITIVE,
    5e-324,
    -5e-324,
];

#[test]
fn is_negative_double_agrees_with_the_comparison() {
    for x in DOUBLES {
        assert_eq!(is_negative_double(x.to_bits()), x < 0.0, "{}", x);
    }
    assert!(!is_negative_double((-f64::NAN).to_bits()));
    assert!(!is_negative_double(0xffff_ffff_ffff_ffff));
    assert!(is_negative_double(0x8000_0000_0000_0001));
    assert!(!is_negative_double(0x8000_0000_0000_0000));
    assert!(is_negative_double(0xfff0_0000_0000_0000));
    assert!(!is_negative_double(0xfff0_0000_0000_0001));
}

#[test]
fn truncate_double_agrees_with_the_conversion() {
    for x in DOUBLES {
        assert_eq!(truncate_double(x.to_bits()), x as i32, "{}", x);
    }
    let mut x = 1.0f64;
    for _ in 0..80 {
        for y in [x, -x, x + 0.75, -(x + 0.75), x - 0.25, x * 1.000001] {
            assert_eq!(truncate_double(y.to_bits()), y as i32, "{}", y);
        }
        x *= 1.7;
    }
    assert_eq!(truncate_double(3.99f64.to_bits()), 3);
    assert_eq!(truncate_double((-3.99f64).to_bits()), -3);
    assert_eq!(truncate_double(1e10f64.to_bits()), i32::MAX);
    assert_eq!(truncate_double((-1e10f64).to_bits()), i32::MIN);
    assert_eq!(truncate_double(f64::NAN.to_bits()), 0);
}

#[test]
fn decode_index_type_reads_the_sign() {
    assert_eq!(decode_index_type(&Value::Int32(1)), Ok(IndexType::Forward));
    assert_eq!(decode_index_type(&Value::Int32(0)), Ok(IndexType::Forward));
    assert_eq!(decode_index_type(&Value::Int32(-1)), Ok(IndexType::Backward));
    assert_eq!(decode_index_type(&Value::Int64(7)), Ok(IndexType::Forward));
    assert_eq!(decode_index_type(&Value::Int64(-7)), Ok(IndexType::Backward));
    assert_eq!(decode_index_type(&double(1.0)), Ok(IndexType::Forward));
    assert_eq!(decode_index_type(&double(-1.0)), Ok(IndexType::Backward));
    assert_eq!(decode_index_type(&double(-0.0)), Ok(IndexType::Forward));
    assert_eq!(decode_index_type(&double(f64::NAN)), Ok(IndexType::Forward));
    assert_eq!(decode_index_type(&text("2d")), Ok(IndexType::Geo2d));
}

#[test]
fn decode_index_type_refuses_what_is_no_direction() {
    for v in [
        text("text"),
        text("hashed"),
        text(""),
        Value::Null,
        Value::Undefined,
        Value::Boolean(true),
        Value::Array(vec![]),
        doc(vec![]),
        Value::Other(7, vec![]),
    ] {
        assert_eq!(decode_index_type(&v), Err(Error::BadIndexSpec));
    }
    assert_eq!(Error::BadIndexSpec.kind(), ErrorKind::Encoding);
}

#[test]
fn weight_of_takes_numbers() {
    assert_eq!(weight_of(&Value::Int32(5)), Some(5));
    assert_eq!(weight_of(&Value::Int32(-5)), Some(-5));
    assert_eq!(weight_of(&Value::Int64(5)), Some(5));
    assert_eq!(weight_of(&Value::Int64(0x1_0000_0007)), Some(7));
    assert_eq!(weight_of(&Value::Int64(-1)), Some(-1));
    assert_eq!(weight_of(&Value::Int64(i64::MAX)), Some(i64::MAX as i32));
    assert_eq!(weight_of(&double(2.9)), Some(2));
    assert_eq!(weight_of(&double(-2.9)), Some(-2));
    assert_eq!(weight_of(&text("5")), None);
    assert_eq!(weight_of(&Value::Null), None);
}

#[test]
fn slice_find_gives_the_first_position() {
    let pairs = vec![
        (String::from("a"), Value::Int32(1)),
        (String::from("b"), text("text")),
        (String::from("c"), text("text")),
    ];
    assert_eq!(slice_find(&pairs, "text"), Some(1));
    assert_eq!(slice_find(&pairs, "2d"), None);
    assert_eq!(slice_find(&Vec::new(), "text"), None);
    let late = vec![(String::from("text"), Value::Int32(1)), (String::from("z"), text("text"))];
    assert_eq!(slice_find(&late, "text"), Some(1));
}

#[test]
fn normalized_spec_of_plain_keys() {
    let i = info(
        doc(vec![("a", Value::Int32(1)), ("b", Value::Int32(-1)), ("c", double(-1.0))]),
        doc(vec![]),
    );
    let want = fields(vec![
        ("a", IndexType::Forward),
        ("b", IndexType::Backward),
        ("c", IndexType::Backward),
    ]);
    assert_eq!(get_normalized_spec(&i), Ok((want, None)));
}

#[test]
fn normalized_spec_of_no_keys() {
    assert_eq!(get_normalized_spec(&info(doc(vec![]), Value::Array(vec![]))), Ok((vec![], None)));
}

#[test]
fn normalized_spec_takes_text_keys_out() {
    let i = info(
        doc(vec![("a", Value::Int32(1)), ("title", text("text")), ("body", text("text"))]),
        doc(vec![]),
    );
    assert_eq!(
        get_normalized_spec(&i),
        Ok((fields(vec![("a", IndexType::Forward)]), weights(vec![("title", 1), ("body", 1)])))
    );
}

#[test]
fn normalized_spec_drops_keys_after_the_first_text_key() {
    let i = info(
        doc(vec![
            ("a", Value::Int32(1)),
            ("title", text("text")),
            ("b", Value::Int32(-1)),
            ("body", text("text")),
            ("c", text("not a direction")),
        ]),
        doc(vec![]),
    );
    assert_eq!(
        get_normalized_spec(&i),
        Ok((fields(vec![("a", IndexType::Forward)]), weights(vec![("title", 1), ("body", 1)])))
    );
}

#[test]
fn normalized_spec_lets_stated_weights_override() {
    let i = info(
        doc(vec![("title", text("text")), ("body", text("text"))]),
        doc(vec![(
            "weights",
            doc(vec![
                ("body", Value::Int32(5)),
                ("extra", Value::Int64(3)),
                ("&**", double(2.5)),
                ("body", Value::Int32(9)),
            ]),
        )]),
    );
    assert_eq!(
        get_normalized_spec(&i),
        Ok((vec![], weights(vec![("body", 9), ("extra", 3), ("&**", 2), ("title", 1)])))
    );
}

#[test]
fn normalized_spec_with_weights_but_no_text_key() {
    let i =
        info(doc(vec![("a", Value::Int32(1))]), doc(vec![("weights", doc(vec![("b", Value::Int32(2))]))]));
    assert_eq!(
        get_normalized_spec(&i),
        Ok((fields(vec![("a", IndexType::Forward)]), weights(vec![("b", 2)])))
    );
    let none = info(doc(vec![("a", Value::Int32(1))]), doc(vec![("weights", doc(vec![]))]));
    assert_eq!(
        get_normalized_spec(&none),
        Ok((fields(vec![("a", IndexType::Forward)]), weights(vec![])))
    );
}

#[test]
fn normalized_spec_refuses_malformed_descriptions() {
    let bad = [
        info(Value::Array(vec![]), doc(vec![])),
        info(Value::Null, doc(vec![])),
        info(doc(vec![("a", text("hashed"))]), doc(vec![])),
        info(doc(vec![("a", Value::Null), ("t", text("text"))]), doc(vec![])),
        info(doc(vec![("t", text("text"))]), doc(vec![("weights", Value::Int32(1))])),
        info(doc(vec![("t", text("text"))]), doc(vec![("weights", doc(vec![("t", text("1"))]))])),
        info(doc(vec![("a", Value::Int32(1))]), doc(vec![("weights", Value::Array(vec![]))])),
    ];
    for i in bad.iter() {
        assert_eq!(get_normalized_spec(i), Err(Error::BadIndexSpec));
    }
}

#[test]
fn normalized_spec_is_a_function_of_the_description() {
    let make = || {
        info(
            doc(vec![("a", Value::Int32(-1)), ("t", text("text"))]),
            doc(vec![("weights", doc(vec![("t", Value::Int32(4))]))]),
        )
    };
    assert_eq!(get_normalized_spec(&make()), get_normalized_spec(&make()));
    assert_eq!(get_normalized_spec(&make()), get_normalized_spec(&make().clone()));
}
