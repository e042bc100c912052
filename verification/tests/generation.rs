//! The generator run over the reference configuration documents, checking
//! the emitted declarations and constant values.

use config_struct::emit::generate;
use config_struct::options::Options;
use config_struct::value::{IntLit, Value};

fn text(x: &str) -> Value {
    Value::Text(x.to_string())
}

fn ival(x: i64) -> Value {
    Value::Integer(IntLit::from_i64(x))
}

fn uint(x: u64) -> Value {
    Value::Integer(IntLit::from_u64(x))
}

fn float(x: &str) -> Value {
    Value::Float(x.to_string())
}

fn rec(fields: Vec<(&str, Value)>) -> Value {
    Value::Record(fields.into_iter().map(|(n, v)| (n.to_string(), v)).collect())
}

fn some(v: Value) -> Value {
    Value::Optional(Some(Box::new(v)))
}

fn none() -> Value {
    Value::Optional(None)
}

fn gen(v: &Value) -> String {
    generate(v, &Options::default()).unwrap()
}

/// The document behind the RON-format fixture, as a value tree.
fn ron_config() -> Value {
    rec(vec![
        ("name", text("Config name")),
        ("unit", Value::Unit),
        ("angelface", Value::Char('A')),
        ("integer", ival(100)),
        ("float", float("100.1")),
        ("is_true", Value::Bool(true)),
        ("nothing", none()),
        ("something", some(ival(10))),
        ("empty", Value::Sequence(vec![])),
        ("countdown", Value::Sequence(vec![ival(3), ival(2), ival(1)])),
        (
            "structure",
            rec(vec![
                ("name", text("Doesn't have one, sadly.")),
                ("status", text("Naw too bad.")),
            ]),
        ),
        (
            "objects",
            Value::Sequence(vec![
                rec(vec![("name", text("Thing 1")), ("index", ival(0))]),
                rec(vec![("name", text("Thing 2")), ("index", ival(1))]),
            ]),
        ),
    ])
}

/// The document behind the TOML-format fixture, as a value tree.
fn toml_config() -> Value {
    rec(vec![
        ("name", text("Config name")),
        ("number", ival(100)),
        ("is_config", Value::Bool(true)),
        ("is_not_config", Value::Bool(false)),
        ("one_point_zero", float("1.0")),
        ("one_point_five", float("1.5")),
        ("floaty", float("123.456789")),
        ("coord", Value::Sequence(vec![float("-5.0"), float("5.0")])),
        (
            "color",
            Value::Sequence(vec![ival(0), ival(64), ival(128), ival(255)]),
        ),
        (
            "words",
            Value::Sequence(vec![text("one"), text("two"), text("three")]),
        ),
        (
            "points",
            Value::Sequence(vec![
                Value::Sequence(vec![ival(1), ival(2)]),
                Value::Sequence(vec![ival(3), ival(4)]),
                Value::Sequence(vec![ival(5), ival(6)]),
            ]),
        ),
        (
            "table",
            rec(vec![
                ("name", text("A table")),
                ("magnitude", ival(1000000000)),
                (
                    "table_again",
                    rec(vec![
                        ("name", text("OK this is just getting ridiculous")),
                        ("description", text("getting ridiculous")),
                    ]),
                ),
            ]),
        ),
        (
            "arrayble",
            Value::Sequence(vec![
                rec(vec![("description", text("just unbelievable"))]),
                rec(vec![("description", text("what is this syntax"))]),
            ]),
        ),
        ("empty", Value::Sequence(vec![])),
    ])
}

/// The document behind the YAML-format fixture, as a value tree.
fn yaml_config() -> Value {
    rec(vec![
        ("name", text("Config name")),
        ("nothing", none()),
        ("number", ival(100)),
        ("is_config", Value::Bool(true)),
        ("is_not_config", Value::Bool(false)),
        ("i64_max", ival(9223372036854775807)),
        ("u64_max", uint(18446744073709551615)),
        ("floaty", float("123.456789")),
        ("coord", Value::Sequence(vec![float("-5.0"), float("5.0")])),
        (
            "nested",
            rec(vec![
                ("name", text("nested2")),
                (
                    "values",
                    rec(vec![("x", ival(0)), ("y", ival(1)), ("z", ival(2))]),
                ),
            ]),
        ),
        (
            "array_of_structs",
            Value::Sequence(vec![
                rec(vec![("name", text("first")), ("n", ival(0))]),
                rec(vec![("name", text("second")), ("n", ival(1))]),
            ]),
        ),
        ("empty", Value::Sequence(vec![])),
    ])
}

#[test]
fn test_declarations() {
    let out = gen(&ron_config());
    assert!(out.contains("pub struct Config {"));
    assert!(out.contains("pub const CONFIG: Config = "));
}

#[test]
fn lib_test_declarations() {
    let toml_out = gen(&toml_config());
    assert!(toml_out.contains("pub struct Config {"));
    assert!(toml_out.contains("pub const CONFIG: Config = "));
    let yaml_out = gen(&yaml_config());
    assert!(yaml_out.contains("pub struct Config {"));
    assert!(yaml_out.contains("pub const CONFIG: Config = "));
}

#[test]
fn test_simple_values() {
    let out = gen(&ron_config());
    assert!(out.contains("name: Cow::Borrowed(\"Config name\")"));
    assert!(out.contains("pub unit: (),"));
    assert!(out.contains("unit: ()"));
    assert!(out.contains("pub angelface: char,"));
    assert!(out.contains("angelface: 'A'"));
    assert!(out.contains("pub integer: i8,"));
    assert!(out.contains("integer: 100"));
    assert!(out.contains("pub float: f64,"));
    assert!(out.contains("float: 100.1"));
    assert!(out.contains("pub is_true: bool,"));
    assert!(out.contains("is_true: true"));
    assert!(out.contains("pub nothing: Option<()>,"));
    assert!(out.contains("nothing: None"));
    assert!(out.contains("pub something: Option<i8>,"));
    assert!(out.contains("something: Some(10)"));
}

#[test]
fn lib_test_simple_values() {
    let out = gen(&toml_config());
    assert!(out.contains("name: Cow::Borrowed(\"Config name\")"));
    assert!(out.contains("number: 100"));
    assert!(out.contains("is_config: true"));
    assert!(out.contains("is_not_config: false"));
    assert!(out.contains("one_point_zero: 1.0"));
    assert!(out.contains("one_point_five: 1.5"));
    assert!(out.contains("floaty: 123.456789"));
    let yout = gen(&yaml_config());
    assert!(yout.contains("name: Cow::Borrowed(\"Config name\")"));
    assert!(yout.contains("nothing: None"));
    assert!(yout.contains("number: 100"));
    assert!(yout.contains("pub i64_max: i64,"));
    assert!(yout.contains("i64_max: 9223372036854775807"));
    assert!(yout.contains("pub u64_max: u64,"));
    assert!(yout.contains("u64_max: 18446744073709551615"));
    assert!(yout.contains("floaty: 123.456789"));
}

#[test]
fn test_empty_array() {
    let out = gen(&ron_config());
    assert!(out.contains("pub empty: Cow<'static, [()]>,"));
    assert!(out.contains("empty: Cow::Borrowed(&[])"));
}

#[test]
fn test_compound_values() {
    let out = gen(&ron_config());
    assert!(out.contains("pub countdown: Cow<'static, [i8]>,"));
    assert!(out.contains("countdown: Cow::Borrowed(&[3, 2, 1])"));
    assert!(out.contains("pub struct Structure {"));
    assert!(out.contains(
        "structure: Structure { name: Cow::Borrowed(\"Doesn't have one, sadly.\"), \
         status: Cow::Borrowed(\"Naw too bad.\") }"
    ));
    assert!(out.contains("pub struct Object {"));
    assert!(out.contains(
        "objects: Cow::Borrowed(&[Object { name: Cow::Borrowed(\"Thing 1\"), index: 0 }, \
         Object { name: Cow::Borrowed(\"Thing 2\"), index: 1 }])"
    ));
}

#[test]
fn test_simple_array_values() {
    let out = gen(&toml_config());
    assert!(out.contains("pub coord: Cow<'static, [f64]>,"));
    assert!(out.contains("coord: Cow::Borrowed(&[-5.0, 5.0])"));
    assert!(out.contains("pub color: Cow<'static, [i16]>,"));
    assert!(out.contains("color: Cow::Borrowed(&[0, 64, 128, 255])"));
    assert!(out.contains("pub words: Cow<'static, [Cow<'static, str>]>,"));
    assert!(out.contains(
        "words: Cow::Borrowed(&[Cow::Borrowed(\"one\"), Cow::Borrowed(\"two\"), \
         Cow::Borrowed(\"three\")])"
    ));
    assert!(out.contains("pub points: Cow<'static, [Cow<'static, [i8]>]>,"));
    assert!(out.contains(
        "points: Cow::Borrowed(&[Cow::Borrowed(&[1, 2]), Cow::Borrowed(&[3, 4]), \
         Cow::Borrowed(&[5, 6])])"
    ));
}

#[test]
fn test_table_values() {
    let out = gen(&toml_config());
    assert!(out.contains("pub struct Table {"));
    assert!(out.contains("name: Cow::Borrowed(\"A table\")"));
    assert!(out.contains("pub magnitude: i32,"));
    assert!(out.contains("magnitude: 1000000000"));
}

#[test]
fn test_nested_tables() {
    let out = gen(&toml_config());
    assert!(out.contains("pub struct TableAgain {"));
    assert!(out.contains("name: Cow::Borrowed(\"OK this is just getting ridiculous\")"));
    assert!(out.contains("description: Cow::Borrowed(\"getting ridiculous\")"));
}

#[test]
fn test_array_of_tables() {
    let out = gen(&toml_config());
    assert!(out.contains("pub struct Arrayble {"));
    assert!(out.contains("description: Cow::Borrowed(\"just unbelievable\")"));
    assert!(out.contains("description: Cow::Borrowed(\"what is this syntax\")"));
}

#[test]
fn test_empty_array_is_array_of_unit() {
    let out = gen(&toml_config());
    assert!(out.contains("pub empty: Cow<'static, [()]>,"));
    assert!(out.contains("empty: Cow::Borrowed(&[])"));
}

#[test]
fn lib_test_empty_array_is_array_of_unit() {
    let out = gen(&yaml_config());
    assert!(out.contains("pub empty: Cow<'static, [()]>,"));
    assert!(out.contains("empty: Cow::Borrowed(&[])"));
}

#[test]
fn test_composite_values() {
    let out = gen(&yaml_config());
    assert!(out.contains("coord: Cow::Borrowed(&[-5.0, 5.0])"));
    assert!(out.contains("pub struct Nested {"));
    assert!(out.contains("pub struct Values {"));
    assert!(out.contains("name: Cow::Borrowed(\"nested2\")"));
    assert!(out.contains("values: Values { x: 0, y: 1, z: 2 }"));
    assert!(out.contains("pub struct ArrayOfStruct {"));
    assert!(out.contains(
        "array_of_structs: Cow::Borrowed(&[ArrayOfStruct { name: Cow::Borrowed(\"first\"), \
         n: 0 }, ArrayOfStruct { name: Cow::Borrowed(\"second\"), n: 1 }])"
    ));
}
