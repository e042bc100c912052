//! Behavioral properties of the generator: the reference scenario, exact
//! output determinism, numeric width selection, option widening, naming and
//! the error taxonomy.

use config_struct::emit::generate;
use config_struct::error::{GenError, Kind, OptionsError};
use config_struct::options::Options;
use config_struct::value::{IntLit, Value};

fn text(x: &str) -> Value {
    Value::Text(x.to_string())
}

fn ival(x: i64) -> Value {
    Value::Integer(IntLit::from_i64(x))
}

fn uint(x: u64) -> Value {
    Value::Integer(IntLit::from_u64(x))
}

fn rec(fields: Vec<(&str, Value)>) -> Value {
    Value::Record(fields.into_iter().map(|(n, v)| (n.to_string(), v)).collect())
}

fn some(v: Value) -> Value {
    Value::Optional(Some(Box::new(v)))
}

fn none() -> Value {
    Value::Optional(None)
}

fn gen(v: &Value) -> String {
    generate(v, &Options::default()).unwrap()
}

fn scenario() -> Value {
    rec(vec![
        ("name", text("Config name")),
        ("integer", ival(100)),
        ("nothing", none()),
        ("something", some(ival(10))),
    ])
}

#[test]
fn scenario_exact_output() {
    let out = gen(&scenario());
    let mut expected = String::new();
    expected.push_str("use std::borrow::Cow;\n\n");
    expected.push_str("#[derive(Debug, Clone, Serialize, Deserialize)]\n");
    expected.push_str("pub struct Config {\n");
    expected.push_str("    pub name: Cow<'static, str>,\n");
    expected.push_str("    pub integer: i8,\n");
    expected.push_str("    pub nothing: Option<()>,\n");
    expected.push_str("    pub something: Option<i8>,\n");
    expected.push_str("}\n\n");
    expected.push_str("pub const CONFIG: Config = Config { name: Cow::Borrowed(\"Config name\"), integer: 100, nothing: None, something: Some(10) };\n");
    assert_eq!(out, expected);
}

#[test]
fn determinism_identical_trees() {
    let a = gen(&scenario());
    let b = gen(&scenario());
    assert_eq!(a, b);
}

#[test]
fn const_name_defaults_to_uppercased_struct_name() {
    let mut opts = Options::default();
    opts.struct_name = "my_config".to_string();
    assert_eq!(opts.real_const_name(), "MY_CONFIG");
    let out = generate(&scenario(), &opts).unwrap();
    assert!(out.contains("pub const MY_CONFIG: my_config = "));
}

#[test]
fn const_name_override_wins() {
    let mut opts = Options::default();
    opts.const_name = Some("SETTINGS".to_string());
    assert_eq!(opts.real_const_name(), "SETTINGS");
    let out = generate(&scenario(), &opts).unwrap();
    assert!(out.contains("pub const SETTINGS: Config = "));
    assert!(!out.contains("pub const CONFIG"));
}

#[test]
fn generate_const_can_be_disabled() {
    let mut opts = Options::default();
    opts.generate_const = false;
    let out = generate(&scenario(), &opts).unwrap();
    assert!(out.contains("pub struct Config {"));
    assert!(!out.contains("pub const"));
}

#[test]
fn validation_gate_rejects_bad_struct_name() {
    let mut opts = Options::default();
    opts.struct_name = "bad name".to_string();
    assert!(matches!(opts.validate(), Err(OptionsError::InvalidStructName(_))));
    match generate(&scenario(), &opts) {
        Err(GenError::InvalidStructName(n)) => assert_eq!(n, "bad name"),
        _ => panic!("expected the struct name to be rejected"),
    }
    opts.struct_name = String::new();
    assert!(matches!(opts.validate(), Err(OptionsError::InvalidStructName(_))));
    opts.struct_name = "9lives".to_string();
    assert!(matches!(opts.validate(), Err(OptionsError::InvalidStructName(_))));
}

#[test]
fn validation_gate_accepts_legal_names() {
    let mut opts = Options::default();
    opts.struct_name = "My_Config2".to_string();
    assert!(opts.validate().is_ok());
    assert!(generate(&scenario(), &opts).is_ok());
}

#[test]
fn numeric_width_selection() {
    let out = gen(&rec(vec![
        ("umax", uint(18446744073709551615)),
        ("imax", ival(9223372036854775807)),
        ("imin", ival(-9223372036854775808)),
        ("small", ival(100)),
        ("small_negative", ival(-5)),
        ("wider_negative", ival(-129)),
        ("beyond", Value::Sequence(vec![ival(-1), uint(18446744073709551615)])),
    ]));
    assert!(out.contains("pub umax: u64,"));
    assert!(out.contains("pub imax: i64,"));
    assert!(out.contains("pub imin: i64,"));
    assert!(out.contains("pub small: i8,"));
    assert!(out.contains("pub small_negative: i8,"));
    assert!(out.contains("pub wider_negative: i16,"));
    assert!(out.contains("pub beyond: Cow<'static, [i128]>,"));
    assert!(out.contains("imin: -9223372036854775808"));
    assert!(out.contains("umax: 18446744073709551615"));
}

#[test]
fn empty_sequence_is_sequence_of_unit() {
    let out = gen(&rec(vec![("empty", Value::Sequence(vec![]))]));
    assert!(out.contains("pub empty: Cow<'static, [()]>,"));
    assert!(out.contains("empty: Cow::Borrowed(&[])"));
}

#[test]
fn option_widening_none_only_and_mixed() {
    let out = gen(&rec(vec![
        ("nothing", none()),
        ("mixed", Value::Sequence(vec![none(), some(ival(5))])),
        ("bare_mixed", Value::Sequence(vec![none(), ival(5)])),
    ]));
    assert!(out.contains("pub nothing: Option<()>,"));
    assert!(out.contains("pub mixed: Cow<'static, [Option<i8>]>,"));
    assert!(out.contains("mixed: Cow::Borrowed(&[None, Some(5)])"));
    assert!(out.contains("pub bare_mixed: Cow<'static, [Option<i8>]>,"));
    assert!(out.contains("bare_mixed: Cow::Borrowed(&[None, Some(5)])"));
}

#[test]
fn record_merge_widens_missing_fields() {
    let out = gen(&rec(vec![(
        "items",
        Value::Sequence(vec![
            rec(vec![("a", ival(1))]),
            rec(vec![("b", ival(2))]),
        ]),
    )]));
    assert!(out.contains("pub struct Item {"));
    assert!(out.contains("pub a: Option<i8>,"));
    assert!(out.contains("pub b: Option<i8>,"));
    assert!(out.contains("Item { a: Some(1), b: None }"));
    assert!(out.contains("Item { a: None, b: Some(2) }"));
}

#[test]
fn structurally_equal_records_collapse() {
    let out = gen(&rec(vec![
        ("first", rec(vec![("x", ival(1))])),
        ("second", rec(vec![("x", ival(2))])),
    ]));
    assert!(out.contains("pub struct First {"));
    assert!(!out.contains("pub struct Second"));
    assert!(out.contains("pub first: First,"));
    assert!(out.contains("pub second: First,"));
    assert!(out.contains("second: First { x: 2 }"));
}

#[test]
fn colliding_names_are_disambiguated() {
    let out = gen(&rec(vec![
        ("thing", rec(vec![("x", ival(1))])),
        ("outer", rec(vec![("thing", rec(vec![("y", ival(2))]))])),
    ]));
    assert!(out.contains("pub struct Thing {"));
    assert!(out.contains("pub struct Thingx {"));
}

#[test]
fn root_name_is_reserved_for_the_root() {
    let mut opts = Options::default();
    opts.struct_name = "Config".to_string();
    let out = generate(
        &rec(vec![("config", rec(vec![("x", ival(1))]))]),
        &opts,
    )
    .unwrap();
    assert!(out.contains("pub struct Configx {"));
    assert!(out.contains("pub const CONFIG: Config = Config { config: Configx { x: 1 } };"));
}

#[test]
fn type_conflict_reports_path_and_kinds() {
    let doc = rec(vec![("bad", Value::Sequence(vec![ival(1), text("x")]))]);
    match generate(&doc, &Options::default()) {
        Err(GenError::TypeConflict(c)) => {
            assert_eq!(c.path, vec!["bad".to_string(), "[]".to_string()]);
            assert_eq!(c.left, Kind::Integer);
            assert_eq!(c.right, Kind::Text);
        },
        _ => panic!("expected a type conflict"),
    }
}

#[test]
fn conflicting_record_fields_abort_the_run() {
    let doc = rec(vec![(
        "items",
        Value::Sequence(vec![
            rec(vec![("v", ival(1))]),
            rec(vec![("v", text("x"))]),
        ]),
    )]);
    assert!(matches!(
        generate(&doc, &Options::default()),
        Err(GenError::TypeConflict(_))
    ));
}

#[test]
fn string_and_char_literals_are_escaped() {
    let out = gen(&rec(vec![
        ("quoted", text("say \"hi\" \\ done")),
        ("tick", Value::Char('\'')),
        ("newline", Value::Char('\n')),
    ]));
    assert!(out.contains("quoted: Cow::Borrowed(\"say \\\"hi\\\" \\\\ done\")"));
    assert!(out.contains("tick: '\\''"));
    assert!(out.contains("newline: '\\n'"));
}

#[test]
fn derived_traits_are_emitted_on_every_record() {
    let out = gen(&rec(vec![("inner", rec(vec![("x", ival(1))]))]));
    let derive_count = out.matches("#[derive(Debug, Clone, Serialize, Deserialize)]").count();
    assert_eq!(derive_count, 2);
    let mut opts = Options::default();
    opts.derived_traits = vec![];
    let out2 = generate(&scenario(), &opts).unwrap();
    assert!(!out2.contains("#[derive("));
}

#[test]
fn singularization_only_strips_one_trailing_s() {
    let out = gen(&rec(vec![
        ("words", Value::Sequence(vec![rec(vec![("w", ival(1))])])),
        ("glass", rec(vec![("g", ival(2))])),
    ]));
    assert!(out.contains("pub struct Word {"));
    assert!(out.contains("pub struct Glass {"));
}
