//! Parse a real document with its format crate, hand the value tree to the
//! generator, and check that every leaf of the emitted constant carries
//! exactly the value read back from the parsed document.

use config_struct::emit::generate;
use config_struct::options::Options;
use config_struct::value::{IntLit, Value};

fn convert(v: &toml::Value) -> Value {
    match v {
        toml::Value::String(s) => Value::Text(s.clone()),
        toml::Value::Integer(i) => Value::Integer(IntLit::from_i64(*i)),
        toml::Value::Float(f) => Value::Float(format!("{:?}", f)),
        toml::Value::Boolean(b) => Value::Bool(*b),
        toml::Value::Datetime(d) => Value::Text(d.to_string()),
        toml::Value::Array(es) => Value::Sequence(es.iter().map(convert).collect()),
        toml::Value::Table(t) => Value::Record(
            t.iter().map(|(k, v2)| (k.clone(), convert(v2))).collect(),
        ),
    }
}

const DOC: &str = "name = \"Config name\"\nnumber = 100\nis_config = true\n\n[table]\nmagnitude = 1000000000\n";

#[test]
fn parsed_document_leaves_match_the_emitted_constant() {
    let parsed: toml::Value = toml::from_str(DOC).unwrap();
    assert_eq!(
        parsed.get("name").and_then(|v| v.as_str()),
        Some("Config name")
    );
    assert_eq!(parsed.get("number").and_then(|v| v.as_integer()), Some(100));

    let tree = convert(&parsed);
    let out = generate(&tree, &Options::default()).unwrap();
    assert!(out.contains("name: Cow::Borrowed(\"Config name\")"));
    assert!(out.contains("number: 100"));
    assert!(out.contains("is_config: true"));
    assert!(out.contains("table: Table { magnitude: 1000000000 }"));
}

#[test]
fn reparsing_the_same_document_generates_identical_output() {
    let a: toml::Value = toml::from_str(DOC).unwrap();
    let b: toml::Value = toml::from_str(DOC).unwrap();
    let out_a = generate(&convert(&a), &Options::default()).unwrap();
    let out_b = generate(&convert(&b), &Options::default()).unwrap();
    assert_eq!(out_a, out_b);
}
