use ollama_tools::images::Image;
use ollama_tools::json::JsonValue;
use ollama_tools::parameters::{FormatType, KeepAlive, TimeUnit};
use ollama_tools::schema::{JsonStructure, SchemaError};

fn obj(entries: Vec<(&str, JsonValue)>) -> JsonValue {
    JsonValue::Obj(entries.into_iter().map(|(k, v)| (k.to_string(), v)).collect())
}

fn text(s: &str) -> JsonValue {
    JsonValue::Text(s.to_string())
}

fn contains_ref(v: &JsonValue) -> bool {
    match v {
        JsonValue::Ref(_) => true,
        JsonValue::Arr(items) => items.iter().any(contains_ref),
        JsonValue::Obj(entries) => entries.iter().any(|(_, c)| contains_ref(c)),
        _ => false,
    }
}

fn root_keys(v: &JsonValue) -> Vec<String> {
    match v {
        JsonValue::Obj(entries) => entries.iter().map(|(k, _)| k.clone()).collect(),
        _ => panic!("wire document root must be an object"),
    }
}

#[test]
fn keep_alive_indefinitely_is_minus_one() {
    assert_eq!(KeepAlive::Indefinitely.wire_value(), JsonValue::Int(-1));
}

#[test]
fn keep_alive_unload_on_completion_is_zero() {
    assert_eq!(KeepAlive::UnloadOnCompletion.wire_value(), JsonValue::Int(0));
}

#[test]
fn keep_alive_five_minutes() {
    let ka = KeepAlive::Until { time: 5, unit: TimeUnit::Minutes };
    assert_eq!(ka.wire_value(), text("5m"));
}

#[test]
fn keep_alive_two_hours() {
    let ka = KeepAlive::Until { time: 2, unit: TimeUnit::Hours };
    assert_eq!(ka.wire_value(), text("2hr"));
}

#[test]
fn keep_alive_thirty_seconds() {
    let ka = KeepAlive::Until { time: 30, unit: TimeUnit::Seconds };
    assert_eq!(ka.wire_value(), text("30s"));
}

#[test]
fn keep_alive_multi_digit_magnitude() {
    let ka = KeepAlive::Until { time: 1507, unit: TimeUnit::Seconds };
    assert_eq!(ka.wire_value(), text("1507s"));
}

#[test]
fn time_unit_symbols() {
    assert_eq!(TimeUnit::Seconds.to_symbol(), "s");
    assert_eq!(TimeUnit::Minutes.to_symbol(), "m");
    assert_eq!(TimeUnit::Hours.to_symbol(), "hr");
}

#[test]
fn format_plain_json_is_the_string_json() {
    assert_eq!(FormatType::Json.wire_value(), text("json"));
}

#[test]
fn format_schema_constrained_is_the_document() {
    let doc = obj(vec![("type", text("object"))]);
    let js = JsonStructure::new(doc.deep_copy()).unwrap();
    let wire = FormatType::StructuredJson(js).wire_value();
    // The wire value is the schema object itself, not a string.
    assert_eq!(wire, doc);
}

#[test]
fn schema_root_must_be_an_object() {
    assert_eq!(JsonStructure::new(JsonValue::Int(3)), Err(SchemaError::RootNotObject));
    assert_eq!(
        JsonStructure::from_schema(JsonValue::Arr(vec![])),
        Err(SchemaError::RootNotObject)
    );
}

#[test]
fn projection_inlines_shared_subshapes() {
    // Two references to one shared definition: both are inlined, the
    // definitions container is renamed, and no reference survives.
    let address = obj(vec![("type", text("object"))]);
    let doc = obj(vec![
        ("definitions", obj(vec![("address", address.deep_copy())])),
        (
            "properties",
            obj(vec![
                ("home", JsonValue::Ref("address".to_string())),
                ("work", JsonValue::Ref("address".to_string())),
            ]),
        ),
    ]);
    let js = JsonStructure::new(doc).unwrap();
    let wire = js.wire_value();
    assert!(!contains_ref(&wire));
    let keys = root_keys(&wire);
    assert!(keys.contains(&"$defs".to_string()));
    assert!(!keys.contains(&"definitions".to_string()));
    // The two properties hold the definition's body in place.
    match &wire {
        JsonValue::Obj(entries) => {
            let props = &entries.iter().find(|(k, _)| k == "properties").unwrap().1;
            match props {
                JsonValue::Obj(p) => {
                    assert_eq!(p[0].1, address);
                    assert_eq!(p[1].1, address);
                }
                _ => panic!("properties must be an object"),
            }
        }
        _ => panic!("wire document root must be an object"),
    }
}

#[test]
fn projection_terminates_on_self_referential_shape() {
    // A definition that references itself cannot be expanded forever; the
    // projection still yields a document with zero reference nodes.
    let doc = obj(vec![
        (
            "definitions",
            obj(vec![(
                "node",
                obj(vec![("next", JsonValue::Ref("node".to_string()))]),
            )]),
        ),
        ("root", JsonValue::Ref("node".to_string())),
    ]);
    let js = JsonStructure::new(doc).unwrap();
    let wire = js.wire_value();
    assert!(!contains_ref(&wire));
    assert!(root_keys(&wire).contains(&"$defs".to_string()));
}

#[test]
fn projection_replaces_unresolvable_reference_with_empty_schema() {
    let doc = obj(vec![("root", JsonValue::Ref("missing".to_string()))]);
    let js = JsonStructure::new(doc).unwrap();
    let wire = js.wire_value();
    assert_eq!(wire, obj(vec![("root", obj(vec![]))]));
}

#[test]
fn from_schema_bypasses_inlining_but_wire_still_renames() {
    let doc = obj(vec![
        ("definitions", obj(vec![("address", obj(vec![]))])),
        ("home", JsonValue::Ref("address".to_string())),
    ]);
    let js = JsonStructure::from_schema(doc).unwrap();
    let wire = js.wire_value();
    // The held document was taken as given: the reference survives...
    assert!(contains_ref(&wire));
    // ...but the definitions container is still renamed on the wire.
    let keys = root_keys(&wire);
    assert!(keys.contains(&"$defs".to_string()));
    assert!(!keys.contains(&"definitions".to_string()));
}

#[test]
fn image_round_trips_base64_text() {
    let img = Image::from_base64("aGVsbG8=".to_string());
    assert_eq!(img.to_base64(), "aGVsbG8=");
}
