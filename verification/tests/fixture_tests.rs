use rustic_fourier::codec::{fixture_of_tree, tree_of_fixture, JsonValue};
use rustic_fourier::errors::FixtureError;
use rustic_fourier::fixture::{Data, Json};
use rustic_fourier::parts::split_components;
use rustic_fourier::resolve::resolve_in;

fn tree_of_value(v: &serde_json::Value) -> JsonValue<f64> {
    match v {
        serde_json::Value::Null => JsonValue::Null,
        serde_json::Value::Bool(b) => JsonValue::Bool(*b),
        serde_json::Value::Number(n) => match n.as_f64() {
            Some(x) => JsonValue::Num(x),
            None => JsonValue::Null,
        },
        serde_json::Value::String(s) => JsonValue::Str(s.clone()),
        serde_json::Value::Array(items) => {
            JsonValue::Arr(items.iter().map(tree_of_value).collect())
        }
        serde_json::Value::Object(map) => JsonValue::Obj(
            map.iter().map(|(k, v)| (k.clone(), tree_of_value(v))).collect(),
        ),
    }
}

fn value_of_tree(t: &JsonValue<f64>) -> serde_json::Value {
    match t {
        JsonValue::Null => serde_json::Value::Null,
        JsonValue::Bool(b) => serde_json::Value::Bool(*b),
        JsonValue::Num(x) => match serde_json::Number::from_f64(*x) {
            Some(n) => serde_json::Value::Number(n),
            None => serde_json::Value::Null,
        },
        JsonValue::Str(s) => serde_json::Value::String(s.clone()),
        JsonValue::Arr(items) => {
            serde_json::Value::Array(items.iter().map(value_of_tree).collect())
        }
        JsonValue::Obj(fields) => {
            let mut map = serde_json::Map::new();
            for (k, v) in fields {
                map.insert(k.clone(), value_of_tree(v));
            }
            serde_json::Value::Object(map)
        }
    }
}

fn decode_text(text: &str) -> Result<Json<f64>, FixtureError> {
    let value: serde_json::Value =
        serde_json::from_str(text).map_err(|_| FixtureError::DeserializationFailure)?;
    fixture_of_tree(tree_of_value(&value))
}

#[allow(non_snake_case)]
#[test]
fn Json_data_type() {
    let data = r#"
    {
        "function": "read_json",
        "input_data": {
            "ComplexVals": {
                "mag": [
                    0.0, 1.0, 2.0, 3.0, 4.0
                ],
                "phase": [
                    5.0, 6.0, 7.0, 8.0
                ]
            }
        },
        "output_data": {
            "Array": [
                0.0, 1.0, 2.0, 3.0, 4.0, 5.0, 6.0, 7.0, 8.0, 9.0
            ]
        },
        "path": "datasets/io"
    }"#;

    let function = "read_json";
    let mag = vec![0.0, 1.0, 2.0, 3.0, 4.0];
    let phase = vec![5.0, 6.0, 7.0, 8.0];
    let output_data = vec![0.0, 1.0, 2.0, 3.0, 4.0, 5.0, 6.0, 7.0, 8.0, 9.0];
    let path = "datasets/io";

    let p: Json<f64> = decode_text(data).unwrap();

    match p.input_data {
        Data::<_>::ComplexVals { mag: r_mag, phase: r_phase } => {
            assert_eq!(r_mag, mag);
            assert_eq!(r_phase, phase);
        }
        _ => panic!(),
    }

    match p.output_data {
        Data::<_>::Array(vals) => {
            assert_eq!(vals, output_data);
        }
        _ => panic!(),
    }

    match p.function {
        val => assert_eq!(val, function),
    }

    match p.path {
        val => assert_eq!(val, path),
    }
}

fn assert_round_trips(record: Json<f64>) {
    let function = record.function.clone();
    let path = record.path.clone();
    let input = clone_data(&record.input_data);
    let output = clone_data(&record.output_data);

    let tree = tree_of_fixture(record);
    let text = serde_json::to_string(&value_of_tree(&tree)).unwrap();
    let back: serde_json::Value = serde_json::from_str(&text).unwrap();
    let decoded = fixture_of_tree(tree_of_value(&back)).unwrap();

    assert_eq!(decoded.function, function);
    assert_eq!(decoded.path, path);
    assert_data_eq(&decoded.input_data, &input);
    assert_data_eq(&decoded.output_data, &output);
}

fn clone_data(d: &Data<f64>) -> Data<f64> {
    match d {
        Data::FftFreqVals { n, d } => Data::FftFreqVals { n: *n, d: *d },
        Data::ComplexVals { mag, phase } => {
            Data::ComplexVals { mag: mag.clone(), phase: phase.clone() }
        }
        Data::Array(vals) => Data::Array(vals.clone()),
        Data::SineFreqVals { fsine, fsample, duration } => {
            Data::SineFreqVals { fsine: *fsine, fsample: *fsample, duration: *duration }
        }
    }
}

fn assert_data_eq(a: &Data<f64>, b: &Data<f64>) {
    match (a, b) {
        (Data::FftFreqVals { n: n1, d: d1 }, Data::FftFreqVals { n: n2, d: d2 }) => {
            assert_eq!(n1, n2);
            assert_eq!(d1, d2);
        }
        (
            Data::ComplexVals { mag: m1, phase: p1 },
            Data::ComplexVals { mag: m2, phase: p2 },
        ) => {
            assert_eq!(m1, m2);
            assert_eq!(p1, p2);
        }
        (Data::Array(v1), Data::Array(v2)) => assert_eq!(v1, v2),
        (
            Data::SineFreqVals { fsine: a1, fsample: b1, duration: c1 },
            Data::SineFreqVals { fsine: a2, fsample: b2, duration: c2 },
        ) => {
            assert_eq!(a1, a2);
            assert_eq!(b1, b2);
            assert_eq!(c1, c2);
        }
        _ => panic!("variants differ"),
    }
}

#[test]
fn round_trip_all_variants() {
    assert_round_trips(Json {
        input_data: Data::FftFreqVals { n: 1024.0, d: 0.0078125 },
        output_data: Data::Array(vec![0.25, -1.5, 3.0e-7, 1.0065678589724494]),
        function: "fftfreq".to_string(),
        path: "datasets/fft".to_string(),
    });
    assert_round_trips(Json {
        input_data: Data::ComplexVals {
            mag: vec![0.0, 1.0, 2.5],
            phase: vec![-0.5, 0.12582098237155617],
        },
        output_data: Data::SineFreqVals { fsine: 50.0, fsample: 8000.0, duration: 0.25 },
        function: "wavegen".to_string(),
        path: "datasets/wavegen".to_string(),
    });
}

#[test]
fn decode_rejects_non_object_document() {
    assert!(matches!(decode_text("[1, 2, 3]"), Err(FixtureError::DeserializationFailure)));
}

#[test]
fn decode_rejects_missing_field() {
    let text = r#"{"function": "f", "path": "p", "input_data": {"Array": [1.0]}}"#;
    assert!(matches!(decode_text(text), Err(FixtureError::DeserializationFailure)));
}

#[test]
fn decode_rejects_unknown_tag() {
    let text = r#"{"function": "f", "path": "p",
        "input_data": {"Array": [1.0]}, "output_data": {"Wrong": [1.0]}}"#;
    assert!(matches!(decode_text(text), Err(FixtureError::DeserializationFailure)));
}

#[test]
fn decode_rejects_untagged_data() {
    let text = r#"{"function": "f", "path": "p",
        "input_data": 5.0, "output_data": {"Array": [1.0]}}"#;
    assert!(matches!(decode_text(text), Err(FixtureError::DeserializationFailure)));
}

#[test]
fn decode_rejects_doubly_tagged_data() {
    let text = r#"{"function": "f", "path": "p",
        "input_data": {"Array": [1.0], "FftFreqVals": {"n": 1.0, "d": 2.0}},
        "output_data": {"Array": [1.0]}}"#;
    assert!(matches!(decode_text(text), Err(FixtureError::DeserializationFailure)));
}

#[test]
fn decode_rejects_non_numeric_array_item() {
    let text = r#"{"function": "f", "path": "p",
        "input_data": {"Array": [1.0, "x"]}, "output_data": {"Array": [1.0]}}"#;
    assert!(matches!(decode_text(text), Err(FixtureError::DeserializationFailure)));
}

#[test]
fn decode_rejects_missing_variant_field() {
    let text = r#"{"function": "f", "path": "p",
        "input_data": {"FftFreqVals": {"n": 1.0}}, "output_data": {"Array": [1.0]}}"#;
    assert!(matches!(decode_text(text), Err(FixtureError::DeserializationFailure)));
}

#[test]
fn decode_rejects_non_string_function() {
    let text = r#"{"function": 7, "path": "p",
        "input_data": {"Array": [1.0]}, "output_data": {"Array": [1.0]}}"#;
    assert!(matches!(decode_text(text), Err(FixtureError::DeserializationFailure)));
}

#[test]
fn sine_scenario() {
    let root = "RusticFourier";
    let cwd: Vec<String> = vec!["home".to_string(), "dev".to_string(), root.to_string()]
        .into_iter()
        .chain(split_components("datasets/wavegen/sine"))
        .collect();
    let anchor = rustic_fourier::anchor::find_root(&cwd, root).unwrap();
    assert_eq!(anchor.ups, 3);

    let entries: Vec<String> = vec![
        "./../../..",
        "./../../../datasets",
        "./../../../datasets/wavegen",
        "./../../../datasets/wavegen/sine",
        "./../../../datasets/wavegen/sine/sine.json",
    ]
    .into_iter()
    .map(|s| s.to_string())
    .collect();
    let fragment = "datasets/wavegen/sine";
    assert_eq!(resolve_in(&entries, fragment), Some(fragment.to_string()));

    let text = r#"{
        "function": "sine",
        "path": "datasets/wavegen/sine",
        "input_data": {"Array": [0.0, 0.12582098237155617, 0.25164196474311235]},
        "output_data": {"Array": [0.0, 0.12548798308194144, 0.24897805436208025]}
    }"#;
    let p = decode_text(text).unwrap();
    match p.input_data {
        Data::<_>::Array(vals) => {
            assert_eq!(vals, vec![0.0, 0.12582098237155617, 0.25164196474311235]);
        }
        _ => panic!(),
    }
}
