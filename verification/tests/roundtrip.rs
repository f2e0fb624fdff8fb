use savepatch::{extract_language_strings, update_person, Json, LangError, PersonUpdate};

fn to_doc(v: &serde_json::Value) -> Json {
    match v {
        serde_json::Value::Null => Json::Null,
        serde_json::Value::Bool(b) => Json::Bool(*b),
        serde_json::Value::Number(n) => match n.as_i64() {
            Some(i) => Json::Int(i),
            None => Json::Num(n.to_string()),
        },
        serde_json::Value::String(s) => Json::Str(s.clone()),
        serde_json::Value::Array(a) => Json::Arr(a.iter().map(to_doc).collect()),
        serde_json::Value::Object(o) => {
            Json::Obj(o.iter().map(|(k, x)| (k.clone(), to_doc(x))).collect())
        }
    }
}

fn from_doc(j: &Json) -> serde_json::Value {
    match j {
        Json::Null => serde_json::Value::Null,
        Json::Bool(b) => serde_json::Value::Bool(*b),
        Json::Int(i) => serde_json::Value::Number(serde_json::Number::from(*i)),
        Json::Num(s) => serde_json::Value::Number(s.parse().expect("number rendering")),
        Json::Str(s) => serde_json::Value::String(s.clone()),
        Json::Arr(a) => serde_json::Value::Array(a.iter().map(from_doc).collect()),
        Json::Obj(o) => {
            let mut m = serde_json::Map::new();
            for (k, x) in o {
                m.insert(k.clone(), from_doc(x));
            }
            serde_json::Value::Object(m)
        }
    }
}

const SAMPLE: &str = r#"{
  "version": 3,
  "stateJson": {
    "timePassed": "45.02:10:00",
    "budget": 1000,
    "reputation": 2.5,
    "characters": [
      {
        "id": 7,
        "professions": {"CptHR": 3},
        "mood": 0.25,
        "labels": ["Kind"],
        "extraField": {"nested": [1, 2.5, null, true]}
      }
    ]
  }
}"#;

#[test]
fn document_round_trips_without_drift() {
    let original: serde_json::Value = serde_json::from_str(SAMPLE).unwrap();
    let doc = to_doc(&original);
    assert_eq!(from_doc(&doc), original);
}

#[test]
fn empty_update_leaves_document_equal() {
    let original: serde_json::Value = serde_json::from_str(SAMPLE).unwrap();
    let mut doc = to_doc(&original);
    let u = PersonUpdate::empty();
    update_person(&mut doc, "Executive", "7", &u).unwrap();
    assert_eq!(from_doc(&doc), original);
}

#[test]
fn targeted_update_changes_only_the_target() {
    let original: serde_json::Value = serde_json::from_str(SAMPLE).unwrap();
    let mut doc = to_doc(&original);
    let mut u = PersonUpdate::empty();
    u.skill = Some(Json::Num("9.0".to_string()));
    update_person(&mut doc, "Executive", "7", &u).unwrap();
    let after = from_doc(&doc);
    let mut expected = original.clone();
    expected["stateJson"]["characters"][0]["professions"]["CptHR"] =
        serde_json::Value::Number("9.0".parse().unwrap());
    assert_eq!(after, expected);
}

#[test]
fn language_strings_extracted_in_order() {
    let parsed: serde_json::Value =
        serde_json::from_str(r#"{"locStrings": ["Anna", "Bela", "Chris"]}"#).unwrap();
    let strings = extract_language_strings(&to_doc(&parsed)).unwrap();
    assert_eq!(strings, vec!["Anna", "Bela", "Chris"]);
}

#[test]
fn language_strings_errors_are_distinguished() {
    let missing: serde_json::Value = serde_json::from_str(r#"{"other": 1}"#).unwrap();
    assert!(matches!(
        extract_language_strings(&to_doc(&missing)),
        Err(LangError::MissingLocStrings)
    ));
    let invalid: serde_json::Value =
        serde_json::from_str(r#"{"locStrings": ["ok", 3]}"#).unwrap();
    assert!(matches!(
        extract_language_strings(&to_doc(&invalid)),
        Err(LangError::InvalidEntry)
    ));
}
