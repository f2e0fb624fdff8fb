use savepatch::{update_person, Json, PersonUpdate};

fn doc_with_person(extra: Vec<(String, Json)>) -> Json {
    let mut fields = vec![
        ("id".to_string(), Json::Int(1)),
        (
            "professions".to_string(),
            Json::Obj(vec![("Actor".to_string(), Json::Int(1))]),
        ),
    ];
    fields.extend(extra);
    Json::Obj(vec![(
        "stateJson".to_string(),
        Json::Obj(vec![(
            "characters".to_string(),
            Json::Arr(vec![Json::Obj(fields)]),
        )]),
    )])
}

fn person(doc: &Json) -> &Json {
    match doc.get("stateJson").unwrap().get("characters").unwrap() {
        Json::Arr(v) => &v[0],
        _ => panic!("characters is not an array"),
    }
}

fn apply(doc: &mut Json, u: PersonUpdate) {
    update_person(doc, "Actor", "1", &u).unwrap();
}

#[test]
fn adding_genre_creates_full_tag_record() {
    let mut doc = doc_with_person(vec![]);
    let mut u = PersonUpdate::empty();
    u.add_genre = Some("Drama".to_string());
    apply(&mut doc, u);
    let tags = person(&doc).get("whiteTagsNEW").unwrap();
    let drama = tags.get("Drama").unwrap();
    assert_eq!(drama.get("id").unwrap().as_str(), Some("Drama"));
    assert_eq!(drama.get("value").unwrap(), &Json::Num("12.0".to_string()));
    assert_eq!(
        drama.get("dateAdded").unwrap().as_str(),
        Some("1929-01-01T00:00:00")
    );
    assert_eq!(drama.get("movieId").unwrap().as_int(), Some(0));
    assert_eq!(drama.get("IsOverall").unwrap(), &Json::Bool(false));
    match drama.get("overallValues").unwrap() {
        Json::Arr(ov) => {
            assert_eq!(ov.len(), 1);
            assert_eq!(ov[0].get("movieId").unwrap().as_int(), Some(0));
            assert_eq!(ov[0].get("sourceType").unwrap().as_int(), Some(0));
            assert_eq!(
                ov[0].get("value").unwrap(),
                &Json::Num("12.0".to_string())
            );
            assert_eq!(
                ov[0].get("dateAdded").unwrap().as_str(),
                Some("1929-01-01T00:00:00")
            );
        }
        _ => panic!("overallValues is not an array"),
    }
}

fn tag_with_history() -> Json {
    Json::Obj(vec![(
        "ART".to_string(),
        Json::Obj(vec![
            ("id".to_string(), Json::Str("ART".to_string())),
            ("value".to_string(), Json::Num("3.0".to_string())),
            (
                "overallValues".to_string(),
                Json::Arr(vec![
                    Json::Obj(vec![
                        ("movieId".to_string(), Json::Int(5)),
                        ("sourceType".to_string(), Json::Int(0)),
                        ("value".to_string(), Json::Num("2.0".to_string())),
                    ]),
                    Json::Obj(vec![
                        ("movieId".to_string(), Json::Int(0)),
                        ("sourceType".to_string(), Json::Int(0)),
                        ("value".to_string(), Json::Num("3.0".to_string())),
                    ]),
                ]),
            ),
        ]),
    )])
}

#[test]
fn upserting_existing_tag_mirrors_base_entry() {
    let mut doc = doc_with_person(vec![("whiteTagsNEW".to_string(), tag_with_history())]);
    let mut u = PersonUpdate::empty();
    u.art = Some(Json::Num("9.5".to_string()));
    apply(&mut doc, u);
    let art = person(&doc).get("whiteTagsNEW").unwrap().get("ART").unwrap();
    assert_eq!(art.get("value").unwrap(), &Json::Num("9.5".to_string()));
    match art.get("overallValues").unwrap() {
        Json::Arr(ov) => {
            assert_eq!(ov.len(), 2);
            assert_eq!(
                ov[0].get("value").unwrap(),
                &Json::Num("2.0".to_string()),
                "non-base entry must stay untouched"
            );
            assert_eq!(ov[1].get("value").unwrap(), &Json::Num("9.5".to_string()));
        }
        _ => panic!("overallValues is not an array"),
    }
}

#[test]
fn null_attribute_clears_tag() {
    let mut doc = doc_with_person(vec![("whiteTagsNEW".to_string(), tag_with_history())]);
    let mut u = PersonUpdate::empty();
    u.art = Some(Json::Null);
    apply(&mut doc, u);
    let tags = person(&doc).get("whiteTagsNEW").unwrap();
    assert!(tags.get("ART").is_none());
}

#[test]
fn non_numeric_attribute_is_ignored() {
    let mut doc = doc_with_person(vec![("whiteTagsNEW".to_string(), tag_with_history())]);
    let mut u = PersonUpdate::empty();
    u.art = Some(Json::Str("high".to_string()));
    apply(&mut doc, u);
    let art = person(&doc).get("whiteTagsNEW").unwrap().get("ART").unwrap();
    assert_eq!(art.get("value").unwrap(), &Json::Num("3.0".to_string()));
}

#[test]
fn removing_genre_drops_record() {
    let mut doc = doc_with_person(vec![("whiteTagsNEW".to_string(), tag_with_history())]);
    let mut u = PersonUpdate::empty();
    u.remove_genre = Some("ART".to_string());
    apply(&mut doc, u);
    assert!(person(&doc)
        .get("whiteTagsNEW")
        .unwrap()
        .get("ART")
        .is_none());
    let mut u2 = PersonUpdate::empty();
    u2.remove_genre = Some("Missing".to_string());
    apply(&mut doc, u2);
}

#[test]
fn upsert_is_idempotent_for_genres() {
    let mut doc = doc_with_person(vec![]);
    let mut u = PersonUpdate::empty();
    u.add_genre = Some("Drama".to_string());
    apply(&mut doc, u);
    let after_once = format!("{:?}", doc);
    let mut u2 = PersonUpdate::empty();
    u2.add_genre = Some("Drama".to_string());
    apply(&mut doc, u2);
    assert_eq!(format!("{:?}", doc), after_once);
}
