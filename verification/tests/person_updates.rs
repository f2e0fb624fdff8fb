use savepatch::{update_person, Json, PersonUpdate};

fn doc_with_people(people: Vec<Json>) -> Json {
    Json::Obj(vec![(
        "stateJson".to_string(),
        Json::Obj(vec![("characters".to_string(), Json::Arr(people))]),
    )])
}

fn person(doc: &Json, i: usize) -> &Json {
    match doc.get("stateJson").unwrap().get("characters").unwrap() {
        Json::Arr(v) => &v[i],
        _ => panic!("characters is not an array"),
    }
}

fn field<'a>(j: &'a Json, k: &str) -> &'a Json {
    j.get(k).unwrap()
}

#[test]
fn skill_written_under_resolved_captain_alias() {
    let mut doc = doc_with_people(vec![Json::Obj(vec![
        ("id".to_string(), Json::Int(7)),
        (
            "professions".to_string(),
            Json::Obj(vec![("CptHR".to_string(), Json::Int(3))]),
        ),
    ])]);
    let mut u = PersonUpdate::empty();
    u.skill = Some(Json::Int(9));
    update_person(&mut doc, "Executive", "7", &u).unwrap();
    let profs = field(person(&doc, 0), "professions");
    assert_eq!(profs.get("CptHR").unwrap().as_int(), Some(9));
    assert!(profs.get("Executive").is_none());
    match profs {
        Json::Obj(m) => assert_eq!(m.len(), 1),
        _ => panic!("professions is not an object"),
    }
}

#[test]
fn skill_falls_back_to_literal_role_without_alias() {
    let mut doc = doc_with_people(vec![Json::Obj(vec![
        ("id".to_string(), Json::Int(1)),
        (
            "professions".to_string(),
            Json::Obj(vec![("Actor".to_string(), Json::Int(2))]),
        ),
    ])]);
    let mut u = PersonUpdate::empty();
    u.skill = Some(Json::Int(8));
    update_person(&mut doc, "Actor", "1", &u).unwrap();
    let profs = field(person(&doc, 0), "professions");
    assert_eq!(profs.get("Actor").unwrap().as_int(), Some(8));
}

#[test]
fn adding_trait_creates_label_list() {
    let mut doc = doc_with_people(vec![Json::Obj(vec![
        ("id".to_string(), Json::Int(5)),
        (
            "professions".to_string(),
            Json::Obj(vec![("Actor".to_string(), Json::Int(1))]),
        ),
    ])]);
    let mut u = PersonUpdate::empty();
    u.add_trait = Some("Ambitious".to_string());
    update_person(&mut doc, "Actor", "5", &u).unwrap();
    match field(person(&doc, 0), "labels") {
        Json::Arr(v) => {
            assert_eq!(v.len(), 1);
            assert_eq!(v[0].as_str(), Some("Ambitious"));
        }
        _ => panic!("labels is not an array"),
    }
}

#[test]
fn adding_same_trait_twice_keeps_one_occurrence() {
    let mut doc = doc_with_people(vec![Json::Obj(vec![
        ("id".to_string(), Json::Int(5)),
        (
            "professions".to_string(),
            Json::Obj(vec![("Actor".to_string(), Json::Int(1))]),
        ),
        (
            "labels".to_string(),
            Json::Arr(vec![Json::Str("Kind".to_string())]),
        ),
    ])]);
    let mut u = PersonUpdate::empty();
    u.add_trait = Some("Ambitious".to_string());
    update_person(&mut doc, "Actor", "5", &u).unwrap();
    let mut u2 = PersonUpdate::empty();
    u2.add_trait = Some("Ambitious".to_string());
    update_person(&mut doc, "Actor", "5", &u2).unwrap();
    match field(person(&doc, 0), "labels") {
        Json::Arr(v) => {
            assert_eq!(v.len(), 2);
            assert_eq!(v[0].as_str(), Some("Ambitious"));
            assert_eq!(v[1].as_str(), Some("Kind"));
        }
        _ => panic!("labels is not an array"),
    }
}

#[test]
fn removing_trait_drops_all_occurrences() {
    let mut doc = doc_with_people(vec![Json::Obj(vec![
        ("id".to_string(), Json::Int(5)),
        (
            "professions".to_string(),
            Json::Obj(vec![("Actor".to_string(), Json::Int(1))]),
        ),
        (
            "labels".to_string(),
            Json::Arr(vec![
                Json::Str("Lazy".to_string()),
                Json::Str("Kind".to_string()),
                Json::Str("Lazy".to_string()),
            ]),
        ),
    ])]);
    let mut u = PersonUpdate::empty();
    u.remove_trait = Some("Lazy".to_string());
    update_person(&mut doc, "Actor", "5", &u).unwrap();
    match field(person(&doc, 0), "labels") {
        Json::Arr(v) => {
            assert_eq!(v.len(), 1);
            assert_eq!(v[0].as_str(), Some("Kind"));
        }
        _ => panic!("labels is not an array"),
    }
}

#[test]
fn limit_mirrored_under_both_keys() {
    let mut doc = doc_with_people(vec![Json::Obj(vec![
        ("id".to_string(), Json::Int(3)),
        (
            "professions".to_string(),
            Json::Obj(vec![("Actor".to_string(), Json::Int(1))]),
        ),
        ("limit".to_string(), Json::Int(1)),
    ])]);
    let mut u = PersonUpdate::empty();
    u.limit = Some(Json::Num("7.5".to_string()));
    u.add_trait = Some("Star".to_string());
    update_person(&mut doc, "Actor", "3", &u).unwrap();
    let p = person(&doc, 0);
    assert_eq!(field(p, "limit"), field(p, "Limit"));
    assert_eq!(field(p, "limit").as_str(), None);
    match field(p, "limit") {
        Json::Num(s) => assert_eq!(s, "7.5"),
        _ => panic!("limit is not a number"),
    }
}

#[test]
fn custom_name_clearing_conventions() {
    let mut doc = doc_with_people(vec![Json::Obj(vec![
        ("id".to_string(), Json::Int(1)),
        (
            "professions".to_string(),
            Json::Obj(vec![("Actor".to_string(), Json::Int(1))]),
        ),
        ("customName".to_string(), Json::Str("Old".to_string())),
    ])]);
    let mut u = PersonUpdate::empty();
    u.custom_name = Some(Json::Str(String::new()));
    update_person(&mut doc, "Actor", "1", &u).unwrap();
    assert!(field(person(&doc, 0), "customName").is_null());

    let mut u2 = PersonUpdate::empty();
    u2.custom_name = Some(Json::Str("Greta".to_string()));
    update_person(&mut doc, "Actor", "1", &u2).unwrap();
    assert_eq!(field(person(&doc, 0), "customName").as_str(), Some("Greta"));

    let mut u3 = PersonUpdate::empty();
    u3.custom_name = Some(Json::Null);
    update_person(&mut doc, "Actor", "1", &u3).unwrap();
    assert!(field(person(&doc, 0), "customName").is_null());
}

#[test]
fn birth_year_replaces_trailing_segment() {
    let mut doc = doc_with_people(vec![Json::Obj(vec![
        ("id".to_string(), Json::Int(1)),
        (
            "professions".to_string(),
            Json::Obj(vec![("Actor".to_string(), Json::Int(1))]),
        ),
        ("birthDate".to_string(), Json::Str("1880-03-15".to_string())),
    ])]);
    let mut u = PersonUpdate::empty();
    u.birth_year = Some(1905);
    update_person(&mut doc, "Actor", "1", &u).unwrap();
    assert_eq!(
        field(person(&doc, 0), "birthDate").as_str(),
        Some("1880-03-1905")
    );
}

#[test]
fn birth_year_skips_malformed_dates() {
    let mut doc = doc_with_people(vec![Json::Obj(vec![
        ("id".to_string(), Json::Int(1)),
        (
            "professions".to_string(),
            Json::Obj(vec![("Actor".to_string(), Json::Int(1))]),
        ),
        ("birthDate".to_string(), Json::Str("1880".to_string())),
    ])]);
    let mut u = PersonUpdate::empty();
    u.birth_year = Some(1905);
    update_person(&mut doc, "Actor", "1", &u).unwrap();
    assert_eq!(field(person(&doc, 0), "birthDate").as_str(), Some("1880"));

    let mut doc2 = doc_with_people(vec![Json::Obj(vec![
        ("id".to_string(), Json::Int(1)),
        (
            "professions".to_string(),
            Json::Obj(vec![("Actor".to_string(), Json::Int(1))]),
        ),
        ("birthDate".to_string(), Json::Str("a-b-c-d".to_string())),
    ])]);
    let mut u2 = PersonUpdate::empty();
    u2.birth_year = Some(1905);
    update_person(&mut doc2, "Actor", "1", &u2).unwrap();
    assert_eq!(field(person(&doc2, 0), "birthDate").as_str(), Some("a-b-c-d"));
}

#[test]
fn bonus_cards_update_field_and_existing_slot() {
    let mut doc = doc_with_people(vec![Json::Obj(vec![
        ("id".to_string(), Json::Int(1)),
        (
            "professions".to_string(),
            Json::Obj(vec![("Actor".to_string(), Json::Int(1))]),
        ),
        (
            "bonusCards".to_string(),
            Json::Arr(vec![Json::Int(1), Json::Int(2)]),
        ),
    ])]);
    let mut u = PersonUpdate::empty();
    u.bonus_card_money = Some(50);
    u.bonus_card_influence_points = Some(60);
    update_person(&mut doc, "Actor", "1", &u).unwrap();
    let p = person(&doc, 0);
    assert_eq!(field(p, "BonusCardMoney").as_int(), Some(50));
    assert_eq!(field(p, "BonusCardInfluencePoints").as_int(), Some(60));
    match field(p, "bonusCards") {
        Json::Arr(v) => {
            assert_eq!(v[0].as_int(), Some(50));
            assert_eq!(v[1].as_int(), Some(60));
        }
        _ => panic!("bonusCards is not an array"),
    }
}

#[test]
fn bonus_card_slot_never_grows_array() {
    let mut doc = doc_with_people(vec![Json::Obj(vec![
        ("id".to_string(), Json::Int(1)),
        (
            "professions".to_string(),
            Json::Obj(vec![("Actor".to_string(), Json::Int(1))]),
        ),
        ("bonusCards".to_string(), Json::Arr(vec![Json::Int(1)])),
    ])]);
    let mut u = PersonUpdate::empty();
    u.bonus_card_influence_points = Some(60);
    update_person(&mut doc, "Actor", "1", &u).unwrap();
    let p = person(&doc, 0);
    assert_eq!(field(p, "BonusCardInfluencePoints").as_int(), Some(60));
    match field(p, "bonusCards") {
        Json::Arr(v) => {
            assert_eq!(v.len(), 1);
            assert_eq!(v[0].as_int(), Some(1));
        }
        _ => panic!("bonusCards is not an array"),
    }
}

#[test]
fn skill_write_skipped_without_role_map_entry() {
    let mut doc = doc_with_people(vec![Json::Obj(vec![
        ("id".to_string(), Json::Str("x1".to_string())),
        (
            "professions".to_string(),
            Json::Obj(vec![("Actor".to_string(), Json::Int(1))]),
        ),
    ])]);
    let mut u = PersonUpdate::empty();
    u.mood = Some(Json::Num("0.5".to_string()));
    u.gender = Some(1);
    u.is_shady = Some(true);
    update_person(&mut doc, "Actor", "x1", &u).unwrap();
    let p = person(&doc, 0);
    match field(p, "mood") {
        Json::Num(s) => assert_eq!(s, "0.5"),
        _ => panic!("mood is not a number"),
    }
    assert_eq!(field(p, "gender").as_int(), Some(1));
    assert_eq!(field(p, "isShady"), &Json::Bool(true));
}
