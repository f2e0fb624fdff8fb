use savepatch::{count_profession, get_captain_profession, has_profession, Json};

fn person_with_roles(roles: &[&str]) -> Json {
    let map: Vec<(String, Json)> = roles
        .iter()
        .map(|r| (r.to_string(), Json::Int(3)))
        .collect();
    Json::Obj(vec![("professions".to_string(), Json::Obj(map))])
}

#[test]
fn direct_role_membership() {
    let p = person_with_roles(&["Actor"]);
    assert!(has_profession(&p, "Actor"));
    assert!(!has_profession(&p, "Director"));
}

#[test]
fn executive_membership_through_captain_aliases() {
    assert!(has_profession(&person_with_roles(&["CptLawyer"]), "Executive"));
    assert!(has_profession(&person_with_roles(&["CptPR"]), "Executive"));
    assert!(!has_profession(&person_with_roles(&["Actor"]), "Executive"));
}

#[test]
fn department_head_membership_through_lieutenant_aliases() {
    assert!(has_profession(
        &person_with_roles(&["LieutSecurity"]),
        "DepartmentHead"
    ));
    assert!(!has_profession(
        &person_with_roles(&["Actor"]),
        "DepartmentHead"
    ));
}

#[test]
fn executive_resolution_is_deterministic() {
    let p = person_with_roles(&["CptLawyer"]);
    for _ in 0..5 {
        assert_eq!(get_captain_profession(&p), Some("CptLawyer"));
    }
}

#[test]
fn executive_resolution_follows_table_order() {
    let p = person_with_roles(&["CptLawyer", "CptHR"]);
    assert_eq!(get_captain_profession(&p), Some("CptHR"));
    let q = person_with_roles(&["CptPR", "CptFinancier"]);
    assert_eq!(get_captain_profession(&q), Some("CptFinancier"));
    assert_eq!(get_captain_profession(&person_with_roles(&["Actor"])), None);
}

#[test]
fn missing_role_map_excludes_entity() {
    let bare = Json::Obj(vec![("id".to_string(), Json::Int(1))]);
    assert!(!has_profession(&bare, "Actor"));
    assert_eq!(get_captain_profession(&bare), None);
    let odd = Json::Obj(vec![(
        "professions".to_string(),
        Json::Str("oops".to_string()),
    )]);
    assert!(!has_profession(&odd, "Actor"));
}

#[test]
fn counts_entities_by_role() {
    let people = vec![
        person_with_roles(&["Actor"]),
        person_with_roles(&["Actor", "Director"]),
        person_with_roles(&["CptHR"]),
        Json::Null,
    ];
    assert_eq!(count_profession(&people, "Actor"), 2);
    assert_eq!(count_profession(&people, "Director"), 1);
    assert_eq!(count_profession(&people, "Executive"), 1);
    assert_eq!(count_profession(&people, "Composer"), 0);
}
