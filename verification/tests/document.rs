use savepatch::{
    get_competitors, get_current_date, get_persons, get_resources, get_time_bonuses, get_titans,
    summarize, update_competitor, update_person, update_resource, update_studio,
    update_time_bonus, update_titan, CompetitorUpdate, DocError, Json, PersonUpdate,
    StudioUpdate,
};

fn person(id: i64, role: &str) -> Json {
    Json::Obj(vec![
        ("id".to_string(), Json::Int(id)),
        (
            "professions".to_string(),
            Json::Obj(vec![(role.to_string(), Json::Int(1))]),
        ),
    ])
}

fn state_doc(fields: Vec<(String, Json)>) -> Json {
    Json::Obj(vec![("stateJson".to_string(), Json::Obj(fields))])
}

#[test]
fn update_person_reports_missing_structures() {
    let mut no_state = Json::Obj(vec![("other".to_string(), Json::Int(1))]);
    let u = PersonUpdate::empty();
    assert!(matches!(
        update_person(&mut no_state, "Actor", "1", &u),
        Err(DocError::MissingState)
    ));

    let mut bad_chars = state_doc(vec![(
        "characters".to_string(),
        Json::Str("oops".to_string()),
    )]);
    assert!(matches!(
        update_person(&mut bad_chars, "Actor", "1", &u),
        Err(DocError::MissingCharacters)
    ));

    let mut empty = state_doc(vec![("characters".to_string(), Json::Arr(vec![]))]);
    match update_person(&mut empty, "Actor", "1", &u) {
        Err(DocError::PersonNotFound(id)) => assert_eq!(id, "1"),
        other => panic!("expected PersonNotFound, got {:?}", other),
    }
}

#[test]
fn update_person_requires_role_and_id_to_match() {
    let mut doc = state_doc(vec![(
        "characters".to_string(),
        Json::Arr(vec![person(1, "Actor")]),
    )]);
    let u = PersonUpdate::empty();
    assert!(matches!(
        update_person(&mut doc, "Director", "1", &u),
        Err(DocError::PersonNotFound(_))
    ));
    assert!(matches!(
        update_person(&mut doc, "Actor", "2", &u),
        Err(DocError::PersonNotFound(_))
    ));
    assert!(update_person(&mut doc, "Actor", "1", &u).is_ok());
}

#[test]
fn get_persons_filters_by_role() {
    let doc = state_doc(vec![(
        "characters".to_string(),
        Json::Arr(vec![
            person(1, "Actor"),
            person(2, "Director"),
            person(3, "Actor"),
        ]),
    )]);
    let actors = get_persons(&doc, "Actor").unwrap();
    assert_eq!(actors.len(), 2);
    assert_eq!(actors[0].get("id").unwrap().as_int(), Some(1));
    assert_eq!(actors[1].get("id").unwrap().as_int(), Some(3));
    let writers = get_persons(&doc, "Scriptwriter").unwrap();
    assert!(writers.is_empty());
}

#[test]
fn studio_update_writes_rendered_reputation() {
    let mut doc = state_doc(vec![
        ("budget".to_string(), Json::Int(10)),
        ("reputation".to_string(), Json::Num("1.5".to_string())),
    ]);
    let u = StudioUpdate {
        budget: Some(500),
        cash: Some(70),
        reputation: Some("2.750".to_string()),
        influence: None,
    };
    update_studio(&mut doc, &u).unwrap();
    let s = doc.get("stateJson").unwrap();
    assert_eq!(s.get("budget").unwrap().as_int(), Some(500));
    assert_eq!(s.get("cash").unwrap().as_int(), Some(70));
    assert_eq!(s.get("reputation").unwrap().as_str(), Some("2.750"));
    assert!(s.get("influence").is_none());
}

#[test]
fn resources_exclude_serializer_marker() {
    let doc = state_doc(vec![(
        "otherCountableResources".to_string(),
        Json::Obj(vec![
            ("$type".to_string(), Json::Int(9)),
            ("wood".to_string(), Json::Int(4)),
            ("gold".to_string(), Json::Str("many".to_string())),
            ("stone".to_string(), Json::Int(2)),
        ]),
    )]);
    let r = get_resources(&doc).unwrap();
    assert_eq!(r, vec![("wood".to_string(), 4), ("stone".to_string(), 2)]);
}

#[test]
fn resource_update_inserts_or_overwrites() {
    let mut doc = state_doc(vec![(
        "otherCountableResources".to_string(),
        Json::Obj(vec![("wood".to_string(), Json::Int(4))]),
    )]);
    update_resource(&mut doc, "wood", 9).unwrap();
    update_resource(&mut doc, "iron", 1).unwrap();
    let r = get_resources(&doc).unwrap();
    assert_eq!(r, vec![("wood".to_string(), 9), ("iron".to_string(), 1)]);

    let mut missing = state_doc(vec![]);
    assert!(matches!(
        update_resource(&mut missing, "wood", 1),
        Err(DocError::MissingResources)
    ));
}

#[test]
fn titans_project_second_component() {
    let doc = state_doc(vec![(
        "openedTitans".to_string(),
        Json::Obj(vec![
            (
                "alpha".to_string(),
                Json::Obj(vec![("Item2".to_string(), Json::Int(3))]),
            ),
            (
                "beta".to_string(),
                Json::Obj(vec![("other".to_string(), Json::Int(5))]),
            ),
        ]),
    )]);
    let t = get_titans(&doc).unwrap();
    assert_eq!(t, vec![("alpha".to_string(), 3)]);
}

#[test]
fn titan_update_touches_only_existing_records() {
    let mut doc = state_doc(vec![(
        "openedTitans".to_string(),
        Json::Obj(vec![(
            "alpha".to_string(),
            Json::Obj(vec![("Item2".to_string(), Json::Int(3))]),
        )]),
    )]);
    update_titan(&mut doc, "alpha", 8).unwrap();
    assert_eq!(get_titans(&doc).unwrap(), vec![("alpha".to_string(), 8)]);
    match update_titan(&mut doc, "gamma", 8) {
        Err(DocError::TitanNotFound(id)) => assert_eq!(id, "gamma"),
        other => panic!("expected TitanNotFound, got {:?}", other),
    }
}

#[test]
fn time_bonus_zero_removes_entry() {
    let mut doc = state_doc(vec![]);
    update_time_bonus(&mut doc, "Script", 3).unwrap();
    assert_eq!(
        get_time_bonuses(&doc).unwrap(),
        vec![("Script".to_string(), 3)]
    );
    update_time_bonus(&mut doc, "Prod", 2).unwrap();
    update_time_bonus(&mut doc, "Script", 0).unwrap();
    assert_eq!(
        get_time_bonuses(&doc).unwrap(),
        vec![("Prod".to_string(), 2)]
    );
    update_time_bonus(&mut doc, "Missing", 0).unwrap();
}

#[test]
fn competitors_project_with_defaults() {
    let doc = state_doc(vec![(
        "competitorStudios".to_string(),
        Json::Obj(vec![(
            "rival".to_string(),
            Json::Obj(vec![
                ("lastBudget".to_string(), Json::Int(100)),
                ("isDead".to_string(), Json::Bool(true)),
            ]),
        )]),
    )]);
    let c = get_competitors(&doc).unwrap();
    assert_eq!(c.len(), 1);
    assert_eq!(c[0].id, "rival");
    assert_eq!(c[0].last_budget, 100);
    assert_eq!(c[0].income_this_month, 0);
    assert_eq!(c[0].ip, 0);
    assert!(c[0].is_dead);
    assert_eq!(c[0].budget_cheats_remaining, 0);
}

#[test]
fn competitor_update_is_sparse() {
    let mut doc = state_doc(vec![(
        "competitorStudios".to_string(),
        Json::Obj(vec![(
            "rival".to_string(),
            Json::Obj(vec![
                ("lastBudget".to_string(), Json::Int(100)),
                ("ip".to_string(), Json::Int(7)),
            ]),
        )]),
    )]);
    let u = CompetitorUpdate {
        last_budget: Some(250),
        ip: None,
        budget_cheats_remaining: Some(1),
    };
    update_competitor(&mut doc, "rival", &u).unwrap();
    let c = get_competitors(&doc).unwrap();
    assert_eq!(c[0].last_budget, 250);
    assert_eq!(c[0].ip, 7);
    assert_eq!(c[0].budget_cheats_remaining, 1);
    match update_competitor(&mut doc, "nobody", &u) {
        Err(DocError::CompetitorNotFound(id)) => assert_eq!(id, "nobody"),
        other => panic!("expected CompetitorNotFound, got {:?}", other),
    }
}

#[test]
fn summarize_projects_counts_and_scalars() {
    let doc = state_doc(vec![
        (
            "characters".to_string(),
            Json::Arr(vec![
                person(1, "Actor"),
                person(2, "Actor"),
                person(3, "Director"),
                person(4, "CptHR"),
                person(5, "LieutProd"),
            ]),
        ),
        ("timePassed".to_string(), Json::Str("45.02:10:00".to_string())),
        ("studioName".to_string(), Json::Str("Mine".to_string())),
        (
            "movies".to_string(),
            Json::Arr(vec![Json::Null, Json::Null]),
        ),
        ("budget".to_string(), Json::Int(1000)),
        ("cash".to_string(), Json::Int(30)),
        ("reputation".to_string(), Json::Num("2.5".to_string())),
        ("influence".to_string(), Json::Int(12)),
        ("studioLogoId".to_string(), Json::Int(3)),
    ]);
    let info = summarize(&doc).unwrap();
    assert_eq!(info.current_date, "February 15, 1929");
    assert_eq!(info.player_studio_name, "Mine");
    assert_eq!(info.actors_count, 2);
    assert_eq!(info.directors_count, 1);
    assert_eq!(info.executives_count, 1);
    assert_eq!(info.dept_heads_count, 1);
    assert_eq!(info.producers_count, 0);
    assert_eq!(info.movies_count, 2);
    assert_eq!(info.studios_count, 1);
    assert_eq!(info.budget, 1000);
    assert_eq!(info.cash, 30);
    assert_eq!(info.reputation, "2.5");
    assert_eq!(info.influence, 12);
    assert_eq!(info.studio_logo_id, 3);
}

#[test]
fn summarize_uses_defaults_for_missing_fields() {
    let doc = state_doc(vec![("characters".to_string(), Json::Arr(vec![]))]);
    let info = summarize(&doc).unwrap();
    assert_eq!(info.current_date, "January 01, 1929");
    assert_eq!(info.player_studio_name, "Player Studio");
    assert_eq!(info.budget, 0);
    assert_eq!(info.reputation, "0");
    assert_eq!(info.movies_count, 0);
}

#[test]
fn current_date_read_from_document() {
    let doc = state_doc(vec![(
        "timePassed".to_string(),
        Json::Str("45.02:10:00".to_string()),
    )]);
    assert_eq!(get_current_date(&doc).unwrap(), "February 15, 1929");
    let no_state = Json::Obj(vec![]);
    assert!(matches!(
        get_current_date(&no_state),
        Err(DocError::MissingState)
    ));
}

#[test]
fn missing_records_are_reported_per_structure() {
    let bare = state_doc(vec![]);
    assert!(matches!(get_titans(&bare), Err(DocError::MissingTitans)));
    assert!(matches!(
        get_competitors(&bare),
        Err(DocError::MissingCompetitors)
    ));
    assert!(matches!(
        get_resources(&bare),
        Err(DocError::MissingResources)
    ));

    let mut odd = state_doc(vec![(
        "timeBonuses".to_string(),
        Json::Str("oops".to_string()),
    )]);
    assert!(matches!(
        update_time_bonus(&mut odd, "Script", 1),
        Err(DocError::MissingTimeBonuses)
    ));

    let no_state = Json::Obj(vec![]);
    assert!(matches!(summarize(&no_state), Err(DocError::MissingState)));
    let no_chars = state_doc(vec![]);
    assert!(matches!(
        summarize(&no_chars),
        Err(DocError::MissingCharacters)
    ));
}

#[test]
fn first_matching_entity_wins() {
    let mut doc = state_doc(vec![(
        "characters".to_string(),
        Json::Arr(vec![person(1, "Actor"), person(1, "Actor")]),
    )]);
    let mut u = PersonUpdate::empty();
    u.gender = Some(2);
    update_person(&mut doc, "Actor", "1", &u).unwrap();
    match doc.get("stateJson").unwrap().get("characters").unwrap() {
        Json::Arr(v) => {
            assert_eq!(v[0].get("gender").unwrap().as_int(), Some(2));
            assert!(v[1].get("gender").is_none());
        }
        _ => panic!("characters is not an array"),
    }
}

#[test]
fn identifiers_stored_as_strings_or_renderings_match() {
    let mut doc = state_doc(vec![(
        "characters".to_string(),
        Json::Arr(vec![Json::Obj(vec![
            ("id".to_string(), Json::Str("ab-3".to_string())),
            (
                "professions".to_string(),
                Json::Obj(vec![("Actor".to_string(), Json::Int(1))]),
            ),
        ])]),
    )]);
    let u = PersonUpdate::empty();
    assert!(update_person(&mut doc, "Actor", "ab-3", &u).is_ok());
    assert!(matches!(
        update_person(&mut doc, "Actor", "ab-", &u),
        Err(DocError::PersonNotFound(_))
    ));
}
