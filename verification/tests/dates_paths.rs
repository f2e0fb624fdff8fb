use savepatch::{
    calculate_current_date, find_game_path, language_file_path, localization_path,
    validate_game_path,
};

#[test]
fn elapsed_time_day_count_advances_epoch() {
    assert_eq!(calculate_current_date("45.02:10:00"), "February 15, 1929");
    assert_eq!(calculate_current_date("0.00:00:00"), "January 01, 1929");
    assert_eq!(calculate_current_date("31.00:00:00"), "February 01, 1929");
    assert_eq!(calculate_current_date("365.00:00:00"), "January 01, 1930");
}

#[test]
fn malformed_elapsed_time_defaults_to_day_zero() {
    assert_eq!(calculate_current_date(""), "January 01, 1929");
    assert_eq!(calculate_current_date("abc.1:2:3"), "January 01, 1929");
    assert_eq!(calculate_current_date("..."), "January 01, 1929");
    assert_eq!(calculate_current_date("no dots at all"), "January 01, 1929");
}

#[test]
fn day_count_without_time_part_still_counts() {
    assert_eq!(calculate_current_date("45"), "February 15, 1929");
}

#[test]
fn localization_paths_are_assembled_verbatim() {
    assert_eq!(
        localization_path("C:\\Games\\HA"),
        "C:\\Games\\HA\\Hollywood Animal_Data\\StreamingAssets\\Data\\Localization"
    );
    assert_eq!(
        language_file_path("C:\\Games\\HA", "en"),
        "C:\\Games\\HA\\Hollywood Animal_Data\\StreamingAssets\\Data\\Localization\\en\\CHARACTER_NAMES.json"
    );
}

#[test]
fn validation_rejects_directories_without_localization() {
    assert!(!validate_game_path("Z:\\definitely\\not\\installed"));
}

#[test]
fn game_path_search_finds_nothing_without_installation() {
    assert!(find_game_path().is_none());
}
