pub mod date;
pub mod doc;
pub mod ident;
pub mod json;
pub mod laws;
pub mod num;
pub mod paths;
pub mod person;
pub mod roles;

pub use date::calculate_current_date;
pub use doc::CompetitorStudio;
pub use doc::CompetitorUpdate;
pub use doc::DocError;
pub use doc::LangError;
pub use doc::SaveInfo;
pub use doc::StudioUpdate;
pub use doc::characters;
pub use doc::extract_language_strings;
pub use doc::get_competitors;
pub use doc::get_current_date;
pub use doc::get_persons;
pub use doc::get_resources;
pub use doc::get_state_json_mut;
pub use doc::get_time_bonuses;
pub use doc::get_titans;
pub use doc::state_json;
pub use doc::summarize;
pub use doc::update_competitor;
pub use doc::update_person;
pub use doc::update_resource;
pub use doc::update_studio;
pub use doc::update_time_bonus;
pub use doc::update_titan;
pub use ident::json_id_matches;
pub use json::Json;
pub use json::JsonV;
pub use num::i64_to_string;
pub use num::parse_i64;
pub use paths::find_game_path;
pub use paths::language_file_path;
pub use paths::localization_path;
pub use paths::validate_game_path;
pub use person::PersonUpdate;
pub use person::add_label;
pub use person::apply_updates;
pub use person::apply_white_tag_update;
pub use person::remove_label;
pub use person::remove_white_tag;
pub use person::update_birth_year;
pub use person::update_bonus_cards_index;
pub use person::upsert_white_tag;
pub use roles::count_profession;
pub use roles::get_captain_profession;
pub use roles::has_profession;
