use vstd::prelude::*;

verus! {

/// The game's installation folder name.
pub open spec fn game_folder() -> Seq<char> {
    "Hollywood Animal"@
}

/// The localization directory below an installation folder.
pub open spec fn localization_subpath() -> Seq<char> {
    "Hollywood Animal_Data\\StreamingAssets\\Data\\Localization"@
}

/// The Steam library directories searched for an installation, in order.
pub open spec fn steam_library(i: int) -> Seq<char> {
    if i == 0 {
        "C:\\Program Files (x86)\\Steam\\steamapps\\common"@
    } else if i == 1 {
        "C:\\Program Files\\Steam\\steamapps\\common"@
    } else if i == 2 {
        "D:\\Steam\\steamapps\\common"@
    } else if i == 3 {
        "D:\\SteamLibrary\\steamapps\\common"@
    } else if i == 4 {
        "E:\\Steam\\steamapps\\common"@
    } else if i == 5 {
        "E:\\SteamLibrary\\steamapps\\common"@
    } else {
        if i == 6 {
            "F:\\Steam\\steamapps\\common"@
        } else {
            "F:\\SteamLibrary\\steamapps\\common"@
        }
    }
}

/// Relies on std::path::Path::exists: whether the path names an existing
/// file-system entry. What is on disk varies, so nothing is assumed of the
/// result.
#[verifier::external_body]
fn path_exists(p: &str) -> bool {
    std::path::Path::new(p).exists()
}

/// One of the searched Steam library directories.
fn steam_library_dir(i: usize) -> (r: &'static str)
    requires
        i < 8,
    ensures
        r@ == steam_library(i as int),
{
    if i == 0 {
        "C:\\Program Files (x86)\\Steam\\steamapps\\common"
    } else if i == 1 {
        "C:\\Program Files\\Steam\\steamapps\\common"
    } else if i == 2 {
        "D:\\Steam\\steamapps\\common"
    } else if i == 3 {
        "D:\\SteamLibrary\\steamapps\\common"
    } else if i == 4 {
        "E:\\Steam\\steamapps\\common"
    } else if i == 5 {
        "E:\\SteamLibrary\\steamapps\\common"
    } else if i == 6 {
        "F:\\Steam\\steamapps\\common"
    } else {
        "F:\\SteamLibrary\\steamapps\\common"
    }
}

/// The installation directory under one Steam library.
pub open spec fn game_dir_under(base: Seq<char>) -> Seq<char> {
    base + "\\"@ + game_folder()
}

/// The localization directory under an installation directory.
pub fn localization_path(game_path: &str) -> (r: String)
    ensures
        r@ == game_path@ + "\\"@ + localization_subpath(),
{
    let mut r = game_path.to_owned();
    r.append("\\");
    r.append("Hollywood Animal_Data\\StreamingAssets\\Data\\Localization");
    r
}

/// The localized character-name file for one language code.
pub fn language_file_path(game_path: &str, language_code: &str) -> (r: String)
    ensures
        r@ == game_path@ + "\\"@ + localization_subpath() + "\\"@ + language_code@
            + "\\CHARACTER_NAMES.json"@,
{
    let mut r = localization_path(game_path);
    r.append("\\");
    r.append(language_code);
    r.append("\\CHARACTER_NAMES.json");
    r
}

/// Whether the directory looks like an installation: its localization
/// directory exists on disk.
pub fn validate_game_path(path: &str) -> bool {
    let localization = localization_path(path);
    path_exists(localization.as_str())
}

/// Search the known Steam libraries for an installation. Any directory
/// returned is one of the fixed candidates; whether one is found depends on
/// the machine.
pub fn find_game_path() -> (r: Option<String>)
    ensures
        r matches Option::Some(p) ==> exists|i: int|
            0 <= i < 8 && p@ == #[trigger] game_dir_under(steam_library(i)),
{
    let mut i: usize = 0;
    while i < 8
        invariant
            i <= 8,
        decreases 8 - i,
    {
        let base = steam_library_dir(i);
        let mut path = base.to_owned();
        path.append("\\");
        path.append("Hollywood Animal");
        let localization = localization_path(path.as_str());
        if path_exists(localization.as_str()) {
            proof {
                assert(path@ == game_dir_under(steam_library(i as int)));
            }
            return Option::Some(path);
        }
        i += 1;
    }
    Option::None
}

} // verus!
