use starmod::commands::downloads::{extraction_paths, install_name};
use starmod::commands::game::edit_game_config_files;
use starmod::commands::mods::selected_file_index;
use starmod::installers::stdin::Input;
use starmod::manifest::install_file::InstallFile;
use starmod::settings::config_file_name;
use starmod::game::Game;
use starmod::text::{
    contains, decimal_string, ends_with, find_first_chars, join_strings, nth_word_str, position_of,
    replace_str, rsplit_once_str, signed_decimal_string, split_once_str, starts_with, str_eq,
    str_less, strip_prefix_str,
};
use starmod::utils::{add_extension, lower_case};

#[test]
fn decimal_strings() {
    assert_eq!(decimal_string(0), "0");
    assert_eq!(decimal_string(1716740), "1716740");
    assert_eq!(decimal_string(u64::MAX), "18446744073709551615");
    assert_eq!(signed_decimal_string(-42), "-42");
    assert_eq!(signed_decimal_string(7), "7");
    assert_eq!(signed_decimal_string(i64::MIN), "-9223372036854775808");
}

#[test]
fn string_searches() {
    assert!(starts_with("starmod", "star"));
    assert!(!starts_with("star", "starmod"));
    assert!(ends_with("mod.tar.gz", ".tar.gz"));
    assert!(contains("abcdef", "cde"));
    assert!(!contains("abcdef", "ce"));
    assert!(str_eq("abc", "abc"));
    assert!(!str_eq("abc", "abd"));
    let s: Vec<char> = "hello world".chars().collect();
    let p: Vec<char> = "o w".chars().collect();
    assert_eq!(find_first_chars(&s, &p), Some(4));
}

#[test]
fn string_splits() {
    assert_eq!(
        split_once_str("somemod-1234-1-0.zip", "-1234-"),
        Some(("somemod".to_string(), "1-0.zip".to_string()))
    );
    assert_eq!(split_once_str("abc", "x"), None);
    assert_eq!(rsplit_once_str("a-b-c", '-'), Some(("a-b".to_string(), "c".to_string())));
    assert_eq!(strip_prefix_str("datafoo", "data"), Some("foo".to_string()));
    assert_eq!(strip_prefix_str("foo", "data"), None);
    assert_eq!(replace_str("a//b//c", "//", "/"), "a/b/c");
    assert_eq!(replace_str("1-0-2", "-", "."), "1.0.2");
}

#[test]
fn string_order_and_join() {
    assert!(str_less("1.0", "1.1"));
    assert!(str_less("abc", "abcd"));
    assert!(!str_less("b", "a"));
    assert!(!str_less("a", "a"));
    let parts = vec!["a".to_string(), "b".to_string(), "c".to_string()];
    assert_eq!(join_strings(&parts, ", "), "a, b, c");
    assert_eq!(join_strings(&[], ", "), "");
    assert_eq!(position_of(&parts, "b"), Some(1));
    assert_eq!(position_of(&parts, "d"), None);
}

#[test]
fn lower_case_and_number_parsing() {
    assert_eq!(Input::from_str("EXIT"), Some(Input::Exit));
    assert_eq!(install_name("SomeMod.ESP.zip"), "somemod.esp");
    assert_eq!(selected_file_index("x 42"), Some(42));
    assert_eq!(selected_file_index("x +7"), Some(7));
    assert_eq!(selected_file_index("x x1"), None);
    assert_eq!(Input::from_str("255"), Some(Input::Digit(255)));
    assert_eq!(Input::from_str("256"), None);
}

#[test]
fn nth_words() {
    assert_eq!(nth_word_str("  7   12  x", 0), Some("7".to_string()));
    assert_eq!(nth_word_str("  7   12  x", 1), Some("12".to_string()));
    assert_eq!(nth_word_str("  7   12  x", 2), Some("x".to_string()));
    assert_eq!(nth_word_str("  7   12  x", 3), None);
    assert_eq!(nth_word_str("", 0), None);
}

#[test]
fn path_operations() {
    let p = extraction_paths("downloads", "cache", "Mod.zip");
    assert_eq!(p.download_file, "downloads/Mod.zip");
    assert_eq!(p.archive, "cache/mod");
    assert_eq!(config_file_name(Game::Starfield), "starmod.ron");
    assert_eq!(
        edit_game_config_files("/a/b", &Some("c.ini".to_string()), Vec::new()),
        vec!["/a/b/c.ini".to_string()]
    );
    let f = InstallFile::from_path("data/textures/x.dds");
    assert_eq!(f.destination(), "Data/Textures/x.dds");
    let g = InstallFile::from_path("meshes/x.nif");
    assert_eq!(g.destination(), "Data/meshes/x.nif");
}

#[test]
fn utils_extension_and_case() {
    assert_eq!(add_extension("downloads/mod.zip", "json"), "downloads/mod.zip.json");
    assert_eq!(add_extension("cache/mod", "dmodman"), "cache/mod.dmodman");
    assert_eq!(add_extension("cache/.hidden", "json"), "cache/.hidden.json");
    assert_eq!(add_extension("cache/.mod.7z", "json"), "cache/.mod.7z.json");
    assert_eq!(lower_case("Mods/SomeMod"), Some("Mods/somemod".to_string()));
}
