use minigrep::CaseFormat;
use minigrep::Config;
use minigrep::search_with_config;

fn args_of(words: &[&str]) -> Vec<String> {
    let mut v: Vec<String> = Vec::new();
    for w in words {
        v.push(w.to_string());
    }
    v
}

#[test]
fn query_and_file_resolve_from_positions() {
    let args = args_of(&["prog", "needle", "notes.txt"]);
    let config = Config::new(&args, false).unwrap();
    assert_eq!("needle", config.query);
    assert_eq!("notes.txt", config.filename);
    assert!(config.case_sensitive);
}

#[test]
fn missing_query_is_an_error() {
    let args = args_of(&["prog"]);
    let err = Config::new(&args, false).unwrap_err();
    assert_eq!("Query string missing!", err);
}

#[test]
fn missing_file_is_an_error() {
    let args = args_of(&["prog", "foo"]);
    let err = Config::new(&args, false).unwrap_err();
    assert_eq!("File to search missing!", err);
}

#[test]
fn mode_token_with_other_first_character_keeps_case() {
    assert!(matches!(CaseFormat::from_string("x"), CaseFormat::Keep));
    let args = args_of(&["prog", "q", "f", "x"]);
    let config = Config::new(&args, false).unwrap();
    assert!(config.case_sensitive);
}

#[test]
fn mode_token_starting_with_uppercase_i_ignores_case() {
    assert!(matches!(CaseFormat::from_string("Ignore"), CaseFormat::Ignore));
    let args = args_of(&["prog", "q", "f", "Ignore"]);
    let config = Config::new(&args, false).unwrap();
    assert!(!config.case_sensitive);
}

#[test]
fn lowercase_i_keeps_case() {
    assert!(matches!(CaseFormat::from_string("ignore"), CaseFormat::Keep));
    assert!(matches!(CaseFormat::from_string(""), CaseFormat::Keep));
}

#[test]
fn environment_override_selects_insensitive_without_token() {
    let args = args_of(&["prog", "q", "f"]);
    let config = Config::new(&args, true).unwrap();
    assert!(!config.case_sensitive);
    let config_unset = Config::new(&args, false).unwrap();
    assert!(config_unset.case_sensitive);
}

#[test]
fn explicit_token_overrides_environment() {
    let keep = args_of(&["prog", "q", "f", "x"]);
    let config = Config::new(&keep, true).unwrap();
    assert!(config.case_sensitive);
    let ignore = args_of(&["prog", "q", "f", "I"]);
    let config_ignore = Config::new(&ignore, false).unwrap();
    assert!(!config_ignore.case_sensitive);
}

#[test]
fn search_with_config_follows_the_case_mode() {
    let contents = "Rust:\nsafe, fast, productive.\nTrust me.";
    let sensitive = args_of(&["prog", "rUsT", "f", "x"]);
    let config = Config::new(&sensitive, false).unwrap();
    assert_eq!(Vec::<&str>::new(), search_with_config(&config, contents));
    let insensitive = args_of(&["prog", "rUsT", "f", "I"]);
    let config_ci = Config::new(&insensitive, false).unwrap();
    assert_eq!(vec!["Rust:", "Trust me."], search_with_config(&config_ci, contents));
}
