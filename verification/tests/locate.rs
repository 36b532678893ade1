use keyence_collector::locate::{
    choose_config_path, find_config_path, Candidate, CONFIG_NAME,
};

fn candidate(path: &str, is_file: bool) -> Option<Candidate> {
    Some(Candidate { path: path.to_string(), is_file })
}

#[test]
fn explicit_path_has_priority() {
    let found = find_config_path(candidate("x.conf", true), candidate("a", true), None);
    assert_eq!(found.unwrap(), "x.conf");
    let missing = find_config_path(candidate("x.conf", false), candidate("a", true), None);
    assert_eq!(missing.unwrap_err().message(), "Konfigurační soubor nebyl nalezen: x.conf");
}

#[test]
fn current_directory_comes_first() {
    let found = find_config_path(None, candidate("a", true), candidate("b", true));
    assert_eq!(found.unwrap(), "a");
    let found = find_config_path(None, candidate("a", false), candidate("b", true));
    assert_eq!(found.unwrap(), "b");
    let found = find_config_path(None, None, candidate("b", true));
    assert_eq!(found.unwrap(), "b");
}

#[test]
fn searched_places_are_named() {
    let text = |places: &str| {
        format!(
            "Konfigurační soubor '{}' nebyl nalezen. Hledáno v: {}. Použijte například: cargo run -- .\\keyence-collector.conf",
            CONFIG_NAME, places
        )
    };
    let error = find_config_path(None, candidate("a", false), candidate("b", false));
    assert_eq!(error.unwrap_err().message(), text("a; b"));
    let error = find_config_path(None, candidate("a", false), candidate("a", false));
    assert_eq!(error.unwrap_err().message(), text("a"));
    let error = find_config_path(None, candidate("d/a", false), candidate("d//a", false));
    assert_eq!(error.unwrap_err().message(), text("d/a"));
    let error = choose_config_path(None, candidate("a", false), candidate("b", false), true);
    assert_eq!(error.unwrap_err().message(), text("a"));
    let error = choose_config_path(None, candidate("a", false), candidate("b", false), false);
    assert_eq!(error.unwrap_err().message(), text("a; b"));
    let error = find_config_path(None, None, None).unwrap_err();
    assert_eq!(error.message(), text(""));
    assert_eq!(
        error.validator_message(),
        "Konfigurační soubor keyence-collector.conf nebyl nalezen. Předejte jeho cestu jako první argument."
    );
}
