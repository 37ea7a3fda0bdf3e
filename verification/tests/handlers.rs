use mcerv::config::Platform;
use mcerv::handlers::{
    accept_eula, argument, eula_accept_file, featured_filter, get_versions, instance_dir,
    instance_file, java_path, optional_value, positional, replace, search_facets, search_request,
    server_list, start_script_name, start_script_path, version_mode, wants_latest_stable,
    SearchRequest,
};
use mcerv::network::fabric_meta::PrintVersionMode;
use mcerv::options::{get_option_value, has_option, is_option_like, position, OptionError};

fn words(items: &[&str]) -> Vec<String> {
    items.iter().map(|w| w.to_string()).collect()
}

#[test]
fn option_value_is_the_next_word() {
    let tokens = words(&["add", "server", "--game", "1.21.8", "--loader", "--installer"]);
    assert_eq!(
        get_option_value("game", &tokens),
        Ok(&"1.21.8".to_string())
    );
    assert_eq!(
        get_option_value("loader", &tokens),
        Err(OptionError::MissingValue)
    );
    assert_eq!(
        get_option_value("installer", &tokens),
        Err(OptionError::MissingValue)
    );
    assert_eq!(
        get_option_value("name", &tokens),
        Err(OptionError::InvalidOption)
    );
    assert_eq!(
        get_option_value("ga", &tokens),
        Err(OptionError::InvalidOption)
    );
}

#[test]
fn option_value_may_begin_with_one_dash() {
    let tokens = words(&["x", "--limit", "-5", "--limit", "7"]);
    assert_eq!(get_option_value("limit", &tokens), Ok(&"-5".to_string()));
    assert!(is_option_like("--x"));
    assert!(is_option_like("--"));
    assert!(!is_option_like("-x"));
    assert!(!is_option_like(""));
    assert_eq!(position(&tokens, &"--limit".to_string()), Some(1));
    assert_eq!(position(&tokens, &"7".to_string()), Some(4));
    assert_eq!(position(&tokens, &"8".to_string()), None);
    assert!(has_option("limit", &tokens));
    assert!(!has_option("lim", &tokens));
}

#[test]
fn option_errors_have_their_words() {
    assert_eq!(OptionError::MissingValue.message(), "Missing value for option.");
    assert_eq!(OptionError::InvalidOption.message(), "Invalid option.");
}

#[test]
fn arguments_by_position() {
    let tokens = words(&["search", "mods", "sodium", "--limit"]);
    assert_eq!(positional(&tokens, 2), Some(&"sodium".to_string()));
    assert_eq!(positional(&tokens, 3), Some(&"--limit".to_string()));
    assert_eq!(positional(&tokens, 4), None);
    assert_eq!(argument(&tokens, 2), Some(&"sodium".to_string()));
    assert_eq!(argument(&tokens, 3), None);
    assert_eq!(argument(&tokens, 4), None);
    assert_eq!(argument(&words(&["a", "b", ""]), 2), Some(&"".to_string()));
    assert_eq!(argument(&words(&["a", "b", "-"]), 2), None);
}

#[test]
fn version_mode_from_the_flags() {
    assert_eq!(
        version_mode(&words(&["search", "server-versions"])),
        Ok(PrintVersionMode::StableOnly)
    );
    assert_eq!(
        version_mode(&words(&["search", "server-versions", "--all"])),
        Ok(PrintVersionMode::All)
    );
    assert_eq!(
        version_mode(&words(&["search", "server-versions", "--stable-only"])),
        Ok(PrintVersionMode::StableOnly)
    );
    assert_eq!(
        version_mode(&words(&["--all", "--stable-only"])),
        Err("--stable-only and --all are mutually exclusive.".to_string())
    );
}

#[test]
fn featured_is_true_false_or_left_out() {
    assert_eq!(featured_filter(&words(&["x"])), Ok(None));
    assert_eq!(
        featured_filter(&words(&["x", "--featured", "true"])),
        Ok(Some(true))
    );
    assert_eq!(
        featured_filter(&words(&["x", "--featured", "false"])),
        Ok(Some(false))
    );
    assert_eq!(
        featured_filter(&words(&["x", "--featured", "yes"])),
        Err("Invalid value for --featured option.".to_string())
    );
    assert_eq!(
        featured_filter(&words(&["x", "--featured"])),
        Err("Missing --featured option value.".to_string())
    );
}

#[test]
fn optional_values() {
    let tokens = words(&["x", "--index", "downloads", "--limit"]);
    assert_eq!(
        optional_value("index", &tokens),
        Ok(Some(&"downloads".to_string()))
    );
    assert_eq!(optional_value("facets", &tokens), Ok(None));
    assert_eq!(
        optional_value("limit", &tokens),
        Err("Missing --limit option value.".to_string())
    );
}

#[test]
fn search_request_from_the_line() {
    let tokens = words(&[
        "search",
        "mods",
        "map",
        "--facets",
        "license:mit , project_type:mod",
        "--limit",
        "4",
    ]);
    assert_eq!(
        search_request(&tokens, "1.21.8"),
        Ok(SearchRequest {
            query: "map".to_string(),
            facets: words(&[
                "license:mit",
                "project_type:mod",
                "versions:1.21.8",
                "categories:fabric"
            ]),
            index: None,
            limit: Some("4".to_string()),
        })
    );
    assert_eq!(
        search_request(&words(&["search", "mods", "map"]), "1.20"),
        Ok(SearchRequest {
            query: "map".to_string(),
            facets: words(&["versions:1.20", "categories:fabric"]),
            index: None,
            limit: None,
        })
    );
}

#[test]
fn search_request_complains_in_order() {
    assert_eq!(
        search_request(&words(&["search", "mods"]), "1.21"),
        Err("No query provided.".to_string())
    );
    assert_eq!(
        search_request(&words(&["search", "mods", "--limit", "3"]), "1.21"),
        Err("No query provided.".to_string())
    );
    assert_eq!(
        search_request(
            &words(&["search", "mods", "map", "--limit", "--index", "--facets"]),
            "1.21"
        ),
        Err("Missing --facets option value.".to_string())
    );
    assert_eq!(
        search_request(&words(&["search", "mods", "map", "--limit", "--index"]), "1.21"),
        Err("Missing --index option value.".to_string())
    );
    assert_eq!(
        search_request(&words(&["search", "mods", "map", "--limit"]), "1.21"),
        Err("Missing --limit option value.".to_string())
    );
}

#[test]
fn facets_are_split_and_trimmed() {
    assert_eq!(
        search_facets(Some(&"a, b ,,c".to_string()), "1.21"),
        words(&["a", "b", "", "c", "versions:1.21", "categories:fabric"])
    );
    assert_eq!(
        search_facets(Some(&"".to_string()), "1.21"),
        words(&["", "versions:1.21", "categories:fabric"])
    );
}

fn triple(a: &str, b: &str, c: &str) -> (String, String, String) {
    (a.to_string(), b.to_string(), c.to_string())
}

#[test]
fn versions_from_options_and_latest() {
    let latest = Some(triple("1.21.8", "0.16.14", "1.0.3"));
    let none = None;
    let full = words(&[
        "add", "server", "x", "--game", "1.20", "--loader", "0.15", "--installer", "1.0",
    ]);
    assert_eq!(get_versions(&full, &none), Ok(triple("1.20", "0.15", "1.0")));
    assert_eq!(get_versions(&full, &latest), Ok(triple("1.20", "0.15", "1.0")));

    let partial = words(&["add", "server", "x", "--latest-stable", "--loader", "0.15"]);
    assert!(wants_latest_stable(&partial));
    assert!(!wants_latest_stable(&full));
    assert_eq!(
        get_versions(&partial, &latest),
        Ok(triple("1.21.8", "0.15", "1.0.3"))
    );
    assert_eq!(
        get_versions(&partial, &none),
        Err("Missing or invalid --game option".to_string())
    );
    assert_eq!(
        get_versions(&words(&["x", "--game", "1.20"]), &none),
        Err("Missing or invalid --loader option".to_string())
    );
    assert_eq!(
        get_versions(&words(&["x", "--game", "1.20", "--loader", "0.15"]), &none),
        Err("Missing or invalid --installer option".to_string())
    );
    assert_eq!(
        get_versions(&words(&["x", "--game", "--loader", "0.15"]), &latest),
        Ok(triple("1.21.8", "0.15", "1.0.3"))
    );
}

#[test]
fn paths_of_an_instance() {
    assert_eq!(instance_dir("alpha"), "instances/alpha");
    assert_eq!(instance_file("alpha", "eula.txt"), "instances/alpha/eula.txt");
    assert_eq!(
        start_script_path("alpha", Platform::Windows),
        "instances/alpha/start_script.bat"
    );
    assert_eq!(
        start_script_path("alpha", Platform::Unix),
        "instances/alpha/start_script.sh"
    );
    assert_eq!(start_script_name(Platform::Windows), "start_script.bat");
    assert_eq!(start_script_name(Platform::Unix), "start_script.sh");
}

#[test]
fn java_comes_first_on_the_path() {
    assert_eq!(
        java_path("/opt/java", "/usr/bin:/bin", Platform::Unix),
        "/opt/java/bin:/usr/bin:/bin"
    );
    assert_eq!(
        java_path("C:\\java", "C:\\Windows", Platform::Windows),
        "C:\\java\\bin;C:\\Windows"
    );
}

fn replaced(s: &str, from: &str, to: &str) -> String {
    let s: Vec<char> = s.chars().collect();
    let from: Vec<char> = from.chars().collect();
    let to: Vec<char> = to.chars().collect();
    replace(&s, &from, &to).into_iter().collect()
}

#[test]
fn accepting_the_eula_rewrites_the_file() {
    assert_eq!(
        accept_eula("#comment\neula=false\n"),
        "#comment\neula=true\n"
    );
    assert_eq!(accept_eula("eula=true\n"), "eula=true\n");
    assert_eq!(
        accept_eula("eula=falseeula=false"),
        "eula=trueeula=true"
    );
    assert_eq!(accept_eula(""), "");
    assert!(eula_accept_file().ends_with("\neula=true"));
    assert!(eula_accept_file().starts_with("# This file is generated by mcerv"));
}

#[test]
fn replace_goes_from_the_left_without_overlap() {
    for (s, from, to) in [
        ("aaa", "aa", "b"),
        ("abcabc", "bc", ""),
        ("abc", "abcd", "x"),
        ("xx", "x", "xx"),
        ("a-b-c", "-", "--"),
        ("", "a", "b"),
    ] {
        assert_eq!(replaced(s, from, to), s.replace(from, to));
    }
    assert_eq!(replaced("aaa", "aa", "b"), "ba");
    assert_eq!(replaced("abc", "", "x"), "abc");
}

#[test]
fn server_list_says_when_it_is_empty() {
    assert_eq!(server_list(&words(&[])), words(&["Server list is empty."]));
    assert_eq!(server_list(&words(&["a", "b"])), words(&["a", "b"]));
}
