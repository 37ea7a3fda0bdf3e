use mcerv::system::jar_parser::{
    calculate_hash, first_jar, has_jar_extension, jar_files, parse_manifest, parse_properties,
    single_jar, InvalidServerDirError, Properties,
};

fn names(items: &[&str]) -> Vec<String> {
    items.iter().map(|w| w.to_string()).collect()
}

#[test]
fn single_jar_wants_exactly_one() {
    assert_eq!(
        single_jar(&names(&[])),
        Err(InvalidServerDirError::NoJar)
    );
    assert_eq!(
        single_jar(&names(&["a.jar"])),
        Ok(&"a.jar".to_string())
    );
    assert_eq!(
        single_jar(&names(&["a.jar", "b.jar"])),
        Err(InvalidServerDirError::MultipleJars)
    );
}

#[test]
fn first_jar_takes_the_first() {
    assert_eq!(first_jar(&names(&[])), Err(InvalidServerDirError::NoJar));
    assert_eq!(
        first_jar(&names(&["a.jar"])),
        Ok((&"a.jar".to_string(), false))
    );
    assert_eq!(
        first_jar(&names(&["a.jar", "b.jar"])),
        Ok((&"a.jar".to_string(), true))
    );
}

#[test]
fn jar_files_go_by_extension() {
    assert!(has_jar_extension("server.jar"));
    assert!(has_jar_extension("..jar"));
    assert!(!has_jar_extension(".jar"));
    assert!(!has_jar_extension("jar"));
    assert!(!has_jar_extension("server.jar.bak"));
    assert!(!has_jar_extension("server.JAR"));
    assert_eq!(
        jar_files(&names(&["eula.txt", "a.jar", "mods", ".jar", "b.jar"])),
        names(&["a.jar", "b.jar"])
    );
}

#[test]
fn invalid_server_dir_errors_have_their_words() {
    assert_eq!(
        InvalidServerDirError::MultipleJars.message(),
        "multiple .jar files found in server directory"
    );
    assert_eq!(
        InvalidServerDirError::NoJar.message(),
        "no .jar file found in server directory"
    );
}

#[test]
fn properties_are_read_line_by_line() {
    let map = parse_properties("a=1\nnot a pair\nb=2=3\r\n=empty key\na=4");
    assert_eq!(map.get("a"), Some(&"4".to_string()));
    assert_eq!(map.get("b"), Some(&"2=3".to_string()));
    assert_eq!(map.get(""), Some(&"empty key".to_string()));
    assert_eq!(map.get("not a pair"), None);
    assert_eq!(map.get("c"), None);
}

#[test]
fn manifest_needs_colon_and_space() {
    let map = parse_manifest("Main-Class: a.b.C\r\nName:value\r\nPath: x: y\r\n");
    assert_eq!(map.get("Main-Class"), Some(&"a.b.C".to_string()));
    assert_eq!(map.get("Name"), None);
    assert_eq!(map.get("Path"), Some(&"x: y".to_string()));
}

#[test]
fn properties_keep_one_value_for_each_key() {
    let mut map = Properties::new();
    assert_eq!(map.get("k"), None);
    map.insert("k".to_string(), "1".to_string());
    map.insert("other".to_string(), "2".to_string());
    map.insert("k".to_string(), "3".to_string());
    assert_eq!(map.get("k"), Some(&"3".to_string()));
    assert_eq!(map.get("other"), Some(&"2".to_string()));
}

#[test]
fn hash_is_sha1_in_hex() {
    assert_eq!(
        calculate_hash(b""),
        "da39a3ee5e6b4b0d3255bfef95601890afd80709"
    );
    assert_eq!(
        calculate_hash(b"abc"),
        "a9993e364706816aba3e25717850c26c9cd0d89d"
    );
}
