use bridge_ls::store::DocumentStore;
use bridge_ls::text::count_lines;
use bridge_ls::text::extension_of;
use bridge_ls::text::file_name_of;
use bridge_ls::text::str_eq;
use bridge_ls::utils::expand_args;

#[test]
fn open_update_get_close_are_consistent() {
    let mut store = DocumentStore::new();
    store.open("file:///tmp/a.lua", "x".to_string());
    assert!(store.update("file:///tmp/a.lua", "y".to_string()));
    assert_eq!(store.get("file:///tmp/a.lua"), Some("y".to_string()));
    store.close("file:///tmp/a.lua");
    assert_eq!(store.get("file:///tmp/a.lua"), None);
}

#[test]
fn update_of_unknown_identity_creates_no_entry() {
    let mut store = DocumentStore::new();
    assert!(!store.update("file:///tmp/ghost.lua", "y".to_string()));
    assert_eq!(store.get("file:///tmp/ghost.lua"), None);
}

#[test]
fn open_overwrites_and_distinct_identities_are_independent() {
    let mut store = DocumentStore::new();
    store.open("a", "first".to_string());
    store.open("b", "other".to_string());
    store.open("a", "second".to_string());
    assert_eq!(store.get("a"), Some("second".to_string()));
    assert_eq!(store.get("b"), Some("other".to_string()));
}

#[test]
fn expand_args_substitutes_only_the_two_placeholders() {
    let templates: Vec<String> =
        vec!["-".to_string(), "$filepath".to_string(), "--name=$filename".to_string()];
    let expanded = expand_args(&templates, "/tmp/a/b.lua");
    // the file name token is substituted even inside an argument
    assert_eq!(expanded, vec!["-", "/tmp/a/b.lua", "--name=b.lua"]);
}

#[test]
fn expand_args_substitutes_every_occurrence() {
    let templates: Vec<String> = vec![
        "$filename:$filename".to_string(),
        "x$filepathy".to_string(),
        "$filepat".to_string(),
        "$$filename".to_string(),
    ];
    let expanded = expand_args(&templates, "/tmp/a/b.lua");
    // a token is replaced wherever it stands; near-misses are literal;
    // an extra leading $ leaves a complete token intact after it
    assert_eq!(
        expanded,
        vec!["b.lua:b.lua", "x/tmp/a/b.luay", "$filepat", "$b.lua"]
    );
}

#[test]
fn expand_args_keeps_length_and_substitutes_both_tokens() {
    let templates: Vec<String> =
        vec!["$filepath".to_string(), "$filename".to_string(), "--check".to_string()];
    let expanded = expand_args(&templates, "/tmp/a/b.lua");
    assert_eq!(expanded.len(), templates.len());
    assert_eq!(expanded, vec!["/tmp/a/b.lua", "b.lua", "--check"]);
}

#[test]
fn file_name_is_the_last_path_component() {
    assert_eq!(file_name_of("/tmp/a/b.lua"), "b.lua");
    assert_eq!(file_name_of("b.lua"), "b.lua");
    assert_eq!(file_name_of("/tmp/a/"), "");
    assert_eq!(file_name_of(""), "");
}

#[test]
fn extension_is_taken_from_the_file_name() {
    assert_eq!(extension_of("/tmp/a/b.lua"), Some("lua".to_string()));
    assert_eq!(extension_of("/tmp/archive.tar.gz"), Some("gz".to_string()));
    assert_eq!(extension_of("/tmp/a/.profile"), None);
    assert_eq!(extension_of("/tmp/a/Makefile"), None);
    assert_eq!(extension_of("/tmp.d/noext"), None);
}

#[test]
fn line_count_matches_editor_line_counting() {
    assert_eq!(count_lines(""), 0);
    assert_eq!(count_lines("a"), 1);
    assert_eq!(count_lines("a\n"), 1);
    assert_eq!(count_lines("a\nb"), 2);
    assert_eq!(count_lines("a\r\nb\r\n"), 2);
    assert_eq!(count_lines("\n\n"), 2);
}

#[test]
fn str_eq_compares_by_characters() {
    assert!(str_eq("héllo", "héllo"));
    assert!(!str_eq("héllo", "hello"));
    assert!(!str_eq("a", "ab"));
}
