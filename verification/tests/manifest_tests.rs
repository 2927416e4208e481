use heroic_library::library::{get_library, Install, LibraryGame, Manifest};
use heroic_library::manifest::{read_document, read_game, read_library};
use heroic_library::scan::scan;
use heroic_library::scan::Resolution;
use heroic_library::platform::Os;

fn game(app_name: &str, title: &str, platform: &str, folder_name: &str) -> LibraryGame {
    LibraryGame {
        app_name: app_name.to_string(),
        title: title.to_string(),
        install: Install { platform: platform.to_string() },
        folder_name: folder_name.to_string(),
    }
}

fn is_malformed(manifest: &Manifest) -> bool {
    matches!(manifest, Manifest::Malformed(_))
}

const FOO: &str = r#"{"games": [{"app_name": "abc123", "title": "Foo Game", "install": {"platform": "Windows"}, "folder_name": "FooGame"}]}"#;

#[test]
fn read_library_reads_a_one_game_manifest() {
    assert_eq!(
        read_library(FOO),
        Manifest::Parsed(vec![game("abc123", "Foo Game", "Windows", "FooGame")])
    );
}

#[test]
fn read_library_keeps_the_order_of_the_manifest() {
    let text = r#"{
        "games": [
            {"app_name": "z", "title": "Last Letter", "install": {"platform": "linux"}, "folder_name": "z"},
            {"app_name": "a", "title": "First Letter", "install": {"platform": "windows"}, "folder_name": "a"},
            {"app_name": "m", "title": "Middle", "install": {"platform": "Mac"}, "folder_name": "m"}
        ]
    }"#;
    assert_eq!(
        get_library(read_library(text)),
        vec![
            game("z", "Last Letter", "linux", "z"),
            game("a", "First Letter", "windows", "a"),
            game("m", "Middle", "Mac", "m"),
        ]
    );
}

#[test]
fn read_library_passes_over_other_members() {
    let text = r#"{"version": 3, "games": [{"app_name": "1", "title": "T", "art_cover": null,
        "install": {"platform": "windows", "executable": "t.exe", "is_dlc": false}, "folder_name": "t",
        "extra": {"about": [1, 2.5, "x"]}}]}"#;
    assert_eq!(read_library(text), Manifest::Parsed(vec![game("1", "T", "windows", "t")]));
}

#[test]
fn read_library_reads_escapes_and_other_scripts() {
    let text = r#"{"games": [{"app_name": "1", "title": "Café \"Noir\" — 東京", "install": {"platform": "windows"}, "folder_name": "dir\\sub"}]}"#;
    assert_eq!(
        read_library(text),
        Manifest::Parsed(vec![game("1", "Café \"Noir\" — 東京", "windows", "dir\\sub")])
    );
}

#[test]
fn read_library_reads_a_manifest_without_games() {
    assert_eq!(read_library(r#"{"games": []}"#), Manifest::Parsed(vec![]));
}

#[test]
fn text_that_is_no_json_is_malformed() {
    assert!(is_malformed(&read_library("")));
    assert!(is_malformed(&read_library("not json")));
    assert!(is_malformed(&read_library(r#"{"games": ["#)));
    assert!(is_malformed(&read_library(r#"{"games": []} trailing"#)));
    assert_eq!(get_library(read_library("")), vec![]);
}

#[test]
fn a_parse_error_says_where_it_is() {
    match read_library("{") {
        Manifest::Malformed(reason) => assert!(reason.contains("line 1 column 1")),
        other => panic!("unexpected: {:?}", other),
    }
}

#[test]
fn a_document_of_another_shape_says_so() {
    assert_eq!(
        read_library("{}"),
        Manifest::Malformed("the document does not declare a library".to_string())
    );
}

#[test]
fn a_document_of_another_shape_is_malformed() {
    assert!(is_malformed(&read_library("null")));
    assert!(is_malformed(&read_library("[]")));
    assert!(is_malformed(&read_library("{}")));
    assert!(is_malformed(&read_library(r#"{"games": {}}"#)));
    assert!(is_malformed(&read_library(r#"{"games": "none"}"#)));
    assert!(is_malformed(&read_library(r#"{"Games": []}"#)));
}

#[test]
fn one_bad_game_spoils_the_manifest() {
    let missing_title = r#"{"games": [
        {"app_name": "1", "title": "T", "install": {"platform": "windows"}, "folder_name": "t"},
        {"app_name": "2", "install": {"platform": "windows"}, "folder_name": "u"}]}"#;
    assert!(is_malformed(&read_library(missing_title)));
    assert_eq!(get_library(read_library(missing_title)), vec![]);
    let number_for_text = r#"{"games": [{"app_name": 1, "title": "T", "install": {"platform": "windows"}, "folder_name": "t"}]}"#;
    assert!(is_malformed(&read_library(number_for_text)));
    let install_without_platform = r#"{"games": [{"app_name": "1", "title": "T", "install": {}, "folder_name": "t"}]}"#;
    assert!(is_malformed(&read_library(install_without_platform)));
    let install_as_text = r#"{"games": [{"app_name": "1", "title": "T", "install": "windows", "folder_name": "t"}]}"#;
    assert!(is_malformed(&read_library(install_as_text)));
    let no_folder = r#"{"games": [{"app_name": "1", "title": "T", "install": {"platform": "windows"}}]}"#;
    assert!(is_malformed(&read_library(no_folder)));
    let null_game = r#"{"games": [null]}"#;
    assert!(is_malformed(&read_library(null_game)));
}

#[test]
fn read_document_reads_a_value_of_serde_json() {
    let document: serde_json::Value = serde_json::from_str(FOO).unwrap();
    assert_eq!(read_document(&document), Some(vec![game("abc123", "Foo Game", "Windows", "FooGame")]));
    assert_eq!(read_document(&serde_json::Value::Null), None);
    assert_eq!(read_document(&serde_json::Value::Array(vec![])), None);
}

#[test]
fn read_game_reads_one_object() {
    let games: serde_json::Value = serde_json::from_str(FOO).unwrap();
    let first = &games["games"][0];
    assert_eq!(read_game(first), Some(game("abc123", "Foo Game", "Windows", "FooGame")));
    assert_eq!(read_game(&games), None);
    assert_eq!(read_game(&serde_json::Value::String("abc123".to_string())), None);
}

#[test]
fn manifest_text_to_found_games() {
    let records = get_library(read_library(FOO));
    let answers = vec![Resolution { canonical: Some("Foo Game".to_string()), prefix: None }];
    let games = scan(&records, &answers);
    assert_eq!(games.len(), 1);
    let (title, found) = games.entry_at(0).unwrap();
    assert_eq!(title, "Foo Game");
    assert_eq!(found.install_dir, Some("FooGame".to_string()));
    assert_eq!(found.platform, Some(Os::Windows));
    assert_eq!(found.prefix, None);
}
