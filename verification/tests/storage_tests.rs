use ranitask::storage::{json_stem, list_sequence_names, sanitize_filename, sequence_file_name};

#[test]
fn sanitize_keeps_letters_digits_dash_underscore() {
    assert_eq!(sanitize_filename("combo-1_A"), "combo-1_A");
    assert_eq!(sanitize_filename("boss fight!"), "boss_fight_");
    assert_eq!(sanitize_filename("a/b\\c.d"), "a_b_c_d");
    assert_eq!(sanitize_filename("héllo"), "héllo");
    assert_eq!(sanitize_filename(""), "");
}

#[test]
fn sanitize_is_idempotent_scenario() {
    let once = sanitize_filename("x y/z");
    assert_eq!(sanitize_filename(&once), once);
}

#[test]
fn file_names() {
    assert_eq!(sequence_file_name("boss fight"), "boss_fight.json");
    assert_eq!(sequence_file_name("a"), "a.json");
}

#[test]
fn stems_of_json_files() {
    assert_eq!(json_stem("a.json"), Some("a".to_string()));
    assert_eq!(json_stem("x.tar.json"), Some("x.tar".to_string()));
    assert_eq!(json_stem("a.txt"), None);
    assert_eq!(json_stem("a.JSON"), None);
    assert_eq!(json_stem(".json"), None);
    assert_eq!(json_stem("json"), None);
    assert_eq!(json_stem("a.json.bak"), None);
    assert_eq!(json_stem(""), None);
}

#[test]
fn listing_is_sorted_json_stems() {
    let files: Vec<String> = vec!["zeta.json", "notes.txt", "Alpha.json", "beta.json", ".json", "beta2.json"]
        .into_iter()
        .map(String::from)
        .collect();
    assert_eq!(
        list_sequence_names(&files),
        vec!["Alpha".to_string(), "beta".to_string(), "beta2".to_string(), "zeta".to_string()]
    );
    assert!(list_sequence_names(&Vec::new()).is_empty());
}

#[test]
fn listing_orders_as_strings_do() {
    let raw = ["b", "a", "B", "ä", "aa", "a b", "_x", "-y", "9"];
    let files: Vec<String> = raw.iter().map(|n| format!("{}.json", n)).collect();
    let mut expected: Vec<String> = raw.iter().map(|n| n.to_string()).collect();
    expected.sort();
    assert_eq!(list_sequence_names(&files), expected);
}

#[test]
fn saved_name_round_trip_scenario() {
    let name = "Boss fight #2";
    let file = sequence_file_name(name);
    let stem = json_stem(&file).unwrap();
    assert_eq!(stem, "Boss_fight__2");
    assert_eq!(sequence_file_name(&stem), file);
    assert_eq!(list_sequence_names(&vec![file.clone()]), vec![stem]);
}

use ranitask::storage::rename_conflicts;

#[test]
fn rename_conflicts_only_with_another_file() {
    assert!(!rename_conflicts("a", "b", false));
    assert!(rename_conflicts("a", "b", true));
    assert!(!rename_conflicts("a b", "a_b", true));
    assert!(!rename_conflicts("same", "same", true));
}

#[test]
fn sanitize_ascii_examples() {
    assert_eq!(sanitize_filename("my seq/1.v2"), "my_seq_1_v2");
    assert_eq!(sanitize_filename("café"), "café");
    assert_eq!(sanitize_filename("a:b*c?"), "a_b_c_");
}
