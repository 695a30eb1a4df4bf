//! Path completion over directory listings. `tree()` is the listing of a directory holding
//! `configs/`, `sub/`, `.hiddendir/`, `config.toml`, `config.json`, `notes.txt` and
//! `.hidden.toml`; `sub/` holds `configs/`.
use ferrowl::path_suggest::{
    complete_from_listing, completion_dir, expand_tilde, EntryKind, FsPathProvider,
    MAX_SUGGESTIONS,
};

const ROOT: &str = "/tmp/ferrowl_pathsuggest";

fn tree() -> Vec<(String, EntryKind)> {
    vec![
        ("configs".to_string(), EntryKind::Dir),
        ("sub".to_string(), EntryKind::Dir),
        (".hiddendir".to_string(), EntryKind::Dir),
        ("config.toml".to_string(), EntryKind::File),
        ("config.json".to_string(), EntryKind::File),
        ("notes.txt".to_string(), EntryKind::File),
        (".hidden.toml".to_string(), EntryKind::File),
    ]
}

fn sub_tree() -> Vec<(String, EntryKind)> {
    vec![("configs".to_string(), EntryKind::Dir)]
}

fn names(results: &[(String, bool)]) -> Vec<&str> {
    results.iter().map(|(p, _)| p.as_str()).collect()
}

#[test]
fn ut_prefix_filtering() {
    let dir_prefix = format!("{ROOT}/");
    let input = format!("{dir_prefix}conf");
    assert_eq!(completion_dir(&input, None), dir_prefix);
    let results = complete_from_listing(&input, None, MAX_SUGGESTIONS, &tree());
    let names = names(&results);
    assert!(names.contains(&format!("{dir_prefix}configs/").as_str()));
    assert!(names.contains(&format!("{dir_prefix}config.toml").as_str()));
    assert!(names.contains(&format!("{dir_prefix}config.json").as_str()));
    assert!(!names.iter().any(|n| n.ends_with("notes.txt")));
}

#[test]
fn ut_trailing_slash_on_dirs() {
    let dir_prefix = format!("{ROOT}/");
    let input = format!("{dir_prefix}configs");
    let results = complete_from_listing(&input, None, MAX_SUGGESTIONS, &tree());
    assert_eq!(results.len(), 1);
    assert_eq!(results[0].0, format!("{dir_prefix}configs/"));
    assert!(results[0].1);
}

#[test]
fn ut_hidden_excluded_by_default() {
    let dir_prefix = format!("{ROOT}/");
    let results = complete_from_listing(&dir_prefix, None, MAX_SUGGESTIONS, &tree());
    assert!(!names(&results).iter().any(|n| n.contains(".hidden")));
}

#[test]
fn ut_hidden_included_when_typed() {
    let dir_prefix = format!("{ROOT}/");
    let input = format!("{dir_prefix}.");
    let results = complete_from_listing(&input, None, MAX_SUGGESTIONS, &tree());
    let names = names(&results);
    assert!(names.contains(&format!("{dir_prefix}.hiddendir/").as_str()));
    assert!(names.contains(&format!("{dir_prefix}.hidden.toml").as_str()));
}

#[test]
fn ut_extension_filter_keeps_dirs() {
    let dir_prefix = format!("{ROOT}/");
    let toml = vec!["toml".to_string()];
    let results = complete_from_listing(&dir_prefix, Some(&toml), MAX_SUGGESTIONS, &tree());
    let names = names(&results);
    assert!(names.contains(&format!("{dir_prefix}configs/").as_str()));
    assert!(names.contains(&format!("{dir_prefix}sub/").as_str()));
    assert!(names.contains(&format!("{dir_prefix}config.toml").as_str()));
    assert!(!names.iter().any(|n| n.ends_with("config.json")));
    assert!(!names.iter().any(|n| n.ends_with("notes.txt")));
}

#[test]
fn ut_tilde_expansion_with_fake_home() {
    assert_eq!(expand_tilde("~/conf", Some(ROOT)), format!("{ROOT}/conf"));
    assert_eq!(expand_tilde("~", Some(ROOT)), ROOT);
}

#[test]
fn ut_result_cap() {
    let listing: Vec<(String, EntryKind)> =
        (0..20).map(|i| (format!("file{:02}.txt", i), EntryKind::File)).collect();
    let input = format!("{ROOT}/");
    let results = complete_from_listing(&input, None, MAX_SUGGESTIONS, &listing);
    assert_eq!(results.len(), MAX_SUGGESTIONS);
}

#[test]
fn ut_empty_input_lists_current_dir_without_prefix() {
    assert_eq!(completion_dir("marker", None), ".");
    let listing = vec![("marker_dir".to_string(), EntryKind::Dir)];
    let results = complete_from_listing("marker", None, MAX_SUGGESTIONS, &listing);
    let names = names(&results);
    assert!(names.contains(&"marker_dir/"));
    assert!(!names.iter().any(|n| n.starts_with("./")));
}

#[test]
fn ut_provider_dir_partial_and_trailing_slash_label() {
    let dir_prefix = format!("{ROOT}/");
    let provider = FsPathProvider::default();
    let input = format!("{dir_prefix}sub/conf");
    assert_eq!(completion_dir(&input, None), format!("{dir_prefix}sub/"));
    let results = provider.suggest_from_listing(&input, &sub_tree());
    let hit = results
        .iter()
        .find(|s| s.value == format!("{dir_prefix}sub/configs/"))
        .expect("expected sub/configs/ suggestion");
    assert_eq!(hit.label, "configs/");
    assert!(hit.partial);
}

#[test]
fn ut_provider_file_label_is_last_component() {
    let dir_prefix = format!("{ROOT}/");
    let provider = FsPathProvider::default();
    let input = format!("{dir_prefix}config.toml");
    let results = provider.suggest_from_listing(&input, &tree());
    let hit = results
        .iter()
        .find(|s| s.value == format!("{dir_prefix}config.toml"))
        .expect("expected config.toml suggestion");
    assert_eq!(hit.label, "config.toml");
    assert!(!hit.partial);
}

#[test]
fn ut_provider_extension_filter_honored() {
    let dir_prefix = format!("{ROOT}/");
    let provider = FsPathProvider::with_extensions(&["toml"]);
    let results = provider.suggest_from_listing(&dir_prefix, &tree());
    let values: Vec<&str> = results.iter().map(|s| s.value.as_str()).collect();
    assert!(values.contains(&format!("{dir_prefix}config.toml").as_str()));
    assert!(!values.iter().any(|v| v.ends_with("config.json")));
    assert!(!values.iter().any(|v| v.ends_with("notes.txt")));
}

#[test]
fn ut_provider_missing_dir_returns_empty() {
    // A directory that cannot be read lists nothing.
    let provider = FsPathProvider::default();
    let results = provider.suggest_from_listing("/no/such/ferrowl/dir/foo", &Vec::new());
    assert!(results.is_empty());
}

#[test]
fn ut_missing_dir_returns_empty() {
    let results = complete_from_listing("/no/such/ferrowl/dir/foo", None, MAX_SUGGESTIONS, &Vec::new());
    assert!(results.is_empty());
}
