use abstutil::dispatch::{check_path, delete_message, plan_entry, EntryAction, StoreError};
use abstutil::error::Error;
use abstutil::file_exists;
use abstutil::keys::{list_all_objects, list_dir, name_lt};
use abstutil::names::{ends_with, file_stem, format_of_name, is_hidden, Format};
use abstutil::progress::{ProgressReport, ProgressState, Timer};
use abstutil::store::{load_all_objects, ObjectStore};
use abstutil::widgets::{Container, Nothing, Widget};

fn strings(v: &[&str]) -> Vec<String> {
    v.iter().map(|s| s.to_string()).collect()
}

#[test]
fn error_renders_message_and_context() {
    let e = Error::new("boom".to_string()).context("a".to_string()).context("b".to_string());
    assert_eq!(e.to_string(), "\nboom\n  - a\n  - b\n\n");
    assert_eq!(Error::new("x".to_string()).to_string(), "\nx\n\n");
}

#[test]
fn write_with_wrong_suffix_is_a_configuration_error() {
    assert!(matches!(check_path("maps/a.json", Format::Binary), Err(StoreError::Configuration { .. })));
    assert!(matches!(check_path("maps/a.bin", Format::Json), Err(StoreError::Configuration { .. })));
    assert!(matches!(check_path("maps/a", Format::Json), Err(StoreError::Configuration { .. })));
    assert!(check_path("maps/a.bin", Format::Binary).is_ok());
    assert!(check_path("maps/a.json", Format::Json).is_ok());
}

#[test]
fn suffixes_select_formats() {
    assert_eq!(format_of_name("a.json"), Some(Format::Json));
    assert_eq!(format_of_name("a.bin"), Some(Format::Binary));
    assert_eq!(format_of_name("a.txt"), None);
    assert_eq!(format_of_name("json"), None);
    assert!(ends_with("abc", ""));
    assert!(!ends_with("c", "abc"));
    assert_eq!(Format::Json.suffix(), ".json");
    assert_eq!(Format::Binary.suffix(), ".bin");
}

#[test]
fn stems_drop_the_extension() {
    assert_eq!(file_stem("a.bin"), "a");
    assert_eq!(file_stem("a.b.json"), "a.b");
    assert_eq!(file_stem("noext"), "noext");
    assert_eq!(file_stem(".hidden"), ".hidden");
    assert!(is_hidden(".cache.json"));
    assert!(!is_hidden("a.json"));
}

#[test]
fn names_compare_lexicographically() {
    assert!(name_lt("a", "b"));
    assert!(name_lt("a", "ab"));
    assert!(!name_lt("ab", "a"));
    assert!(!name_lt("a", "a"));
    assert!(name_lt("B", "a"));
}

#[test]
fn listing_keys_sorts_dedups_and_skips_hidden() {
    let entries = strings(&["b.json", "a.bin", "c.json", ".cache.json", "a.json"]);
    assert_eq!(list_all_objects(&entries), strings(&["a", "b", "c"]));
}

#[test]
fn listing_no_entries_is_empty() {
    assert!(list_all_objects(&Vec::new()).is_empty());
}

#[test]
fn hidden_cache_file_is_excluded() {
    let entries = strings(&[".cache.json"]);
    assert!(list_all_objects(&entries).is_empty());
    assert!(matches!(plan_entry("dir", ".cache.json"), Ok(EntryAction::Skip)));
}

#[test]
fn list_dir_sorts_paths() {
    let paths = strings(&["d/c", "d/a", "d/b"]);
    assert_eq!(list_dir(&paths), strings(&["d/a", "d/b", "d/c"]));
}

#[test]
fn planning_entries() {
    match plan_entry("dir", "a.bin") {
        Ok(EntryAction::Load { path, key, format }) => {
            assert_eq!(path, "dir/a.bin");
            assert_eq!(key, "a");
            assert_eq!(format, Format::Binary);
        }
        _ => panic!("a.bin should be loaded"),
    }
    match plan_entry("dir", "b.json") {
        Ok(EntryAction::Load { path, key, format }) => {
            assert_eq!(path, "dir/b.json");
            assert_eq!(key, "b");
            assert_eq!(format, Format::Json);
        }
        _ => panic!("b.json should be loaded"),
    }
    match plan_entry("dir", "x.txt") {
        Err(StoreError::Configuration { path }) => assert_eq!(path, "dir/x.txt"),
        _ => panic!("x.txt has no format"),
    }
}

#[test]
fn corrupt_entry_is_skipped() {
    let loaded = vec![("a".to_string(), Some(1u32)), ("b".to_string(), None)];
    assert_eq!(load_all_objects(loaded), vec![("a".to_string(), 1u32)]);
}

#[test]
fn loaded_keys_come_in_order() {
    let loaded = vec![
        ("b".to_string(), Some("B")),
        ("a".to_string(), Some("A")),
        ("c".to_string(), Some("C")),
    ];
    let keys: Vec<String> = load_all_objects(loaded).into_iter().map(|(k, _)| k).collect();
    assert_eq!(keys, strings(&["a", "b", "c"]));
}

#[test]
fn later_entry_with_same_key_wins() {
    let loaded = vec![("a".to_string(), Some(1)), ("a".to_string(), Some(2)), ("a".to_string(), None)];
    assert_eq!(load_all_objects(loaded), vec![("a".to_string(), 2)]);
}

#[test]
fn store_insert_keeps_order() {
    let mut store = ObjectStore::new();
    store.insert("m".to_string(), 1);
    store.insert("c".to_string(), 2);
    store.insert("x".to_string(), 3);
    store.insert("c".to_string(), 4);
    assert_eq!(
        store.into_vec(),
        vec![("c".to_string(), 4), ("m".to_string(), 1), ("x".to_string(), 3)]
    );
}

#[test]
fn overrun_is_reported() {
    let (mut state, _token) = ProgressState::new("f.bin".to_string(), 10, 0);
    assert!(matches!(state.record_read(6, 10), Ok(ProgressReport::Quiet)));
    match state.record_read(5, 20) {
        Err(StoreError::Overrun { path, processed, read, total }) => {
            assert_eq!(path, "f.bin");
            assert_eq!(processed, 6);
            assert_eq!(read, 5);
            assert_eq!(total, 10);
        }
        _ => panic!("reading past the size must fail"),
    }
    assert_eq!(state.processed_bytes(), 6);
}

#[test]
fn progress_lines_are_throttled() {
    let total: usize = 3 * 1048576;
    let (mut state, token) = ProgressState::new("big.bin".to_string(), total, 1000);
    assert!(matches!(state.record_read(1048576, 1100), Ok(ProgressReport::Quiet)));
    assert!(matches!(
        state.record_read(1048576, 1200),
        Ok(ProgressReport::Reading { processed_mb: 2, total_mb: 3, elapsed_ms: 200 })
    ));
    assert!(matches!(state.record_read(1048576, 1250), Ok(ProgressReport::Quiet)));
    assert!(matches!(
        state.record_read(0, 1300),
        Ok(ProgressReport::Finished { total_mb: 3, elapsed_ms: 300 })
    ));
    assert_eq!(state.total_bytes(), total);
    let mut timer = Timer::new();
    token.finish(1500, &mut timer);
    assert_eq!(timer.records.len(), 1);
    assert_eq!(timer.records[0].label, "Reading big.bin");
    assert_eq!(timer.records[0].megabytes, 3);
    assert_eq!(timer.records[0].elapsed_ms, 500);
}

#[test]
fn deleting_reports_both_outcomes() {
    assert_eq!(delete_message("a.bin", true), "Deleted a.bin");
    assert_eq!(delete_message("a.bin", false), "a.bin doesn't exist, so not deleting it");
    assert_eq!(delete_message("a.bin", false), delete_message("a.bin", false));
}

#[test]
fn missing_file_does_not_exist() {
    assert!(!file_exists("/no/such/path/for/this/store.bin"));
}

#[test]
fn container_drops_placeholders() {
    let members = vec![Widget::Item(1), Widget::Nothing(Nothing {}), Widget::Item(2)];
    let c = Container::new(true, members);
    assert!(c.is_row);
    assert_eq!(c.members, vec![Widget::Item(1), Widget::Item(2)]);
}
