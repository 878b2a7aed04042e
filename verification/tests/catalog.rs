use audio_backend::database::data::Data;
use audio_backend::database::{Database, DirEntry};
use audio_backend::json::types::FileInfo;
use audio_backend::Command;

fn names(list: &[&str]) -> Vec<String> {
    list.iter().map(|s| s.to_string()).collect()
}

fn info(filename: &str) -> FileInfo {
    FileInfo {
        filename: filename.to_string(),
        genre: "Audiobook".to_string(),
        artist: "Someone".to_string(),
        album: "Stories".to_string(),
        title: "One".to_string(),
        date: Some(1999),
        track: 1,
        duration: 300,
    }
}

fn dir(name: &str) -> DirEntry {
    DirEntry::Dir(name.to_string())
}

fn file(name: &str) -> DirEntry {
    DirEntry::File(name.to_string())
}

#[test]
fn it_works() {
    let result = 2 + 2;
    assert_eq!(result, 4);
}

#[test]
fn new_catalog_is_empty() {
    let data = Data::new();
    assert_eq!(data.dir_current(), "");
    assert!(data.dir_content().is_empty());
    assert_eq!(data.sync_stats(), (0, 0));
    assert_eq!(data.get_unsynced_file(), None);
    data.save();
}

#[test]
fn two_pages_build_one_directory() {
    let mut data = Data::new();
    data.clear_file_list();
    data.update_file_list(names(&["a/1.ogg"]), false);
    data.update_file_list(names(&["a/2.ogg"]), true);
    assert_eq!(data.dir_content(), vec![dir("a")]);
    data.dir_enter("a");
    assert_eq!(data.dir_current(), "a");
    assert_eq!(data.dir_content(), vec![file("1.ogg"), file("2.ogg")]);
    assert_eq!(data.sync_stats(), (0, 2));
    assert_eq!(data.get_unsynced_file(), Some("a/1.ogg".to_string()));
}

#[test]
fn progress_is_not_counted_before_the_last_page() {
    let mut data = Data::new();
    data.update_file_list(names(&["a/1.ogg", "a/2.ogg"]), false);
    assert_eq!(data.sync_stats(), (0, 0));
    data.update_file_list(names(&[]), true);
    assert_eq!(data.sync_stats(), (0, 2));
}

#[test]
fn listing_is_sorted_without_duplicates() {
    let mut data = Data::new();
    data.update_file_list(
        names(&["z.ogg", "b/2.ogg", "a.ogg", "b/1.ogg", "a/x/y.ogg", "b/1.ogg", "B/1.ogg"]),
        true,
    );
    let list = data.dir_content();
    assert_eq!(list, vec![dir("B"), dir("a"), dir("b"), file("a.ogg"), file("z.ogg")]);
    let mut sorted = data.dir_content();
    sorted.sort();
    sorted.dedup();
    assert_eq!(list, sorted);
}

#[test]
fn listing_twice_gives_the_same() {
    let mut data = Data::new();
    data.update_file_list(names(&["m/2.ogg", "m/1.ogg", "k.ogg"]), true);
    let first = data.dir_content();
    let second = data.dir_content();
    assert_eq!(first, second);
    assert_eq!(first, vec![dir("m"), file("k.ogg")]);
}

#[test]
fn listing_orders_names_by_code_point() {
    let mut data = Data::new();
    data.update_file_list(names(&["ab.ogg", "a.ogg", "Z.ogg", "\u{e9}.ogg", "aa.ogg"]), true);
    let list = data.dir_content();
    assert_eq!(
        list,
        vec![file("Z.ogg"), file("a.ogg"), file("aa.ogg"), file("ab.ogg"), file("\u{e9}.ogg")]
    );
    let mut sorted = data.dir_content();
    sorted.sort();
    assert_eq!(list, sorted);
}

#[test]
fn a_name_can_be_directory_and_file() {
    let mut data = Data::new();
    data.update_file_list(names(&["x.ogg", "x.ogg/y.ogg"]), true);
    assert_eq!(data.dir_content(), vec![dir("x.ogg"), file("x.ogg")]);
}

#[test]
fn only_audio_files_are_listed_as_files() {
    let mut data = Data::new();
    data.update_file_list(names(&["a/cover.jpg", "a/1.ogg", "notes.txt", "ogg", ".ogg"]), true);
    assert_eq!(data.dir_content(), vec![dir("a"), file(".ogg")]);
    data.dir_enter("a");
    assert_eq!(data.dir_content(), vec![file("1.ogg")]);
}

#[test]
fn only_audio_files_count_as_unsynced() {
    let mut data = Data::new();
    data.update_file_list(names(&["a/cover.jpg", "a/1.ogg", "b/2.ogg"]), true);
    assert_eq!(data.sync_stats(), (0, 2));
    assert_eq!(data.get_unsynced_file(), Some("a/1.ogg".to_string()));
}

#[test]
fn missing_directory_lists_nothing() {
    let mut data = Data::new();
    data.update_file_list(names(&["a/1.ogg"]), true);
    data.dir_enter("nowhere");
    assert_eq!(data.dir_current(), "nowhere");
    assert!(data.dir_content().is_empty());
    data.dir_up();
    assert_eq!(data.dir_content(), vec![dir("a")]);
}

#[test]
fn cursor_at_a_file_lists_nothing() {
    let mut data = Data::new();
    data.update_file_list(names(&["a/1.ogg"]), true);
    data.dir_enter("a");
    data.dir_enter("1.ogg");
    assert!(data.dir_content().is_empty());
}

#[test]
fn dir_up_at_root_stays() {
    let mut data = Data::new();
    data.dir_up();
    assert_eq!(data.dir_current(), "");
    data.dir_enter("a");
    data.dir_enter("b");
    assert_eq!(data.dir_current(), "b");
    data.dir_up();
    assert_eq!(data.dir_current(), "a");
    data.dir_up();
    data.dir_up();
    assert_eq!(data.dir_current(), "");
}

#[test]
fn cursor_survives_a_resync() {
    let mut data = Data::new();
    data.update_file_list(names(&["a/1.ogg"]), true);
    data.dir_enter("a");
    data.clear_file_list();
    data.update_file_list(names(&["b/1.ogg"]), true);
    assert_eq!(data.dir_current(), "a");
    assert!(data.dir_content().is_empty());
    data.dir_up();
    assert_eq!(data.dir_content(), vec![dir("b")]);
}

#[test]
fn empty_segments_are_kept() {
    let mut data = Data::new();
    data.update_file_list(names(&["/a/1.ogg", "b//2.ogg"]), true);
    assert_eq!(data.dir_content(), vec![dir(""), dir("b")]);
    data.dir_enter("");
    assert_eq!(data.dir_content(), vec![dir("a")]);
    assert_eq!(data.get_unsynced_file(), Some("/a/1.ogg".to_string()));
}

#[test]
fn metadata_counts_once() {
    let mut data = Data::new();
    data.update_file_list(names(&["a/1.ogg", "a/2.ogg"]), true);
    data.set_file_info(info("a/1.ogg"));
    assert_eq!(data.sync_stats(), (1, 2));
    assert_eq!(data.get_unsynced_file(), Some("a/2.ogg".to_string()));
    data.set_file_info(info("a/1.ogg"));
    assert_eq!(data.sync_stats(), (1, 2));
    data.set_file_info(info("a/2.ogg"));
    assert_eq!(data.sync_stats(), (2, 2));
    assert_eq!(data.get_unsynced_file(), None);
}

#[test]
fn metadata_for_unknown_file_changes_nothing() {
    let mut data = Data::new();
    data.update_file_list(names(&["a/1.ogg"]), true);
    data.set_file_info(info("a/9.ogg"));
    assert_eq!(data.sync_stats(), (0, 1));
    assert_eq!(data.get_unsynced_file(), Some("a/1.ogg".to_string()));
}

#[test]
fn unsynced_files_come_in_listing_order() {
    let mut data = Data::new();
    data.update_file_list(names(&["z/9.ogg", "a/1.ogg"]), true);
    assert_eq!(data.get_unsynced_file(), Some("z/9.ogg".to_string()));
    data.set_file_info(info("z/9.ogg"));
    assert_eq!(data.get_unsynced_file(), Some("a/1.ogg".to_string()));
}

#[test]
fn resync_drops_what_is_not_listed_again() {
    let mut data = Data::new();
    data.update_file_list(names(&["a/1.ogg", "a/2.ogg", "b/3.ogg"]), true);
    data.set_file_info(info("a/1.ogg"));
    data.clear_file_list();
    assert_eq!(data.sync_stats(), (0, 0));
    // Until the listing is complete the old entries stay visible.
    assert_eq!(data.dir_content(), vec![dir("a"), dir("b")]);
    assert_eq!(data.get_unsynced_file(), None);
    data.update_file_list(names(&["a/2.ogg"]), false);
    assert_eq!(data.dir_content(), vec![dir("a"), dir("b")]);
    data.update_file_list(names(&["c/4.ogg"]), true);
    assert_eq!(data.dir_content(), vec![dir("a"), dir("c")]);
    data.dir_enter("a");
    assert_eq!(data.dir_content(), vec![file("2.ogg")]);
    assert_eq!(data.sync_stats(), (0, 2));
}

#[test]
fn synced_file_listed_again_without_resync_stays_synced() {
    let mut data = Data::new();
    data.update_file_list(names(&["a/1.ogg", "a/2.ogg"]), true);
    data.set_file_info(info("a/1.ogg"));
    data.update_file_list(names(&["a/1.ogg", "a/3.ogg"]), true);
    assert_eq!(data.sync_stats(), (0, 2));
    assert_eq!(data.get_unsynced_file(), Some("a/2.ogg".to_string()));
    data.dir_enter("a");
    assert_eq!(data.dir_content(), vec![file("1.ogg"), file("2.ogg"), file("3.ogg")]);
}

#[test]
fn same_path_twice_is_one_entry() {
    let mut data = Data::new();
    data.update_file_list(names(&["a/1.ogg", "a/1.ogg"]), false);
    data.update_file_list(names(&["a/1.ogg"]), true);
    assert_eq!(data.sync_stats(), (0, 1));
}

#[test]
fn handle_forwards_to_the_catalog() {
    let mut db = Database::new();
    db.clear_file_list();
    db.update_file_list(names(&["a/1.ogg"]), false);
    db.update_file_list(names(&["a/2.ogg"]), true);
    assert_eq!(db.dir_content(), vec![dir("a")]);
    db.dir_enter("a");
    assert_eq!(db.dir_current(), "a");
    assert_eq!(db.dir_content(), vec![file("1.ogg"), file("2.ogg")]);
    assert_eq!(db.sync_stats(), (0, 2));
    assert_eq!(db.get_unsynced_file(), Some("a/1.ogg".to_string()));
    db.set_file_info(info("a/1.ogg"));
    assert_eq!(db.sync_stats(), (1, 2));
    db.dir_up();
    assert_eq!(db.dir_current(), "");
    db.save();
}

#[test]
fn commands_come_out_in_order() {
    let mut db = Database::new();
    assert_eq!(db.take_command(), None);
    db.resync();
    db.send(Command::Quit);
    db.resync();
    assert_eq!(db.take_command(), Some(Command::Resync));
    assert_eq!(db.take_command(), Some(Command::Quit));
    assert_eq!(db.take_command(), Some(Command::Resync));
    assert_eq!(db.take_command(), None);
}

#[test]
fn entries_order_directories_first() {
    assert!(dir("z").precedes(&file("a")));
    assert!(!file("a").precedes(&dir("z")));
    assert!(dir("a").precedes(&dir("b")));
    assert!(!dir("b").precedes(&dir("a")));
    assert!(!dir("a").precedes(&dir("a")));
    assert!(file("a").precedes(&file("ab")));
    assert_eq!(dir("z").precedes(&file("a")), dir("z") < file("a"));
    assert_eq!(file("a").precedes(&file("ab")), file("a") < file("ab"));
}
