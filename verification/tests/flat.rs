use audio_backend::data::{Data, DirEntry, LAST_SEGMENT, LAST_STEP};

fn names(list: &[&str]) -> Vec<String> {
    list.iter().map(|s| s.to_string()).collect()
}

fn dir(name: &str) -> DirEntry {
    DirEntry::Dir(name.to_string())
}

fn file(name: &str) -> DirEntry {
    DirEntry::File(name.to_string())
}

#[test]
fn patterns_find_the_last_segment() {
    assert_eq!(LAST_SEGMENT, r"/([^/]+)/$");
    assert_eq!(LAST_STEP, r"/[^/]+/$");
}

#[test]
fn flat_catalog_starts_at_the_root() {
    let data = Data::new();
    assert_eq!(data.current_dir(), "");
    assert!(data.dir_content().is_empty());
}

#[test]
fn flat_catalog_enters_and_leaves_directories() {
    let mut data = Data::new();
    data.dir_up();
    assert_eq!(data.current_dir(), "");
    data.dir_enter("music");
    assert_eq!(data.current_dir(), "music");
    data.dir_enter("rock");
    assert_eq!(data.current_dir(), "rock");
    data.dir_up();
    assert_eq!(data.current_dir(), "music");
    data.dir_up();
    assert_eq!(data.current_dir(), "");
    data.dir_up();
    assert_eq!(data.current_dir(), "");
}

#[test]
fn flat_catalog_lists_directories_and_audio_files() {
    let mut data = Data::new();
    data.set_file_list(names(&[
        "/b/2.ogg",
        "/top.ogg",
        "/a/x/1.ogg",
        "/b/1.ogg",
        "/a/cover.jpg",
        "/readme.txt",
        "/a/0.ogg",
    ]));
    assert_eq!(data.dir_content(), vec![dir("a"), dir("b"), file("top.ogg")]);
    data.dir_enter("a");
    assert_eq!(data.dir_content(), vec![dir("x"), file("0.ogg")]);
    data.dir_enter("x");
    assert_eq!(data.dir_content(), vec![file("1.ogg")]);
    data.dir_up();
    data.dir_up();
    data.dir_enter("b");
    assert_eq!(data.dir_content(), vec![file("1.ogg"), file("2.ogg")]);
    data.dir_enter("nowhere");
    assert!(data.dir_content().is_empty());
}

#[test]
fn flat_catalog_lists_nothing_where_the_directory_makes_no_pattern() {
    let mut data = Data::new();
    data.set_file_list(names(&["/a(/1.ogg"]));
    assert_eq!(data.dir_content(), vec![dir("a(")]);
    data.dir_enter("a(");
    assert!(data.dir_content().is_empty());
    assert_eq!(data.current_dir(), "a(");
}

#[test]
fn flat_catalog_replaces_its_list() {
    let mut data = Data::new();
    data.set_file_list(names(&["/a/1.ogg"]));
    data.set_file_list(names(&["/b/1.ogg", "/b/1.ogg"]));
    assert_eq!(data.dir_content(), vec![dir("b")]);
}
