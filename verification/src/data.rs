//! The flat catalog: the device's files as a list of full paths, with the
//! current directory as a path that begins and ends with a slash.
//! Navigation and listing go by pattern matching on these strings.

use vstd::prelude::*;
pub use crate::database::entry::DirEntry;
use crate::database::entry::{entry_views, insert_sorted, strictly_sorted, EntryView};
use crate::pattern::{
    compile, group, regex_compiles, regex_group, regex_replaced, regex_source, replace,
};
use crate::text::{str_eq, views};

verus! {

/// The pattern that finds the last segment of the current directory.
pub const LAST_SEGMENT: &'static str = "/([^/]+)/$";

/// The pattern that finds the last segment together with the slash
/// before it.
pub const LAST_STEP: &'static str = "/[^/]+/$";

/// The flat catalog as the contracts see it.
pub struct DataView {
    pub current_dir: Seq<char>,
    pub file_list: Seq<Seq<char>>,
}

/// The flat catalog.
pub struct Data {
    current_dir: String,
    file_list: Vec<String>,
}

impl View for Data {
    type V = DataView;

    closed spec fn view(&self) -> DataView {
        DataView { current_dir: self.current_dir@, file_list: views(self.file_list@) }
    }
}

/// The name of the directory `dir`: its last segment, empty where the
/// pattern finds none.
pub open spec fn name_of(dir: Seq<char>) -> Seq<char> {
    if regex_compiles(LAST_SEGMENT@) {
        match regex_group(LAST_SEGMENT@, dir, 1) {
            Some(name) => name,
            None => Seq::<char>::empty(),
        }
    } else {
        Seq::<char>::empty()
    }
}

/// The parent of the directory `dir`: the root stays, and elsewhere the
/// last segment goes.
pub open spec fn parent_of(dir: Seq<char>) -> Seq<char> {
    if dir != "/"@ && regex_compiles(LAST_STEP@) {
        regex_replaced(LAST_STEP@, dir, "/"@)
    } else {
        dir
    }
}

/// The pattern that finds the directories in `dir`.
pub open spec fn dir_pattern(dir: Seq<char>) -> Seq<char> {
    "^"@ + dir + "([^/]+)/.*$"@
}

/// The pattern that finds the audio files in `dir`.
pub open spec fn file_pattern(dir: Seq<char>) -> Seq<char> {
    "^"@ + dir + "([^/]+\\.ogg)$"@
}

/// The entry that a file shows as in the directory `dir`: a directory if
/// the first pattern finds one, else a file if the second does.
pub open spec fn entry_of(dir: Seq<char>, file: Seq<char>) -> Option<EntryView> {
    match regex_group(dir_pattern(dir), file, 1) {
        Some(name) => Some(EntryView::Dir(name)),
        None => match regex_group(file_pattern(dir), file, 1) {
            Some(name) => Some(EntryView::File(name)),
            None => None,
        },
    }
}

/// The children of the current directory; none where the directory makes
/// no pattern.
pub open spec fn listing(d: DataView) -> Set<EntryView> {
    Set::new(
        |e: EntryView|
            regex_compiles(dir_pattern(d.current_dir)) && regex_compiles(
                file_pattern(d.current_dir),
            ) && exists|i: int|
                0 <= i < d.file_list.len() && entry_of(d.current_dir, #[trigger] d.file_list[i])
                    == Some(e),
    )
}

impl Data {
    /// An empty catalog with the root as the current directory.
    pub fn new() -> (data: Self)
        ensures
            data@ == (DataView { current_dir: "/"@, file_list: Seq::<Seq<char>>::empty() }),
    {
        let data = Data { current_dir: String::from_str("/"), file_list: Vec::new() };
        assert(data@.file_list =~= Seq::<Seq<char>>::empty());
        data
    }

    /// The name of the current directory, empty at the root.
    pub fn current_dir(&self) -> (name: String)
        ensures
            name@ == name_of(self@.current_dir),
    {
        match compile(LAST_SEGMENT) {
            Ok(re) => match group(&re, self.current_dir.as_str(), 1) {
                Some(name) => name,
                None => String::new(),
            },
            Err(_) => String::new(),
        }
    }

    /// Moves to the parent directory; at the root it stays.
    pub fn dir_up(&mut self)
        ensures
            final(self)@ == (DataView {
                current_dir: parent_of(old(self)@.current_dir),
                ..old(self)@
            }),
    {
        if !str_eq(self.current_dir.as_str(), "/") {
            match compile(LAST_STEP) {
                Ok(re) => {
                    self.current_dir = replace(&re, self.current_dir.as_str(), "/");
                },
                Err(_) => {},
            }
        }
    }

    /// Moves into the child directory `dir`.
    pub fn dir_enter(&mut self, dir: &str)
        ensures
            final(self)@ == (DataView {
                current_dir: old(self)@.current_dir + dir@ + "/"@,
                ..old(self)@
            }),
    {
        self.current_dir.append(dir);
        self.current_dir.append("/");
    }

    /// The children of the current directory, once each, directories
    /// first and each kind in the order of its names.
    pub fn dir_content(&self) -> (list: Vec<DirEntry>)
        ensures
            strictly_sorted(entry_views(list@)),
            entry_views(list@).to_set() == listing(self@),
    {
        let mut list: Vec<DirEntry> = Vec::new();
        let ghost dir = self@.current_dir;
        let ghost files = self@.file_list;
        let mut dir_text = String::from_str("^");
        dir_text.append(self.current_dir.as_str());
        dir_text.append("([^/]+)/.*$");
        let mut file_text = String::from_str("^");
        file_text.append(self.current_dir.as_str());
        file_text.append("([^/]+\\.ogg)$");
        let re_dir = match compile(dir_text.as_str()) {
            Ok(re) => re,
            Err(_) => {
                assert(entry_views(list@).to_set() =~= listing(self@));
                return list;
            },
        };
        let re_file = match compile(file_text.as_str()) {
            Ok(re) => re,
            Err(_) => {
                assert(entry_views(list@).to_set() =~= listing(self@));
                return list;
            },
        };
        let mut i: usize = 0;
        while i < self.file_list.len()
            invariant
                i <= self.file_list@.len(),
                dir == self@.current_dir,
                files == self@.file_list,
                files.len() == self.file_list@.len(),
                regex_source(re_dir) == dir_pattern(dir),
                regex_source(re_file) == file_pattern(dir),
                strictly_sorted(entry_views(list@)),
                forall|e: EntryView|
                    entry_views(list@).to_set().contains(e) <==> exists|j: int|
                        0 <= j < i && entry_of(dir, #[trigger] files[j]) == Some(e),
            decreases self.file_list@.len() - i,
        {
            let ghost before = entry_views(list@).to_set();
            let f = self.file_list[i].as_str();
            assert(files[i as int] == f@);
            let found = match group(&re_dir, f, 1) {
                Some(name) => Some(DirEntry::Dir(name)),
                None => match group(&re_file, f, 1) {
                    Some(name) => Some(DirEntry::File(name)),
                    None => None,
                },
            };
            assert(match found {
                Some(e) => entry_of(dir, files[i as int]) == Some(e@),
                None => entry_of(dir, files[i as int]) is None,
            });
            match found {
                Some(e) => {
                    let ghost ev = e@;
                    insert_sorted(&mut list, e);
                    assert forall|x: EntryView|
                        entry_views(list@).to_set().contains(x) <==> exists|j: int|
                            0 <= j < i + 1 && entry_of(dir, #[trigger] files[j]) == Some(x) by {
                        if before.insert(ev).contains(x) {
                            if x == ev {
                                assert(entry_of(dir, files[i as int]) == Some(x));
                            } else {
                                assert(before.contains(x));
                            }
                        }
                        if exists|j: int|
                            0 <= j < i + 1 && entry_of(dir, #[trigger] files[j]) == Some(x) {
                            let j = choose|j: int|
                                0 <= j < i + 1 && entry_of(dir, #[trigger] files[j]) == Some(x);
                            if j < i {
                                assert(before.contains(x));
                            }
                        }
                    }
                },
                None => {
                    assert forall|x: EntryView|
                        entry_views(list@).to_set().contains(x) <==> exists|j: int|
                            0 <= j < i + 1 && entry_of(dir, #[trigger] files[j]) == Some(x) by {
                        if exists|j: int|
                            0 <= j < i + 1 && entry_of(dir, #[trigger] files[j]) == Some(x) {
                            let j = choose|j: int|
                                0 <= j < i + 1 && entry_of(dir, #[trigger] files[j]) == Some(x);
                            assert(j < i);
                        }
                    }
                },
            }
            i = i + 1;
        }
        assert(entry_views(list@).to_set() =~= listing(self@));
        list
    }

    /// Replaces the list of files.
    pub fn set_file_list(&mut self, lst: Vec<String>)
        ensures
            final(self)@ == (DataView { file_list: views(lst@), ..old(self)@ }),
    {
        self.file_list = lst;
    }
}

} // verus!
