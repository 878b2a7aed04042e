//! The catalog of the device's files and the handle through which the
//! rest of the program reaches it: the catalog itself, and the commands
//! that its user has given and the backend has yet to take.

use vstd::prelude::*;

pub mod data;
pub mod entry;
pub mod proofs;

use crate::database::data::{
    appended, cleared, listing, next_unsynced, valid, with_info, Data, DataView, TrackView,
};
pub use crate::database::entry::DirEntry;
use crate::database::entry::{entry_views, strictly_sorted};
use crate::json::types::FileInfo;
use crate::text::views;
use crate::Command;

verus! {

/// The handle as the contracts see it.
pub struct DatabaseView {
    /// The catalog.
    pub data: DataView,
    /// The commands given and not yet taken, oldest first.
    pub commands: Seq<Command>,
}

/// The handle to the catalog.
pub struct Database {
    data: Data,
    commands: Vec<Command>,
}

impl View for Database {
    type V = DatabaseView;

    closed spec fn view(&self) -> DatabaseView {
        DatabaseView { data: self.data@, commands: self.commands@ }
    }
}

impl Database {
    /// Whether the catalog is valid.
    pub open spec fn wf(&self) -> bool {
        valid(self@.data)
    }

    /// A handle to an empty catalog, with no command given.
    pub fn new() -> (db: Self)
        ensures
            db.wf(),
            db@.data == (DataView {
                cursor: Seq::<Seq<char>>::empty(),
                tracks: Seq::<TrackView>::empty(),
                synced: 0,
                total: 0,
            }),
            db@.commands == Seq::<Command>::empty(),
    {
        Database { data: Data::new(), commands: Vec::new() }
    }

    /// The catalog lives in memory and is rebuilt from the device, so
    /// there is nothing to write.
    pub fn save(&self) {
        self.data.save();
    }

    /// Gives a command to the backend.
    pub fn send(&mut self, cmd: Command)
        ensures
            final(self)@ == (DatabaseView {
                commands: old(self)@.commands.push(cmd),
                ..old(self)@
            }),
    {
        self.commands.push(cmd);
    }

    /// Asks the backend to fetch the device's listing anew.
    pub fn resync(&mut self)
        ensures
            final(self)@ == (DatabaseView {
                commands: old(self)@.commands.push(Command::Resync),
                ..old(self)@
            }),
    {
        self.send(Command::Resync);
    }

    /// Takes the oldest command that was given and not yet taken.
    pub fn take_command(&mut self) -> (cmd: Option<Command>)
        ensures
            final(self)@.data == old(self)@.data,
            match cmd {
                Some(c) => old(self)@.commands.len() > 0 && c == old(self)@.commands[0]
                    && final(self)@.commands == old(self)@.commands.drop_first(),
                None => old(self)@.commands.len() == 0 && final(self)@.commands == old(
                    self,
                )@.commands,
            },
    {
        if self.commands.len() > 0 {
            let c = self.commands.remove(0);
            assert(final(self)@.commands =~= old(self)@.commands.drop_first());
            Some(c)
        } else {
            None
        }
    }

    /// The name of the current directory, empty at the root.
    pub fn dir_current(&self) -> (name: String)
        ensures
            name@ == if self@.data.cursor.len() > 0 {
                self@.data.cursor.last()
            } else {
                Seq::<char>::empty()
            },
    {
        self.data.dir_current()
    }

    /// Moves the cursor to the parent directory; at the root it stays.
    pub fn dir_up(&mut self)
        ensures
            final(self)@ == (DatabaseView {
                data: DataView {
                    cursor: if old(self)@.data.cursor.len() > 0 {
                        old(self)@.data.cursor.drop_last()
                    } else {
                        old(self)@.data.cursor
                    },
                    ..old(self)@.data
                },
                ..old(self)@
            }),
    {
        self.data.dir_up();
    }

    /// Moves the cursor into the child directory `dir`.
    pub fn dir_enter(&mut self, dir: &str)
        ensures
            final(self)@ == (DatabaseView {
                data: DataView { cursor: old(self)@.data.cursor.push(dir@), ..old(self)@.data },
                ..old(self)@
            }),
    {
        self.data.dir_enter(dir);
    }

    /// The children of the current directory: each directory and each
    /// audio file one segment below the cursor, once, directories first
    /// and each kind in the order of its names.
    pub fn dir_content(&self) -> (list: Vec<DirEntry>)
        ensures
            strictly_sorted(entry_views(list@)),
            entry_views(list@).to_set() == listing(self@.data),
    {
        self.data.dir_content()
    }

    /// Starts a resync of the catalog: every entry becomes `Cached` and
    /// the progress goes back to zero of zero.
    pub fn clear_file_list(&mut self)
        requires
            old(self).wf(),
        ensures
            final(self).wf(),
            final(self)@ == (DatabaseView { data: cleared(old(self)@.data), ..old(self)@ }),
    {
        self.data.clear_file_list();
    }

    /// Takes one page of the device's listing into the catalog.
    pub fn update_file_list(&mut self, lst: Vec<String>, last: bool)
        requires
            old(self).wf(),
        ensures
            final(self).wf(),
            final(self)@ == (DatabaseView {
                data: appended(old(self)@.data, views(lst@), last),
                ..old(self)@
            }),
    {
        self.data.update_file_list(lst, last);
    }

    /// The path, joined with slashes, of the first audio file that still
    /// lacks its metadata, if there is one.
    pub fn get_unsynced_file(&self) -> (name: Option<String>)
        ensures
            match name {
                Some(n) => next_unsynced(self@.data.tracks) == Some(n@),
                None => next_unsynced(self@.data.tracks) is None,
            },
    {
        self.data.get_unsynced_file()
    }

    /// Records the metadata of a file in the catalog.
    pub fn set_file_info(&mut self, info: FileInfo)
        requires
            old(self).wf(),
        ensures
            final(self).wf(),
            final(self)@ == (DatabaseView {
                data: with_info(old(self)@.data, info@),
                ..old(self)@
            }),
    {
        self.data.set_file_info(info);
    }

    /// The progress of the synchronization: files synchronized since the
    /// last full listing, and files that listing left to synchronize.
    pub fn sync_stats(&self) -> (stats: (usize, usize))
        ensures
            stats.0 == self@.data.synced,
            stats.1 == self@.data.total,
    {
        self.data.sync_stats()
    }
}

} // verus!
