//! The catalog: the device's files as a tree of path segments, with the
//! synchronization state of each file and a cursor into the tree.

use vstd::prelude::*;
use crate::database::entry::{entry_views, insert_sorted, strictly_sorted, DirEntry, EntryView};
use crate::json::types::{FileInfo, FileInfoView};
use crate::text::{
    ends_with, is_split, join_path, join_with, lemma_split_on, seq_ends_with, split_on, split_path,
    str_eq, views,
};

verus! {

/// The file name ending that marks an audio file.
pub const AUDIO_EXTENSION: &'static str = ".ogg";

/// How far a catalog entry is synchronized.
#[derive(Clone, Copy, Debug, PartialEq, Eq, Structural)]
pub enum SyncState {
    /// Known from before the running resync and not yet listed again.
    Cached,
    /// Listed by the device; its metadata is still to be fetched.
    Unsynced,
    /// Listed, with metadata.
    Synced,
}

/// The metadata of a file.
#[derive(Debug, PartialEq, Eq)]
pub struct TrackInfo {
    pub genre: String,
    pub artist: String,
    pub album: String,
    pub title: String,
    pub date: Option<u16>,
    pub track: u16,
    pub duration: u16,
}

pub struct TrackInfoView {
    pub genre: Seq<char>,
    pub artist: Seq<char>,
    pub album: Seq<char>,
    pub title: Seq<char>,
    pub date: Option<u16>,
    pub track: u16,
    pub duration: u16,
}

impl View for TrackInfo {
    type V = TrackInfoView;

    open spec fn view(&self) -> TrackInfoView {
        TrackInfoView {
            genre: self.genre@,
            artist: self.artist@,
            album: self.album@,
            title: self.title@,
            date: self.date,
            track: self.track,
            duration: self.duration,
        }
    }
}

/// One catalog entry as the contracts see it.
pub struct TrackView {
    /// The segments of the file's path.
    pub path: Seq<Seq<char>>,
    pub state: SyncState,
    pub info: Option<TrackInfoView>,
}

/// The catalog as the contracts see it.
pub struct DataView {
    /// The segments of the current directory, outermost first.
    pub cursor: Seq<Seq<char>>,
    /// The entries, in the order in which they were first listed.
    pub tracks: Seq<TrackView>,
    /// How many files got their metadata since the last full listing.
    pub synced: nat,
    /// How many files the last full listing left to synchronize.
    pub total: nat,
}

struct Track {
    filename: Vec<String>,
    sync_state: SyncState,
    info: Option<TrackInfo>,
}

impl View for Track {
    type V = TrackView;

    closed spec fn view(&self) -> TrackView {
        TrackView {
            path: views(self.filename@),
            state: self.sync_state,
            info: match self.info {
                Some(i) => Some(i@),
                None => None,
            },
        }
    }
}

/// The catalog.
pub struct Data {
    current_dir: Vec<String>,
    tracks: Vec<Track>,
    num_to_sync: usize,
    num_synced: usize,
}

spec fn track_views(v: Seq<Track>) -> Seq<TrackView> {
    Seq::new(v.len(), |i: int| v[i]@)
}

impl View for Data {
    type V = DataView;

    closed spec fn view(&self) -> DataView {
        DataView {
            cursor: views(self.current_dir@),
            tracks: track_views(self.tracks@),
            synced: self.num_synced as nat,
            total: self.num_to_sync as nat,
        }
    }
}

/// The characters of the audio extension.
pub open spec fn audio_extension() -> Seq<char> {
    seq!['.', 'o', 'g', 'g']
}

/// Whether a path names an audio file: its last segment ends in the audio
/// extension.
pub open spec fn is_audio(path: Seq<Seq<char>>) -> bool {
    path.len() > 0 && seq_ends_with(path.last(), audio_extension())
}

/// Whether an entry is an audio file that still lacks its metadata.
pub open spec fn wants_sync(t: TrackView) -> bool {
    is_audio(t.path) && t.state == SyncState::Unsynced
}

/// The metadata that a `get-file-info` result carries.
pub open spec fn info_of(info: FileInfoView) -> TrackInfoView {
    TrackInfoView {
        genre: info.genre,
        artist: info.artist,
        album: info.album,
        title: info.title,
        date: info.date,
        track: info.track,
        duration: info.duration,
    }
}

/// The index of the first entry with the given path.
pub open spec fn position(tracks: Seq<TrackView>, path: Seq<Seq<char>>) -> Option<int>
    decreases tracks.len(),
{
    if tracks.len() == 0 {
        None
    } else {
        match position(tracks.drop_last(), path) {
            Some(i) => Some(i),
            None => if tracks.last().path == path {
                Some(tracks.len() - 1)
            } else {
                None
            },
        }
    }
}

/// The index of the first entry whose path, joined with slashes, reads
/// `name`.
pub open spec fn named(tracks: Seq<TrackView>, name: Seq<char>) -> Option<int>
    decreases tracks.len(),
{
    if tracks.len() == 0 {
        None
    } else {
        match named(tracks.drop_last(), name) {
            Some(i) => Some(i),
            None => if join_with(tracks.last().path, '/') == name {
                Some(tracks.len() - 1)
            } else {
                None
            },
        }
    }
}

/// The index of the first audio file that still lacks its metadata.
pub open spec fn first_unsynced(tracks: Seq<TrackView>) -> Option<int>
    decreases tracks.len(),
{
    if tracks.len() == 0 {
        None
    } else {
        match first_unsynced(tracks.drop_last()) {
            Some(i) => Some(i),
            None => if wants_sync(tracks.last()) {
                Some(tracks.len() - 1)
            } else {
                None
            },
        }
    }
}

/// The path, joined with slashes, of the first audio file that still
/// lacks its metadata.
pub open spec fn next_unsynced(tracks: Seq<TrackView>) -> Option<Seq<char>> {
    match first_unsynced(tracks) {
        Some(i) => Some(join_with(tracks[i].path, '/')),
        None => None,
    }
}

/// `position` finds the first entry with the path, and none only if no
/// entry has it.
pub proof fn lemma_position(tracks: Seq<TrackView>, path: Seq<Seq<char>>)
    ensures
        match position(tracks, path) {
            Some(i) => 0 <= i < tracks.len() && tracks[i].path == path && forall|j: int|
                0 <= j < i ==> (#[trigger] tracks[j]).path != path,
            None => forall|j: int| 0 <= j < tracks.len() ==> (#[trigger] tracks[j]).path != path,
        },
    decreases tracks.len(),
{
    if tracks.len() > 0 {
        lemma_position(tracks.drop_last(), path);
        assert forall|j: int| 0 <= j < tracks.len() - 1 implies tracks[j]
            == tracks.drop_last()[j] by {}
    }
}

/// `named` finds the first entry with the name, and none only if no entry
/// has it.
pub proof fn lemma_named(tracks: Seq<TrackView>, name: Seq<char>)
    ensures
        match named(tracks, name) {
            Some(i) => 0 <= i < tracks.len() && join_with(tracks[i].path, '/') == name && forall|
                j: int,
            |
                0 <= j < i ==> join_with((#[trigger] tracks[j]).path, '/') != name,
            None => forall|j: int|
                0 <= j < tracks.len() ==> join_with((#[trigger] tracks[j]).path, '/') != name,
        },
    decreases tracks.len(),
{
    if tracks.len() > 0 {
        lemma_named(tracks.drop_last(), name);
        assert forall|j: int| 0 <= j < tracks.len() - 1 implies tracks[j]
            == tracks.drop_last()[j] by {}
    }
}

/// `first_unsynced` finds the first audio file that lacks its metadata,
/// and none only if there is no such file.
pub proof fn lemma_first_unsynced(tracks: Seq<TrackView>)
    ensures
        match first_unsynced(tracks) {
            Some(i) => 0 <= i < tracks.len() && wants_sync(tracks[i]) && forall|j: int|
                0 <= j < i ==> !wants_sync(#[trigger] tracks[j]),
            None => forall|j: int| 0 <= j < tracks.len() ==> !wants_sync(#[trigger] tracks[j]),
        },
    decreases tracks.len(),
{
    if tracks.len() > 0 {
        lemma_first_unsynced(tracks.drop_last());
        assert forall|j: int| 0 <= j < tracks.len() - 1 implies tracks[j]
            == tracks.drop_last()[j] by {}
    }
}

/// Whether no two entries have the same path.
pub open spec fn distinct_paths(tracks: Seq<TrackView>) -> bool {
    forall|i: int, j: int|
        0 <= i < j < tracks.len() ==> (#[trigger] tracks[i]).path != (#[trigger] tracks[j]).path
}

/// How many entries have their metadata.
pub open spec fn synced_count(tracks: Seq<TrackView>) -> nat
    decreases tracks.len(),
{
    if tracks.len() == 0 {
        0
    } else {
        synced_count(tracks.drop_last()) + if tracks.last().state == SyncState::Synced {
            1nat
        } else {
            0nat
        }
    }
}

/// How many entries are audio files that still lack their metadata.
pub open spec fn pending_count(tracks: Seq<TrackView>) -> nat
    decreases tracks.len(),
{
    if tracks.len() == 0 {
        0
    } else {
        pending_count(tracks.drop_last()) + if wants_sync(tracks.last()) {
            1nat
        } else {
            0nat
        }
    }
}

/// The entries that are not `Cached`, in order.
pub open spec fn confirmed(tracks: Seq<TrackView>) -> Seq<TrackView>
    decreases tracks.len(),
{
    if tracks.len() == 0 {
        tracks
    } else if tracks.last().state != SyncState::Cached {
        confirmed(tracks.drop_last()).push(tracks.last())
    } else {
        confirmed(tracks.drop_last())
    }
}

/// Whether every path is one that splitting a name at its slashes can
/// give: it has a segment, and no segment holds a slash.
pub open spec fn clean_paths(tracks: Seq<TrackView>) -> bool {
    forall|i: int| 0 <= i < tracks.len() ==> is_split((#[trigger] tracks[i]).path, '/')
}

/// What holds of every catalog: no two entries share a path, every path
/// comes from splitting a name at its slashes, and the count of
/// synchronized files does not exceed the entries that have their
/// metadata.
pub open spec fn valid(d: DataView) -> bool {
    distinct_paths(d.tracks) && clean_paths(d.tracks) && d.synced <= synced_count(d.tracks)
}

/// An entry after the device has listed it again: a `Cached` one becomes
/// `Unsynced`, any other keeps its state.
pub open spec fn reconfirmed(t: TrackView) -> TrackView {
    TrackView {
        state: if t.state == SyncState::Cached {
            SyncState::Unsynced
        } else {
            t.state
        },
        ..t
    }
}

/// The entries after the device has listed `path`: the entry with that
/// path is reconfirmed, or a new `Unsynced` entry is added at the end.
pub open spec fn merged(tracks: Seq<TrackView>, path: Seq<Seq<char>>) -> Seq<TrackView> {
    match position(tracks, path) {
        Some(i) => tracks.update(i, reconfirmed(tracks[i])),
        None => tracks.push(TrackView { path, state: SyncState::Unsynced, info: None }),
    }
}

/// The entries after the device has listed each of `names`, in order.
pub open spec fn merged_all(tracks: Seq<TrackView>, names: Seq<Seq<char>>) -> Seq<TrackView>
    decreases names.len(),
{
    if names.len() == 0 {
        tracks
    } else {
        merged(merged_all(tracks, names.drop_last()), split_on(names.last(), '/'))
    }
}

/// The catalog after one page of a listing. The last page drops the
/// entries that are still `Cached` and starts the progress count anew.
pub open spec fn appended(d: DataView, names: Seq<Seq<char>>, last: bool) -> DataView {
    let tracks = merged_all(d.tracks, names);
    if last {
        DataView {
            tracks: confirmed(tracks),
            synced: 0,
            total: pending_count(confirmed(tracks)),
            ..d
        }
    } else {
        DataView { tracks, ..d }
    }
}

/// The entries all marked `Cached`.
pub open spec fn stale(tracks: Seq<TrackView>) -> Seq<TrackView> {
    Seq::new(tracks.len(), |i: int| TrackView { state: SyncState::Cached, ..tracks[i] })
}

/// The catalog at the start of a resync: every entry is `Cached` and the
/// progress is zero of zero.
pub open spec fn cleared(d: DataView) -> DataView {
    DataView { tracks: stale(d.tracks), synced: 0, total: 0, ..d }
}

/// The catalog after metadata has arrived: the first entry with that name
/// becomes `Synced` and holds the metadata, and the count of synchronized
/// files grows by one unless the entry was `Synced` before. Without such
/// an entry nothing changes.
pub open spec fn with_info(d: DataView, info: FileInfoView) -> DataView {
    match named(d.tracks, info.filename) {
        Some(i) => DataView {
            tracks: d.tracks.update(
                i,
                TrackView { state: SyncState::Synced, info: Some(info_of(info)), ..d.tracks[i] },
            ),
            synced: if d.tracks[i].state == SyncState::Synced {
                d.synced
            } else {
                d.synced + 1
            },
            ..d
        },
        None => d,
    }
}

/// The entry that a path shows as in the directory `cursor`: a directory
/// named by the next segment if the path goes deeper, a file if the path
/// ends there and names an audio file, nothing otherwise.
pub open spec fn entry_of(cursor: Seq<Seq<char>>, path: Seq<Seq<char>>) -> Option<EntryView> {
    if cursor.is_prefix_of(path) && path.len() > cursor.len() {
        let name = path[cursor.len() as int];
        if path.len() > cursor.len() + 1 {
            Some(EntryView::Dir(name))
        } else if seq_ends_with(name, audio_extension()) {
            Some(EntryView::File(name))
        } else {
            None
        }
    } else {
        None
    }
}

/// The children of the current directory.
pub open spec fn listing(d: DataView) -> Set<EntryView> {
    Set::new(
        |e: EntryView|
            exists|i: int|
                0 <= i < d.tracks.len() && entry_of(d.cursor, (#[trigger] d.tracks[i]).path)
                    == Some(e),
    )
}

/// No more entries have their metadata than there are entries.
pub proof fn lemma_synced_count_bound(tracks: Seq<TrackView>)
    ensures
        synced_count(tracks) <= tracks.len(),
    decreases tracks.len(),
{
    if tracks.len() > 0 {
        lemma_synced_count_bound(tracks.drop_last());
    }
}

/// No more entries lack their metadata than there are entries.
pub proof fn lemma_pending_count_bound(tracks: Seq<TrackView>)
    ensures
        pending_count(tracks) <= tracks.len(),
    decreases tracks.len(),
{
    if tracks.len() > 0 {
        lemma_pending_count_bound(tracks.drop_last());
    }
}

/// Replacing one entry changes the count of entries with metadata by
/// what that entry adds or takes away.
pub proof fn lemma_synced_count_update(tracks: Seq<TrackView>, i: int, t: TrackView)
    requires
        0 <= i < tracks.len(),
    ensures
        synced_count(tracks.update(i, t)) + if tracks[i].state == SyncState::Synced {
            1nat
        } else {
            0nat
        } == synced_count(tracks) + if t.state == SyncState::Synced {
            1nat
        } else {
            0nat
        },
    decreases tracks.len(),
{
    let after = tracks.update(i, t);
    if i == tracks.len() - 1 {
        assert(after.drop_last() =~= tracks.drop_last());
    } else {
        lemma_synced_count_update(tracks.drop_last(), i, t);
        assert(after.drop_last() =~= tracks.drop_last().update(i, t));
    }
}

/// Every confirmed entry is an entry, and dropping the `Cached` entries
/// keeps the paths distinct and the count of entries with metadata.
pub proof fn lemma_confirmed(tracks: Seq<TrackView>)
    ensures
        forall|k: int|
            0 <= k < confirmed(tracks).len() ==> tracks.contains(#[trigger] confirmed(tracks)[k])
                && confirmed(tracks)[k].state != SyncState::Cached,
        forall|i: int|
            0 <= i < tracks.len() && tracks[i].state != SyncState::Cached ==> confirmed(
                tracks,
            ).contains(#[trigger] tracks[i]),
        distinct_paths(tracks) ==> distinct_paths(confirmed(tracks)),
        clean_paths(tracks) ==> clean_paths(confirmed(tracks)),
        synced_count(confirmed(tracks)) == synced_count(tracks),
        confirmed(tracks).len() <= tracks.len(),
    decreases tracks.len(),
{
    if tracks.len() > 0 {
        let front = tracks.drop_last();
        let kept = confirmed(front);
        let all = confirmed(tracks);
        lemma_confirmed(front);
        assert forall|k: int| 0 <= k < all.len() implies tracks.contains(#[trigger] all[k])
            && all[k].state != SyncState::Cached by {
            if k < kept.len() {
                assert(all[k] == kept[k]);
                assert(front.contains(kept[k]));
                let i = choose|i: int| 0 <= i < front.len() && front[i] == kept[k];
                assert(tracks[i] == all[k]);
            } else {
                assert(tracks[tracks.len() - 1] == all[k]);
            }
        }
        assert forall|i: int|
            0 <= i < tracks.len() && tracks[i].state != SyncState::Cached implies all.contains(
            #[trigger] tracks[i],
        ) by {
            if i < front.len() {
                assert(front[i] == tracks[i]);
                assert(kept.contains(front[i]));
                let k = choose|k: int| 0 <= k < kept.len() && kept[k] == front[i];
                assert(all[k] == tracks[i]);
            } else {
                assert(all[all.len() - 1] == tracks[i]);
            }
        }
        if distinct_paths(tracks) {
            assert(distinct_paths(front)) by {
                assert forall|i: int, j: int| 0 <= i < j < front.len() implies (
                #[trigger] front[i]).path != (#[trigger] front[j]).path by {
                    assert(tracks[i].path != tracks[j].path);
                }
            }
            assert forall|a: int, b: int| 0 <= a < b < all.len() implies (#[trigger] all[a]).path
                != (#[trigger] all[b]).path by {
                if b < kept.len() {
                    assert(kept[a].path != kept[b].path);
                } else {
                    assert(all[a] == kept[a]);
                    assert(front.contains(kept[a]));
                    let i = choose|i: int| 0 <= i < front.len() && front[i] == kept[a];
                    assert(tracks[i].path != tracks[tracks.len() - 1].path);
                }
            }
        }
        if tracks.last().state != SyncState::Cached {
            assert(all.drop_last() =~= kept);
        }
    }
    if clean_paths(tracks) {
        assert forall|k: int| 0 <= k < confirmed(tracks).len() implies is_split(
            (#[trigger] confirmed(tracks)[k]).path,
            '/',
        ) by {
            assert(tracks.contains(confirmed(tracks)[k]));
            let i = choose|i: int| 0 <= i < tracks.len() && tracks[i] == confirmed(tracks)[k];
            assert(is_split(tracks[i].path, '/'));
        }
    }
}

/// Marking every entry `Cached` leaves none with metadata counted, and
/// keeps the paths.
pub proof fn lemma_stale(tracks: Seq<TrackView>)
    ensures
        synced_count(stale(tracks)) == 0,
        distinct_paths(tracks) ==> distinct_paths(stale(tracks)),
        clean_paths(tracks) ==> clean_paths(stale(tracks)),
    decreases tracks.len(),
{
    if tracks.len() > 0 {
        lemma_stale(tracks.drop_last());
        assert(stale(tracks).drop_last() =~= stale(tracks.drop_last()));
    }
    if distinct_paths(tracks) {
        assert forall|i: int, j: int| 0 <= i < j < stale(tracks).len() implies (
        #[trigger] stale(tracks)[i]).path != (#[trigger] stale(tracks)[j]).path by {
            assert(tracks[i].path != tracks[j].path);
        }
    }
    if clean_paths(tracks) {
        assert forall|i: int| 0 <= i < stale(tracks).len() implies is_split(
            (#[trigger] stale(tracks)[i]).path,
            '/',
        ) by {
            assert(is_split(tracks[i].path, '/'));
        }
    }
}

/// Listing a path keeps a valid catalog valid.
pub proof fn lemma_merged_valid(tracks: Seq<TrackView>, path: Seq<Seq<char>>)
    requires
        distinct_paths(tracks),
    ensures
        distinct_paths(merged(tracks, path)),
        clean_paths(tracks) && is_split(path, '/') ==> clean_paths(merged(tracks, path)),
        synced_count(merged(tracks, path)) == synced_count(tracks),
{
    lemma_position(tracks, path);
    let after = merged(tracks, path);
    if clean_paths(tracks) && is_split(path, '/') {
        assert forall|i: int| 0 <= i < after.len() implies is_split(
            (#[trigger] after[i]).path,
            '/',
        ) by {
            if i < tracks.len() {
                assert(is_split(tracks[i].path, '/'));
            }
        }
    }
    match position(tracks, path) {
        Some(i) => {
            lemma_synced_count_update(tracks, i, reconfirmed(tracks[i]));
            assert forall|a: int, b: int| 0 <= a < b < after.len() implies (
            #[trigger] after[a]).path != (#[trigger] after[b]).path by {
                assert(tracks[a].path != tracks[b].path);
            }
        },
        None => {
            assert(after.drop_last() =~= tracks);
            assert forall|a: int, b: int| 0 <= a < b < after.len() implies (
            #[trigger] after[a]).path != (#[trigger] after[b]).path by {
                if b < tracks.len() {
                    assert(tracks[a].path != tracks[b].path);
                } else {
                    assert(tracks[a].path != path);
                }
            }
        },
    }
}

/// Listing any number of paths keeps a valid catalog valid.
pub proof fn lemma_merged_all_valid(tracks: Seq<TrackView>, names: Seq<Seq<char>>)
    requires
        distinct_paths(tracks),
    ensures
        distinct_paths(merged_all(tracks, names)),
        clean_paths(tracks) ==> clean_paths(merged_all(tracks, names)),
        synced_count(merged_all(tracks, names)) == synced_count(tracks),
    decreases names.len(),
{
    if names.len() > 0 {
        lemma_split_on(names.last(), '/');
        lemma_merged_all_valid(tracks, names.drop_last());
        lemma_merged_valid(merged_all(tracks, names.drop_last()), split_on(names.last(), '/'));
    }
}

/// Whether two paths have the same segments.
fn same_path(a: &Vec<String>, b: &Vec<String>) -> (r: bool)
    ensures
        r == (views(a@) == views(b@)),
{
    if a.len() != b.len() {
        assert(views(a@).len() != views(b@).len());
        return false;
    }
    let mut i: usize = 0;
    while i < a.len()
        invariant
            a@.len() == b@.len(),
            i <= a@.len(),
            forall|k: int| 0 <= k < i ==> a@[k]@ == b@[k]@,
        decreases a@.len() - i,
    {
        if !str_eq(a[i].as_str(), b[i].as_str()) {
            assert(views(a@)[i as int] != views(b@)[i as int]);
            return false;
        }
        i = i + 1;
    }
    assert(views(a@) =~= views(b@));
    true
}

/// Whether `path` begins with the segments of `prefix`.
fn starts_with(path: &Vec<String>, prefix: &Vec<String>) -> (r: bool)
    ensures
        r == views(prefix@).is_prefix_of(views(path@)),
{
    if prefix.len() > path.len() {
        return false;
    }
    let mut i: usize = 0;
    while i < prefix.len()
        invariant
            prefix@.len() <= path@.len(),
            i <= prefix@.len(),
            forall|k: int| 0 <= k < i ==> path@[k]@ == prefix@[k]@,
        decreases prefix@.len() - i,
    {
        if !str_eq(path[i].as_str(), prefix[i].as_str()) {
            assert(views(path@).subrange(0, views(prefix@).len() as int)[i as int] != views(
                prefix@,
            )[i as int]);
            return false;
        }
        i = i + 1;
    }
    assert(views(prefix@) =~= views(path@).subrange(0, views(prefix@).len() as int));
    true
}

/// Whether a name ends in the audio extension.
fn has_audio_extension(name: &str) -> (r: bool)
    ensures
        r == seq_ends_with(name@, audio_extension()),
{
    proof {
        reveal_strlit(".ogg");
    }
    assert(AUDIO_EXTENSION@ =~= audio_extension());
    ends_with(name, AUDIO_EXTENSION)
}

/// Whether a path names an audio file.
fn is_audio_path(path: &Vec<String>) -> (r: bool)
    ensures
        r == is_audio(views(path@)),
{
    let n: usize = path.len();
    if n == 0 {
        false
    } else {
        has_audio_extension(path[n - 1].as_str())
    }
}

impl Data {
    /// Whether the catalog is valid.
    pub open spec fn wf(&self) -> bool {
        valid(self@)
    }

    /// An empty catalog with the cursor at the root.
    pub fn new() -> (data: Self)
        ensures
            data.wf(),
            data@ == (DataView {
                cursor: Seq::<Seq<char>>::empty(),
                tracks: Seq::<TrackView>::empty(),
                synced: 0,
                total: 0,
            }),
    {
        let data = Data {
            current_dir: Vec::new(),
            tracks: Vec::new(),
            num_to_sync: 0,
            num_synced: 0,
        };
        assert(data@.cursor =~= Seq::<Seq<char>>::empty());
        assert(data@.tracks =~= Seq::<TrackView>::empty());
        data
    }

    /// The catalog lives in memory and is rebuilt from the device, so
    /// there is nothing to write.
    pub fn save(&self) {
    }

    /// The name of the current directory, empty at the root.
    pub fn dir_current(&self) -> (name: String)
        ensures
            name@ == if self@.cursor.len() > 0 {
                self@.cursor.last()
            } else {
                Seq::<char>::empty()
            },
    {
        let n: usize = self.current_dir.len();
        if n > 0 {
            self.current_dir[n - 1].clone()
        } else {
            String::new()
        }
    }

    /// Moves the cursor to the parent directory; at the root it stays.
    pub fn dir_up(&mut self)
        ensures
            final(self)@ == (DataView {
                cursor: if old(self)@.cursor.len() > 0 {
                    old(self)@.cursor.drop_last()
                } else {
                    old(self)@.cursor
                },
                ..old(self)@
            }),
    {
        self.current_dir.pop();
        assert(final(self)@.cursor =~= if old(self)@.cursor.len() > 0 {
            old(self)@.cursor.drop_last()
        } else {
            old(self)@.cursor
        });
    }

    /// Moves the cursor into the child directory `dir`.
    pub fn dir_enter(&mut self, dir: &str)
        ensures
            final(self)@ == (DataView { cursor: old(self)@.cursor.push(dir@), ..old(self)@ }),
    {
        self.current_dir.push(String::from_str(dir));
        assert(final(self)@.cursor =~= old(self)@.cursor.push(dir@));
    }

    /// The index of the first entry with the path `name`.
    fn find(&self, name: &Vec<String>) -> (found: Option<usize>)
        ensures
            match found {
                Some(k) => position(self@.tracks, views(name@)) == Some(k as int) && k
                    < self.tracks@.len(),
                None => position(self@.tracks, views(name@)) is None,
            },
    {
        let ghost tracks = self@.tracks;
        let ghost path = views(name@);
        let mut k: usize = 0;
        proof {
            lemma_position(tracks, path);
        }
        while k < self.tracks.len()
            invariant
                k <= self.tracks@.len(),
                tracks == self@.tracks,
                tracks.len() == self.tracks@.len(),
                path == views(name@),
                forall|j: int| 0 <= j < k ==> (#[trigger] tracks[j]).path != path,
            decreases self.tracks@.len() - k,
        {
            assert(tracks[k as int].path == views(self.tracks@[k as int].filename@));
            if same_path(&self.tracks[k].filename, name) {
                proof {
                    lemma_position(tracks, path);
                }
                return Some(k);
            }
            k = k + 1;
        }
        proof {
            lemma_position(tracks, path);
        }
        None
    }

    /// Takes one listed path into the catalog.
    fn merge(&mut self, name: Vec<String>)
        requires
            valid(old(self)@),
            is_split(views(name@), '/'),
        ensures
            valid(final(self)@),
            final(self)@ == (DataView {
                tracks: merged(old(self)@.tracks, views(name@)),
                ..old(self)@
            }),
    {
        proof {
            lemma_merged_valid(self@.tracks, views(name@));
        }
        match self.find(&name) {
            Some(k) => {
                if self.tracks[k].sync_state == SyncState::Cached {
                    self.tracks[k].sync_state = SyncState::Unsynced;
                }
                assert(final(self)@.tracks =~= merged(old(self)@.tracks, views(name@)));
            },
            None => {
                self.tracks.push(
                    Track { filename: name, sync_state: SyncState::Unsynced, info: None },
                );
                assert(final(self)@.tracks =~= merged(old(self)@.tracks, views(name@)));
            },
        }
    }

    /// Drops the entries that are `Cached`.
    fn prune(&mut self)
        ensures
            final(self)@ == (DataView { tracks: confirmed(old(self)@.tracks), ..old(self)@ }),
    {
        let ghost orig = self@.tracks;
        let ghost cursor = self@.cursor;
        let ghost synced = self@.synced;
        let ghost total = self@.total;
        let ghost mut done: int = 0;
        let mut i: usize = 0;
        assert(self@.tracks.take(0) =~= confirmed(orig.take(0)));
        assert(self@.tracks.skip(0) =~= orig.skip(0));
        while i < self.tracks.len()
            invariant
                0 <= done <= orig.len(),
                i <= self.tracks@.len(),
                self.tracks@.len() - i == orig.len() - done,
                self@.tracks.take(i as int) == confirmed(orig.take(done)),
                self@.tracks.skip(i as int) == orig.skip(done),
                self@.cursor == cursor,
                self@.synced == synced,
                self@.total == total,
            decreases self.tracks@.len() - i,
        {
            let ghost before = self@.tracks;
            assert(before.skip(i as int)[0] == orig.skip(done)[0]);
            assert(before[i as int] == orig[done]);
            assert(orig.take(done + 1).drop_last() =~= orig.take(done));
            assert(orig.take(done + 1).last() == orig[done]);
            if self.tracks[i].sync_state == SyncState::Cached {
                self.tracks.remove(i);
                assert(self@.tracks =~= before.remove(i as int));
                assert(self@.tracks.take(i as int) =~= before.take(i as int));
                assert(self@.tracks.skip(i as int) =~= before.skip(i as int).drop_first());
                assert(orig.skip(done + 1) =~= orig.skip(done).drop_first());
            } else {
                assert(before.take(i + 1) =~= before.take(i as int).push(before[i as int]));
                assert(before.skip(i + 1) =~= before.skip(i as int).drop_first());
                assert(orig.skip(done + 1) =~= orig.skip(done).drop_first());
                i = i + 1;
            }
            proof {
                done = done + 1;
            }
        }
        assert(self@.tracks.take(i as int) =~= self@.tracks);
        assert(orig.take(done) =~= orig);
    }

    /// How many entries are audio files that still lack their metadata.
    fn count_pending(&self) -> (n: usize)
        ensures
            n == pending_count(self@.tracks),
    {
        let ghost tracks = self@.tracks;
        let mut n: usize = 0;
        let mut i: usize = 0;
        while i < self.tracks.len()
            invariant
                i <= self.tracks@.len(),
                tracks == self@.tracks,
                tracks.len() == self.tracks@.len(),
                n <= i,
                n == pending_count(tracks.take(i as int)),
            decreases self.tracks@.len() - i,
        {
            assert(tracks.take(i + 1).drop_last() =~= tracks.take(i as int));
            assert(tracks.take(i + 1).last() == tracks[i as int]);
            assert(tracks[i as int].path == views(self.tracks@[i as int].filename@));
            if self.tracks[i].sync_state == SyncState::Unsynced && is_audio_path(
                &self.tracks[i].filename,
            ) {
                n = n + 1;
            }
            i = i + 1;
        }
        assert(tracks.take(i as int) =~= tracks);
        n
    }

    /// Starts a resync: every entry becomes `Cached`, to be dropped at
    /// the end of the listing unless the device lists it again, and the
    /// progress goes back to zero of zero.
    pub fn clear_file_list(&mut self)
        requires
            old(self).wf(),
        ensures
            final(self).wf(),
            final(self)@ == cleared(old(self)@),
    {
        let ghost orig = self@.tracks;
        let ghost cursor = self@.cursor;
        let mut i: usize = 0;
        assert(self@.tracks =~= stale(orig).take(0) + orig.skip(0));
        while i < self.tracks.len()
            invariant
                i <= self.tracks@.len(),
                self.tracks@.len() == orig.len(),
                self@.cursor == cursor,
                self@.tracks == stale(orig).take(i as int) + orig.skip(i as int),
            decreases self.tracks@.len() - i,
        {
            let ghost before = self@.tracks;
            assert(before[i as int] == orig.skip(i as int)[0]);
            self.tracks[i].sync_state = SyncState::Cached;
            assert(self@.tracks =~= before.update(
                i as int,
                TrackView { state: SyncState::Cached, ..before[i as int] },
            ));
            assert(self@.tracks =~= stale(orig).take(i + 1) + orig.skip(i + 1));
            i = i + 1;
        }
        self.num_synced = 0;
        self.num_to_sync = 0;
        proof {
            assert(self@.tracks =~= stale(orig));
            lemma_stale(orig);
        }
    }

    /// Takes one page of the device's listing. Each path is reconfirmed
    /// if the catalog has it and added as `Unsynced` if not. The last
    /// page drops what is still `Cached` and restarts the progress count
    /// at zero of the audio files that lack their metadata.
    pub fn update_file_list(&mut self, lst: Vec<String>, last: bool)
        requires
            old(self).wf(),
        ensures
            final(self).wf(),
            final(self)@ == appended(old(self)@, views(lst@), last),
    {
        let ghost orig = self@;
        let ghost names = views(lst@);
        let mut i: usize = 0;
        assert(names.take(0) =~= Seq::<Seq<char>>::empty());
        while i < lst.len()
            invariant
                i <= lst@.len(),
                names == views(lst@),
                valid(self@),
                self@ == (DataView {
                    tracks: merged_all(orig.tracks, names.take(i as int)),
                    ..orig
                }),
            decreases lst@.len() - i,
        {
            let name = split_path(lst[i].as_str());
            proof {
                lemma_split_on(lst@[i as int]@, '/');
                assert(names.take(i + 1).drop_last() =~= names.take(i as int));
                assert(names.take(i + 1).last() == lst@[i as int]@);
            }
            self.merge(name);
            i = i + 1;
        }
        assert(names.take(i as int) =~= names);
        if last {
            proof {
                lemma_confirmed(self@.tracks);
                lemma_pending_count_bound(confirmed(self@.tracks));
            }
            self.prune();
            self.num_to_sync = self.count_pending();
            self.num_synced = 0;
        }
    }

    /// The path, joined with slashes, of the first audio file that still
    /// lacks its metadata, if there is one.
    pub fn get_unsynced_file(&self) -> (name: Option<String>)
        ensures
            match name {
                Some(n) => next_unsynced(self@.tracks) == Some(n@),
                None => next_unsynced(self@.tracks) is None,
            },
    {
        let ghost tracks = self@.tracks;
        let mut i: usize = 0;
        while i < self.tracks.len()
            invariant
                i <= self.tracks@.len(),
                tracks == self@.tracks,
                tracks.len() == self.tracks@.len(),
                forall|j: int| 0 <= j < i ==> !wants_sync(#[trigger] tracks[j]),
            decreases self.tracks@.len() - i,
        {
            assert(tracks[i as int].path == views(self.tracks@[i as int].filename@));
            if self.tracks[i].sync_state == SyncState::Unsynced && is_audio_path(
                &self.tracks[i].filename,
            ) {
                proof {
                    lemma_first_unsynced(tracks);
                }
                return Some(join_path(&self.tracks[i].filename));
            }
            i = i + 1;
        }
        proof {
            lemma_first_unsynced(tracks);
        }
        None
    }

    /// Records the metadata of a file. The first entry whose path reads
    /// `info.filename` becomes `Synced`, and the count of synchronized
    /// files grows by one unless the entry was `Synced` already. Without
    /// such an entry nothing changes.
    pub fn set_file_info(&mut self, info: FileInfo)
        requires
            old(self).wf(),
        ensures
            final(self).wf(),
            final(self)@ == with_info(old(self)@, info@),
    {
        let ghost tracks = self@.tracks;
        let mut i: usize = 0;
        while i < self.tracks.len()
            invariant
                i <= self.tracks@.len(),
                self@ == old(self)@,
                valid(self@),
                tracks == self@.tracks,
                tracks.len() == self.tracks@.len(),
                forall|j: int|
                    0 <= j < i ==> join_with((#[trigger] tracks[j]).path, '/') != info@.filename,
            decreases self.tracks@.len() - i,
        {
            assert(tracks[i as int].path == views(self.tracks@[i as int].filename@));
            let name = join_path(&self.tracks[i].filename);
            if str_eq(name.as_str(), info.filename.as_str()) {
                proof {
                    lemma_named(tracks, info@.filename);
                    lemma_synced_count_bound(tracks.update(
                        i as int,
                        TrackView {
                            state: SyncState::Synced,
                            info: Some(info_of(info@)),
                            ..tracks[i as int]
                        },
                    ));
                    lemma_synced_count_update(
                        tracks,
                        i as int,
                        TrackView {
                            state: SyncState::Synced,
                            info: Some(info_of(info@)),
                            ..tracks[i as int]
                        },
                    );
                }
                let fresh = self.tracks[i].sync_state != SyncState::Synced;
                self.tracks[i].sync_state = SyncState::Synced;
                self.tracks[i].info = Some(
                    TrackInfo {
                        genre: info.genre,
                        artist: info.artist,
                        album: info.album,
                        title: info.title,
                        date: info.date,
                        track: info.track,
                        duration: info.duration,
                    },
                );
                if fresh {
                    self.num_synced = self.num_synced + 1;
                }
                proof {
                    assert(self@.tracks =~= with_info(old(self)@, info@).tracks);
                    assert forall|a: int, b: int| 0 <= a < b < self@.tracks.len() implies (
                    #[trigger] self@.tracks[a]).path != (#[trigger] self@.tracks[b]).path by {
                        assert(tracks[a].path != tracks[b].path);
                    }
                    assert forall|a: int| 0 <= a < self@.tracks.len() implies is_split(
                        (#[trigger] self@.tracks[a]).path,
                        '/',
                    ) by {
                        assert(is_split(tracks[a].path, '/'));
                    }
                }
                return ;
            }
            i = i + 1;
        }
        proof {
            lemma_named(tracks, info@.filename);
        }
    }

    /// The children of the current directory: each directory and each
    /// audio file one segment below the cursor, once, directories first
    /// and each kind in the order of its names.
    pub fn dir_content(&self) -> (list: Vec<DirEntry>)
        ensures
            strictly_sorted(entry_views(list@)),
            entry_views(list@).to_set() == listing(self@),
    {
        let ghost tracks = self@.tracks;
        let ghost cursor = self@.cursor;
        let depth: usize = self.current_dir.len();
        let mut list: Vec<DirEntry> = Vec::new();
        let mut i: usize = 0;
        while i < self.tracks.len()
            invariant
                i <= self.tracks@.len(),
                tracks == self@.tracks,
                cursor == self@.cursor,
                cursor == views(self.current_dir@),
                depth == self.current_dir@.len(),
                tracks.len() == self.tracks@.len(),
                strictly_sorted(entry_views(list@)),
                forall|e: EntryView|
                    entry_views(list@).to_set().contains(e) <==> exists|j: int|
                        0 <= j < i && entry_of(cursor, (#[trigger] tracks[j]).path) == Some(e),
            decreases self.tracks@.len() - i,
        {
            let ghost before = entry_views(list@).to_set();
            let path = &self.tracks[i].filename;
            assert(tracks[i as int].path == views(path@));
            let mut found: Option<DirEntry> = None;
            if path.len() > depth && starts_with(path, &self.current_dir) {
                let name = &path[depth];
                if path.len() > depth + 1 {
                    found = Some(DirEntry::Dir(name.clone()));
                } else if has_audio_extension(name.as_str()) {
                    found = Some(DirEntry::File(name.clone()));
                }
            }
            assert(match found {
                Some(e) => entry_of(cursor, tracks[i as int].path) == Some(e@),
                None => entry_of(cursor, tracks[i as int].path) is None,
            });
            match found {
                Some(e) => {
                    let ghost ev = e@;
                    insert_sorted(&mut list, e);
                    assert forall|x: EntryView|
                        entry_views(list@).to_set().contains(x) <==> exists|j: int|
                            0 <= j < i + 1 && entry_of(cursor, (#[trigger] tracks[j]).path) == Some(
                                x,
                            ) by {
                        if before.insert(ev).contains(x) {
                            if x == ev {
                                assert(entry_of(cursor, tracks[i as int].path) == Some(x));
                            } else {
                                assert(before.contains(x));
                            }
                        }
                        if exists|j: int|
                            0 <= j < i + 1 && entry_of(cursor, (#[trigger] tracks[j]).path) == Some(
                                x,
                            ) {
                            let j = choose|j: int|
                                0 <= j < i + 1 && entry_of(cursor, (#[trigger] tracks[j]).path)
                                    == Some(x);
                            if j < i {
                                assert(before.contains(x));
                            }
                        }
                    }
                },
                None => {
                    assert forall|x: EntryView|
                        entry_views(list@).to_set().contains(x) <==> exists|j: int|
                            0 <= j < i + 1 && entry_of(cursor, (#[trigger] tracks[j]).path) == Some(
                                x,
                            ) by {
                        if exists|j: int|
                            0 <= j < i + 1 && entry_of(cursor, (#[trigger] tracks[j]).path) == Some(
                                x,
                            ) {
                            let j = choose|j: int|
                                0 <= j < i + 1 && entry_of(cursor, (#[trigger] tracks[j]).path)
                                    == Some(x);
                            assert(j < i);
                        }
                    }
                },
            }
            i = i + 1;
        }
        assert(entry_views(list@).to_set() =~= listing(self@));
        list
    }

    /// The progress of the synchronization: files synchronized since the
    /// last full listing, and files that listing left to synchronize.
    pub fn sync_stats(&self) -> (stats: (usize, usize))
        ensures
            stats.0 == self@.synced,
            stats.1 == self@.total,
    {
        (self.num_synced, self.num_to_sync)
    }
}

} // verus!
