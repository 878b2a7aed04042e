//! What holds of the catalog across several operations.

use vstd::prelude::*;
use crate::database::data::{
    appended, cleared, confirmed, distinct_paths, info_of, is_audio, lemma_confirmed,
    first_unsynced, lemma_first_unsynced, lemma_merged_all_valid, lemma_named, lemma_position,
    lemma_stale, lemma_synced_count_update, listing, merged, merged_all, named, next_unsynced,
    pending_count, position, reconfirmed, valid, wants_sync, with_info, DataView, SyncState,
    TrackView,
};
use crate::database::entry::{
    lemma_sorted_no_duplicates, lemma_sorted_unique, strictly_sorted, EntryView,
};
use crate::json::types::FileInfoView;
use crate::text::{is_split, join_with, lemma_join_injective, split_on};

verus! {

/// Whether some entry has the path.
pub open spec fn has_path(tracks: Seq<TrackView>, path: Seq<Seq<char>>) -> bool {
    exists|i: int| 0 <= i < tracks.len() && (#[trigger] tracks[i]).path == path
}

/// Whether one of the names, split at its slashes, gives the path.
pub open spec fn listed_in(names: Seq<Seq<char>>, path: Seq<Seq<char>>) -> bool {
    exists|k: int| 0 <= k < names.len() && split_on(#[trigger] names[k], '/') == path
}

/// The names of a run of pages, in order.
pub open spec fn all_names(pages: Seq<Seq<Seq<char>>>) -> Seq<Seq<char>>
    decreases pages.len(),
{
    if pages.len() == 0 {
        Seq::<Seq<char>>::empty()
    } else {
        all_names(pages.drop_last()) + pages.last()
    }
}

/// The catalog after a run of pages of which none is the last.
pub open spec fn paged(d: DataView, pages: Seq<Seq<Seq<char>>>) -> DataView
    decreases pages.len(),
{
    if pages.len() == 0 {
        d
    } else {
        appended(paged(d, pages.drop_last()), pages.last(), false)
    }
}

/// The catalog after a run of pages, the last one marked as the last.
pub open spec fn listed(d: DataView, pages: Seq<Seq<Seq<char>>>) -> DataView
    recommends
        pages.len() > 0,
{
    appended(paged(d, pages.drop_last()), pages.last(), true)
}

/// How listing one path changes the entries.
proof fn lemma_merged_shape(tracks: Seq<TrackView>, path: Seq<Seq<char>>)
    requires
        distinct_paths(tracks),
    ensures
        tracks.len() <= merged(tracks, path).len() <= tracks.len() + 1,
        forall|i: int|
            0 <= i < tracks.len() ==> (#[trigger] merged(tracks, path)[i]) == if tracks[i].path
                == path {
                reconfirmed(tracks[i])
            } else {
                tracks[i]
            },
        merged(tracks, path).len() > tracks.len() ==> !has_path(tracks, path) && merged(
            tracks,
            path,
        )[tracks.len() as int] == (TrackView { path, state: SyncState::Unsynced, info: None }),
        has_path(merged(tracks, path), path),
{
    lemma_position(tracks, path);
    let r = merged(tracks, path);
    match position(tracks, path) {
        Some(k) => {
            assert forall|i: int| 0 <= i < tracks.len() implies (#[trigger] r[i]) == if tracks[
                i
            ].path == path {
                reconfirmed(tracks[i])
            } else {
                tracks[i]
            } by {
                if i != k && tracks[i].path == path {
                    if i < k {
                        assert(tracks[i].path != tracks[k].path);
                    } else {
                        assert(tracks[k].path != tracks[i].path);
                    }
                }
            }
            assert(r[k].path == path);
        },
        None => {
            assert(r[tracks.len() as int].path == path);
            if has_path(tracks, path) {
                let i = choose|i: int| 0 <= i < tracks.len() && (#[trigger] tracks[i]).path == path;
                assert(tracks[i].path != path);
            }
        },
    }
}

/// Listing in two runs is listing in one.
pub proof fn lemma_merged_all_concat(tracks: Seq<TrackView>, a: Seq<Seq<char>>, b: Seq<Seq<char>>)
    ensures
        merged_all(tracks, a + b) == merged_all(merged_all(tracks, a), b),
    decreases b.len(),
{
    if b.len() == 0 {
        assert(a + b =~= a);
    } else {
        lemma_merged_all_concat(tracks, a, b.drop_last());
        assert((a + b).drop_last() =~= a + b.drop_last());
        assert((a + b).last() == b.last());
    }
}

/// A run of pages of which none is the last lists their names in order
/// and changes nothing else.
pub proof fn lemma_paged(d: DataView, pages: Seq<Seq<Seq<char>>>)
    ensures
        paged(d, pages) == (DataView { tracks: merged_all(d.tracks, all_names(pages)), ..d }),
    decreases pages.len(),
{
    if pages.len() > 0 {
        lemma_paged(d, pages.drop_last());
        lemma_merged_all_concat(d.tracks, all_names(pages.drop_last()), pages.last());
    }
}

/// How listing a run of names changes the entries: the old entries keep
/// their place, path and metadata, and are reconfirmed if listed; the new
/// ones are listed and `Unsynced`; every listed path is there.
pub proof fn lemma_merged_all_shape(tracks: Seq<TrackView>, names: Seq<Seq<char>>)
    requires
        distinct_paths(tracks),
    ensures
        tracks.len() <= merged_all(tracks, names).len(),
        forall|i: int|
            0 <= i < tracks.len() ==> (#[trigger] merged_all(tracks, names)[i]) == if listed_in(
                names,
                tracks[i].path,
            ) {
                reconfirmed(tracks[i])
            } else {
                tracks[i]
            },
        forall|i: int|
            tracks.len() <= i < merged_all(tracks, names).len() ==> {
                &&& (#[trigger] merged_all(tracks, names)[i]).state == SyncState::Unsynced
                &&& merged_all(tracks, names)[i].info is None
                &&& listed_in(names, merged_all(tracks, names)[i].path)
            },
        forall|path: Seq<Seq<char>>|
            listed_in(names, path) ==> #[trigger] has_path(merged_all(tracks, names), path),
    decreases names.len(),
{
    if names.len() > 0 {
        let front = names.drop_last();
        let p = split_on(names.last(), '/');
        let m = merged_all(tracks, front);
        let r = merged_all(tracks, names);
        lemma_merged_all_shape(tracks, front);
        lemma_merged_all_valid(tracks, front);
        lemma_merged_shape(m, p);
        assert(listed_in(names, p)) by {
            assert(split_on(names[names.len() - 1], '/') == p);
        }
        assert forall|x: Seq<Seq<char>>| listed_in(front, x) implies listed_in(names, x) by {
            let k = choose|k: int| 0 <= k < front.len() && split_on(#[trigger] front[k], '/') == x;
            assert(split_on(names[k], '/') == x);
        }
        assert forall|x: Seq<Seq<char>>| listed_in(names, x) implies listed_in(front, x) || x
            == p by {
            let k = choose|k: int| 0 <= k < names.len() && split_on(#[trigger] names[k], '/') == x;
            if k < front.len() {
                assert(split_on(front[k], '/') == x);
            }
        }
        assert forall|i: int| 0 <= i < tracks.len() implies (#[trigger] r[i]) == if listed_in(
            names,
            tracks[i].path,
        ) {
            reconfirmed(tracks[i])
        } else {
            tracks[i]
        } by {
            assert(m[i].path == tracks[i].path);
        }
        assert forall|i: int| tracks.len() <= i < r.len() implies {
            &&& (#[trigger] r[i]).state == SyncState::Unsynced
            &&& r[i].info is None
            &&& listed_in(names, r[i].path)
        } by {
            if i < m.len() {
                assert(m[i].state == SyncState::Unsynced);
                assert(listed_in(front, m[i].path));
            }
        }
        assert forall|path: Seq<Seq<char>>| listed_in(names, path) implies #[trigger] has_path(
            r,
            path,
        ) by {
            if path != p {
                assert(listed_in(front, path));
                assert(has_path(m, path));
                let i = choose|i: int| 0 <= i < m.len() && (#[trigger] m[i]).path == path;
                assert(r[i].path == path);
            }
        }
    } else {
        assert forall|x: Seq<Seq<char>>| !listed_in(names, x) by {}
    }
}

/// After a run of pages, the last one marked as the last, no entry is
/// `Cached`; the catalog holds the listed paths and the entries that
/// were confirmed before, and no others; the progress stands at zero of
/// the number of audio files that are not `Synced`, each path counted
/// once.
pub proof fn lemma_listing_complete(d: DataView, pages: Seq<Seq<Seq<char>>>)
    requires
        valid(d),
        pages.len() > 0,
    ensures
        valid(listed(d, pages)),
        listed(d, pages).cursor == d.cursor,
        listed(d, pages).synced == 0,
        listed(d, pages).total == pending_count(listed(d, pages).tracks),
        forall|i: int|
            0 <= i < listed(d, pages).tracks.len() ==> (#[trigger] listed(d, pages).tracks[i]).state
                != SyncState::Cached,
        forall|i: int|
            0 <= i < listed(d, pages).tracks.len() ==> (wants_sync(
                #[trigger] listed(d, pages).tracks[i],
            ) <==> is_audio(listed(d, pages).tracks[i].path) && listed(d, pages).tracks[i].state
                != SyncState::Synced),
        forall|path: Seq<Seq<char>>|
            #[trigger] has_path(listed(d, pages).tracks, path) <==> listed_in(
                all_names(pages),
                path,
            ) || exists|j: int|
                0 <= j < d.tracks.len() && (#[trigger] d.tracks[j]).path == path
                    && d.tracks[j].state != SyncState::Cached,
{
    let names = all_names(pages);
    let m = merged_all(d.tracks, names);
    let r = listed(d, pages);
    lemma_paged(d, pages.drop_last());
    lemma_merged_all_concat(d.tracks, all_names(pages.drop_last()), pages.last());
    assert(pages =~= pages.drop_last().push(pages.last()));
    assert(r.tracks == confirmed(m));
    lemma_merged_all_valid(d.tracks, names);
    lemma_merged_all_shape(d.tracks, names);
    lemma_confirmed(m);
    assert forall|path: Seq<Seq<char>>| #[trigger] has_path(r.tracks, path) implies listed_in(
        names,
        path,
    ) || exists|j: int|
        0 <= j < d.tracks.len() && (#[trigger] d.tracks[j]).path == path && d.tracks[j].state
            != SyncState::Cached by {
        let k = choose|k: int| 0 <= k < r.tracks.len() && (#[trigger] r.tracks[k]).path == path;
        assert(m.contains(r.tracks[k]));
        let i = choose|i: int| 0 <= i < m.len() && m[i] == r.tracks[k];
        if i < d.tracks.len() {
            if !listed_in(names, d.tracks[i].path) {
                assert(d.tracks[i].path == path && d.tracks[i].state != SyncState::Cached);
            }
        }
    }
    assert forall|path: Seq<Seq<char>>|
        listed_in(names, path) || (exists|j: int|
            0 <= j < d.tracks.len() && (#[trigger] d.tracks[j]).path == path && d.tracks[j].state
                != SyncState::Cached) implies #[trigger] has_path(r.tracks, path) by {
        let i = if listed_in(names, path) {
            assert(has_path(m, path));
            choose|i: int| 0 <= i < m.len() && (#[trigger] m[i]).path == path
        } else {
            choose|j: int|
                0 <= j < d.tracks.len() && (#[trigger] d.tracks[j]).path == path
                    && d.tracks[j].state != SyncState::Cached
        };
        assert(m[i].path == path);
        assert(m[i].state != SyncState::Cached);
        assert(r.tracks.contains(m[i]));
        let k = choose|k: int| 0 <= k < r.tracks.len() && r.tracks[k] == m[i];
        assert(r.tracks[k].path == path);
    }
}

/// After a resync has begun and a run of pages has come in, the last one
/// marked as the last, the catalog holds exactly the listed paths, each
/// once and `Unsynced`: what was there before and is not listed again is
/// gone. The progress stands at zero of the number of audio files.
pub proof fn lemma_resync_complete(d: DataView, pages: Seq<Seq<Seq<char>>>)
    requires
        valid(d),
        pages.len() > 0,
    ensures
        valid(listed(cleared(d), pages)),
        listed(cleared(d), pages).synced == 0,
        listed(cleared(d), pages).total == pending_count(listed(cleared(d), pages).tracks),
        forall|i: int|
            0 <= i < listed(cleared(d), pages).tracks.len() ==> (#[trigger] listed(
                cleared(d),
                pages,
            ).tracks[i]).state == SyncState::Unsynced,
        forall|path: Seq<Seq<char>>|
            #[trigger] has_path(listed(cleared(d), pages).tracks, path) <==> listed_in(
                all_names(pages),
                path,
            ),
{
    let c = cleared(d);
    let names = all_names(pages);
    let m = merged_all(c.tracks, names);
    let r = listed(c, pages);
    lemma_stale(d.tracks);
    lemma_listing_complete(c, pages);
    lemma_paged(c, pages.drop_last());
    lemma_merged_all_concat(c.tracks, all_names(pages.drop_last()), pages.last());
    assert(pages =~= pages.drop_last().push(pages.last()));
    assert(r.tracks == confirmed(m));
    lemma_merged_all_shape(c.tracks, names);
    lemma_confirmed(m);
    assert forall|i: int| 0 <= i < r.tracks.len() implies (#[trigger] r.tracks[i]).state
        == SyncState::Unsynced by {
        assert(m.contains(r.tracks[i]));
        let k = choose|k: int| 0 <= k < m.len() && m[k] == r.tracks[i];
        if k < c.tracks.len() {
            assert(c.tracks[k].state == SyncState::Cached);
        }
    }
    assert forall|path: Seq<Seq<char>>| #[trigger] has_path(r.tracks, path) implies listed_in(
        names,
        path,
    ) by {
        if !listed_in(names, path) {
            let j = choose|j: int|
                0 <= j < c.tracks.len() && (#[trigger] c.tracks[j]).path == path
                    && c.tracks[j].state != SyncState::Cached;
            assert(c.tracks[j].state == SyncState::Cached);
        }
    }
}

/// Any two sorted lists of the children of the current directory are the
/// same list, and such a list holds no entry twice: listing again gives
/// the same answer.
pub proof fn lemma_listing_unique(d: DataView, a: Seq<EntryView>, b: Seq<EntryView>)
    requires
        strictly_sorted(a),
        a.to_set() == listing(d),
        strictly_sorted(b),
        b.to_set() == listing(d),
    ensures
        a == b,
        a.no_duplicates(),
{
    lemma_sorted_unique(a, b);
    lemma_sorted_no_duplicates(a);
}

/// Metadata for a known file makes its entry `Synced` and counts it once:
/// the count grows by one when the entry was not `Synced`, and metadata
/// that arrives again for the same name leaves the count where it is.
pub proof fn lemma_info_counts_once(d: DataView, first: FileInfoView, second: FileInfoView)
    requires
        valid(d),
        named(d.tracks, first.filename) is Some,
        second.filename == first.filename,
    ensures
        valid(with_info(d, first)),
        with_info(d, first).tracks[named(d.tracks, first.filename)->0].state == SyncState::Synced,
        d.tracks[named(d.tracks, first.filename)->0].state != SyncState::Synced ==> with_info(
            d,
            first,
        ).synced == d.synced + 1,
        with_info(with_info(d, first), second).synced == with_info(d, first).synced,
        with_info(with_info(d, first), second).tracks[named(d.tracks, first.filename)->0].state
            == SyncState::Synced,
{
    let i = named(d.tracks, first.filename)->0;
    let once = with_info(d, first);
    lemma_named(d.tracks, first.filename);
    lemma_named(once.tracks, first.filename);
    lemma_synced_count_update(
        d.tracks,
        i,
        TrackView { state: SyncState::Synced, info: Some(info_of(first)), ..d.tracks[i] },
    );
    assert forall|a: int, b: int| 0 <= a < b < once.tracks.len() implies (
    #[trigger] once.tracks[a]).path != (#[trigger] once.tracks[b]).path by {
        assert(d.tracks[a].path != d.tracks[b].path);
    }
    assert forall|a: int| 0 <= a < once.tracks.len() implies is_split(
        (#[trigger] once.tracks[a]).path,
        '/',
    ) by {
        assert(is_split(d.tracks[a].path, '/'));
    }
    assert(join_with(once.tracks[i].path, '/') == first.filename);
    match named(once.tracks, first.filename) {
        Some(k) => {
            if k < i {
                assert(join_with(d.tracks[k].path, '/') != first.filename);
                assert(once.tracks[k].path == d.tracks[k].path);
            }
            assert(k == i);
        },
        None => {
            assert(false);
        },
    }
}

/// Whether the progress is exact: the files counted as synchronized and
/// the audio files that still lack their metadata make up the total.
pub open spec fn exact(d: DataView) -> bool {
    d.synced + pending_count(d.tracks) == d.total
}

/// Replacing one entry changes the count of files that lack their
/// metadata by what that entry adds or takes away.
pub proof fn lemma_pending_count_update(tracks: Seq<TrackView>, i: int, t: TrackView)
    requires
        0 <= i < tracks.len(),
    ensures
        pending_count(tracks.update(i, t)) + if wants_sync(tracks[i]) {
            1nat
        } else {
            0nat
        } == pending_count(tracks) + if wants_sync(t) {
            1nat
        } else {
            0nat
        },
    decreases tracks.len(),
{
    let after = tracks.update(i, t);
    if i == tracks.len() - 1 {
        assert(after.drop_last() =~= tracks.drop_last());
    } else {
        lemma_pending_count_update(tracks.drop_last(), i, t);
        assert(after.drop_last() =~= tracks.drop_last().update(i, t));
    }
}

/// No audio file lacks its metadata exactly when none is next.
pub proof fn lemma_walk_ends(tracks: Seq<TrackView>)
    ensures
        next_unsynced(tracks) is None <==> pending_count(tracks) == 0,
    decreases tracks.len(),
{
    if tracks.len() > 0 {
        lemma_walk_ends(tracks.drop_last());
    }
}

/// A full listing leaves the progress exact.
pub proof fn lemma_listing_is_exact(d: DataView, pages: Seq<Seq<Seq<char>>>)
    requires
        valid(d),
        pages.len() > 0,
    ensures
        exact(listed(d, pages)),
{
}

/// The walk makes progress. When metadata arrives for the file that is
/// next, it is that file's entry that becomes `Synced`: one file fewer
/// lacks its metadata, one more is counted as synchronized, and exact
/// progress stays exact.
pub proof fn lemma_walk_progress(d: DataView, info: FileInfoView)
    requires
        valid(d),
        next_unsynced(d.tracks) == Some(info.filename),
    ensures
        valid(with_info(d, info)),
        named(d.tracks, info.filename) == first_unsynced(d.tracks),
        pending_count(with_info(d, info).tracks) + 1 == pending_count(d.tracks),
        with_info(d, info).synced == d.synced + 1,
        exact(d) ==> exact(with_info(d, info)),
{
    lemma_first_unsynced(d.tracks);
    lemma_named(d.tracks, info.filename);
    let i = first_unsynced(d.tracks)->0;
    let k = named(d.tracks, info.filename)->0;
    assert(is_split(d.tracks[i].path, '/'));
    assert(is_split(d.tracks[k].path, '/'));
    lemma_join_injective(d.tracks[k].path, d.tracks[i].path, '/');
    if k < i {
        assert(d.tracks[k].path != d.tracks[i].path);
    } else if i < k {
        assert(d.tracks[i].path != d.tracks[k].path);
    }
    assert(k == i);
    let done = TrackView { state: SyncState::Synced, info: Some(info_of(info)), ..d.tracks[i] };
    lemma_pending_count_update(d.tracks, i, done);
    lemma_info_counts_once(d, info, info);
}

/// When the walk has ended with exact progress, every file of the total
/// is counted as synchronized.
pub proof fn lemma_walk_complete(d: DataView)
    requires
        exact(d),
        next_unsynced(d.tracks) is None,
    ensures
        d.synced == d.total,
{
    lemma_walk_ends(d.tracks);
}

/// Metadata for a name that no entry has changes nothing.
pub proof fn lemma_info_unknown(d: DataView, info: FileInfoView)
    requires
        named(d.tracks, info.filename) is None,
    ensures
        with_info(d, info) == d,
{
}

} // verus!
