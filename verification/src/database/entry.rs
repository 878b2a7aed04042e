//! Directory entries and their order: directories before files, each kind
//! by name.

use vstd::prelude::*;
use crate::text::{
    lemma_seq_lt_irreflexive, lemma_seq_lt_total, lemma_seq_lt_transitive, seq_lt, str_lt,
};

verus! {

/// One child of a directory.
#[derive(Debug, Eq, Ord, PartialEq, PartialOrd)]
pub enum DirEntry {
    Dir(String),
    File(String),
}

/// A directory entry as the contracts see it.
pub enum EntryView {
    Dir(Seq<char>),
    File(Seq<char>),
}

impl View for DirEntry {
    type V = EntryView;

    open spec fn view(&self) -> EntryView {
        match self {
            DirEntry::Dir(name) => EntryView::Dir(name@),
            DirEntry::File(name) => EntryView::File(name@),
        }
    }
}

/// The views of a sequence of entries.
pub open spec fn entry_views(v: Seq<DirEntry>) -> Seq<EntryView> {
    Seq::new(v.len(), |i: int| v[i]@)
}

/// Whether `a` comes before `b`: a directory before a file, and two of a
/// kind by name.
pub open spec fn entry_lt(a: EntryView, b: EntryView) -> bool {
    match (a, b) {
        (EntryView::Dir(x), EntryView::Dir(y)) => seq_lt(x, y),
        (EntryView::Dir(_), EntryView::File(_)) => true,
        (EntryView::File(_), EntryView::Dir(_)) => false,
        (EntryView::File(x), EntryView::File(y)) => seq_lt(x, y),
    }
}

/// Whether each entry comes before all later ones. Such a sequence holds
/// no entry twice.
pub open spec fn strictly_sorted(s: Seq<EntryView>) -> bool {
    forall|i: int, j: int| 0 <= i < j < s.len() ==> entry_lt(#[trigger] s[i], #[trigger] s[j])
}

/// The order on entries is strict and total.
pub proof fn lemma_entry_order(a: EntryView, b: EntryView, c: EntryView)
    ensures
        !entry_lt(a, a),
        entry_lt(a, b) && entry_lt(b, c) ==> entry_lt(a, c),
        a == b || entry_lt(a, b) || entry_lt(b, a),
{
    match (a, b) {
        (EntryView::Dir(x), EntryView::Dir(y)) => {
            lemma_seq_lt_irreflexive(x);
            lemma_seq_lt_total(x, y);
            if let EntryView::Dir(z) = c {
                if seq_lt(x, y) && seq_lt(y, z) {
                    lemma_seq_lt_transitive(x, y, z);
                }
            }
        },
        (EntryView::File(x), EntryView::File(y)) => {
            lemma_seq_lt_irreflexive(x);
            lemma_seq_lt_total(x, y);
            if let EntryView::File(z) = c {
                if seq_lt(x, y) && seq_lt(y, z) {
                    lemma_seq_lt_transitive(x, y, z);
                }
            }
        },
        (EntryView::Dir(x), EntryView::File(_)) => {
            lemma_seq_lt_irreflexive(x);
        },
        (EntryView::File(x), EntryView::Dir(_)) => {
            lemma_seq_lt_irreflexive(x);
        },
    }
}

/// A strictly sorted sequence holds no entry twice.
pub proof fn lemma_sorted_no_duplicates(s: Seq<EntryView>)
    requires
        strictly_sorted(s),
    ensures
        s.no_duplicates(),
{
    assert forall|i: int, j: int| 0 <= i < s.len() && 0 <= j < s.len() && i != j implies s[i]
        != s[j] by {
        lemma_entry_order(s[i], s[j], s[j]);
        if i < j {
            assert(entry_lt(s[i], s[j]));
        } else {
            assert(entry_lt(s[j], s[i]));
        }
    }
}

/// Two strictly sorted sequences that hold the same entries are the same
/// sequence.
pub proof fn lemma_sorted_unique(s: Seq<EntryView>, t: Seq<EntryView>)
    requires
        strictly_sorted(s),
        strictly_sorted(t),
        s.to_set() == t.to_set(),
    ensures
        s == t,
    decreases s.len(),
{
    if s.len() == 0 {
        if t.len() > 0 {
            assert(t.to_set().contains(t[0]));
            assert(s.to_set().contains(t[0]));
        }
        assert(s =~= t);
    } else if t.len() == 0 {
        assert(s.to_set().contains(s[0]));
        assert(t.to_set().contains(s[0]));
    } else {
        // The first entries agree: each is the least of the common set.
        assert(s.to_set().contains(s[0]));
        assert(t.to_set().contains(s[0]));
        let k = choose|k: int| 0 <= k < t.len() && t[k] == s[0];
        assert(t.to_set().contains(t[0]));
        assert(s.to_set().contains(t[0]));
        let m = choose|m: int| 0 <= m < s.len() && s[m] == t[0];
        lemma_entry_order(s[0], t[0], s[0]);
        if k > 0 {
            assert(entry_lt(t[0], t[k]));
            if m > 0 {
                assert(entry_lt(s[0], s[m]));
            }
        }
        assert(s[0] == t[0]);
        let s1 = s.drop_first();
        let t1 = t.drop_first();
        assert(strictly_sorted(s1)) by {
            assert forall|i: int, j: int| 0 <= i < j < s1.len() implies entry_lt(
                #[trigger] s1[i],
                #[trigger] s1[j],
            ) by {
                assert(entry_lt(s[i + 1], s[j + 1]));
            }
        }
        assert(strictly_sorted(t1)) by {
            assert forall|i: int, j: int| 0 <= i < j < t1.len() implies entry_lt(
                #[trigger] t1[i],
                #[trigger] t1[j],
            ) by {
                assert(entry_lt(t[i + 1], t[j + 1]));
            }
        }
        assert(s1.to_set() =~= t1.to_set()) by {
            assert forall|e: EntryView| s1.to_set().contains(e) implies t1.to_set().contains(
                e,
            ) by {
                let i = choose|i: int| 0 <= i < s1.len() && s1[i] == e;
                assert(s[i + 1] == e);
                assert(entry_lt(s[0], s[i + 1]));
                lemma_entry_order(s[0], e, e);
                assert(s.to_set().contains(e));
                assert(t.to_set().contains(e));
                let j = choose|j: int| 0 <= j < t.len() && t[j] == e;
                assert(j != 0);
                assert(t1[j - 1] == e);
            }
            assert forall|e: EntryView| t1.to_set().contains(e) implies s1.to_set().contains(
                e,
            ) by {
                let i = choose|i: int| 0 <= i < t1.len() && t1[i] == e;
                assert(t[i + 1] == e);
                assert(entry_lt(t[0], t[i + 1]));
                lemma_entry_order(t[0], e, e);
                assert(t.to_set().contains(e));
                assert(s.to_set().contains(e));
                let j = choose|j: int| 0 <= j < s.len() && s[j] == e;
                assert(j != 0);
                assert(s1[j - 1] == e);
            }
        }
        lemma_sorted_unique(s1, t1);
        assert(s =~= seq![s[0]] + s1);
        assert(t =~= seq![t[0]] + t1);
    }
}

impl DirEntry {
    /// Whether this entry comes before `other`.
    pub fn precedes(&self, other: &DirEntry) -> (r: bool)
        ensures
            r == entry_lt(self@, other@),
    {
        match (self, other) {
            (DirEntry::Dir(x), DirEntry::Dir(y)) => str_lt(x.as_str(), y.as_str()),
            (DirEntry::Dir(_), DirEntry::File(_)) => true,
            (DirEntry::File(_), DirEntry::Dir(_)) => false,
            (DirEntry::File(x), DirEntry::File(y)) => str_lt(x.as_str(), y.as_str()),
        }
    }
}

/// Puts `entry` at its place in a sorted list, unless the list holds it
/// already.
pub fn insert_sorted(list: &mut Vec<DirEntry>, entry: DirEntry)
    requires
        strictly_sorted(entry_views(old(list)@)),
    ensures
        strictly_sorted(entry_views(final(list)@)),
        entry_views(final(list)@).to_set() == entry_views(old(list)@).to_set().insert(entry@),
{
    let ghost before = entry_views(list@);
    let mut k: usize = 0;
    while k < list.len() && list[k].precedes(&entry)
        invariant
            k <= list@.len(),
            entry_views(list@) == before,
            strictly_sorted(before),
            forall|i: int| 0 <= i < k ==> entry_lt(#[trigger] before[i], entry@),
        decreases list@.len() - k,
    {
        k = k + 1;
    }
    assert forall|j: int| k <= j < before.len() && before[k as int] != entry@ implies entry_lt(
        entry@,
        #[trigger] before[j],
    ) by {
        lemma_entry_order(before[k as int], entry@, before[j]);
        lemma_entry_order(entry@, before[k as int], before[j]);
        if j > k {
            assert(entry_lt(before[k as int], before[j]));
        }
    }
    if k < list.len() && !entry.precedes(&list[k]) {
        proof {
            lemma_entry_order(before[k as int], entry@, entry@);
            assert(before[k as int] == entry@);
            assert(before.to_set().contains(before[k as int]));
            assert(before.to_set().insert(entry@) =~= before.to_set());
        }
    } else {
        list.insert(k, entry);
        proof {
            let after = entry_views(list@);
            assert(after =~= before.insert(k as int, entry@));
            if k < before.len() {
                lemma_entry_order(before[k as int], entry@, entry@);
                assert(before[k as int] != entry@);
            }
            assert forall|i: int, j: int| 0 <= i < j < after.len() implies entry_lt(
                #[trigger] after[i],
                #[trigger] after[j],
            ) by {
                if j < k {
                    assert(entry_lt(before[i], before[j]));
                } else if j == k {
                    assert(entry_lt(before[i], entry@));
                } else if i < k {
                    assert(entry_lt(before[i], before[j - 1]));
                } else if i == k {
                    assert(entry_lt(entry@, before[j - 1]));
                } else {
                    assert(entry_lt(before[i - 1], before[j - 1]));
                }
            }
            assert(after.to_set() =~= before.to_set().insert(entry@)) by {
                let grown = before.to_set().insert(entry@);
                assert forall|e: EntryView| after.to_set().contains(e) implies grown.contains(
                    e,
                ) by {
                    let i = choose|i: int| 0 <= i < after.len() && after[i] == e;
                    if i < k {
                        assert(before[i] == e);
                    } else if i > k {
                        assert(before[i - 1] == e);
                    }
                }
                assert forall|e: EntryView| grown.contains(e) implies after.to_set().contains(
                    e,
                ) by {
                    if e == entry@ {
                        assert(after[k as int] == e);
                    } else {
                        let i = choose|i: int| 0 <= i < before.len() && before[i] == e;
                        if i < k {
                            assert(after[i] == e);
                        } else {
                            assert(after[i + 1] == e);
                        }
                    }
                }
            }
        }
    }
}

} // verus!
