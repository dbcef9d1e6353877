//! The staging index: a sorted list of entries in a framed binary file.
//! All numbers are stored in network byte order.

pub mod entry;
pub mod fields;
pub mod file;

use crate::bytes::bytes_eq;
use crate::bytes::has_prefix;
use crate::bytes::lemma_lex_irreflexive;
use crate::bytes::lemma_lex_total;
use crate::bytes::lemma_lex_transitive;
use crate::bytes::lex_less;
use crate::bytes::lex_lt;
use crate::bytes::starts_with;
use crate::bytes::texts_view;
use crate::index::entry::recorded_length;
use crate::index::entry::EntryView;
use crate::index::entry::GitIndexEntry;
use crate::index::fields::stage_number;
use crate::index::fields::GitIndexFlags;
use crate::index::fields::GitIndexHeader;
use crate::index::fields::GitIndexVersion;
use vstd::prelude::*;

verus! {

/// The name of the index file in the repository directory.
pub const DEFAULT_INDEX_NAME: &'static str = "index";

/// The index: its header and its entries.
#[derive(Debug, Clone, PartialEq, Eq)]
pub struct GitIndex {
    pub header: GitIndexHeader,
    pub entries: Vec<GitIndexEntry>,
}

/// The mathematical value of an index.
pub struct IndexView {
    pub header: GitIndexHeader,
    pub entries: Seq<EntryView>,
}

/// The values of a list of entries.
pub open spec fn entries_view(entries: Seq<GitIndexEntry>) -> Seq<EntryView> {
    Seq::new(entries.len(), |i: int| entries[i]@)
}

impl View for GitIndex {
    type V = IndexView;

    open spec fn view(&self) -> IndexView {
        IndexView { header: self.header, entries: entries_view(self.entries@) }
    }
}

/// The entry `e` comes before the key `(path, stage)`: its path comes
/// first, or the paths are equal and its stage is lower.
pub open spec fn before_key(e: EntryView, path: Seq<u8>, stage: int) -> bool {
    lex_lt(e.path_name, path) || (e.path_name == path && stage_number(e.flags.stage) < stage)
}

/// The entry `e` has the key `(path, stage)`.
pub open spec fn at_key(e: EntryView, path: Seq<u8>, stage: int) -> bool {
    e.path_name == path && stage_number(e.flags.stage) == stage
}

/// The order of entries: by path, then by stage.
pub open spec fn entry_lt(a: EntryView, b: EntryView) -> bool {
    before_key(a, b.path_name, stage_number(b.flags.stage))
}

/// The entries stand in strictly rising order.
pub open spec fn sorted(es: Seq<EntryView>) -> bool {
    forall|i: int, j: int| 0 <= i < j < es.len() ==> entry_lt(#[trigger] es[i], #[trigger] es[j])
}

/// The number of entries that come before the key `(path, stage)`: in a
/// sorted list, the place of that key.
pub open spec fn rank(es: Seq<EntryView>, path: Seq<u8>, stage: int) -> int
    decreases es.len(),
{
    if es.len() == 0 {
        0
    } else {
        rank(es.drop_last(), path, stage) + (if before_key(es.last(), path, stage) {
            1int
        } else {
            0
        })
    }
}

/// `es` with `e` put in: in place of the entry with its key where there is
/// one, else at the place of its key.
pub open spec fn with_entry(es: Seq<EntryView>, e: EntryView) -> Seq<EntryView> {
    let at = rank(es, e.path_name, stage_number(e.flags.stage));
    if at < es.len() && at_key(es[at], e.path_name, stage_number(e.flags.stage)) {
        es.update(at, e)
    } else {
        es.insert(at, e)
    }
}

/// The path lies under the directory `prefix`: it is that path, or goes on
/// after it with a `/`. Every path lies under the empty prefix.
pub open spec fn under(path: Seq<u8>, prefix: Seq<u8>) -> bool {
    prefix.len() == 0 || path == prefix || starts_with(path, prefix + seq![0x2fu8])
}

/// The place of the key is where the entries before it end.
pub proof fn lemma_rank_is_place(es: Seq<EntryView>, path: Seq<u8>, stage: int, at: int)
    requires
        0 <= at <= es.len(),
        forall|j: int| 0 <= j < at ==> before_key(#[trigger] es[j], path, stage),
        forall|j: int| at <= j < es.len() ==> !before_key(#[trigger] es[j], path, stage),
    ensures
        rank(es, path, stage) == at,
    decreases es.len(),
{
    if es.len() > 0 {
        let front = es.drop_last();
        if at == es.len() {
            lemma_rank_is_place(front, path, stage, at - 1);
        } else {
            lemma_rank_is_place(front, path, stage, at);
        }
    }
}

/// The order of entries is a strict total order on keys.
pub proof fn lemma_entry_order(a: EntryView, b: EntryView, c: EntryView)
    ensures
        !entry_lt(a, a),
        entry_lt(a, b) && entry_lt(b, c) ==> entry_lt(a, c),
        entry_lt(a, b) || entry_lt(b, a) || at_key(a, b.path_name, stage_number(b.flags.stage)),
{
    lemma_lex_irreflexive(a.path_name);
    lemma_lex_total(a.path_name, b.path_name);
    if entry_lt(a, b) && entry_lt(b, c) {
        if lex_lt(a.path_name, b.path_name) && lex_lt(b.path_name, c.path_name) {
            lemma_lex_transitive(a.path_name, b.path_name, c.path_name);
        }
    }
}

/// In a sorted list the entries before the place of a key come before the
/// key, and those from there on do not.
pub proof fn lemma_rank_splits(es: Seq<EntryView>, path: Seq<u8>, stage: int)
    requires
        sorted(es),
    ensures
        0 <= rank(es, path, stage) <= es.len(),
        forall|j: int| 0 <= j < rank(es, path, stage) ==> before_key(#[trigger] es[j], path, stage),
        forall|j: int|
            rank(es, path, stage) <= j < es.len() ==> !before_key(#[trigger] es[j], path, stage),
    decreases es.len(),
{
    if es.len() > 0 {
        let front = es.drop_last();
        let last = es.last();
        assert(sorted(front)) by {
            assert forall|i: int, j: int| 0 <= i < j < front.len() implies entry_lt(
                #[trigger] front[i],
                #[trigger] front[j],
            ) by {
                assert(front[i] == es[i] && front[j] == es[j]);
            }
        }
        lemma_rank_splits(front, path, stage);
        let r = rank(front, path, stage);
        if before_key(last, path, stage) {
            assert forall|j: int| 0 <= j < front.len() implies before_key(
                #[trigger] es[j],
                path,
                stage,
            ) by {
                assert(entry_lt(es[j], es[es.len() - 1]));
                lemma_lex_total(es[j].path_name, last.path_name);
                if lex_lt(es[j].path_name, last.path_name) && lex_lt(last.path_name, path) {
                    lemma_lex_transitive(es[j].path_name, last.path_name, path);
                }
            }
            if r < front.len() {
                assert(!before_key(front[r], path, stage));
                assert(front[r] == es[r]);
            }
            assert(r == front.len());
        } else {
            assert forall|j: int| 0 <= j < r implies before_key(#[trigger] es[j], path, stage) by {
                assert(es[j] == front[j]);
            }
            assert forall|j: int| r <= j < es.len() implies !before_key(
                #[trigger] es[j],
                path,
                stage,
            ) by {
                if j < front.len() {
                    assert(es[j] == front[j]);
                }
            }
        }
    }
}

/// Putting an entry into a sorted list leaves the list sorted, with the
/// entry in it and every entry of another key kept.
pub proof fn lemma_with_entry_sorted(es: Seq<EntryView>, e: EntryView)
    requires
        sorted(es),
    ensures
        sorted(with_entry(es, e)),
        with_entry(es, e).contains(e),
        forall|k: int|
            0 <= k < es.len() && !at_key(
                #[trigger] es[k],
                e.path_name,
                stage_number(e.flags.stage),
            ) ==> with_entry(es, e).contains(es[k]),
{
    let path = e.path_name;
    let stage = stage_number(e.flags.stage);
    let at = rank(es, path, stage);
    let out = with_entry(es, e);
    lemma_rank_splits(es, path, stage);
    lemma_lex_irreflexive(path);
    if at < es.len() && at_key(es[at], path, stage) {
        assert(out[at] == e);
        assert forall|i: int, j: int| 0 <= i < j < out.len() implies entry_lt(
            #[trigger] out[i],
            #[trigger] out[j],
        ) by {
            assert(entry_lt(es[i], es[j]));
        }
        assert forall|k: int|
            0 <= k < es.len() && !at_key(#[trigger] es[k], path, stage) implies out.contains(
            es[k],
        ) by {
            assert(out[k] == es[k]);
        }
    } else {
        assert(out[at] == e);
        assert forall|i: int, j: int| 0 <= i < j < out.len() implies entry_lt(
            #[trigger] out[i],
            #[trigger] out[j],
        ) by {
            let a = if i < at {
                es[i]
            } else if i == at {
                e
            } else {
                es[i - 1]
            };
            let b = if j < at {
                es[j]
            } else if j == at {
                e
            } else {
                es[j - 1]
            };
            assert(out[i] == a && out[j] == b);
            if j == at {
                assert(before_key(es[i], path, stage));
            } else if i == at {
                assert(!before_key(es[j - 1], path, stage));
                lemma_lex_total(es[j - 1].path_name, path);
                if j - 1 == at {
                    assert(!at_key(es[at], path, stage));
                } else {
                    assert(entry_lt(es[at], es[j - 1]));
                    assert(!before_key(es[at], path, stage));
                    lemma_lex_total(es[at].path_name, path);
                    if lex_lt(path, es[at].path_name) && lex_lt(
                        es[at].path_name,
                        es[j - 1].path_name,
                    ) {
                        lemma_lex_transitive(path, es[at].path_name, es[j - 1].path_name);
                    }
                }
            } else if i < at && j > at {
                assert(entry_lt(es[i], es[j - 1]));
            } else if i < at {
                assert(entry_lt(es[i], es[j]));
            } else {
                assert(entry_lt(es[i - 1], es[j - 1]));
            }
        }
        assert forall|k: int|
            0 <= k < es.len() && !at_key(#[trigger] es[k], path, stage) implies out.contains(
            es[k],
        ) by {
            if k < at {
                assert(out[k] == es[k]);
            } else {
                assert(out[k + 1] == es[k]);
            }
        }
    }
}

/// Taking an entry out of a sorted list leaves the list sorted.
pub proof fn lemma_remove_sorted(es: Seq<EntryView>, at: int)
    requires
        sorted(es),
        0 <= at < es.len(),
    ensures
        sorted(es.remove(at)),
{
    let out = es.remove(at);
    assert forall|i: int, j: int| 0 <= i < j < out.len() implies entry_lt(
        #[trigger] out[i],
        #[trigger] out[j],
    ) by {
        let a = if i < at {
            i
        } else {
            i + 1
        };
        let b = if j < at {
            j
        } else {
            j + 1
        };
        assert(out[i] == es[a] && out[j] == es[b]);
        assert(entry_lt(es[a], es[b]));
    }
}

impl Default for GitIndex {
    fn default() -> (index: GitIndex)
        ensures
            index.wf(),
            index@.entries.len() == 0,
            index.header.version == GitIndexVersion::V2,
    {
        GitIndex {
            header: GitIndexHeader { version: GitIndexVersion::V2, num_entries: 0 },
            entries: Vec::new(),
        }
    }
}

impl GitIndex {
    /// The header counts the entries, and the entries are sorted by path
    /// and stage with no key twice.
    pub open spec fn wf(&self) -> bool {
        &&& self.header.num_entries == self.entries@.len()
        &&& sorted(self@.entries)
    }

    /// A new, empty index.
    pub fn new() -> (index: GitIndex)
        ensures
            index.wf(),
            index@.entries.len() == 0,
            index.header.version == GitIndexVersion::V2,
    {
        GitIndex::default()
    }

    /// Are the entries sorted by path and stage, no key twice?
    pub fn is_sorted(&self) -> (r: bool)
        ensures
            r == sorted(self@.entries),
    {
        let n = self.entries.len();
        if n < 2 {
            return true;
        }
        let mut i: usize = 1;
        while i < n
            invariant
                1 <= i <= n,
                n == self.entries@.len(),
                forall|k: int| 0 <= k < i - 1 ==> entry_lt(
                    #[trigger] self@.entries[k],
                    self@.entries[k + 1],
                ),
            decreases n - i,
        {
            let a = &self.entries[i - 1];
            let b = &self.entries[i];
            if !entry_before(a, b.path_name.as_slice(), b.flags.stage.number()) {
                assert(!entry_lt(self@.entries[i - 1], self@.entries[i as int]));
                return false;
            }
            i += 1;
        }
        proof {
            lemma_neighbours_sorted(self@.entries);
        }
        true
    }

    /// The place of the key `(path, stage)` among the entries, and whether
    /// an entry with that key stands there.
    pub fn search(&self, path: &[u8], stage: u8) -> (r: (bool, usize))
        requires
            sorted(self@.entries),
        ensures
            r.1 == rank(self@.entries, path@, stage as int),
            r.1 <= self.entries@.len(),
            r.0 == (r.1 < self.entries@.len() && at_key(self@.entries[r.1 as int], path@, stage as int)),
    {
        let mut lo: usize = 0;
        let mut hi: usize = self.entries.len();
        while lo < hi
            invariant
                lo <= hi <= self.entries@.len(),
                forall|j: int| 0 <= j < lo ==> before_key(#[trigger] self@.entries[j], path@, stage as int),
                forall|j: int|
                    hi <= j < self.entries@.len() ==> !before_key(
                        #[trigger] self@.entries[j],
                        path@,
                        stage as int,
                    ),
                sorted(self@.entries),
            decreases hi - lo,
        {
            let mid = lo + (hi - lo) / 2;
            let ghost es = self@.entries;
            if entry_before(&self.entries[mid], path, stage) {
                proof {
                    assert forall|j: int| 0 <= j < mid + 1 implies before_key(
                        #[trigger] es[j],
                        path@,
                        stage as int,
                    ) by {
                        if j < mid {
                            assert(entry_lt(es[j], es[mid as int]));
                            lemma_lex_total(es[j].path_name, es[mid as int].path_name);
                            if lex_lt(es[j].path_name, es[mid as int].path_name) && lex_lt(
                                es[mid as int].path_name,
                                path@,
                            ) {
                                lemma_lex_transitive(es[j].path_name, es[mid as int].path_name, path@);
                            }
                        }
                    }
                }
                lo = mid + 1;
            } else {
                proof {
                    assert forall|j: int| mid <= j < es.len() implies !before_key(
                        #[trigger] es[j],
                        path@,
                        stage as int,
                    ) by {
                        if j > mid {
                            assert(entry_lt(es[mid as int], es[j]));
                            if before_key(es[j], path@, stage as int) {
                                lemma_lex_total(es[mid as int].path_name, es[j].path_name);
                                if lex_lt(es[mid as int].path_name, es[j].path_name) && lex_lt(
                                    es[j].path_name,
                                    path@,
                                ) {
                                    lemma_lex_transitive(
                                        es[mid as int].path_name,
                                        es[j].path_name,
                                        path@,
                                    );
                                }
                            }
                        }
                    }
                }
                hi = mid;
            }
        }
        proof {
            lemma_rank_is_place(self@.entries, path@, stage as int, lo as int);
        }
        if lo < self.entries.len() {
            let e = &self.entries[lo];
            let found = bytes_eq(e.path_name.as_slice(), path) && e.flags.stage.number() == stage;
            (found, lo)
        } else {
            (false, lo)
        }
    }

    /// Puts the entry into the index: in place of the entry with its path
    /// and stage where there is one, else where its key belongs.
    pub fn add(&mut self, index_entry: GitIndexEntry)
        requires
            old(self).wf(),
            old(self).entries@.len() < u32::MAX,
        ensures
            final(self).wf(),
            final(self)@.entries == with_entry(old(self)@.entries, index_entry@),
            final(self).header.version == old(self).header.version,
    {
        let ghost before = self@.entries;
        let ghost e = index_entry@;
        let (found, at) = self.search(index_entry.path_name.as_slice(), index_entry.flags.stage.number());
        if found {
            self.entries[at] = index_entry;
            assert(self@.entries =~= before.update(at as int, e));
        } else {
            self.entries.insert(at, index_entry);
            self.header.num_entries = self.header.num_entries + 1;
            assert(self@.entries =~= before.insert(at as int, e));
        }
        proof {
            lemma_with_entry_sorted(before, e);
        }
    }

    /// The entries in order.
    pub fn iter_entries(&self) -> (entries: &Vec<GitIndexEntry>)
        ensures
            entries@ == self.entries@,
    {
        &self.entries
    }

    /// The entries from `start` up to `end`.
    pub fn iter_entries_range(&self, start: usize, end: usize) -> (entries: &[GitIndexEntry])
        requires
            start <= end <= self.entries@.len(),
        ensures
            entries@ == self.entries@.subrange(start as int, end as int),
    {
        let all = self.entries.as_slice();
        &all[start..end]
    }

    /// The first entry with the given path, the one of the lowest stage,
    /// and its place; `None` where no entry has that path.
    pub fn entry_by_path(&self, path: &[u8]) -> (r: Option<(usize, &GitIndexEntry)>)
        requires
            sorted(self@.entries),
        ensures
            match r {
                Some((at, e)) => {
                    &&& at == rank(self@.entries, path@, 0)
                    &&& at < self.entries@.len()
                    &&& *e == self.entries@[at as int]
                    &&& e@.path_name == path@
                },
                None => forall|j: int|
                    0 <= j < self.entries@.len() ==> (#[trigger] self@.entries[j]).path_name != path@,
            },
    {
        let (_found, at) = self.search(path, 0);
        proof {
            lemma_rank_splits(self@.entries, path@, 0);
        }
        if at < self.entries.len() && bytes_eq(self.entries[at].path_name.as_slice(), path) {
            Some((at, &self.entries[at]))
        } else {
            proof {
                let es = self@.entries;
                assert forall|j: int| 0 <= j < es.len() implies (#[trigger] es[j]).path_name
                    != path@ by {
                    if es[j].path_name == path@ {
                        lemma_lex_irreflexive(path@);
                        if j < at {
                            assert(before_key(es[j], path@, 0));
                        } else if j > at {
                            assert(entry_lt(es[at as int], es[j]));
                            assert(!before_key(es[at as int], path@, 0));
                            lemma_lex_total(es[at as int].path_name, path@);
                        }
                    }
                }
            }
            None
        }
    }

    /// Takes the entry at `index` out of the index.
    pub fn remove_entry_at(&mut self, index: usize) -> (removed: GitIndexEntry)
        requires
            old(self).wf(),
            index < old(self).entries@.len(),
        ensures
            final(self).wf(),
            final(self)@.entries == old(self)@.entries.remove(index as int),
            removed == old(self).entries@[index as int],
            final(self).header.version == old(self).header.version,
    {
        let ghost before = self@.entries;
        self.header.num_entries = self.header.num_entries - 1;
        let removed = self.entries.remove(index);
        proof {
            assert(self@.entries =~= before.remove(index as int));
            lemma_remove_sorted(before, index as int);
        }
        removed
    }

    /// Gives the first entry with the path `current_name` the path
    /// `new_name` and puts it where it then belongs. Without such an entry
    /// nothing changes.
    pub fn rename_entry_by_path(&mut self, current_name: &[u8], new_name: &[u8])
        requires
            old(self).wf(),
        ensures
            final(self).wf(),
            final(self).header.version == old(self).header.version,
            final(self)@.entries == renamed(old(self)@.entries, current_name@, new_name@),
    {
        let found = match self.entry_by_path(current_name) {
            Some((at, _)) => Some(at),
            None => None,
        };
        let ghost before = self@.entries;
        if let Some(at) = found {
            assert(before[at as int].path_name == current_name@);
            let entry = self.remove_entry_at(at);
            assert(entry@ == before[at as int]);
            let new_entry = entry.with_updated_name(new_name);
            assert(new_entry@ == with_path(before[at as int], new_name@));
            assert(self@.entries.len() == self.entries@.len());
            assert(before.remove(at as int).len() == before.len() - 1);
            self.add(new_entry);
        } else {
            proof {
                lemma_rank_splits(before, current_name@, 0);
            }
        }
    }

    /// Keeps the entries that the predicate accepts and takes the others
    /// out. Returns the paths of the entries taken out, in order.
    pub fn filter_entries<F: Fn(&GitIndexEntry) -> bool>(&mut self, predicate: F) -> (removed: Vec<
        Vec<u8>,
    >)
        requires
            old(self).wf(),
            forall|e: &GitIndexEntry| predicate.requires((e,)),
        ensures
            final(self).wf(),
            final(self).header.version == old(self).header.version,
            exists|keep: Seq<bool>|
                {
                    &&& keep.len() == old(self).entries@.len()
                    &&& forall|i: int|
                        0 <= i < keep.len() ==> predicate.ensures(
                            (&old(self).entries@[i],),
                            #[trigger] keep[i],
                        )
                    &&& final(self)@.entries == kept(old(self)@.entries, keep)
                    &&& texts_view(removed@) == dropped_paths(old(self)@.entries, keep)
                },
    {
        let ghost es = self@.entries;
        let ghost mut keep: Seq<bool> = Seq::empty();
        let mut retained: Vec<GitIndexEntry> = Vec::new();
        let mut removed: Vec<Vec<u8>> = Vec::new();
        let n = self.entries.len();
        let mut i: usize = 0;
        proof {
            assert(es.take(0) =~= Seq::<EntryView>::empty());
            assert(entries_view(retained@) =~= Seq::<EntryView>::empty());
            assert(texts_view(removed@) =~= Seq::<Seq<u8>>::empty());
        }
        while i < n
            invariant
                i <= n,
                n == self.entries@.len(),
                n <= u32::MAX,
                es == self@.entries,
                sorted(es),
                forall|e: &GitIndexEntry| predicate.requires((e,)),
                keep.len() == i,
                forall|k: int|
                    0 <= k < i ==> predicate.ensures((&self.entries@[k],), #[trigger] keep[k]),
                entries_view(retained@) == kept(es.take(i as int), keep),
                texts_view(removed@) == dropped_paths(es.take(i as int), keep),
                retained@.len() <= i,
                sorted(entries_view(retained@)),
                forall|k: int, j: int|
                    0 <= k < retained@.len() && i <= j < n ==> entry_lt(
                        #[trigger] entries_view(retained@)[k],
                        #[trigger] es[j],
                    ),
            decreases n - i,
        {
            let entry = &self.entries[i];
            let result = predicate(entry);
            let ghost kept_so_far = entries_view(retained@);
            let ghost dropped_so_far = texts_view(removed@);
            let ghost keep_so_far = keep;
            proof {
                keep = keep.push(result);
                assert(es.take(i + 1).drop_last() =~= es.take(i as int));
                assert(keep.drop_last() =~= keep_so_far);
                assert(es.take(i + 1).last() == entry@);
            }
            if result {
                retained.push(entry.duplicate());
                proof {
                    let now = entries_view(retained@);
                    assert(now =~= kept_so_far.push(entry@));
                    assert forall|a: int, b: int| 0 <= a < b < now.len() implies entry_lt(
                        #[trigger] now[a],
                        #[trigger] now[b],
                    ) by {
                        if b == now.len() - 1 {
                            assert(entry_lt(kept_so_far[a], es[i as int]));
                        } else {
                            assert(entry_lt(kept_so_far[a], kept_so_far[b]));
                        }
                    }
                    assert forall|k: int, j: int|
                        0 <= k < now.len() && i + 1 <= j < n implies entry_lt(
                        #[trigger] now[k],
                        #[trigger] es[j],
                    ) by {
                        if k == now.len() - 1 {
                            assert(entry_lt(es[i as int], es[j]));
                        } else {
                            assert(entry_lt(kept_so_far[k], es[j]));
                        }
                    }
                }
            } else {
                removed.push(entry.path_name.clone());
                proof {
                    assert(texts_view(removed@) =~= dropped_so_far.push(entry@.path_name));
                }
            }
            i += 1;
        }
        proof {
            assert(es.take(n as int) =~= es);
        }
        self.header.num_entries = retained.len() as u32;
        self.entries = retained;
        removed
    }

    /// The entries whose path lies under the directory `prefix`, in order.
    pub fn entry_range_by_path(&self, prefix: &[u8]) -> (r: Vec<&GitIndexEntry>)
        ensures
            refs_view(r@) == entries_under(self@.entries, prefix@),
    {
        let mut r: Vec<&GitIndexEntry> = Vec::new();
        let n = self.entries.len();
        let mut i: usize = 0;
        assert(self@.entries.take(0) =~= Seq::<EntryView>::empty());
        assert(refs_view(r@) =~= Seq::<EntryView>::empty());
        while i < n
            invariant
                i <= n,
                n == self.entries@.len(),
                refs_view(r@) == entries_under(self@.entries.take(i as int), prefix@),
            decreases n - i,
        {
            let e = &self.entries[i];
            let ghost so_far = refs_view(r@);
            proof {
                assert(self@.entries.take(i + 1).drop_last() =~= self@.entries.take(i as int));
                assert(self@.entries.take(i + 1).last() == e@);
            }
            if path_under(e.path_name.as_slice(), prefix) {
                r.push(e);
                assert(refs_view(r@) =~= so_far.push(e@));
            }
            i += 1;
        }
        assert(self@.entries.take(n as int) =~= self@.entries);
        r
    }
}

/// The entries of `es` that `keep` marks, in order.
pub open spec fn kept(es: Seq<EntryView>, keep: Seq<bool>) -> Seq<EntryView>
    decreases es.len(),
{
    if es.len() == 0 || keep.len() != es.len() {
        Seq::empty()
    } else if keep.last() {
        kept(es.drop_last(), keep.drop_last()).push(es.last())
    } else {
        kept(es.drop_last(), keep.drop_last())
    }
}

/// The paths of the entries of `es` that `keep` does not mark, in order.
pub open spec fn dropped_paths(es: Seq<EntryView>, keep: Seq<bool>) -> Seq<Seq<u8>>
    decreases es.len(),
{
    if es.len() == 0 || keep.len() != es.len() {
        Seq::empty()
    } else if keep.last() {
        dropped_paths(es.drop_last(), keep.drop_last())
    } else {
        dropped_paths(es.drop_last(), keep.drop_last()).push(es.last().path_name)
    }
}

/// The values of a list of borrowed entries.
pub open spec fn refs_view(entries: Seq<&GitIndexEntry>) -> Seq<EntryView> {
    Seq::new(entries.len(), |i: int| entries[i]@)
}

/// The entries of `es` whose path lies under `prefix`, in order.
pub open spec fn entries_under(es: Seq<EntryView>, prefix: Seq<u8>) -> Seq<EntryView>
    decreases es.len(),
{
    if es.len() == 0 {
        Seq::empty()
    } else if under(es.last().path_name, prefix) {
        entries_under(es.drop_last(), prefix).push(es.last())
    } else {
        entries_under(es.drop_last(), prefix)
    }
}

/// A path under a directory is at least as long as the directory's.
pub proof fn lemma_under_length(es: Seq<EntryView>, prefix: Seq<u8>)
    ensures
        forall|k: int|
            0 <= k < entries_under(es, prefix).len() ==> (#[trigger] entries_under(
                es,
                prefix,
            )[k]).path_name.len() >= prefix.len(),
    decreases es.len(),
{
    if es.len() > 0 {
        lemma_under_length(es.drop_last(), prefix);
    }
}

/// The entry under a new path, with the length of the name recorded anew.
pub open spec fn with_path(e: EntryView, path: Seq<u8>) -> EntryView {
    EntryView {
        path_name: path,
        flags: GitIndexFlags { name_length: recorded_length(path.len() as int) as u16, ..e.flags },
        ..e
    }
}

/// `es` after the first entry with the path `current` was given the path
/// `new_name`; `es` itself where no entry has that path.
pub open spec fn renamed(es: Seq<EntryView>, current: Seq<u8>, new_name: Seq<u8>) -> Seq<
    EntryView,
> {
    let at = rank(es, current, 0);
    if at < es.len() && es[at].path_name == current {
        with_entry(es.remove(at), with_path(es[at], new_name))
    } else {
        es
    }
}

/// A list whose neighbours stand in order is sorted.
pub proof fn lemma_neighbours_sorted(es: Seq<EntryView>)
    requires
        forall|k: int| 0 <= k < es.len() - 1 ==> entry_lt(#[trigger] es[k], es[k + 1]),
    ensures
        sorted(es),
{
    assert forall|i: int, j: int| 0 <= i < j < es.len() implies entry_lt(
        #[trigger] es[i],
        #[trigger] es[j],
    ) by {
        lemma_neighbours_reach(es, i, j);
    }
}

proof fn lemma_neighbours_reach(es: Seq<EntryView>, i: int, j: int)
    requires
        forall|k: int| 0 <= k < es.len() - 1 ==> entry_lt(#[trigger] es[k], es[k + 1]),
        0 <= i < j < es.len(),
    ensures
        entry_lt(es[i], es[j]),
    decreases j - i,
{
    if j == i + 1 {
        assert(entry_lt(es[i], es[i + 1]));
    } else {
        lemma_neighbours_reach(es, i, j - 1);
        assert(entry_lt(es[j - 1], es[j - 1 + 1]));
        lemma_entry_order(es[i], es[j - 1], es[j]);
    }
}

/// Does the entry come before the key `(path, stage)`?
pub fn entry_before(e: &GitIndexEntry, path: &[u8], stage: u8) -> (r: bool)
    ensures
        r == before_key(e@, path@, stage as int),
{
    if lex_less(e.path_name.as_slice(), path) {
        true
    } else {
        bytes_eq(e.path_name.as_slice(), path) && e.flags.stage.number() < stage
    }
}

/// Does the path lie under the directory `prefix`?
pub fn path_under(path: &[u8], prefix: &[u8]) -> (r: bool)
    ensures
        r == under(path@, prefix@),
{
    if prefix.len() == 0 || bytes_eq(path, prefix) {
        return true;
    }
    if path.len() <= prefix.len() {
        assert(!starts_with(path@, prefix@ + seq![0x2fu8]));
        return false;
    }
    let r = has_prefix(path, prefix) && path[prefix.len()] == 0x2f;
    proof {
        let p = prefix@ + seq![0x2fu8];
        if r {
            assert(path@.take(p.len() as int) =~= p);
        } else if starts_with(path@, p) {
            assert(path@.take(p.len() as int)[prefix@.len() as int] == 0x2f);
            assert(path@.take(prefix@.len() as int) =~= p.take(prefix@.len() as int));
            assert(p.take(prefix@.len() as int) =~= prefix@);
        }
    }
    r
}

} // verus!
