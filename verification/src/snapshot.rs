//! From the index to trees: one tree object for each directory.

use crate::bytes::ascii_bytes;
use crate::bytes::before;
use crate::bytes::bytes_eq;
use crate::bytes::copy_range;
use crate::bytes::has_byte;
use crate::bytes::has_prefix;
use crate::bytes::lemma_index_of;
use crate::bytes::split_at_byte;
use crate::bytes::starts_with;
use crate::bytes::to_vec;
use crate::index::entries_view;
use crate::index::entry::EntryView;
use crate::index::entry::GitIndexEntry;
use crate::index::fields::mode_octal;
use crate::object::id::GitObjectId;
use crate::object::raw::object_id_of;
use crate::object::raw::GitObjectRaw;
use crate::object::raw::GitObjectType;
use crate::object::tree::entries_view as rows_view;
use crate::object::tree::tree_text;
use crate::object::tree::GitTreeEntry;
use crate::object::tree::GitTreeEntryType;
use crate::object::tree::GitTreeObject;
use crate::object::tree::TreeEntryView;
use vstd::prelude::*;
use vstd::string::*;

verus! {

/// `040000`, the mode of a directory in a tree
pub open spec fn tree_mode() -> Seq<u8> {
    seq![0x30u8, 0x34u8, 0x30u8, 0x30u8, 0x30u8, 0x30u8]
}

/// The length of the longest path among the entries.
pub open spec fn longest(es: Seq<EntryView>) -> nat
    decreases es.len(),
{
    if es.len() == 0 {
        0
    } else if es.last().path_name.len() > longest(es.drop_last()) {
        es.last().path_name.len()
    } else {
        longest(es.drop_last())
    }
}

/// How much longer than `prefix` a path among the entries can be.
pub open spec fn room(es: Seq<EntryView>, prefix: Seq<u8>) -> nat {
    if prefix.len() <= longest(es) {
        (longest(es) - prefix.len()) as nat
    } else {
        0
    }
}

/// What stands in `path` after the directory prefix.
pub open spec fn below(path: Seq<u8>, prefix: Seq<u8>) -> Seq<u8> {
    path.skip(prefix.len() as int)
}

/// The path lies in a directory under the one with the given prefix.
pub open spec fn in_subdir(path: Seq<u8>, prefix: Seq<u8>) -> bool {
    starts_with(path, prefix) && has_byte(below(path, prefix), 0x2f)
}

/// The path names a file of the directory with the given prefix.
pub open spec fn is_direct(path: Seq<u8>, prefix: Seq<u8>) -> bool {
    starts_with(path, prefix) && !has_byte(below(path, prefix), 0x2f)
}

/// The name of the directory under the prefix in which the path lies.
pub open spec fn child_dir(path: Seq<u8>, prefix: Seq<u8>) -> Seq<u8> {
    before(below(path, prefix), 0x2f)
}

/// The prefix of that directory.
pub open spec fn child_prefix(path: Seq<u8>, prefix: Seq<u8>) -> Seq<u8> {
    prefix + child_dir(path, prefix) + seq![0x2fu8]
}

/// One of the rows has the given name.
pub open spec fn has_row(rows: Seq<TreeEntryView>, name: Seq<u8>) -> bool {
    exists|i: int| 0 <= i < rows.len() && (#[trigger] rows[i]).name == name
}

/// No path is longer than the longest.
pub proof fn lemma_longest(es: Seq<EntryView>, i: int)
    requires
        0 <= i < es.len(),
    ensures
        es[i].path_name.len() <= longest(es),
    decreases es.len(),
{
    if i < es.len() - 1 {
        lemma_longest(es.drop_last(), i);
    }
}

/// Below a path that lies in a subdirectory there is less room.
pub proof fn lemma_child_room(es: Seq<EntryView>, prefix: Seq<u8>, i: int)
    requires
        0 <= i < es.len(),
        in_subdir(es[i].path_name, prefix),
    ensures
        room(es, child_prefix(es[i].path_name, prefix)) < room(es, prefix),
        child_prefix(es[i].path_name, prefix).len() <= es[i].path_name.len(),
        starts_with(es[i].path_name, child_prefix(es[i].path_name, prefix)),
{
    let path = es[i].path_name;
    lemma_longest(es, i);
    lemma_index_of(below(path, prefix), 0x2f);
    let d = child_dir(path, prefix);
    let p = child_prefix(path, prefix);
    assert(path.take(p.len() as int) =~= p) by {
        assert(path.take(prefix.len() as int) == prefix);
        assert forall|k: int| 0 <= k < p.len() implies path[k] == p[k] by {
            if k < prefix.len() {
                assert(path.take(prefix.len() as int)[k] == prefix[k]);
            } else {
                assert(below(path, prefix)[k - prefix.len()] == path[k]);
            }
        }
    }
}

/// The rows of the subdirectories of the directory with the given prefix,
/// as far as the first `upto` entries show them: one row for each
/// directory, where it first appears, with the id of its tree.
pub open spec fn dir_rows(es: Seq<EntryView>, prefix: Seq<u8>, upto: nat) -> Seq<TreeEntryView>
    decreases room(es, prefix), upto,
    via dir_rows_decreases
{
    if upto == 0 || upto > es.len() {
        Seq::empty()
    } else {
        let rows = dir_rows(es, prefix, (upto - 1) as nat);
        let path = es[upto - 1].path_name;
        if in_subdir(path, prefix) && !has_row(rows, child_dir(path, prefix)) {
            rows.push(
                TreeEntryView {
                    mode: tree_mode(),
                    entry_type: GitTreeEntryType::Tree,
                    obj_id: object_id_of(
                        GitObjectType::Tree,
                        tree_text(
                            dir_rows(es, child_prefix(path, prefix), es.len()) + file_rows(
                                es,
                                child_prefix(path, prefix),
                                es.len(),
                            ),
                        ),
                    ),
                    name: child_dir(path, prefix),
                },
            )
        } else {
            rows
        }
    }
}

#[via_fn]
proof fn dir_rows_decreases(es: Seq<EntryView>, prefix: Seq<u8>, upto: nat) {
    if !(upto == 0 || upto > es.len()) {
        let path = es[upto - 1].path_name;
        if in_subdir(path, prefix) {
            lemma_child_room(es, prefix, upto - 1);
        }
    }
}

/// The rows of the files of the directory with the given prefix, as far as
/// the first `upto` entries show them, in the order of the entries.
pub open spec fn file_rows(es: Seq<EntryView>, prefix: Seq<u8>, upto: nat) -> Seq<TreeEntryView>
    decreases upto,
{
    if upto == 0 || upto > es.len() {
        Seq::empty()
    } else {
        let rows = file_rows(es, prefix, (upto - 1) as nat);
        let e = es[upto - 1];
        if is_direct(e.path_name, prefix) {
            rows.push(
                TreeEntryView {
                    mode: mode_octal(e.mode),
                    entry_type: GitTreeEntryType::Blob,
                    obj_id: e.name,
                    name: below(e.path_name, prefix),
                },
            )
        } else {
            rows
        }
    }
}

/// The rows of the tree of the directory with the given prefix: its
/// subdirectories in the order in which they first appear among the
/// entries, then its files in the order of the entries.
pub open spec fn tree_rows(es: Seq<EntryView>, prefix: Seq<u8>) -> Seq<TreeEntryView> {
    dir_rows(es, prefix, es.len()) + file_rows(es, prefix, es.len())
}

/// The id of the tree of the directory with the given prefix.
pub open spec fn tree_id_at(es: Seq<EntryView>, prefix: Seq<u8>) -> Seq<u8> {
    object_id_of(GitObjectType::Tree, tree_text(tree_rows(es, prefix)))
}

/// The payloads of the trees of all directories below the directory with
/// the given prefix, as far as the first `upto` entries show them: for each
/// subdirectory, where it first appears, the trees below it and then its
/// own.
pub open spec fn trees_below(es: Seq<EntryView>, prefix: Seq<u8>, upto: nat) -> Seq<Seq<u8>>
    decreases room(es, prefix), upto,
    via trees_below_decreases
{
    if upto == 0 || upto > es.len() {
        Seq::empty()
    } else {
        let trees = trees_below(es, prefix, (upto - 1) as nat);
        let path = es[upto - 1].path_name;
        if in_subdir(path, prefix) && !has_row(
            dir_rows(es, prefix, (upto - 1) as nat),
            child_dir(path, prefix),
        ) {
            trees + trees_below(es, child_prefix(path, prefix), es.len()).push(
                tree_text(tree_rows(es, child_prefix(path, prefix))),
            )
        } else {
            trees
        }
    }
}

#[via_fn]
proof fn trees_below_decreases(es: Seq<EntryView>, prefix: Seq<u8>, upto: nat) {
    if !(upto == 0 || upto > es.len()) {
        let path = es[upto - 1].path_name;
        if in_subdir(path, prefix) {
            lemma_child_room(es, prefix, upto - 1);
        }
    }
}

/// The payloads of the trees of the directory with the given prefix and of
/// all directories below it: a directory after those below it.
pub open spec fn trees_at(es: Seq<EntryView>, prefix: Seq<u8>) -> Seq<Seq<u8>> {
    trees_below(es, prefix, es.len()).push(tree_text(tree_rows(es, prefix)))
}

/// The payloads of the objects, in their order.
pub open spec fn payloads(objects: Seq<GitObjectRaw>) -> Seq<Seq<u8>> {
    Seq::new(objects.len(), |i: int| objects[i].object.content@)
}

/// The raw objects are trees with their ids.
pub open spec fn all_trees(objects: Seq<GitObjectRaw>) -> bool {
    forall|i: int|
        0 <= i < objects.len() ==> (#[trigger] objects[i]).wf() && objects[i].id.is_valid()
            && objects[i].object.header.obj_type == GitObjectType::Tree
}

fn tree_mode_bytes() -> (k: &'static [u8])
    ensures
        k@ == tree_mode(),
{
    proof {
        reveal_strlit("040000");
    }
    let k = ascii_bytes("040000");
    assert(k@ =~= tree_mode());
    k
}

fn rows_have(rows: &Vec<GitTreeEntry>, name: &[u8]) -> (r: bool)
    ensures
        r == has_row(rows_view(rows@), name@),
{
    let n = rows.len();
    let mut i: usize = 0;
    while i < n
        invariant
            i <= n,
            n == rows@.len(),
            forall|k: int| 0 <= k < i ==> (#[trigger] rows_view(rows@)[k]).name != name@,
        decreases n - i,
    {
        if bytes_eq(rows[i].name.as_slice(), name) {
            assert(rows_view(rows@)[i as int].name == name@);
            return true;
        }
        i += 1;
    }
    false
}

/// Builds the tree of the directory with the given prefix and the trees of
/// all directories below it. Every tree is appended to `out`, a directory
/// after those below it, so that the tree of the directory itself comes
/// last; its id is returned. What was in `out` stays.
pub fn write_index_as_tree_internal(
    entries: &Vec<GitIndexEntry>,
    prefix: &Vec<u8>,
    out: &mut Vec<GitObjectRaw>,
) -> (id: GitObjectId)
    requires
        all_trees(old(out)@),
    ensures
        id@ == tree_id_at(entries_view(entries@), prefix@),
        id.is_valid(),
        all_trees(final(out)@),
        final(out)@.len() > old(out)@.len(),
        final(out)@.subrange(0, old(out)@.len() as int) == old(out)@,
        payloads(final(out)@) == payloads(old(out)@) + trees_at(
            entries_view(entries@),
            prefix@,
        ),
        final(out)@.last().id@ == id@,
        final(out)@.last().object.content@ == tree_text(
            tree_rows(entries_view(entries@), prefix@),
        ),
    decreases room(entries_view(entries@), prefix@),
{
    let ghost es = entries_view(entries@);
    let ghost start = out@;
    let n = entries.len();
    let mut rows: Vec<GitTreeEntry> = Vec::new();
    let mut i: usize = 0;
    assert(rows_view(rows@) =~= dir_rows(es, prefix@, 0));
    assert(payloads(out@) =~= payloads(start) + trees_below(es, prefix@, 0));
    while i < n
        invariant
            i <= n,
            n == entries@.len(),
            es == entries_view(entries@),
            rows_view(rows@) == dir_rows(es, prefix@, i as nat),
            all_trees(out@),
            out@.len() >= start.len(),
            out@.subrange(0, start.len() as int) == start,
            payloads(out@) == payloads(start) + trees_below(es, prefix@, i as nat),
        decreases n - i,
    {
        let path = entries[i].path_name.as_slice();
        let ghost so_far = rows_view(rows@);
        assert(es[i as int].path_name == path@);
        if has_prefix(path, prefix.as_slice()) {
            let (end, _next) = split_at_byte(path, prefix.len(), 0x2f);
            if end < path.len() {
                let name = copy_range(path, prefix.len(), end);
                assert(name@ == child_dir(path@, prefix@));
                if !rows_have(&rows, name.as_slice()) {
                    let mut deeper = prefix.clone();
                    deeper.extend_from_slice(name.as_slice());
                    deeper.push(0x2f);
                    assert(deeper@ =~= child_prefix(path@, prefix@));
                    proof {
                        lemma_child_room(es, prefix@, i as int);
                    }
                    let ghost before_call = out@;
                    let obj_id = write_index_as_tree_internal(entries, &deeper, out);
                    proof {
                        assert(out@.subrange(0, start.len() as int) =~= before_call.subrange(
                            0,
                            start.len() as int,
                        ));
                        assert(payloads(out@) =~= payloads(start) + (trees_below(
                            es,
                            prefix@,
                            i as nat,
                        ) + trees_at(es, deeper@)));
                    }
                    rows.push(
                        GitTreeEntry {
                            mode: to_vec(tree_mode_bytes()),
                            entry_type: GitTreeEntryType::Tree,
                            obj_id,
                            name,
                        },
                    );
                    assert(rows_view(rows@) =~= so_far.push(
                        TreeEntryView {
                            mode: tree_mode(),
                            entry_type: GitTreeEntryType::Tree,
                            obj_id: tree_id_at(es, child_prefix(path@, prefix@)),
                            name: child_dir(path@, prefix@),
                        },
                    ));
                }
            }
        }
        i += 1;
    }
    let ghost dirs = rows_view(rows@);
    let mut j: usize = 0;
    assert(dirs + file_rows(es, prefix@, 0) =~= dirs);
    while j < n
        invariant
            j <= n,
            n == entries@.len(),
            es == entries_view(entries@),
            rows_view(rows@) == dirs + file_rows(es, prefix@, j as nat),
        decreases n - j,
    {
        let entry = &entries[j];
        let path = entry.path_name.as_slice();
        let ghost so_far = rows_view(rows@);
        assert(es[j as int] == entry@);
        if has_prefix(path, prefix.as_slice()) {
            let (end, _next) = split_at_byte(path, prefix.len(), 0x2f);
            if end == path.len() {
                let name = copy_range(path, prefix.len(), path.len());
                assert(name@ =~= below(path@, prefix@));
                rows.push(
                    GitTreeEntry {
                        mode: to_vec(entry.mode.octal()),
                        entry_type: GitTreeEntryType::Blob,
                        obj_id: entry.name.duplicate(),
                        name,
                    },
                );
                proof {
                    let row = TreeEntryView {
                        mode: mode_octal(entry@.mode),
                        entry_type: GitTreeEntryType::Blob,
                        obj_id: entry@.name,
                        name: below(path@, prefix@),
                    };
                    let files = file_rows(es, prefix@, j as nat);
                    assert(rows_view(rows@) =~= so_far.push(row));
                    assert(file_rows(es, prefix@, (j + 1) as nat) == files.push(row));
                    assert(so_far.push(row) =~= dirs + files.push(row));
                }
            }
        }
        j += 1;
    }
    let tree = GitTreeObject { entries: rows };
    let raw = GitObjectRaw::build(GitObjectType::Tree, tree.to_bytes());
    let id = raw.id.duplicate();
    let ghost before_push = out@;
    out.push(raw);
    proof {
        assert(out@.subrange(0, start.len() as int) =~= before_push.subrange(0, start.len() as int));
        assert(payloads(out@) =~= payloads(before_push).push(raw.object.content@));
        assert(payloads(out@) =~= payloads(start) + trees_at(es, prefix@));
    }
    id
}

/// The trees of the index: the id of the tree of the top directory, and
/// every tree to write, a directory after those below it, the top one last.
pub fn write_index_as_tree(entries: &Vec<GitIndexEntry>) -> (r: (GitObjectId, Vec<GitObjectRaw>))
    ensures
        r.0@ == tree_id_at(entries_view(entries@), Seq::empty()),
        r.0.is_valid(),
        all_trees(r.1@),
        payloads(r.1@) == trees_at(entries_view(entries@), Seq::empty()),
        r.1@.len() > 0,
        r.1@.last().id@ == r.0@,
        r.1@.last().object.content@ == tree_text(tree_rows(entries_view(entries@), Seq::empty())),
{
    let mut out: Vec<GitObjectRaw> = Vec::new();
    let prefix: Vec<u8> = Vec::new();
    let id = write_index_as_tree_internal(entries, &prefix, &mut out);
    assert(payloads(Seq::<GitObjectRaw>::empty()) + trees_at(entries_view(entries@), prefix@)
        =~= trees_at(entries_view(entries@), prefix@));
    (id, out)
}

} // verus!
