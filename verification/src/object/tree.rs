//! Trees: the named entries of a directory.

use crate::bytes::after;
use crate::bytes::before;
use crate::bytes::copy_range;
use crate::bytes::has_byte;
use crate::bytes::lemma_has_byte_concat;
use crate::bytes::lemma_index_of;
use crate::bytes::lemma_split_absent;
use crate::bytes::lemma_split_at;
use crate::bytes::split_at_byte;
use crate::error::GitErrorKind;
use crate::error::RustGitError;
use crate::object::id::GitObjectId;
use crate::object::raw::kind_word;
use crate::object::raw::lemma_kind_word;
use crate::object::raw::lemma_kind_word_has_no;
use crate::object::raw::word_blob;
use crate::object::raw::word_tree;
use crate::object::raw::GitObjectRaw;
use crate::object::raw::GitObjectType;
use vstd::prelude::*;
use vstd::string::*;

verus! {

/// What an entry of a tree points at.
#[derive(Debug, Clone, Copy, PartialEq, Eq, Structural)]
pub enum GitTreeEntryType {
    Tree,
    Blob,
}

/// The word that names the kind of an entry.
pub open spec fn entry_kind_word(kind: GitTreeEntryType) -> Seq<u8> {
    match kind {
        GitTreeEntryType::Tree => word_tree(),
        GitTreeEntryType::Blob => word_blob(),
    }
}

/// The kind of entry that a word names, if any.
pub open spec fn entry_kind_of_word(s: Seq<u8>) -> Option<GitTreeEntryType> {
    if s == word_tree() {
        Some(GitTreeEntryType::Tree)
    } else if s == word_blob() {
        Some(GitTreeEntryType::Blob)
    } else {
        None
    }
}

/// One entry of a tree.
#[derive(Debug, Clone, PartialEq, Eq)]
pub struct GitTreeEntry {
    pub mode: Vec<u8>,
    pub entry_type: GitTreeEntryType,
    pub obj_id: GitObjectId,
    pub name: Vec<u8>,
}

/// The mathematical value of an entry.
pub struct TreeEntryView {
    pub mode: Seq<u8>,
    pub entry_type: GitTreeEntryType,
    pub obj_id: Seq<u8>,
    pub name: Seq<u8>,
}

impl View for GitTreeEntry {
    type V = TreeEntryView;

    open spec fn view(&self) -> TreeEntryView {
        TreeEntryView {
            mode: self.mode@,
            entry_type: self.entry_type,
            obj_id: self.obj_id@,
            name: self.name@,
        }
    }
}

/// A tree: its entries in order.
#[derive(Debug, Clone, PartialEq, Eq)]
pub struct GitTreeObject {
    pub entries: Vec<GitTreeEntry>,
}

/// The values of a list of entries.
pub open spec fn entries_view(entries: Seq<GitTreeEntry>) -> Seq<TreeEntryView> {
    Seq::new(entries.len(), |i: int| entries[i]@)
}

impl View for GitTreeObject {
    type V = Seq<TreeEntryView>;

    open spec fn view(&self) -> Seq<TreeEntryView> {
        entries_view(self.entries@)
    }
}

/// The line of an entry: mode, kind, id, a tab, the name.
pub open spec fn entry_line(e: TreeEntryView) -> Seq<u8> {
    e.mode + seq![0x20u8] + entry_kind_word(e.entry_type) + seq![0x20u8] + e.obj_id + seq![0x09u8]
        + e.name
}

/// The payload of a tree: the lines of its entries, with a line feed
/// between one and the next.
pub open spec fn tree_text(entries: Seq<TreeEntryView>) -> Seq<u8>
    decreases entries.len(),
{
    if entries.len() == 0 {
        Seq::empty()
    } else if entries.len() == 1 {
        entry_line(entries[0])
    } else {
        entry_line(entries[0]) + seq![0x0au8] + tree_text(entries.drop_first())
    }
}

/// What a line states as an entry: the mode up to the first space, the kind
/// up to the next, the id up to the first tab after that, then the name.
pub open spec fn entry_parse(line: Seq<u8>) -> Result<TreeEntryView, GitErrorKind> {
    let r1 = after(line, 0x20);
    let r2 = after(r1, 0x20);
    match entry_kind_of_word(before(r1, 0x20)) {
        None => Err(GitErrorKind::UnknownKind),
        Some(kind) => Ok(
            TreeEntryView {
                mode: before(line, 0x20),
                entry_type: kind,
                obj_id: before(r2, 0x09),
                name: after(r2, 0x09),
            },
        ),
    }
}

/// `invalid tree entry type '`, the word, `'`
pub open spec fn invalid_entry_kind_text(word: Seq<u8>) -> Seq<u8> {
    "invalid tree entry type '".spec_bytes() + word + "'".spec_bytes()
}

/// The error says that the kind that the line names is unknown.
pub open spec fn entry_fault(e: RustGitError, line: Seq<u8>) -> bool {
    e.says(invalid_entry_kind_text(before(after(line, 0x20), 0x20)))
}

/// `entries`, then what `rest` holds, unless `rest` is a failure.
pub open spec fn entries_then(
    entries: Seq<TreeEntryView>,
    rest: Result<Seq<TreeEntryView>, GitErrorKind>,
) -> Result<Seq<TreeEntryView>, GitErrorKind> {
    match rest {
        Ok(more) => Ok(entries + more),
        Err(k) => Err(k),
    }
}

/// What a payload states as a tree: one entry for each line, a line feed
/// ending a line. The first line that is no entry decides the failure.
pub open spec fn tree_parse(s: Seq<u8>) -> Result<Seq<TreeEntryView>, GitErrorKind>
    decreases s.len(),
    via tree_parse_decreases
{
    if s.len() == 0 {
        Ok(Seq::empty())
    } else {
        match entry_parse(before(s, 0x0a)) {
            Err(k) => Err(k),
            Ok(e) => entries_then(seq![e], tree_parse(after(s, 0x0a))),
        }
    }
}

#[via_fn]
proof fn tree_parse_decreases(s: Seq<u8>) {
    lemma_index_of(s, 0x0a);
}

/// The first line of the payload that is no entry: nothing where every
/// line is one.
pub open spec fn bad_line(s: Seq<u8>) -> Seq<u8>
    decreases s.len(),
    via bad_line_decreases
{
    if s.len() == 0 {
        Seq::empty()
    } else {
        match entry_parse(before(s, 0x0a)) {
            Err(_) => before(s, 0x0a),
            Ok(_) => bad_line(after(s, 0x0a)),
        }
    }
}

#[via_fn]
proof fn bad_line_decreases(s: Seq<u8>) {
    lemma_index_of(s, 0x0a);
}

/// The entries that a line can carry: a mode without spaces, an id without
/// tabs, and no line feed in any part.
pub open spec fn entry_fits(e: TreeEntryView) -> bool {
    &&& !has_byte(e.mode, 0x20)
    &&& !has_byte(e.mode, 0x0a)
    &&& !has_byte(e.obj_id, 0x09)
    &&& !has_byte(e.obj_id, 0x0a)
    &&& !has_byte(e.name, 0x0a)
}

/// The trees that their text can carry: every entry fits its line.
pub open spec fn tree_fits(entries: Seq<TreeEntryView>) -> bool {
    forall|i: int| 0 <= i < entries.len() ==> entry_fits(#[trigger] entries[i])
}

/// The line of an entry that fits is read back as that entry, and holds no
/// line feed.
pub proof fn lemma_entry_roundtrip(e: TreeEntryView)
    requires
        entry_fits(e),
    ensures
        entry_parse(entry_line(e)) == Ok::<_, GitErrorKind>(e),
        !has_byte(entry_line(e), 0x0a),
        entry_line(e).len() > 0,
{
    let sp = seq![0x20u8];
    let tab = seq![0x09u8];
    let w = entry_kind_word(e.entry_type);
    let r2 = e.obj_id + tab + e.name;
    let r1 = w + sp + r2;
    let line = entry_line(e);
    let kind = match e.entry_type {
        GitTreeEntryType::Tree => GitObjectType::Tree,
        GitTreeEntryType::Blob => GitObjectType::Blob,
    };
    assert(w == kind_word(kind));
    lemma_kind_word(kind);
    lemma_kind_word_has_no(kind, 0x20);
    lemma_kind_word_has_no(kind, 0x0a);
    assert(line =~= e.mode + sp + r1);
    lemma_split_at(e.mode, 0x20, r1);
    lemma_split_at(w, 0x20, r2);
    lemma_split_at(e.obj_id, 0x09, e.name);
    assert(entry_kind_of_word(w) == Some(e.entry_type)) by {
        assert(word_tree()[1] != word_blob()[1]);
    }
    let s1 = e.mode + sp;
    let s2 = s1 + w;
    let s3 = s2 + sp;
    let s4 = s3 + e.obj_id;
    let s5 = s4 + tab;
    lemma_has_byte_concat(e.mode, sp, 0x0a);
    lemma_has_byte_concat(s1, w, 0x0a);
    lemma_has_byte_concat(s2, sp, 0x0a);
    lemma_has_byte_concat(s3, e.obj_id, 0x0a);
    lemma_has_byte_concat(s4, tab, 0x0a);
    lemma_has_byte_concat(s5, e.name, 0x0a);
}

/// The text of a tree that fits is read back as that tree.
pub proof fn lemma_tree_roundtrip(entries: Seq<TreeEntryView>)
    requires
        tree_fits(entries),
    ensures
        tree_parse(tree_text(entries)) == Ok::<_, GitErrorKind>(entries),
    decreases entries.len(),
{
    if entries.len() == 0 {
        assert(entries =~= Seq::<TreeEntryView>::empty());
    } else {
        let e = entries[0];
        let line = entry_line(e);
        lemma_entry_roundtrip(e);
        if entries.len() == 1 {
            lemma_split_absent(line, 0x0a);
            assert(seq![e] + Seq::<TreeEntryView>::empty() =~= entries);
        } else {
            let rest = entries.drop_first();
            assert forall|i: int| 0 <= i < rest.len() implies entry_fits(#[trigger] rest[i]) by {
                assert(rest[i] == entries[i + 1]);
            }
            lemma_tree_roundtrip(rest);
            lemma_split_at(line, 0x0a, tree_text(rest));
            assert(seq![e] + rest =~= entries);
        }
    }
}

impl GitTreeEntryType {
    /// The word that names the kind.
    pub fn word(&self) -> (w: &'static [u8])
        ensures
            w@ == entry_kind_word(*self),
    {
        match self {
            GitTreeEntryType::Tree => GitObjectType::Tree.word(),
            GitTreeEntryType::Blob => GitObjectType::Blob.word(),
        }
    }

    /// The kind that the word names, if it names one.
    pub fn from_bytes(s: &[u8]) -> (r: Option<GitTreeEntryType>)
        ensures
            r == entry_kind_of_word(s@),
    {
        match GitObjectType::from_bytes(s) {
            Some(GitObjectType::Tree) => Some(GitTreeEntryType::Tree),
            Some(GitObjectType::Blob) => Some(GitTreeEntryType::Blob),
            _ => {
                proof {
                    lemma_kind_word(GitObjectType::Tree);
                    lemma_kind_word(GitObjectType::Blob);
                }
                None
            },
        }
    }
}

impl GitTreeEntry {
    /// A copy of the entry.
    pub fn duplicate(&self) -> (r: GitTreeEntry)
        ensures
            r@ == self@,
    {
        GitTreeEntry {
            mode: self.mode.clone(),
            entry_type: self.entry_type,
            obj_id: self.obj_id.duplicate(),
            name: self.name.clone(),
        }
    }

    /// Appends the line of the entry.
    pub fn write_line(&self, out: &mut Vec<u8>)
        ensures
            final(out)@ == old(out)@ + entry_line(self@),
    {
        let ghost start = out@;
        out.extend_from_slice(self.mode.as_slice());
        out.push(0x20);
        out.extend_from_slice(self.entry_type.word());
        out.push(0x20);
        out.extend_from_slice(self.obj_id.as_bytes());
        out.push(0x09);
        out.extend_from_slice(self.name.as_slice());
        assert(out@ =~= start + entry_line(self@));
    }

    /// Reads the line of an entry.
    pub fn from_bytes(line: &[u8]) -> (r: Result<GitTreeEntry, RustGitError>)
        ensures
            match r {
                Ok(e) => entry_parse(line@) == Ok::<_, GitErrorKind>(e@),
                Err(e) => entry_parse(line@) == Err::<TreeEntryView, _>(e.kind) && entry_fault(
                    e,
                    line@,
                ),
            },
    {
        let n = line.len();
        assert(line@.skip(0) =~= line@);
        let (mode_end, p1) = split_at_byte(line, 0, 0x20);
        let (kind_end, p2) = split_at_byte(line, p1, 0x20);
        let (id_end, p3) = split_at_byte(line, p2, 0x09);
        let entry_type = match GitTreeEntryType::from_bytes(&line[p1..kind_end]) {
            Some(k) => k,
            None => {
                return Err(
                    RustGitError::framed(
                        GitErrorKind::UnknownKind,
                        "invalid tree entry type '",
                        &line[p1..kind_end],
                        "'",
                    ),
                );
            },
        };
        let mode = copy_range(line, 0, mode_end);
        let obj_id = GitObjectId::from_bytes(copy_range(line, p2, id_end));
        let name = copy_range(line, p3, n);
        assert(name@ =~= line@.skip(p3 as int));
        Ok(GitTreeEntry { mode, entry_type, obj_id, name })
    }
}

impl GitTreeObject {
    /// The tree is one that its text can carry.
    pub open spec fn fits(&self) -> bool {
        tree_fits(self@)
    }

    /// The payload of the tree.
    pub fn to_bytes(&self) -> (v: Vec<u8>)
        ensures
            v@ == tree_text(self@),
    {
        let mut v: Vec<u8> = Vec::new();
        let n = self.entries.len();
        let mut i: usize = 0;
        assert(self@.skip(0) =~= self@);
        while i < n
            invariant
                i <= n,
                n == self.entries@.len(),
                v@ + (if 0 < i < n {
                    seq![0x0au8]
                } else {
                    Seq::<u8>::empty()
                }) + tree_text(self@.skip(i as int)) == tree_text(self@),
            decreases n - i,
        {
            let ghost before_push = v@;
            let ghost rest = self@.skip(i as int);
            if i > 0 {
                v.push(0x0a);
            }
            self.entries[i].write_line(&mut v);
            proof {
                assert(rest[0] == self.entries@[i as int]@);
                assert(rest.drop_first() =~= self@.skip(i + 1));
                if rest.len() == 1 {
                    assert(tree_text(rest.drop_first()) =~= Seq::<u8>::empty());
                }
                assert(v@ + (if 0 < i + 1 < n {
                    seq![0x0au8]
                } else {
                    Seq::<u8>::empty()
                }) + tree_text(self@.skip(i + 1)) =~= before_push + (if 0 < i < n {
                    seq![0x0au8]
                } else {
                    Seq::<u8>::empty()
                }) + tree_text(rest));
            }
            i += 1;
        }
        proof {
            assert(self@.skip(n as int) =~= Seq::<TreeEntryView>::empty());
            assert(v@ =~= v@ + Seq::<u8>::empty() + Seq::<u8>::empty());
        }
        v
    }

    /// Reads the payload of a tree. The error is that of the first line
    /// that is no entry.
    pub fn from_bytes(s: &[u8]) -> (r: Result<GitTreeObject, RustGitError>)
        ensures
            match r {
                Ok(t) => tree_parse(s@) == Ok::<_, GitErrorKind>(t@),
                Err(e) => tree_parse(s@) == Err::<Seq<TreeEntryView>, _>(e.kind) && entry_fault(
                    e,
                    bad_line(s@),
                ),
            },
    {
        let n = s.len();
        let mut entries: Vec<GitTreeEntry> = Vec::new();
        let mut pos: usize = 0;
        proof {
            assert(s@.skip(0) =~= s@);
            assert(entries_view(entries@) =~= Seq::<TreeEntryView>::empty());
            lemma_entries_then_empty(tree_parse(s@));
        }
        while pos < n
            invariant
                pos <= n,
                n == s@.len(),
                tree_parse(s@) == entries_then(entries_view(entries@), tree_parse(s@.skip(pos as int))),
                bad_line(s@) == bad_line(s@.skip(pos as int)),
            decreases n - pos,
        {
            let ghost here = s@.skip(pos as int);
            let ghost collected = entries_view(entries@);
            let (line_end, next) = split_at_byte(s, pos, 0x0a);
            let entry = match GitTreeEntry::from_bytes(&s[pos..line_end]) {
                Ok(e) => e,
                Err(e) => {
                    return Err(e);
                },
            };
            let ghost e = entry@;
            entries.push(entry);
            proof {
                lemma_index_of(here, 0x0a);
                assert(entries_view(entries@) =~= collected + seq![e]);
                let rest = tree_parse(after(here, 0x0a));
                match rest {
                    Ok(more) => {
                        assert(collected + (seq![e] + more) =~= (collected + seq![e]) + more);
                    },
                    Err(_) => {},
                }
            }
            pos = next;
        }
        proof {
            assert(s@.skip(n as int) =~= Seq::<u8>::empty());
            assert(entries_view(entries@) + Seq::<TreeEntryView>::empty() =~= entries_view(entries@));
        }
        Ok(GitTreeObject { entries })
    }

    /// The tree as a raw object with its id.
    pub fn to_raw(&self) -> (r: Result<GitObjectRaw, RustGitError>)
        ensures
            r is Ok,
            r->Ok_0.wf(),
            r->Ok_0.id.is_valid(),
            r->Ok_0.object.header.obj_type == GitObjectType::Tree,
            r->Ok_0.object.content@ == tree_text(self@),
    {
        GitObjectRaw::new(GitObjectType::Tree, self.to_bytes())
    }
}

proof fn lemma_entries_then_empty(r: Result<Seq<TreeEntryView>, GitErrorKind>)
    ensures
        entries_then(Seq::empty(), r) == r,
{
    match r {
        Ok(more) => {
            assert(Seq::<TreeEntryView>::empty() + more =~= more);
        },
        Err(_) => {},
    }
}

} // verus!
