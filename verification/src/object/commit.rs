//! Commits: a tree, its parents, who made it, and a message.

use crate::bytes::after;
use crate::bytes::ascii_bytes;
use crate::bytes::before;
use crate::bytes::copy_range;
use crate::bytes::has_byte;
use crate::bytes::has_prefix;
use crate::bytes::lemma_has_byte_concat;
use crate::bytes::lemma_index_of;
use crate::bytes::lemma_split_at;
use crate::bytes::split_at_byte;
use crate::bytes::starts_with;
use crate::error::GitErrorKind;
use crate::error::RustGitError;
use crate::object::id::GitObjectId;
use crate::object::identity::identity_fits;
use crate::object::identity::identity_line;
use crate::object::identity::identity_parse;
use crate::object::identity::identity_fault;
use crate::object::identity::lemma_identity_roundtrip;
use crate::object::identity::lemma_role_word;
use crate::object::identity::role_word;
use crate::object::identity::GitIdentity;
use crate::object::identity::GitIdentityType;
use crate::object::identity::IdentityView;
use crate::object::raw::GitObjectRaw;
use crate::object::raw::GitObjectType;
use vstd::prelude::*;
use vstd::string::*;

verus! {

/// A commit.
#[derive(Debug, Clone, PartialEq, Eq)]
pub struct GitCommitObject {
    pub tree_id: GitObjectId,
    pub parents: Vec<GitObjectId>,
    pub message: Vec<u8>,
    pub author: GitIdentity,
    pub committer: GitIdentity,
}

/// The mathematical value of a commit.
pub struct CommitView {
    pub tree_id: Seq<u8>,
    pub parents: Seq<Seq<u8>>,
    pub message: Seq<u8>,
    pub author: IdentityView,
    pub committer: IdentityView,
}

/// The texts of a list of ids.
pub open spec fn ids_view(ids: Seq<GitObjectId>) -> Seq<Seq<u8>> {
    Seq::new(ids.len(), |i: int| ids[i]@)
}

impl View for GitCommitObject {
    type V = CommitView;

    open spec fn view(&self) -> CommitView {
        CommitView {
            tree_id: self.tree_id@,
            parents: ids_view(self.parents@),
            message: self.message@,
            author: self.author@,
            committer: self.committer@,
        }
    }
}

/// `tree ` with its space
pub open spec fn key_tree() -> Seq<u8> {
    seq!['t' as u8, 'r' as u8, 'e' as u8, 'e' as u8, ' ' as u8]
}

/// `parent ` with its space
pub open spec fn key_parent() -> Seq<u8> {
    seq!['p' as u8, 'a' as u8, 'r' as u8, 'e' as u8, 'n' as u8, 't' as u8, ' ' as u8]
}

/// One line for each parent: `parent `, the id, a line feed.
pub open spec fn parents_text(parents: Seq<Seq<u8>>) -> Seq<u8>
    decreases parents.len(),
{
    if parents.len() == 0 {
        Seq::empty()
    } else {
        key_parent() + parents[0] + seq![0x0au8] + parents_text(parents.drop_first())
    }
}

/// The payload of a commit: the tree line, the parent lines, the author and
/// committer lines, an empty line, the message.
pub open spec fn commit_text(c: CommitView) -> Seq<u8> {
    key_tree() + c.tree_id + seq![0x0au8] + parents_text(c.parents) + identity_line(
        GitIdentityType::Author,
        c.author,
    ) + seq![0x0au8] + identity_line(GitIdentityType::Committer, c.committer) + seq![0x0au8, 0x0au8]
        + c.message
}

/// `s` begins with a parent line.
pub open spec fn at_parent(s: Seq<u8>) -> bool {
    starts_with(before(s, 0x0a), key_parent())
}

/// The ids on the parent lines with which `s` begins.
pub open spec fn parents_of(s: Seq<u8>) -> Seq<Seq<u8>>
    decreases s.len(),
    via parents_of_decreases
{
    if at_parent(s) {
        seq![before(s, 0x0a).skip(7)] + parents_of(after(s, 0x0a))
    } else {
        Seq::empty()
    }
}

#[via_fn]
proof fn parents_of_decreases(s: Seq<u8>) {
    lemma_index_of(s, 0x0a);
}

/// What follows the parent lines with which `s` begins.
pub open spec fn after_parents(s: Seq<u8>) -> Seq<u8>
    decreases s.len(),
    via after_parents_decreases
{
    if at_parent(s) {
        after_parents(after(s, 0x0a))
    } else {
        s
    }
}

#[via_fn]
proof fn after_parents_decreases(s: Seq<u8>) {
    lemma_index_of(s, 0x0a);
}

/// What a payload states as a commit. The first line names the tree; the
/// lines that begin with `parent ` name the parents; then come the author
/// and the committer, each in its own role; one more line is passed over,
/// and all that follows is the message.
pub open spec fn commit_parse(s: Seq<u8>) -> Result<CommitView, GitErrorKind> {
    let r2 = after_parents(after(s, 0x0a));
    let r3 = after(r2, 0x0a);
    if s.len() == 0 || !starts_with(before(s, 0x0a), key_tree()) {
        Err(GitErrorKind::MissingField)
    } else if r2.len() == 0 {
        Err(GitErrorKind::MissingField)
    } else {
        match identity_parse(before(r2, 0x0a)) {
            Err(k) => Err(k),
            Ok(author) => if author.identity_type != GitIdentityType::Author {
                Err(GitErrorKind::MissingField)
            } else if r3.len() == 0 {
                Err(GitErrorKind::MissingField)
            } else {
                match identity_parse(before(r3, 0x0a)) {
                    Err(k) => Err(k),
                    Ok(committer) => if committer.identity_type != GitIdentityType::Committer {
                        Err(GitErrorKind::MissingField)
                    } else {
                        Ok(
                            CommitView {
                                tree_id: before(s, 0x0a).skip(5),
                                parents: parents_of(after(s, 0x0a)),
                                message: after(after(r3, 0x0a), 0x0a),
                                author,
                                committer,
                            },
                        )
                    },
                }
            },
        }
    }
}

/// The error says why the payload states no commit: what is missing, or
/// what is at fault in the line of the author or the committer.
pub open spec fn commit_fault(e: RustGitError, s: Seq<u8>) -> bool {
    let r2 = after_parents(after(s, 0x0a));
    let r3 = after(r2, 0x0a);
    if s.len() == 0 {
        e.error@ == "invalid commit object, empty"@
    } else if !starts_with(before(s, 0x0a), key_tree()) {
        e.error@ == "invalid commit object, missing tree"@
    } else if r2.len() == 0 {
        e.error@ == "invalid commit object, missing author"@
    } else {
        match identity_parse(before(r2, 0x0a)) {
            Err(_) => identity_fault(e, before(r2, 0x0a)),
            Ok(author) => if author.identity_type != GitIdentityType::Author {
                e.error@ == "invalid commit object, expected author"@
            } else if r3.len() == 0 {
                e.error@ == "invalid commit object, missing committer"@
            } else {
                match identity_parse(before(r3, 0x0a)) {
                    Err(_) => identity_fault(e, before(r3, 0x0a)),
                    Ok(_) => e.error@ == "invalid commit object, expected committer"@,
                }
            },
        }
    }
}

/// The commits that their text can carry: ids without line feeds, an author
/// and a committer that fit their lines and stand in their roles. The
/// message is free.
pub open spec fn commit_fits(c: CommitView) -> bool {
    &&& !has_byte(c.tree_id, 0x0a)
    &&& forall|i: int| 0 <= i < c.parents.len() ==> !has_byte(#[trigger] c.parents[i], 0x0a)
    &&& identity_fits(c.author)
    &&& identity_fits(c.committer)
    &&& c.author.identity_type == GitIdentityType::Author
    &&& c.committer.identity_type == GitIdentityType::Committer
}

proof fn lemma_parents_roundtrip(parents: Seq<Seq<u8>>, tail: Seq<u8>)
    requires
        forall|i: int| 0 <= i < parents.len() ==> !has_byte(#[trigger] parents[i], 0x0a),
        !at_parent(tail),
    ensures
        parents_of(parents_text(parents) + tail) == parents,
        after_parents(parents_text(parents) + tail) == tail,
    decreases parents.len(),
{
    if parents.len() == 0 {
        assert(parents_text(parents) + tail =~= tail);
        assert(parents_of(tail) =~= parents);
    } else {
        let rest = parents.drop_first();
        let line = key_parent() + parents[0];
        let s = parents_text(parents) + tail;
        let next = parents_text(rest) + tail;
        assert(s =~= line + seq![0x0au8] + next);
        assert(!has_byte(key_parent(), 0x0a)) by {
            if has_byte(key_parent(), 0x0a) {
                let i = choose|i: int| 0 <= i < key_parent().len() && key_parent()[i] == 0x0a;
            }
        }
        lemma_has_byte_concat(key_parent(), parents[0], 0x0a);
        lemma_split_at(line, 0x0a, next);
        assert(line.take(7) =~= key_parent());
        assert(line.skip(7) =~= parents[0]);
        assert forall|i: int| 0 <= i < rest.len() implies !has_byte(#[trigger] rest[i], 0x0a) by {
            assert(rest[i] == parents[i + 1]);
        }
        lemma_parents_roundtrip(rest, tail);
        assert(seq![parents[0]] + rest =~= parents);
    }
}

/// The text of a commit that fits is read back as that commit.
pub proof fn lemma_commit_roundtrip(c: CommitView)
    requires
        commit_fits(c),
    ensures
        commit_parse(commit_text(c)) == Ok::<_, GitErrorKind>(c),
{
    let nl = seq![0x0au8];
    let a = identity_line(GitIdentityType::Author, c.author);
    let k = identity_line(GitIdentityType::Committer, c.committer);
    let first = key_tree() + c.tree_id;
    let r4 = nl + c.message;
    let r3 = k + nl + r4;
    let r2 = a + nl + r3;
    let r1 = parents_text(c.parents) + r2;
    let s = commit_text(c);
    assert(s =~= first + nl + r1);
    assert(!has_byte(key_tree(), 0x0a)) by {
        if has_byte(key_tree(), 0x0a) {
            let i = choose|i: int| 0 <= i < key_tree().len() && key_tree()[i] == 0x0a;
        }
    }
    lemma_has_byte_concat(key_tree(), c.tree_id, 0x0a);
    lemma_split_at(first, 0x0a, r1);
    assert(first.take(5) =~= key_tree());
    assert(first.skip(5) =~= c.tree_id);
    lemma_identity_roundtrip(c.author);
    lemma_identity_roundtrip(c.committer);
    lemma_split_at(a, 0x0a, r3);
    lemma_split_at(k, 0x0a, r4);
    assert(!at_parent(r2)) by {
        lemma_role_word(GitIdentityType::Author);
        assert(a[0] == role_word(GitIdentityType::Author)[0]);
        if at_parent(r2) {
            assert(a.take(7)[0] == key_parent()[0]);
        }
    }
    lemma_parents_roundtrip(c.parents, r2);
    assert(a.len() > 0);
    assert(k.len() > 0) by {
        lemma_role_word(GitIdentityType::Committer);
    }
    assert(r4 =~= Seq::<u8>::empty() + nl + c.message);
    assert(!has_byte(Seq::<u8>::empty(), 0x0a));
    lemma_split_at(Seq::<u8>::empty(), 0x0a, c.message);
}

/// The bytes `tree `.
fn key_tree_bytes() -> (k: &'static [u8])
    ensures
        k@ == key_tree(),
{
    proof {
        reveal_strlit("tree ");
    }
    let k = ascii_bytes("tree ");
    assert(k@ =~= key_tree());
    k
}

/// The bytes `parent `.
fn key_parent_bytes() -> (k: &'static [u8])
    ensures
        k@ == key_parent(),
{
    proof {
        reveal_strlit("parent ");
    }
    let k = ascii_bytes("parent ");
    assert(k@ =~= key_parent());
    k
}

fn missing(what: &str) -> (e: RustGitError)
    ensures
        e.kind == GitErrorKind::MissingField,
        e.error@ == what@,
{
    RustGitError::with_kind(GitErrorKind::MissingField, what)
}

impl GitCommitObject {
    /// The commit is one that its text can carry.
    pub open spec fn fits(&self) -> bool {
        commit_fits(self@)
    }

    /// The payload of the commit.
    pub fn to_bytes(&self) -> (v: Vec<u8>)
        ensures
            v@ == commit_text(self@),
    {
        let mut v: Vec<u8> = Vec::new();
        v.extend_from_slice(key_tree_bytes());
        v.extend_from_slice(self.tree_id.as_bytes());
        v.push(0x0a);
        let ghost head = v@;
        let n = self.parents.len();
        let mut i: usize = 0;
        assert(self@.parents.skip(0) =~= self@.parents);
        while i < n
            invariant
                i <= n,
                n == self.parents@.len(),
                v@ + parents_text(self@.parents.skip(i as int)) == head + parents_text(self@.parents),
            decreases n - i,
        {
            let ghost before_push = v@;
            let ghost rest = self@.parents.skip(i as int);
            v.extend_from_slice(key_parent_bytes());
            v.extend_from_slice(self.parents[i].as_bytes());
            v.push(0x0a);
            proof {
                assert(rest[0] == self.parents@[i as int]@);
                assert(rest.drop_first() =~= self@.parents.skip(i + 1));
                assert(v@ + parents_text(rest.drop_first()) =~= before_push + parents_text(rest));
            }
            i += 1;
        }
        proof {
            assert(self@.parents.skip(n as int) =~= Seq::<Seq<u8>>::empty());
            assert(v@ =~= head + parents_text(self@.parents));
        }
        let ghost mid = v@;
        self.author.write_line(GitIdentityType::Author, &mut v);
        v.push(0x0a);
        self.committer.write_line(GitIdentityType::Committer, &mut v);
        v.push(0x0a);
        v.push(0x0a);
        v.extend_from_slice(self.message.as_slice());
        assert(v@ =~= commit_text(self@));
        v
    }

    /// Reads the payload of a commit. The error says what is missing or at
    /// fault.
    #[verifier::rlimit(60)]
    pub fn from_bytes(s: &[u8]) -> (r: Result<GitCommitObject, RustGitError>)
        ensures
            match r {
                Ok(c) => commit_parse(s@) == Ok::<_, GitErrorKind>(c@),
                Err(e) => commit_parse(s@) == Err::<CommitView, _>(e.kind) && commit_fault(e, s@),
            },
    {
        let n = s.len();
        assert(s@.skip(0) =~= s@);
        if n == 0 {
            return Err(missing("invalid commit object, empty"));
        }
        let (l1_end, p1) = split_at_byte(s, 0, 0x0a);
        let first = &s[0..l1_end];
        if !has_prefix(first, key_tree_bytes()) {
            return Err(missing("invalid commit object, missing tree"));
        }
        let tree_id = GitObjectId::from_bytes(copy_range(s, 5, l1_end));
        assert(tree_id@ =~= before(s@, 0x0a).skip(5));
        let mut parents: Vec<GitObjectId> = Vec::new();
        let mut pos: usize = p1;
        let ghost r1 = s@.skip(p1 as int);
        loop
            invariant
                p1 <= pos <= n,
                n == s@.len(),
                r1 == s@.skip(p1 as int),
                parents_of(r1) == ids_view(parents@) + parents_of(s@.skip(pos as int)),
                after_parents(r1) == after_parents(s@.skip(pos as int)),
            ensures
                !at_parent(s@.skip(pos as int)),
            decreases n - pos,
        {
            let ghost here = s@.skip(pos as int);
            let (line_end, next) = split_at_byte(s, pos, 0x0a);
            let line = &s[pos..line_end];
            if !has_prefix(line, key_parent_bytes()) {
                proof {
                    assert(parents_of(here) =~= Seq::<Seq<u8>>::empty());
                    assert(ids_view(parents@) + Seq::<Seq<u8>>::empty() =~= ids_view(parents@));
                }
                break ;
            }
            let ghost collected = ids_view(parents@);
            let id = GitObjectId::from_bytes(copy_range(s, pos + 7, line_end));
            proof {
                assert(id@ =~= before(here, 0x0a).skip(7));
                lemma_index_of(here, 0x0a);
                assert(line_end < n ==> next == line_end + 1);
            }
            parents.push(id);
            proof {
                assert(ids_view(parents@) =~= collected + seq![id@]);
                assert(collected + (seq![id@] + parents_of(after(here, 0x0a))) =~= (collected + seq![
                    id@,
                ]) + parents_of(after(here, 0x0a)));
            }
            pos = next;
        }
        let ghost r2 = s@.skip(pos as int);
        assert(r2 == after_parents(r1));
        assert(parents_of(r1) == ids_view(parents@)) by {
            assert(parents_of(r2) =~= Seq::<Seq<u8>>::empty());
            assert(ids_view(parents@) + Seq::<Seq<u8>>::empty() =~= ids_view(parents@));
        }
        if pos == n {
            return Err(missing("invalid commit object, missing author"));
        }
        let (a_end, p3) = split_at_byte(s, pos, 0x0a);
        let author = match GitIdentity::from_bytes(&s[pos..a_end]) {
            Ok(a) => a,
            Err(e) => {
                return Err(e);
            },
        };
        if author.identity_type != GitIdentityType::Author {
            return Err(missing("invalid commit object, expected author"));
        }
        if p3 == n {
            return Err(missing("invalid commit object, missing committer"));
        }
        let (c_end, p4) = split_at_byte(s, p3, 0x0a);
        let committer = match GitIdentity::from_bytes(&s[p3..c_end]) {
            Ok(c) => c,
            Err(e) => {
                return Err(e);
            },
        };
        if committer.identity_type != GitIdentityType::Committer {
            return Err(missing("invalid commit object, expected committer"));
        }
        let (_skipped, p5) = split_at_byte(s, p4, 0x0a);
        let message = copy_range(s, p5, n);
        assert(message@ =~= s@.skip(p5 as int));
        Ok(GitCommitObject { tree_id, parents, message, author, committer })
    }

    /// The commit as a raw object with its id.
    pub fn to_raw(&self) -> (r: Result<GitObjectRaw, RustGitError>)
        ensures
            r is Ok,
            r->Ok_0.wf(),
            r->Ok_0.id.is_valid(),
            r->Ok_0.object.header.obj_type == GitObjectType::Commit,
            r->Ok_0.object.content@ == commit_text(self@),
    {
        GitObjectRaw::new(GitObjectType::Commit, self.to_bytes())
    }
}

} // verus!
