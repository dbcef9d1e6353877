//! References: named pointers to objects, and symbolic ones to other
//! references.

use crate::bytes::after;
use crate::bytes::ascii_bytes;
use crate::bytes::bytes_eq;
use crate::bytes::copy_range;
use crate::bytes::to_vec;
use crate::bytes::has_prefix;
use crate::bytes::lemma_index_of;
use crate::bytes::split_at_byte;
use crate::bytes::starts_with;
use crate::error::GitErrorKind;
use crate::error::RustGitError;
use crate::object::id::GitObjectId;
use crate::path::dot;
use crate::path::dot_dot;
use crate::path::join_paths;
use crate::path::joined;
use crate::path::split_path;
use vstd::prelude::*;
use vstd::string::*;

verus! {

/// `refs`
pub open spec fn refs_folder() -> Seq<u8> {
    seq!['r' as u8, 'e' as u8, 'f' as u8, 's' as u8]
}

/// `heads`
pub open spec fn heads_folder() -> Seq<u8> {
    seq!['h' as u8, 'e' as u8, 'a' as u8, 'd' as u8, 's' as u8]
}

/// `tags`
pub open spec fn tags_folder() -> Seq<u8> {
    seq!['t' as u8, 'a' as u8, 'g' as u8, 's' as u8]
}

/// `ref: `, with which a symbolic reference begins
pub open spec fn symbolic_mark() -> Seq<u8> {
    seq!['r' as u8, 'e' as u8, 'f' as u8, ':' as u8, ' ' as u8]
}

/// `refs/heads/`
pub open spec fn heads_prefix() -> Seq<u8> {
    seq![
        'r' as u8,
        'e' as u8,
        'f' as u8,
        's' as u8,
        '/' as u8,
        'h' as u8,
        'e' as u8,
        'a' as u8,
        'd' as u8,
        's' as u8,
        '/' as u8,
    ]
}

/// `HEAD`
pub open spec fn head_name() -> Seq<u8> {
    seq!['H' as u8, 'E' as u8, 'A' as u8, 'D' as u8]
}

/// The name of the reference of a branch: `refs/heads/`, then the name of
/// the branch.
pub open spec fn branch_ref(branch_name: Seq<u8>) -> Seq<u8> {
    heads_prefix() + branch_name
}

/// `refs/`
pub open spec fn refs_prefix() -> Seq<u8> {
    seq!['r' as u8, 'e' as u8, 'f' as u8, 's' as u8, '/' as u8]
}

/// `.git`
pub open spec fn dot_git() -> Seq<u8> {
    seq!['.' as u8, 'g' as u8, 'i' as u8, 't' as u8]
}

/// A space, a tab, a line feed, a vertical tab, a form feed or a carriage
/// return.
pub open spec fn is_space(b: u8) -> bool {
    b == 0x20 || (0x09 <= b <= 0x0d)
}

/// `s` without the white space at its end.
pub open spec fn trim_end(s: Seq<u8>) -> Seq<u8>
    decreases s.len(),
{
    if s.len() > 0 && is_space(s.last()) {
        trim_end(s.drop_last())
    } else {
        s
    }
}

/// `s` without the white space at its start.
pub open spec fn trim_start(s: Seq<u8>) -> Seq<u8>
    decreases s.len(),
{
    if s.len() > 0 && is_space(s[0]) {
        trim_start(s.drop_first())
    } else {
        s
    }
}

/// `s` without the white space at either end.
pub open spec fn trimmed(s: Seq<u8>) -> Seq<u8> {
    trim_start(trim_end(s))
}

/// The names that a branch, a tag or a reference may have: not empty, not
/// ending in a slash, and with no part that is `.`, `..` or `.git`.
pub open spec fn is_valid_name(name: Seq<u8>) -> bool {
    &&& name.len() > 0
    &&& name.last() != 0x2f
    &&& forall|i: int|
        0 <= i < split_path(name).len() ==> {
            let part = #[trigger] split_path(name)[i];
            part != dot() && part != dot_dot() && part != dot_git()
        }
}

/// What a reference file holds: nothing where there is no file, else its
/// contents without the white space around them.
pub open spec fn ref_value(file: Option<Seq<u8>>) -> Option<Seq<u8>> {
    match file {
        None => None,
        Some(contents) => Some(trimmed(contents)),
    }
}

/// The value that a reference counts as holding: the empty value where it
/// is absent.
pub open spec fn held(current: Option<Seq<u8>>) -> Seq<u8> {
    match current {
        Some(c) => c,
        None => Seq::empty(),
    }
}

/// A compare-and-set with the given expectation goes through against the
/// current value: where nothing is expected, always; else where the current
/// value is the expected one, an absent reference counting as the empty
/// value.
pub open spec fn cas_allows(current: Option<Seq<u8>>, expected: Option<Seq<u8>>) -> bool {
    match expected {
        None => true,
        Some(e) => e == held(current),
    }
}

/// What a symbolic reference says.
#[derive(Debug, Clone, PartialEq, Eq)]
pub enum SymbolicRef {
    /// It points to the reference of this name.
    Ref(Vec<u8>),
    /// It holds an object id itself: it is detached.
    Detached(Vec<u8>),
}

/// A reference to write: its file and the value to put there.
#[derive(Debug, Clone, PartialEq, Eq)]
pub struct RefWrite {
    pub path: Vec<u8>,
    pub value: Vec<u8>,
}

/// The reference store of a repository.
#[derive(Debug, Clone, PartialEq, Eq)]
pub struct GitRefs {
    pub git_dir: Vec<u8>,
    pub refs_dir: Vec<u8>,
    pub heads_dir: Vec<u8>,
    pub tags_dir: Vec<u8>,
}

/// `s` without the white space around it.
pub fn trim(s: &[u8]) -> (v: Vec<u8>)
    ensures
        v@ == trimmed(s@),
{
    let mut end: usize = s.len();
    assert(s@.take(end as int) =~= s@);
    while end > 0 && is_space_byte(s[end - 1])
        invariant
            end <= s@.len(),
            trim_end(s@) == trim_end(s@.take(end as int)),
        decreases end,
    {
        assert(s@.take(end as int).drop_last() =~= s@.take(end - 1));
        end -= 1;
    }
    let mut start: usize = 0;
    assert(s@.subrange(0, end as int) =~= s@.take(end as int));
    while start < end && is_space_byte(s[start])
        invariant
            start <= end <= s@.len(),
            trim_start(trim_end(s@)) == trim_start(s@.subrange(start as int, end as int)),
            trim_end(s@) == s@.take(end as int),
        decreases end - start,
    {
        assert(s@.subrange(start as int, end as int).drop_first() =~= s@.subrange(
            start + 1,
            end as int,
        ));
        start += 1;
    }
    copy_range(s, start, end)
}

fn is_space_byte(b: u8) -> (r: bool)
    ensures
        r == is_space(b),
{
    b == 0x20 || (0x09 <= b && b <= 0x0d)
}

/// May a branch, a tag or a reference have this name?
pub fn check_name(name: &[u8]) -> (r: bool)
    ensures
        r == is_valid_name(name@),
{
    let n = name.len();
    if n == 0 || name[n - 1] == 0x2f {
        return false;
    }
    let mut pos: usize = 0;
    assert(name@.skip(0) =~= name@);
    loop
        invariant_except_break
            is_valid_name(name@) == (forall|i: int|
                0 <= i < split_path(name@.skip(pos as int)).len() ==> {
                    let part = #[trigger] split_path(name@.skip(pos as int))[i];
                    part != dot() && part != dot_dot() && part != dot_git()
                }),
        invariant
            pos <= n,
            n == name@.len(),
            n > 0,
            name@.last() != 0x2f,
        ensures
            is_valid_name(name@),
        decreases n - pos,
    {
        let ghost here = name@.skip(pos as int);
        let (end, next) = split_at_byte(name, pos, 0x2f);
        let part = &name[pos..end];
        proof {
            lemma_index_of(here, 0x2f);
            assert(split_path(here)[0] == part@);
        }
        let bad = (part.len() == 1 && part[0] == 0x2e) || (part.len() == 2 && part[0] == 0x2e
            && part[1] == 0x2e) || (part.len() == 4 && part[0] == 0x2e && part[1] == 0x67 && part[2]
            == 0x69 && part[3] == 0x74);
        proof {
            if bad {
                assert(part@ =~= dot() || part@ =~= dot_dot() || part@ =~= dot_git());
            }
        }
        if bad {
            return false;
        }
        if end == n {
            proof {
                assert(split_path(here) =~= seq![here]);
            }
            break ;
        }
        proof {
            let rest = split_path(after(here, 0x2f));
            assert(split_path(here) =~= seq![part@] + rest);
            assert forall|i: int| 0 <= i < rest.len() implies #[trigger] rest[i] == split_path(
                here,
            )[i + 1] by {}
            assert(name@.skip(next as int) == after(here, 0x2f));
        }
        pos = next;
    }
    true
}

fn symbolic_mark_bytes() -> (k: &'static [u8])
    ensures
        k@ == symbolic_mark(),
{
    proof {
        reveal_strlit("ref: ");
    }
    let k = ascii_bytes("ref: ");
    assert(k@ =~= symbolic_mark());
    k
}

pub(crate) fn heads_prefix_bytes() -> (k: &'static [u8])
    ensures
        k@ == heads_prefix(),
{
    proof {
        reveal_strlit("refs/heads/");
    }
    let k = ascii_bytes("refs/heads/");
    assert(k@ =~= heads_prefix());
    k
}

/// `invalid name '`, the name, `'`
pub open spec fn invalid_name_text(name: Seq<u8>) -> Seq<u8> {
    "invalid name '".spec_bytes() + name + "'".spec_bytes()
}

/// `no tag `, then the name
pub open spec fn no_tag_text(name: Seq<u8>) -> Seq<u8> {
    "no tag ".spec_bytes() + name
}

/// `no branch `, then the name
pub open spec fn no_branch_text(name: Seq<u8>) -> Seq<u8> {
    "no branch ".spec_bytes() + name
}

/// `cannot delete detatched symbolic-ref '`, the name, `'`
pub open spec fn detached_text(name: Seq<u8>) -> Seq<u8> {
    "cannot delete detatched symbolic-ref '".spec_bytes() + name + "'".spec_bytes()
}

/// `existing value '`, the value, `' for refs/`, the reference,
/// ` doesn't match expected value '`, the expected value, `'`
pub open spec fn cas_text(existing: Seq<u8>, git_ref: Seq<u8>, expected: Seq<u8>) -> Seq<u8> {
    "existing value '".spec_bytes() + existing + "' for refs/".spec_bytes() + git_ref
        + " doesn't match expected value '".spec_bytes() + expected + "'".spec_bytes()
}

fn invalid_name(name: &[u8]) -> (e: RustGitError)
    ensures
        e.kind == GitErrorKind::InvalidName,
        e.says(invalid_name_text(name@)),
{
    RustGitError::framed(GitErrorKind::InvalidName, "invalid name '", name, "'")
}

impl GitRefs {
    /// The folders are those of the repository directory.
    pub open spec fn wf(&self) -> bool {
        &&& self.refs_dir@ == joined(self.git_dir@, refs_folder())
        &&& self.heads_dir@ == joined(self.refs_dir@, heads_folder())
        &&& self.tags_dir@ == joined(self.refs_dir@, tags_folder())
    }

    /// The reference store of the repository directory `git_dir`.
    pub fn new(git_dir: &[u8]) -> (refs: GitRefs)
        ensures
            refs.wf(),
            refs.git_dir@ == git_dir@,
    {
        proof {
            reveal_strlit("refs");
            reveal_strlit("heads");
            reveal_strlit("tags");
        }
        let refs_name = ascii_bytes("refs");
        let heads_name = ascii_bytes("heads");
        let tags_name = ascii_bytes("tags");
        assert(refs_name@ =~= refs_folder());
        assert(heads_name@ =~= heads_folder());
        assert(tags_name@ =~= tags_folder());
        let refs_dir = join_paths(git_dir, refs_name);
        let heads_dir = join_paths(refs_dir.as_slice(), heads_name);
        let tags_dir = join_paths(refs_dir.as_slice(), tags_name);
        GitRefs { git_dir: to_vec(git_dir), refs_dir, heads_dir, tags_dir }
    }

    /// The value of a reference, given its file if it has one.
    pub fn try_read_ref(file: Option<&[u8]>) -> (r: Option<Vec<u8>>)
        ensures
            match (file, r) {
                (None, None) => true,
                (Some(contents), Some(v)) => v@ == trimmed(contents@),
                _ => false,
            },
    {
        match file {
            None => None,
            Some(contents) => Some(trim(contents)),
        }
    }

    /// The write that gives the reference at `ref_path` the value
    /// `new_value`.
    pub fn write_ref(ref_path: &[u8], new_value: &[u8]) -> (w: RefWrite)
        ensures
            w.path@ == ref_path@,
            w.value@ == new_value@,
    {
        RefWrite {
            path: to_vec(ref_path),
            value: to_vec(new_value),
        }
    }

    /// Compare-and-set: the write that gives the reference `git_ref` under
    /// `refs` the value `new_value`, where `old_value` is not given or is
    /// the current value (an absent reference counting as the empty value);
    /// else a mismatch.
    pub fn update_ref(
        &self,
        git_ref: &[u8],
        new_value: &[u8],
        old_value: Option<&[u8]>,
        current: Option<&[u8]>,
    ) -> (r: Result<RefWrite, RustGitError>)
        ensures
            match r {
                Ok(w) => {
                    &&& cas_allows(opt_view(current), opt_view(old_value))
                    &&& w.path@ == joined(self.refs_dir@, git_ref@)
                    &&& w.value@ == new_value@
                },
                Err(e) => !cas_allows(opt_view(current), opt_view(old_value)) && e.kind
                    == GitErrorKind::CasMismatch && e.says(
                    cas_text(held(opt_view(current)), git_ref@, opt_view(old_value)->0),
                ),
            },
    {
        let ref_path = join_paths(self.refs_dir.as_slice(), git_ref);
        match old_value {
            Some(expected) => {
                let empty: Vec<u8> = Vec::new();
                let existing: &[u8] = match current {
                    Some(c) => c,
                    None => empty.as_slice(),
                };
                if !bytes_eq(expected, existing) {
                    assert(empty@ =~= Seq::<u8>::empty());
                    return Err(cas_mismatch(existing, git_ref, expected));
                }
                assert(empty@ =~= Seq::<u8>::empty());
                Ok(Self::write_ref(ref_path.as_slice(), new_value))
            },
            None => Ok(Self::write_ref(ref_path.as_slice(), new_value)),
        }
    }

    /// What a symbolic reference says, given its file if it has one: the
    /// name after `ref: `, or else the contents as a detached id.
    pub fn get_symbolic_ref(file: Option<&[u8]>) -> (r: Option<SymbolicRef>)
        ensures
            match (file, r) {
                (None, None) => true,
                (Some(contents), Some(SymbolicRef::Ref(name))) => starts_with(
                    contents@,
                    symbolic_mark(),
                ) && name@ == trimmed(contents@.skip(5)),
                (Some(contents), Some(SymbolicRef::Detached(id))) => !starts_with(
                    contents@,
                    symbolic_mark(),
                ) && id@ == trimmed(contents@),
                _ => false,
            },
    {
        match file {
            None => None,
            Some(contents) => {
                if has_prefix(contents, symbolic_mark_bytes()) {
                    let rest = &contents[5..contents.len()];
                    assert(rest@ =~= contents@.skip(5));
                    Some(SymbolicRef::Ref(trim(rest)))
                } else {
                    Some(SymbolicRef::Detached(trim(contents)))
                }
            },
        }
    }

    /// The write that makes the symbolic reference `ref_name` point to
    /// `new_value`.
    pub fn update_symbolic_ref(&self, ref_name: &[u8], new_value: &[u8]) -> (w: RefWrite)
        ensures
            w.path@ == joined(self.git_dir@, ref_name@),
            w.value@ == symbolic_mark() + new_value@,
    {
        let mut value: Vec<u8> = Vec::new();
        value.extend_from_slice(symbolic_mark_bytes());
        value.extend_from_slice(new_value);
        RefWrite { path: join_paths(self.git_dir.as_slice(), ref_name), value }
    }

    /// The file to remove in order to delete the symbolic reference
    /// `ref_name`, given its file if it has one: none where it has no file,
    /// and a refusal where it is detached.
    pub fn delete_symbolic_ref(&self, ref_name: &[u8], file: Option<&[u8]>) -> (r: Result<
        Option<Vec<u8>>,
        RustGitError,
    >)
        ensures
            match (file, r) {
                (None, Ok(None)) => true,
                (Some(contents), Ok(Some(path))) => starts_with(contents@, symbolic_mark())
                    && path@ == joined(self.git_dir@, ref_name@),
                (Some(contents), Err(e)) => !starts_with(contents@, symbolic_mark()) && e.kind
                    == GitErrorKind::DetachedHead && e.says(detached_text(ref_name@)),
                _ => false,
            },
    {
        match file {
            None => Ok(None),
            Some(contents) => {
                if has_prefix(contents, symbolic_mark_bytes()) {
                    Ok(Some(join_paths(self.git_dir.as_slice(), ref_name)))
                } else {
                    Err(
                        RustGitError::framed(
                            GitErrorKind::DetachedHead,
                            "cannot delete detatched symbolic-ref '",
                            ref_name,
                            "'",
                        ),
                    )
                }
            },
        }
    }

    /// The file of the tag `tag_name`.
    pub fn tag_path(&self, tag_name: &[u8]) -> (path: Vec<u8>)
        ensures
            path@ == joined(self.tags_dir@, tag_name@),
    {
        join_paths(self.tags_dir.as_slice(), tag_name)
    }

    /// The file of the branch `branch_name`.
    pub fn branch_path(&self, branch_name: &[u8]) -> (path: Vec<u8>)
        ensures
            path@ == joined(self.heads_dir@, branch_name@),
    {
        join_paths(self.heads_dir.as_slice(), branch_name)
    }

    /// The value of a tag, given its file if it has one.
    pub fn try_read_tag(file: Option<&[u8]>) -> (r: Option<Vec<u8>>)
        ensures
            match (file, r) {
                (None, None) => true,
                (Some(contents), Some(v)) => v@ == trimmed(contents@),
                _ => false,
            },
    {
        Self::try_read_ref(file)
    }

    /// The reference that HEAD points to, given the file of HEAD if there
    /// is one: none where there is no file, and a refusal where HEAD is
    /// detached.
    pub fn head_branch(head_file: Option<&[u8]>) -> (r: Result<Option<Vec<u8>>, RustGitError>)
        ensures
            match (head_file, r) {
                (None, Ok(None)) => true,
                (Some(contents), Ok(Some(name))) => starts_with(contents@, symbolic_mark())
                    && name@ == trimmed(contents@.skip(5)),
                (Some(contents), Err(e)) => !starts_with(contents@, symbolic_mark()) && e.kind
                    == GitErrorKind::DetachedHead && e.error@ == "HEAD is in detatched state"@,
                _ => false,
            },
    {
        match Self::get_symbolic_ref(head_file) {
            None => Ok(None),
            Some(SymbolicRef::Ref(name)) => Ok(Some(name)),
            Some(SymbolicRef::Detached(_)) => Err(
                RustGitError::with_kind(GitErrorKind::DetachedHead, "HEAD is in detatched state"),
            ),
        }
    }

    /// The reference that HEAD points to and the id it holds, given the
    /// file of HEAD and the file of that reference, where they exist. A
    /// branch without commits has no id yet.
    pub fn get_head_ref(head_file: Option<&[u8]>, branch_file: Option<&[u8]>) -> (r: Result<
        (Option<Vec<u8>>, Option<GitObjectId>),
        RustGitError,
    >)
        ensures
            match (head_file, r) {
                (None, Ok((None, None))) => true,
                (Some(contents), Ok((Some(name), id))) => {
                    &&& starts_with(contents@, symbolic_mark())
                    &&& name@ == trimmed(contents@.skip(5))
                    &&& match (branch_file, id) {
                        (None, None) => true,
                        (Some(held), Some(id)) => id@ == trimmed(held@),
                        _ => false,
                    }
                },
                (Some(contents), Err(e)) => !starts_with(contents@, symbolic_mark()) && e.kind
                    == GitErrorKind::DetachedHead && e.error@ == "HEAD is in detatched state"@,
                _ => false,
            },
    {
        match Self::head_branch(head_file) {
            Err(e) => Err(e),
            Ok(None) => Ok((None, None)),
            Ok(Some(name)) => {
                let id = match Self::try_read_ref(branch_file) {
                    Some(v) => Some(GitObjectId::from_bytes(v)),
                    None => None,
                };
                Ok((Some(name), id))
            },
        }
    }

    /// The write that makes the tag `tag_name` point to the object. A name
    /// that a tag may not have is refused.
    pub fn create_tag(&self, tag_name: &[u8], object_id: &GitObjectId) -> (r: Result<
        RefWrite,
        RustGitError,
    >)
        ensures
            match r {
                Ok(w) => is_valid_name(tag_name@) && w.path@ == joined(self.tags_dir@, tag_name@)
                    && w.value@ == object_id@,
                Err(e) => !is_valid_name(tag_name@) && e.kind == GitErrorKind::InvalidName && e.says(
                    invalid_name_text(tag_name@),
                ),
            },
    {
        if !check_name(tag_name) {
            return Err(invalid_name(tag_name));
        }
        let tag_path = self.tag_path(tag_name);
        Ok(Self::write_ref(tag_path.as_slice(), object_id.as_bytes()))
    }

    /// The file to remove in order to delete the tag `tag_name`, given
    /// whether the tag exists.
    pub fn delete_tag(&self, tag_name: &[u8], exists: bool) -> (r: Result<Vec<u8>, RustGitError>)
        ensures
            match r {
                Ok(path) => is_valid_name(tag_name@) && exists && path@ == joined(
                    self.tags_dir@,
                    tag_name@,
                ),
                Err(e) => if !is_valid_name(tag_name@) {
                    e.kind == GitErrorKind::InvalidName && e.says(invalid_name_text(tag_name@))
                } else {
                    !exists && e.kind == GitErrorKind::UnknownRef && e.says(no_tag_text(tag_name@))
                },
            },
    {
        if !check_name(tag_name) {
            return Err(invalid_name(tag_name));
        }
        if !exists {
            return Err(RustGitError::prefixed(GitErrorKind::UnknownRef, "no tag ", tag_name));
        }
        Ok(self.tag_path(tag_name))
    }

    /// The write that makes the branch `ref_name` point to the object. A
    /// name that a branch may not have is refused.
    pub fn create_ref(&self, ref_name: &[u8], object_id: &GitObjectId) -> (r: Result<
        RefWrite,
        RustGitError,
    >)
        ensures
            match r {
                Ok(w) => is_valid_name(ref_name@) && w.path@ == joined(self.heads_dir@, ref_name@)
                    && w.value@ == object_id@,
                Err(e) => !is_valid_name(ref_name@) && e.kind == GitErrorKind::InvalidName && e.says(
                    invalid_name_text(ref_name@),
                ),
            },
    {
        if !check_name(ref_name) {
            return Err(invalid_name(ref_name));
        }
        let path = self.branch_path(ref_name);
        Ok(Self::write_ref(path.as_slice(), object_id.as_bytes()))
    }

    /// The file to remove in order to delete the branch `ref_name`, given
    /// whether the branch exists.
    pub fn delete_ref(&self, ref_name: &[u8], exists: bool) -> (r: Result<Vec<u8>, RustGitError>)
        ensures
            match r {
                Ok(path) => is_valid_name(ref_name@) && exists && path@ == joined(
                    self.heads_dir@,
                    ref_name@,
                ),
                Err(e) => if !is_valid_name(ref_name@) {
                    e.kind == GitErrorKind::InvalidName && e.says(invalid_name_text(ref_name@))
                } else {
                    !exists && e.kind == GitErrorKind::UnknownRef && e.says(
                        no_branch_text(ref_name@),
                    )
                },
            },
    {
        if !check_name(ref_name) {
            return Err(invalid_name(ref_name));
        }
        if !exists {
            return Err(RustGitError::prefixed(GitErrorKind::UnknownRef, "no branch ", ref_name));
        }
        Ok(self.branch_path(ref_name))
    }

    /// What renaming a branch takes: the file of the reference
    /// `old_ref_name` moves to the file of the branch `new_ref_name`, and
    /// HEAD is pointed at the branch under its new name.
    pub fn rename_ref(&self, old_ref_name: &[u8], new_ref_name: &[u8]) -> (r: Result<
        (Vec<u8>, Vec<u8>, RefWrite),
        RustGitError,
    >)
        ensures
            match r {
                Ok((from, to, head)) => {
                    &&& is_valid_name(new_ref_name@)
                    &&& from@ == joined(self.git_dir@, old_ref_name@)
                    &&& to@ == joined(self.heads_dir@, new_ref_name@)
                    &&& head.path@ == joined(self.git_dir@, head_name())
                    &&& head.value@ == symbolic_mark() + branch_ref(new_ref_name@)
                },
                Err(e) => !is_valid_name(new_ref_name@) && e.kind == GitErrorKind::InvalidName
                    && e.says(invalid_name_text(new_ref_name@)),
            },
    {
        if !check_name(new_ref_name) {
            return Err(invalid_name(new_ref_name));
        }
        Ok(
            (
                join_paths(self.git_dir.as_slice(), old_ref_name),
                self.branch_path(new_ref_name),
                self.point_head_at(new_ref_name),
            ),
        )
    }

    /// The write that points HEAD at the branch `branch_name`.
    pub fn point_head_at(&self, branch_name: &[u8]) -> (w: RefWrite)
        ensures
            w.path@ == joined(self.git_dir@, head_name()),
            w.value@ == symbolic_mark() + branch_ref(branch_name@),
    {
        proof {
            reveal_strlit("HEAD");
        }
        let head = ascii_bytes("HEAD");
        assert(head@ =~= head_name());
        let mut target: Vec<u8> = Vec::new();
        target.extend_from_slice(heads_prefix_bytes());
        target.extend_from_slice(branch_name);
        self.update_symbolic_ref(head, target.as_slice())
    }
}

/// The value of an optional byte string.
pub open spec fn opt_view(o: Option<&[u8]>) -> Option<Seq<u8>> {
    match o {
        Some(s) => Some(s@),
        None => None,
    }
}

fn cas_mismatch(existing: &[u8], git_ref: &[u8], expected: &[u8]) -> (e: RustGitError)
    ensures
        e.kind == GitErrorKind::CasMismatch,
        e.says(cas_text(existing@, git_ref@, expected@)),
{
    let mut text: Vec<u8> = Vec::new();
    text.extend_from_slice("existing value '".as_bytes());
    text.extend_from_slice(existing);
    text.extend_from_slice("' for refs/".as_bytes());
    text.extend_from_slice(git_ref);
    text.extend_from_slice(" doesn't match expected value '".as_bytes());
    text.extend_from_slice(expected);
    text.extend_from_slice("'".as_bytes());
    assert(text@ =~= cas_text(existing@, git_ref@, expected@));
    RustGitError::from_text(GitErrorKind::CasMismatch, text.as_slice())
}

} // verus!
