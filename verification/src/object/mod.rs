//! The four kinds of object and their canonical text.

pub mod blob;
pub mod commit;
pub mod id;
pub mod identity;
pub mod raw;
pub mod tag;
pub mod tree;

use crate::error::GitErrorKind;
use crate::error::RustGitError;
use crate::object::blob::blob_parse;
use crate::object::blob::blob_text;
use crate::object::blob::GitBlobObject;
use crate::object::commit::commit_fault;
use crate::object::commit::commit_fits;
use crate::object::commit::commit_parse;
use crate::object::commit::commit_text;
use crate::object::commit::lemma_commit_roundtrip;
use crate::object::commit::CommitView;
use crate::object::commit::GitCommitObject;
use crate::object::raw::object_id_of;
use crate::object::raw::GitObjectRaw;
use crate::object::raw::GitObjectType;
use crate::object::tag::lemma_tag_roundtrip;
use crate::object::tag::tag_fault;
use crate::object::tag::tag_fits;
use crate::object::tag::tag_parse;
use crate::object::tag::tag_text;
use crate::object::tag::GitTagObject;
use crate::object::tag::TagView;
use crate::object::tree::bad_line;
use crate::object::tree::entry_fault;
use crate::object::tree::lemma_tree_roundtrip;
use crate::object::tree::tree_fits;
use crate::object::tree::tree_parse;
use crate::object::tree::tree_text;
use crate::object::tree::GitTreeObject;
use crate::object::tree::TreeEntryView;
use vstd::prelude::*;

verus! {

/// An object of one of the four kinds.
#[derive(Debug, Clone, PartialEq, Eq)]
pub enum GitObject {
    Blob(GitBlobObject),
    Tree(GitTreeObject),
    Commit(GitCommitObject),
    Tag(GitTagObject),
}

/// The mathematical value of an object.
pub enum ObjectView {
    Blob(Seq<u8>),
    Tree(Seq<TreeEntryView>),
    Commit(CommitView),
    Tag(TagView),
}

impl View for GitObject {
    type V = ObjectView;

    open spec fn view(&self) -> ObjectView {
        match *self {
            GitObject::Blob(b) => ObjectView::Blob(b@),
            GitObject::Tree(t) => ObjectView::Tree(t@),
            GitObject::Commit(c) => ObjectView::Commit(c@),
            GitObject::Tag(t) => ObjectView::Tag(t@),
        }
    }
}

/// The kind of an object.
pub open spec fn object_kind(o: ObjectView) -> GitObjectType {
    match o {
        ObjectView::Blob(_) => GitObjectType::Blob,
        ObjectView::Tree(_) => GitObjectType::Tree,
        ObjectView::Commit(_) => GitObjectType::Commit,
        ObjectView::Tag(_) => GitObjectType::Tag,
    }
}

/// The payload of an object.
pub open spec fn object_text(o: ObjectView) -> Seq<u8> {
    match o {
        ObjectView::Blob(b) => blob_text(b),
        ObjectView::Tree(t) => tree_text(t),
        ObjectView::Commit(c) => commit_text(c),
        ObjectView::Tag(t) => tag_text(t),
    }
}

/// The id of an object: that of its kind and payload.
pub open spec fn object_id(o: ObjectView) -> Seq<u8> {
    object_id_of(object_kind(o), object_text(o))
}

/// What a payload states as an object of the given kind.
pub open spec fn object_parse(kind: GitObjectType, s: Seq<u8>) -> Result<ObjectView, GitErrorKind> {
    match kind {
        GitObjectType::Blob => Ok(ObjectView::Blob(blob_parse(s))),
        GitObjectType::Tree => match tree_parse(s) {
            Ok(t) => Ok(ObjectView::Tree(t)),
            Err(k) => Err(k),
        },
        GitObjectType::Commit => match commit_parse(s) {
            Ok(c) => Ok(ObjectView::Commit(c)),
            Err(k) => Err(k),
        },
        GitObjectType::Tag => match tag_parse(s) {
            Ok(t) => Ok(ObjectView::Tag(t)),
            Err(k) => Err(k),
        },
    }
}

/// The error says why the payload states no object of the kind: what the
/// reading of that kind says.
pub open spec fn object_fault(e: RustGitError, kind: GitObjectType, s: Seq<u8>) -> bool {
    match kind {
        GitObjectType::Blob => true,
        GitObjectType::Tree => entry_fault(e, bad_line(s)),
        GitObjectType::Commit => commit_fault(e, s),
        GitObjectType::Tag => tag_fault(e, s),
    }
}

/// The objects that their text can carry. Every blob is one.
pub open spec fn object_fits(o: ObjectView) -> bool {
    match o {
        ObjectView::Blob(_) => true,
        ObjectView::Tree(t) => tree_fits(t),
        ObjectView::Commit(c) => commit_fits(c),
        ObjectView::Tag(t) => tag_fits(t),
    }
}

/// The payload of an object that fits is read back as that object.
pub proof fn lemma_object_roundtrip(o: ObjectView)
    requires
        object_fits(o),
    ensures
        object_parse(object_kind(o), object_text(o)) == Ok::<_, GitErrorKind>(o),
{
    match o {
        ObjectView::Blob(_) => {},
        ObjectView::Tree(t) => {
            lemma_tree_roundtrip(t);
        },
        ObjectView::Commit(c) => {
            lemma_commit_roundtrip(c);
        },
        ObjectView::Tag(t) => {
            lemma_tag_roundtrip(t);
        },
    }
}

/// Objects of equal value have the same id.
pub proof fn lemma_object_id_determined(a: GitObject, b: GitObject)
    requires
        a@ == b@,
    ensures
        object_id(a@) == object_id(b@),
{
}

impl GitObject {
    /// The object that a raw object holds. A payload that is not of the
    /// kind that the header names is refused.
    pub fn try_from(value: GitObjectRaw) -> (r: Result<GitObject, RustGitError>)
        ensures
            match r {
                Ok(o) => object_parse(value.object.header.obj_type, value.object.content@) == Ok::<
                    _,
                    GitErrorKind,
                >(o@),
                Err(e) => object_parse(value.object.header.obj_type, value.object.content@) is Err
                    && e.kind == GitErrorKind::TypeParseError && object_fault(
                    e,
                    value.object.header.obj_type,
                    value.object.content@,
                ),
            },
    {
        let content = value.object.content.as_slice();
        let parsed = match value.object.header.obj_type {
            GitObjectType::Commit => match GitCommitObject::from_bytes(content) {
                Ok(c) => Ok(GitObject::Commit(c)),
                Err(e) => Err(e),
            },
            GitObjectType::Tree => match GitTreeObject::from_bytes(content) {
                Ok(t) => Ok(GitObject::Tree(t)),
                Err(e) => Err(e),
            },
            GitObjectType::Blob => match GitBlobObject::from_bytes(content) {
                Ok(b) => Ok(GitObject::Blob(b)),
                Err(e) => Err(e),
            },
            GitObjectType::Tag => match GitTagObject::from_bytes(content) {
                Ok(t) => Ok(GitObject::Tag(t)),
                Err(e) => Err(e),
            },
        };
        match parsed {
            Ok(o) => Ok(o),
            Err(e) => Err(RustGitError { kind: GitErrorKind::TypeParseError, error: e.error }),
        }
    }

    /// The object as a raw object with its id.
    pub fn to_raw(&self) -> (r: Result<GitObjectRaw, RustGitError>)
        ensures
            r is Ok,
            r->Ok_0.wf(),
            r->Ok_0.id.is_valid(),
            r->Ok_0.id@ == object_id(self@),
            r->Ok_0.object.header.obj_type == object_kind(self@),
            r->Ok_0.object.content@ == object_text(self@),
    {
        match self {
            GitObject::Blob(b) => b.to_raw(),
            GitObject::Tree(t) => t.to_raw(),
            GitObject::Commit(c) => c.to_raw(),
            GitObject::Tag(t) => t.to_raw(),
        }
    }
}

impl GitObjectRaw {
    /// The raw object of an object, with its id.
    pub fn try_from(value: GitObject) -> (r: Result<GitObjectRaw, RustGitError>)
        ensures
            r is Ok,
            r->Ok_0.wf(),
            r->Ok_0.id.is_valid(),
            r->Ok_0.id@ == object_id(value@),
            r->Ok_0.object.header.obj_type == object_kind(value@),
            r->Ok_0.object.content@ == object_text(value@),
    {
        value.to_raw()
    }
}

} // verus!
