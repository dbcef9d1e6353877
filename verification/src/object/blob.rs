//! Blobs: the bytes of a file, stored as they are.

use crate::error::RustGitError;
use crate::object::raw::GitObjectRaw;
use crate::object::raw::GitObjectType;
use vstd::prelude::*;

verus! {

/// The contents of a file.
#[derive(Debug, Clone, PartialEq, Eq)]
pub struct GitBlobObject {
    pub contents: Vec<u8>,
}

impl View for GitBlobObject {
    type V = Seq<u8>;

    open spec fn view(&self) -> Seq<u8> {
        self.contents@
    }
}

/// The payload of a blob: its contents as they are.
pub open spec fn blob_text(blob: Seq<u8>) -> Seq<u8> {
    blob
}

/// The blob that a payload holds: every payload is one.
pub open spec fn blob_parse(s: Seq<u8>) -> Seq<u8> {
    s
}

/// A blob is read back from its payload as it was.
pub proof fn lemma_blob_roundtrip(blob: Seq<u8>)
    ensures
        blob_parse(blob_text(blob)) == blob,
{
}

impl GitBlobObject {
    /// The blob whose payload is `s`: every payload is a blob.
    pub fn from_bytes(s: &[u8]) -> (r: Result<GitBlobObject, RustGitError>)
        ensures
            r is Ok,
            r->Ok_0@ == blob_parse(s@),
    {
        let mut contents: Vec<u8> = Vec::new();
        contents.extend_from_slice(s);
        Ok(GitBlobObject { contents })
    }

    /// The payload of the blob: its contents.
    pub fn to_bytes(&self) -> (v: Vec<u8>)
        ensures
            v@ == blob_text(self@),
    {
        self.contents.clone()
    }

    /// The blob as a raw object with its id.
    pub fn to_raw(&self) -> (r: Result<GitObjectRaw, RustGitError>)
        ensures
            r is Ok,
            r->Ok_0.wf(),
            r->Ok_0.id.is_valid(),
            r->Ok_0.object.header.obj_type == GitObjectType::Blob,
            r->Ok_0.object.content@ == blob_text(self@),
    {
        GitObjectRaw::new(GitObjectType::Blob, self.to_bytes())
    }
}

} // verus!
