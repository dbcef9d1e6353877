//! The object store: where loose objects lie and what their files hold.

use crate::bytes::ascii_bytes;
use crate::compress::zlib_deflate;
use crate::compress::zlib_deflated;
use crate::compress::zlib_inflate;
use crate::compress::zlib_inflated;
use crate::error::GitErrorKind;
use crate::error::RustGitError;
use crate::object::id::GitObjectId;
use crate::object::object_id;
use crate::object::object_kind;
use crate::object::object_text;
use crate::object::raw::contents_parse;
use crate::object::raw::contents_fault;
use crate::object::raw::contents_text;
use crate::object::raw::lemma_contents_roundtrip;
use crate::object::raw::object_id_of;
use crate::object::raw::stored_form;
use crate::object::raw::GitObjectContents;
use crate::object::raw::GitObjectHeader;
use crate::object::raw::GitObjectRaw;
use crate::object::raw::GitObjectType;
use crate::object::GitObject;
use crate::path::join_paths;
use crate::path::joined;
use vstd::prelude::*;
use vstd::string::*;

verus! {

/// `objects`
pub open spec fn objects_folder() -> Seq<u8> {
    seq!['o' as u8, 'b' as u8, 'j' as u8, 'e' as u8, 'c' as u8, 't' as u8, 's' as u8]
}

/// The object store of a repository.
#[derive(Debug, Clone, PartialEq, Eq)]
pub struct GitObjectStore {
    /// The directory that holds the objects.
    pub obj_dir: Vec<u8>,
}

/// The file of a loose object: the directory it lies in, its name, and the
/// bytes it holds.
#[derive(Debug, Clone, PartialEq, Eq)]
pub struct LooseObject {
    pub folder: Vec<u8>,
    pub file_name: Vec<u8>,
    pub bytes: Vec<u8>,
}

/// What the file of a loose object holds: the failure `Corrupt` where it is
/// no zlib stream, else what its stored form states.
pub open spec fn loose_parse(file: Seq<u8>) -> Result<(GitObjectHeader, Seq<u8>), GitErrorKind> {
    match zlib_inflated(file) {
        None => Err(GitErrorKind::Corrupt),
        Some(stored) => contents_parse(stored),
    }
}

/// What is said where an object cannot be stored.
pub const STORE_ERR: &'static str = "failed to compress object";

/// What is said of a file that cannot be read as an object: it is no zlib
/// stream, or its stored form is at fault.
pub open spec fn loose_fault(e: RustGitError, file: Seq<u8>) -> bool {
    match zlib_inflated(file) {
        None => e.error@ == "object file is not a zlib stream"@,
        Some(stored) => contents_fault(e, stored),
    }
}

/// The object of the given kind and payload can be stored: the compression
/// of its stored form comes to a stream.
pub open spec fn can_store(kind: GitObjectType, content: Seq<u8>) -> bool {
    zlib_deflated(stored_form(kind, content)) is Some
}

impl LooseObject {
    /// The file is that of the object of the given kind and payload in the
    /// store at `obj_dir`: it lies where the id of the object says, holds
    /// the compressed stored form, and reads back as that object.
    pub open spec fn is_file_of(&self, obj_dir: Seq<u8>, kind: GitObjectType, content: Seq<u8>) -> bool {
        &&& self.folder@ == joined(obj_dir, object_id_of(kind, content).take(2))
        &&& self.file_name@ == object_id_of(kind, content).skip(2)
        &&& zlib_deflated(stored_form(kind, content)) == Some(self.bytes@)
        &&& loose_parse(self.bytes@) == Ok::<_, GitErrorKind>(
            (GitObjectHeader { obj_type: kind, size: content.len() as usize }, content),
        )
    }
}

/// The files of a store: what lies under each directory and name.
pub type StoreFiles = Map<(Seq<u8>, Seq<u8>), Seq<u8>>;

/// The files of a store after a loose object was written.
pub open spec fn store_after_write(files: StoreFiles, object: LooseObject) -> StoreFiles {
    files.insert((object.folder@, object.file_name@), object.bytes@)
}

/// Writing an object twice leaves the store as the first write left it:
/// the two files lie in the same place and hold the same bytes.
pub proof fn lemma_write_twice(
    files: StoreFiles,
    first: LooseObject,
    second: LooseObject,
    obj_dir: Seq<u8>,
    kind: GitObjectType,
    content: Seq<u8>,
)
    requires
        first.is_file_of(obj_dir, kind, content),
        second.is_file_of(obj_dir, kind, content),
    ensures
        store_after_write(store_after_write(files, first), second) == store_after_write(files, first),
{
    assert(store_after_write(store_after_write(files, first), second) =~= store_after_write(
        files,
        first,
    ));
}

impl GitObjectStore {
    /// The store of the repository directory `git_dir`.
    pub fn new(git_dir: &[u8]) -> (store: GitObjectStore)
        ensures
            store.obj_dir@ == joined(git_dir@, objects_folder()),
    {
        proof {
            reveal_strlit("objects");
        }
        let folder = ascii_bytes("objects");
        assert(folder@ =~= objects_folder());
        GitObjectStore { obj_dir: join_paths(git_dir, folder) }
    }

    /// Where the object with the given id lies: a directory named by the
    /// first two characters of the id, and a file named by the rest.
    pub fn loose_object_path(&self, obj_id: &GitObjectId) -> (r: (Vec<u8>, Vec<u8>))
        requires
            obj_id@.len() >= 2,
        ensures
            r.0@ == joined(self.obj_dir@, obj_id@.take(2)),
            r.1@ == obj_id@.skip(2),
    {
        let (folder_name, file_name) = obj_id.folder_and_file_name();
        (join_paths(self.obj_dir.as_slice(), folder_name.as_slice()), file_name)
    }

    /// The file of the object, given what the compression of its stored
    /// form came to. Without a compressed form there is no file.
    pub fn stored_object(&self, obj: &GitObjectRaw, compressed: Option<Vec<u8>>) -> (r: Result<
        LooseObject,
        RustGitError,
    >)
        requires
            obj.id@.len() >= 2,
        ensures
            match (compressed, r) {
                (Some(bytes), Ok(file)) => {
                    &&& file.folder@ == joined(self.obj_dir@, obj.id@.take(2))
                    &&& file.file_name@ == obj.id@.skip(2)
                    &&& file.bytes@ == bytes@
                },
                (None, Err(e)) => e.kind == GitErrorKind::Io && e.error@ == STORE_ERR@,
                _ => false,
            },
    {
        match compressed {
            Some(bytes) => {
                let (folder, file_name) = self.loose_object_path(&obj.id);
                Ok(LooseObject { folder, file_name, bytes })
            },
            None => Err(RustGitError::with_kind(GitErrorKind::Io, STORE_ERR)),
        }
    }

    /// The file to write for a raw object: it lies where the id says, and
    /// holds the compressed stored form, which reads back as the object.
    /// It fails where the compression does, and only there.
    pub fn write_raw_object(&self, obj: &GitObjectRaw) -> (r: Result<LooseObject, RustGitError>)
        requires
            obj.id@.len() >= 2,
        ensures
            match r {
                Ok(file) => {
                    &&& file.folder@ == joined(self.obj_dir@, obj.id@.take(2))
                    &&& file.file_name@ == obj.id@.skip(2)
                    &&& zlib_deflated(contents_text(obj.object.header, obj.object.content@))
                        == Some(file.bytes@)
                    &&& obj.object.header.size == obj.object.content@.len() ==> loose_parse(
                        file.bytes@,
                    ) == Ok::<_, GitErrorKind>((obj.object.header, obj.object.content@))
                    &&& obj.wf() ==> file.is_file_of(
                        self.obj_dir@,
                        obj.object.header.obj_type,
                        obj.object.content@,
                    )
                },
                Err(e) => e.kind == GitErrorKind::Io && e.error@ == STORE_ERR@ && zlib_deflated(
                    contents_text(obj.object.header, obj.object.content@),
                ) is None,
            },
    {
        let stored = obj.object.to_bytes();
        let compressed = zlib_deflate(stored.as_slice());
        proof {
            if obj.object.header.size == obj.object.content@.len() {
                lemma_contents_roundtrip(obj.object.header, obj.object.content@);
            }
        }
        self.stored_object(obj, compressed)
    }

    /// The id of an object and the file to write for it. It fails where
    /// the object cannot be stored, and only there.
    pub fn write_object(&self, obj: &GitObject) -> (r: Result<(GitObjectId, LooseObject), RustGitError>)
        ensures
            match r {
                Ok((id, file)) => {
                    &&& id@ == object_id(obj@)
                    &&& id.is_valid()
                    &&& file.is_file_of(self.obj_dir@, object_kind(obj@), object_text(obj@))
                },
                Err(e) => e.kind == GitErrorKind::Io && e.error@ == STORE_ERR@ && !can_store(
                    object_kind(obj@),
                    object_text(obj@),
                ),
            },
    {
        let raw = match obj.to_raw() {
            Ok(raw) => raw,
            Err(e) => {
                return Err(RustGitError { kind: GitErrorKind::Io, error: e.error });
            },
        };
        match self.write_raw_object(&raw) {
            Ok(file) => Ok((raw.id, file)),
            Err(e) => Err(e),
        }
    }

    /// What was read of an object, given what the decompression of its file
    /// came to.
    pub fn inflated_object(inflated: Option<Vec<u8>>) -> (r: Result<GitObjectContents, RustGitError>)
        ensures
            match (inflated, r) {
                (None, Err(e)) => e.kind == GitErrorKind::Corrupt && e.error@
                    == "object file is not a zlib stream"@,
                (Some(stored), Ok(c)) => contents_parse(stored@) is Ok && c.holds(
                    contents_parse(stored@)->Ok_0,
                ),
                (Some(stored), Err(e)) => contents_parse(stored@) == Err::<
                    (GitObjectHeader, Seq<u8>),
                    _,
                >(e.kind) && contents_fault(e, stored@),
                _ => false,
            },
    {
        match inflated {
            None => Err(RustGitError::with_kind(GitErrorKind::Corrupt, "object file is not a zlib stream")),
            Some(stored) => GitObjectContents::from_bytes(stored.as_slice()),
        }
    }

    /// Reads an object from its file: `None` where there is no file.
    pub fn read_object(file: Option<&[u8]>) -> (r: Result<Option<GitObjectContents>, RustGitError>)
        ensures
            match (file, r) {
                (None, Ok(None)) => true,
                (Some(bytes), Ok(Some(c))) => loose_parse(bytes@) is Ok && c.holds(
                    loose_parse(bytes@)->Ok_0,
                ),
                (Some(bytes), Err(e)) => loose_parse(bytes@) == Err::<(GitObjectHeader, Seq<u8>), _>(
                    e.kind,
                ) && loose_fault(e, bytes@),
                _ => false,
            },
    {
        match file {
            None => Ok(None),
            Some(bytes) => {
                match Self::inflated_object(zlib_inflate(bytes)) {
                    Ok(c) => Ok(Some(c)),
                    Err(e) => Err(e),
                }
            },
        }
    }

    /// Reads an object from its file together with its id.
    pub fn read_object_raw(obj_id: &GitObjectId, file: Option<&[u8]>) -> (r: Result<
        Option<GitObjectRaw>,
        RustGitError,
    >)
        ensures
            match (file, r) {
                (None, Ok(None)) => true,
                (Some(bytes), Ok(Some(raw))) => loose_parse(bytes@) is Ok && raw.object.holds(
                    loose_parse(bytes@)->Ok_0,
                ) && raw.id@ == obj_id@,
                (Some(bytes), Err(e)) => loose_parse(bytes@) == Err::<(GitObjectHeader, Seq<u8>), _>(
                    e.kind,
                ) && loose_fault(e, bytes@),
                _ => false,
            },
    {
        match Self::read_object(file) {
            Ok(Some(object)) => Ok(Some(GitObjectRaw { id: obj_id.duplicate(), object })),
            Ok(None) => Ok(None),
            Err(e) => Err(e),
        }
    }
}

} // verus!
