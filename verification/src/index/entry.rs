//! One entry of the index: what was known of a file when it was staged.

use crate::bytes::copy_range;
use crate::bytes::find_byte;
use crate::bytes::has_byte;
use crate::bytes::index_of;
use crate::bytes::lemma_index_of_at;
use crate::error::GitErrorKind;
use crate::error::RustGitError;
use crate::hash::hex_decodable;
use crate::hash::hex_decoded;
use crate::hash::hex_encoded;
use crate::hash::lemma_hex_decode_encode;
use crate::index::fields::be32;
use crate::index::fields::be32_bytes;
use crate::index::fields::flags_bytes;
use crate::index::fields::flags_parse;
use crate::index::fields::lemma_be32_of_bytes;
use crate::index::fields::lemma_flags_roundtrip;
use crate::index::fields::lemma_mode_roundtrip;
use crate::index::fields::lemma_timestamp_roundtrip;
use crate::index::fields::mode_fault;
use crate::index::fields::mode_bytes;
use crate::index::fields::mode_parse;
use crate::index::fields::read_u32;
use crate::index::fields::timestamp_bytes;
use crate::index::fields::timestamp_parse;
use crate::index::fields::u32_to_be;
use crate::index::fields::GitIndexFlags;
use crate::index::fields::GitIndexMode;
use crate::index::fields::GitIndexStageFlag;
use crate::index::fields::GitIndexTimestamp;
use crate::object::id::is_object_id;
use crate::object::id::GitObjectId;
use vstd::prelude::*;
use vstd::utf8::*;

verus! {

/// `std::str::from_utf8`: it succeeds on well-formed UTF-8 and on nothing
/// else.
#[verifier::external_body]
pub(crate) fn is_utf8(bytes: &[u8]) -> (r: bool)
    ensures
        r == valid_utf8(bytes@),
{
    std::str::from_utf8(bytes).is_ok()
}

/// What the file system reports of a file, as plain numbers. Signed values
/// are given by their low 64 bits.
#[derive(Debug, Clone, Copy, PartialEq, Eq)]
pub struct FileStat {
    pub ctime: u64,
    pub ctime_nsec: u64,
    pub mtime: u64,
    pub mtime_nsec: u64,
    pub dev: u64,
    pub ino: u64,
    pub uid: u64,
    pub gid: u64,
    pub size: u64,
    /// The permission bits.
    pub mode: u32,
    pub is_symlink: bool,
    pub is_dir: bool,
}

/// An entry of the index.
#[derive(Debug, Clone, PartialEq, Eq)]
pub struct GitIndexEntry {
    pub last_metadata_update: GitIndexTimestamp,
    pub last_data_update: GitIndexTimestamp,
    pub dev: u32,
    pub ino: u32,
    pub mode: GitIndexMode,
    pub uid: u32,
    pub gid: u32,
    pub file_size: u32,
    pub name: GitObjectId,
    pub flags: GitIndexFlags,
    /// The path of the file from the top of the repository, with `/`
    /// between its parts and none at either end.
    pub path_name: Vec<u8>,
}

/// The mathematical value of an entry.
pub struct EntryView {
    pub last_metadata_update: GitIndexTimestamp,
    pub last_data_update: GitIndexTimestamp,
    pub dev: u32,
    pub ino: u32,
    pub mode: GitIndexMode,
    pub uid: u32,
    pub gid: u32,
    pub file_size: u32,
    pub name: Seq<u8>,
    pub flags: GitIndexFlags,
    pub path_name: Seq<u8>,
}

impl View for GitIndexEntry {
    type V = EntryView;

    open spec fn view(&self) -> EntryView {
        EntryView {
            last_metadata_update: self.last_metadata_update,
            last_data_update: self.last_data_update,
            dev: self.dev,
            ino: self.ino,
            mode: self.mode,
            uid: self.uid,
            gid: self.gid,
            file_size: self.file_size,
            name: self.name@,
            flags: self.flags,
            path_name: self.path_name@,
        }
    }
}

/// The length that the flags record for a name of `n` bytes.
pub open spec fn recorded_length(n: int) -> int {
    if n < 0xfff {
        n
    } else {
        0xfff
    }
}

/// The number of zero bytes after a name of `n` bytes: at least one, and as
/// many as bring the entry to a multiple of eight bytes.
pub open spec fn pad_len(n: int) -> int {
    8 - (62 + n) % 8
}

/// `n` zero bytes.
pub open spec fn zeros(n: int) -> Seq<u8> {
    Seq::new(n as nat, |i: int| 0u8)
}

/// The 62 bytes of an entry that come before its name.
pub open spec fn entry_fixed(e: EntryView) -> Seq<u8> {
    timestamp_bytes(e.last_metadata_update) + timestamp_bytes(e.last_data_update) + be32_bytes(e.dev)
        + be32_bytes(e.ino) + mode_bytes(e.mode) + be32_bytes(e.uid) + be32_bytes(e.gid)
        + be32_bytes(e.file_size) + hex_decoded(e.name) + flags_bytes(e.flags)
}

/// The bytes of an entry: the fixed part, the name, the padding.
#[verifier::opaque]
pub open spec fn entry_bytes(e: EntryView) -> Seq<u8> {
    entry_fixed(e) + e.path_name + zeros(pad_len(e.path_name.len() as int))
}

/// The length of the name of the entry with which `s` begins: the recorded
/// one, or for a name recorded as 0xFFF the distance to the first zero byte.
pub open spec fn entry_path_len(s: Seq<u8>) -> int {
    let recorded = flags_parse(s.subrange(60, 62))->Ok_0.name_length;
    if recorded < 0xfff {
        recorded as int
    } else {
        index_of(s.skip(62), 0u8)
    }
}

/// The entry with which `s` begins and the number of bytes it takes, or
/// `Corrupt` where `s` is too short for it, its mode is none of the four,
/// or its name is not UTF-8.
#[verifier::opaque]
pub open spec fn entry_parse(s: Seq<u8>) -> Result<(EntryView, int), GitErrorKind> {
    if s.len() < 62 {
        Err(GitErrorKind::Corrupt)
    } else {
        let n = entry_path_len(s);
        let end = 62 + n + pad_len(n);
        let path = s.subrange(62, 62 + n);
        match mode_parse(s.subrange(24, 28)) {
            Err(k) => Err(k),
            Ok(mode) => if end > s.len() || !valid_utf8(path) {
                Err(GitErrorKind::Corrupt)
            } else {
                Ok(
                    (
                        EntryView {
                            last_metadata_update: timestamp_parse(s.subrange(0, 8))->Ok_0,
                            last_data_update: timestamp_parse(s.subrange(8, 16))->Ok_0,
                            dev: be32(s.subrange(16, 20)) as u32,
                            ino: be32(s.subrange(20, 24)) as u32,
                            mode,
                            uid: be32(s.subrange(28, 32)) as u32,
                            gid: be32(s.subrange(32, 36)) as u32,
                            file_size: be32(s.subrange(36, 40)) as u32,
                            name: hex_encoded(s.subrange(40, 60)),
                            flags: flags_parse(s.subrange(60, 62))->Ok_0,
                            path_name: path,
                        },
                        end,
                    ),
                )
            },
        }
    }
}

/// The entries that can be written: the id stands for 20 bytes.
pub open spec fn entry_encodable(e: EntryView) -> bool {
    hex_decodable(e.name) && e.name.len() == 40
}

/// The entries that are read back as they were written: a well-formed id,
/// the length of the name recorded as it is (0xFFF for a longer one), and a
/// name that is UTF-8. A name whose length is not recorded as it is ends
/// at its first zero byte, and so must hold none.
pub open spec fn entry_storable(e: EntryView) -> bool {
    &&& is_object_id(e.name)
    &&& e.flags.name_length == recorded_length(e.path_name.len() as int)
    &&& e.path_name.len() >= 0xfff ==> !has_byte(e.path_name, 0u8)
    &&& valid_utf8(e.path_name)
}

/// Where the fields stand in the fixed part.
pub proof fn lemma_fixed_layout(e: EntryView)
    requires
        entry_encodable(e),
    ensures
        entry_fixed(e).len() == 62,
        entry_fixed(e).subrange(0, 8) == timestamp_bytes(e.last_metadata_update),
        entry_fixed(e).subrange(8, 16) == timestamp_bytes(e.last_data_update),
        entry_fixed(e).subrange(16, 20) == be32_bytes(e.dev),
        entry_fixed(e).subrange(20, 24) == be32_bytes(e.ino),
        entry_fixed(e).subrange(24, 28) == mode_bytes(e.mode),
        entry_fixed(e).subrange(28, 32) == be32_bytes(e.uid),
        entry_fixed(e).subrange(32, 36) == be32_bytes(e.gid),
        entry_fixed(e).subrange(36, 40) == be32_bytes(e.file_size),
        entry_fixed(e).subrange(40, 60) == hex_decoded(e.name),
        entry_fixed(e).subrange(60, 62) == flags_bytes(e.flags),
{
    let f = entry_fixed(e);
    lemma_timestamp_roundtrip(e.last_metadata_update);
    lemma_timestamp_roundtrip(e.last_data_update);
    lemma_mode_roundtrip(e.mode);
    assert(f.len() == 62);
    assert(f.subrange(0, 8) =~= timestamp_bytes(e.last_metadata_update));
    assert(f.subrange(8, 16) =~= timestamp_bytes(e.last_data_update));
    assert(f.subrange(16, 20) =~= be32_bytes(e.dev));
    assert(f.subrange(20, 24) =~= be32_bytes(e.ino));
    assert(f.subrange(24, 28) =~= mode_bytes(e.mode));
    assert(f.subrange(28, 32) =~= be32_bytes(e.uid));
    assert(f.subrange(32, 36) =~= be32_bytes(e.gid));
    assert(f.subrange(36, 40) =~= be32_bytes(e.file_size));
    assert(f.subrange(40, 60) =~= hex_decoded(e.name));
    assert(f.subrange(60, 62) =~= flags_bytes(e.flags));
}

/// The bytes of a storable entry, whatever follows them, are read back as
/// that entry, and as many bytes are taken as were written.
pub proof fn lemma_entry_roundtrip(e: EntryView, rest: Seq<u8>)
    requires
        entry_storable(e),
    ensures
        entry_bytes(e).len() == 62 + e.path_name.len() + pad_len(e.path_name.len() as int),
        entry_bytes(e).len() % 8 == 0,
        entry_parse(entry_bytes(e) + rest) == Ok::<_, GitErrorKind>(
            (e, entry_bytes(e).len() as int),
        ),
{
    reveal(entry_parse);
    reveal(entry_bytes);
    let f = entry_fixed(e);
    let n = e.path_name.len() as int;
    let pad = zeros(pad_len(n));
    let s = entry_bytes(e) + rest;
    lemma_hex_decode_encode(e.name);
    lemma_fixed_layout(e);
    assert(s.subrange(0, 62) =~= f);
    assert forall|a: int, b: int| 0 <= a <= b <= 62 implies #[trigger] s.subrange(a, b)
        == f.subrange(a, b) by {
        assert(s.subrange(a, b) =~= f.subrange(a, b));
    }
    lemma_timestamp_roundtrip(e.last_metadata_update);
    lemma_timestamp_roundtrip(e.last_data_update);
    lemma_be32_of_bytes(e.dev);
    lemma_be32_of_bytes(e.ino);
    lemma_be32_of_bytes(e.uid);
    lemma_be32_of_bytes(e.gid);
    lemma_be32_of_bytes(e.file_size);
    lemma_mode_roundtrip(e.mode);
    lemma_flags_roundtrip(e.flags);
    assert(entry_path_len(s) == n) by {
        if e.flags.name_length >= 0xfff {
            let t = s.skip(62);
            assert forall|j: int| 0 <= j < n implies t[j] != 0u8 by {
                assert(t[j] == e.path_name[j]);
            }
            assert(t[n] == pad[0]);
            lemma_index_of_at(t, 0u8, n);
        }
    }
    assert(s.subrange(62, 62 + n) =~= e.path_name);
}

/// The error says why `s` begins with no entry: it is too short for the
/// fields or for the name, the mode is at fault, the zero bytes after the
/// name are missing, or the name is not UTF-8.
pub open spec fn entry_fault(e: RustGitError, s: Seq<u8>) -> bool {
    if s.len() < 62 {
        e.error@ == "index entry is truncated"@
    } else if mode_parse(s.subrange(24, 28)) is Err {
        mode_fault(e, s.subrange(24, 28))
    } else if entry_path_len(s) > s.len() - 62 {
        e.error@ == "index entry is truncated"@
    } else if 62 + entry_path_len(s) + pad_len(entry_path_len(s)) > s.len() {
        e.error@ == "missing null byte for path name"@
    } else {
        e.error@ == "path name is not UTF-8"@
    }
}

fn truncated() -> (e: RustGitError)
    ensures
        e.kind == GitErrorKind::Corrupt,
        e.error@ == "index entry is truncated"@,
{
    RustGitError::with_kind(GitErrorKind::Corrupt, "index entry is truncated")
}

impl GitIndexEntry {
    /// The entry can be written.
    pub open spec fn encodable(&self) -> bool {
        entry_encodable(self@)
    }

    /// The entry is read back as it was written.
    pub open spec fn storable(&self) -> bool {
        entry_storable(self@)
    }

    /// A copy of the entry.
    pub fn duplicate(&self) -> (r: GitIndexEntry)
        ensures
            r@ == self@,
    {
        GitIndexEntry {
            last_metadata_update: self.last_metadata_update,
            last_data_update: self.last_data_update,
            dev: self.dev,
            ino: self.ino,
            mode: self.mode,
            uid: self.uid,
            gid: self.gid,
            file_size: self.file_size,
            name: self.name.duplicate(),
            flags: self.flags,
            path_name: self.path_name.clone(),
        }
    }

    /// The bytes of the entry in the index file.
    pub fn serialize(entry: &GitIndexEntry) -> (v: Vec<u8>)
        requires
            entry.encodable(),
            entry.path_name@.len() + 70 <= usize::MAX,
        ensures
            v@ == entry_bytes(entry@),
    {
        proof {
            reveal(entry_bytes);
        }
        let mut v: Vec<u8> = Vec::new();
        let ctime = GitIndexTimestamp::serialize(&entry.last_metadata_update);
        let mtime = GitIndexTimestamp::serialize(&entry.last_data_update);
        let dev = u32_to_be(entry.dev);
        let ino = u32_to_be(entry.ino);
        let mode = GitIndexMode::serialize(&entry.mode);
        let uid = u32_to_be(entry.uid);
        let gid = u32_to_be(entry.gid);
        let size = u32_to_be(entry.file_size);
        let id = GitObjectId::serialize(&entry.name);
        let flags = GitIndexFlags::serialize(&entry.flags);
        v.extend_from_slice(ctime.as_slice());
        v.extend_from_slice(mtime.as_slice());
        v.extend_from_slice(dev.as_slice());
        v.extend_from_slice(ino.as_slice());
        v.extend_from_slice(mode.as_slice());
        v.extend_from_slice(uid.as_slice());
        v.extend_from_slice(gid.as_slice());
        v.extend_from_slice(size.as_slice());
        v.extend_from_slice(id.as_slice());
        v.extend_from_slice(flags.as_slice());
        assert(v@ =~= entry_fixed(entry@));
        v.extend_from_slice(entry.path_name.as_slice());
        let remainder = (62 + entry.path_name.len()) % 8;
        let padding = 8 - remainder;
        let ghost unpadded = v@;
        let mut i: usize = 0;
        while i < padding
            invariant
                i <= padding,
                v@ == unpadded + zeros(i as int),
            decreases padding - i,
        {
            v.push(0);
            assert(v@ =~= unpadded + zeros(i + 1));
            i += 1;
        }
        v
    }

    /// Reads the entry with which `bytes` begins: the entry and the number
    /// of bytes it takes.
    pub fn deserialize(bytes: &[u8]) -> (r: Result<(GitIndexEntry, usize), RustGitError>)
        ensures
            match r {
                Ok((entry, taken)) => entry_parse(bytes@) == Ok::<_, GitErrorKind>(
                    (entry@, taken as int),
                ) && 62 <= taken <= bytes@.len(),
                Err(e) => entry_parse(bytes@) == Err::<(EntryView, int), _>(e.kind) && entry_fault(
                    e,
                    bytes@,
                ),
            },
    {
        proof {
            reveal(entry_parse);
        }
        let n = bytes.len();
        if n < 62 {
            return Err(truncated());
        }
        let mode = match GitIndexMode::deserialize(&bytes[24..28]) {
            Ok(m) => m,
            Err(e) => {
                return Err(e);
            },
        };
        let flags = match GitIndexFlags::deserialize(&bytes[60..62]) {
            Ok(f) => f,
            Err(e) => {
                return Err(e);
            },
        };
        let path_len: usize = if flags.name_length < 0xfff {
            flags.name_length as usize
        } else {
            let at = find_byte(bytes, 62, 0);
            at - 62
        };
        if path_len > n - 62 {
            return Err(truncated());
        }
        let padding = 8 - (62 + path_len) % 8;
        if padding > n - 62 - path_len {
            return Err(RustGitError::with_kind(GitErrorKind::Corrupt, "missing null byte for path name"));
        }
        let path_name = copy_range(bytes, 62, 62 + path_len);
        if !is_utf8(path_name.as_slice()) {
            return Err(RustGitError::with_kind(GitErrorKind::Corrupt, "path name is not UTF-8"));
        }
        let last_metadata_update = match GitIndexTimestamp::deserialize(&bytes[0..8]) {
            Ok(t) => t,
            Err(e) => {
                return Err(e);
            },
        };
        let last_data_update = match GitIndexTimestamp::deserialize(&bytes[8..16]) {
            Ok(t) => t,
            Err(e) => {
                return Err(e);
            },
        };
        let name = match GitObjectId::deserialize(&bytes[40..60]) {
            Ok(id) => id,
            Err(e) => {
                return Err(e);
            },
        };
        Ok(
            (
                GitIndexEntry {
                    last_metadata_update,
                    last_data_update,
                    dev: read_u32(bytes, 16),
                    ino: read_u32(bytes, 20),
                    mode,
                    uid: read_u32(bytes, 28),
                    gid: read_u32(bytes, 32),
                    file_size: read_u32(bytes, 36),
                    name,
                    flags,
                    path_name,
                },
                62 + path_len + padding,
            ),
        )
    }

    /// The entry that `new` makes.
    pub open spec fn new_spec(path: Seq<u8>, metadata: FileStat, obj_id: Seq<u8>) -> EntryView {
        EntryView {
            last_metadata_update: GitIndexTimestamp {
                seconds: (metadata.ctime % 0x1_0000_0000) as u32,
                nanoseconds: (metadata.ctime_nsec % 0x1_0000_0000) as u32,
            },
            last_data_update: GitIndexTimestamp {
                seconds: (metadata.mtime % 0x1_0000_0000) as u32,
                nanoseconds: (metadata.mtime_nsec % 0x1_0000_0000) as u32,
            },
            dev: (metadata.dev % 0x1_0000_0000) as u32,
            ino: (metadata.ino % 0x1_0000_0000) as u32,
            mode: if metadata.is_symlink {
                GitIndexMode::SymbolicLink
            } else if metadata.is_dir {
                GitIndexMode::GitLink
            } else if metadata.mode as int / 64 % 2 == 1 {
                GitIndexMode::RegularFile0755
            } else {
                GitIndexMode::RegularFile0644
            },
            uid: (metadata.uid % 0x1_0000_0000) as u32,
            gid: (metadata.gid % 0x1_0000_0000) as u32,
            file_size: (metadata.size % 0x1_0000_0000) as u32,
            name: obj_id,
            flags: GitIndexFlags {
                assume_valid: false,
                extended: false,
                stage: GitIndexStageFlag::RegularFileNoConflict,
                name_length: recorded_length(path.len() as int) as u16,
            },
            path_name: path,
        }
    }

    /// The entry for the file at `path` with the given state and contents.
    /// A symbolic link and a directory get their own modes; any other file
    /// is executable where its owner may execute it. Numbers are cut to 32
    /// bits.
    pub fn new(path: &[u8], metadata: &FileStat, obj_id: GitObjectId) -> (entry: GitIndexEntry)
        ensures
            entry@ == Self::new_spec(path@, *metadata, obj_id@),
    {
        let mode = if metadata.is_symlink {
            GitIndexMode::SymbolicLink
        } else if metadata.is_dir {
            GitIndexMode::GitLink
        } else if metadata.mode / 64 % 2 == 1 {
            GitIndexMode::RegularFile0755
        } else {
            GitIndexMode::RegularFile0644
        };
        let mut path_name: Vec<u8> = Vec::new();
        path_name.extend_from_slice(path);
        assert(path_name@ =~= path@);
        GitIndexEntry {
            last_metadata_update: GitIndexTimestamp {
                seconds: low32(metadata.ctime),
                nanoseconds: low32(metadata.ctime_nsec),
            },
            last_data_update: GitIndexTimestamp {
                seconds: low32(metadata.mtime),
                nanoseconds: low32(metadata.mtime_nsec),
            },
            dev: low32(metadata.dev),
            ino: low32(metadata.ino),
            uid: low32(metadata.uid),
            gid: low32(metadata.gid),
            file_size: low32(metadata.size),
            name: obj_id,
            mode,
            flags: GitIndexFlags {
                assume_valid: false,
                extended: false,
                stage: GitIndexStageFlag::RegularFileNoConflict,
                name_length: recorded(path.len()),
            },
            path_name,
        }
    }

    /// The entry under a new name, with the length of the name recorded
    /// anew.
    pub fn with_updated_name(self, new_name: &[u8]) -> (entry: GitIndexEntry)
        ensures
            entry@ == (EntryView {
                path_name: new_name@,
                flags: GitIndexFlags {
                    name_length: recorded_length(new_name@.len() as int) as u16,
                    ..self.flags
                },
                ..self@
            }),
    {
        let mut path_name: Vec<u8> = Vec::new();
        path_name.extend_from_slice(new_name);
        assert(path_name@ =~= new_name@);
        GitIndexEntry {
            last_metadata_update: self.last_metadata_update,
            last_data_update: self.last_data_update,
            dev: self.dev,
            ino: self.ino,
            mode: self.mode,
            uid: self.uid,
            gid: self.gid,
            file_size: self.file_size,
            name: self.name,
            flags: GitIndexFlags {
                assume_valid: self.flags.assume_valid,
                extended: self.flags.extended,
                stage: self.flags.stage,
                name_length: recorded(new_name.len()),
            },
            path_name,
        }
    }
}

/// The low 32 bits of a number.
fn low32(n: u64) -> (r: u32)
    ensures
        r == n % 0x1_0000_0000,
{
    (n % 0x1_0000_0000) as u32
}

/// The length that the flags record for a name of `n` bytes.
fn recorded(n: usize) -> (r: u16)
    ensures
        r == recorded_length(n as int),
{
    if n < 0xfff {
        n as u16
    } else {
        0xfff
    }
}

} // verus!
