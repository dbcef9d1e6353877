//! The fixed-width fields of the index file.

use crate::bytes::ascii_bytes;
use crate::bytes::bytes_eq;
use crate::bytes::decimal;
use crate::bytes::to_decimal;
use crate::error::GitErrorKind;
use crate::error::RustGitError;
use vstd::prelude::*;
use vstd::string::*;

verus! {

/// The number that four bytes hold, the most significant byte first.
pub open spec fn be32(s: Seq<u8>) -> int {
    ((s[0] as int * 256 + s[1] as int) * 256 + s[2] as int) * 256 + s[3] as int
}

/// The four bytes of a number, the most significant byte first.
pub open spec fn be32_bytes(n: u32) -> Seq<u8> {
    seq![
        (n as int / 256 / 256 / 256) as u8,
        (n as int / 256 / 256 % 256) as u8,
        (n as int / 256 % 256) as u8,
        (n as int % 256) as u8,
    ]
}

/// The number that two bytes hold, the more significant byte first.
pub open spec fn be16(s: Seq<u8>) -> int {
    s[0] as int * 256 + s[1] as int
}

/// The bytes of a number hold that number.
pub proof fn lemma_be32_of_bytes(n: u32)
    ensures
        be32_bytes(n).len() == 4,
        be32(be32_bytes(n)) == n,
{
}

/// The number that the four bytes hold.
pub fn as_u32_be(array: &[u8; 4]) -> (n: u32)
    ensures
        n == be32(array@),
{
    (((array[0] as u32) * 256 + (array[1] as u32)) * 256 + (array[2] as u32)) * 256 + (
    array[3] as u32)
}

/// The number that the two bytes hold.
pub fn as_u16_be(array: &[u8; 2]) -> (n: u16)
    ensures
        n == be16(array@),
{
    (array[0] as u16) * 256 + (array[1] as u16)
}

/// The four bytes of a number.
pub fn u32_to_be(n: u32) -> (b: [u8; 4])
    ensures
        b@ == be32_bytes(n),
{
    let b = [(n / 256 / 256 / 256) as u8, (n / 256 / 256 % 256) as u8, (n / 256 % 256) as u8, (n
        % 256) as u8];
    assert(b@ =~= be32_bytes(n));
    b
}

/// The number held by the four bytes of `bytes` at `at`.
pub fn read_u32(bytes: &[u8], at: usize) -> (n: u32)
    requires
        at + 4 <= bytes@.len(),
    ensures
        n == be32(bytes@.subrange(at as int, at + 4)),
{
    as_u32_be(&[bytes[at], bytes[at + 1], bytes[at + 2], bytes[at + 3]])
}



/// What is said of a value that has not the number of bytes it takes, in
/// the words of the standard library.
pub const LENGTH_ERR: &'static str = "TryFromSliceError(())";

fn wrong_length() -> (e: RustGitError)
    ensures
        e.kind == GitErrorKind::Corrupt,
        e.error@ == LENGTH_ERR@,
{
    RustGitError::with_kind(GitErrorKind::Corrupt, LENGTH_ERR)
}

/// The versions of the index file that are understood.
#[derive(Debug, Clone, Copy, PartialEq, Eq, Structural)]
pub enum GitIndexVersion {
    V2,
}

/// The four bytes of a version.
pub open spec fn version_bytes(v: GitIndexVersion) -> Seq<u8> {
    be32_bytes(2)
}

/// The version that bytes state: four bytes that hold the number 2.
pub open spec fn version_parse(s: Seq<u8>) -> Result<GitIndexVersion, GitErrorKind> {
    if s.len() != 4 {
        Err(GitErrorKind::Corrupt)
    } else if be32(s) == 2 {
        Ok(GitIndexVersion::V2)
    } else {
        Err(GitErrorKind::UnsupportedVersion)
    }
}

/// The error says why the bytes state no version: their number is
/// wrong, or the version that they state is not understood.
pub open spec fn version_fault(e: RustGitError, s: Seq<u8>) -> bool {
    if s.len() != 4 {
        e.error@ == LENGTH_ERR@
    } else {
        e.says("unsupported index version ".spec_bytes() + decimal(be32(s) as nat))
    }
}

impl GitIndexVersion {
    /// The bytes of the value in the index file.
    pub fn serialize(index_version: &GitIndexVersion) -> (b: [u8; 4])
        ensures
            b@ == version_bytes(*index_version),
    {
        match index_version {
            GitIndexVersion::V2 => u32_to_be(2),
        }
    }

    /// Reads the value from its bytes in the index file.
    pub fn deserialize(bytes: &[u8]) -> (r: Result<GitIndexVersion, RustGitError>)
        ensures
            match r {
                Ok(v) => version_parse(bytes@) == Ok::<_, GitErrorKind>(v),
                Err(e) => version_parse(bytes@) == Err::<GitIndexVersion, _>(e.kind) && version_fault(
                    e,
                    bytes@,
                ),
            },
    {
        if bytes.len() != 4 {
            return Err(wrong_length());
        }
        assert(bytes@.subrange(0, 4) =~= bytes@);
        let number = read_u32(bytes, 0);
        if number == 2 {
            Ok(GitIndexVersion::V2)
        } else {
            let digits = to_decimal(number as u128);
            Err(
                RustGitError::prefixed(
                    GitErrorKind::UnsupportedVersion,
                    "unsupported index version ",
                    digits.as_slice(),
                ),
            )
        }
    }
}

/// The four bytes with which every index file begins: `DIRC`.
pub open spec fn signature() -> Seq<u8> {
    seq![0x44u8, 0x49u8, 0x52u8, 0x43u8]
}

/// The head of the index file: its version and the number of its entries.
#[derive(Debug, Clone, Copy, PartialEq, Eq, Structural)]
pub struct GitIndexHeader {
    pub version: GitIndexVersion,
    pub num_entries: u32,
}

/// The twelve bytes of a header: the signature, the version, the count.
pub open spec fn header_bytes(h: GitIndexHeader) -> Seq<u8> {
    signature() + version_bytes(h.version) + be32_bytes(h.num_entries)
}

/// The header that bytes state: twelve bytes that begin with the signature
/// and name a known version.
pub open spec fn header_parse(s: Seq<u8>) -> Result<GitIndexHeader, GitErrorKind> {
    if s.len() != 12 || s.subrange(0, 4) != signature() {
        Err(GitErrorKind::Corrupt)
    } else {
        match version_parse(s.subrange(4, 8)) {
            Err(k) => Err(k),
            Ok(version) => Ok(GitIndexHeader { version, num_entries: be32(s.subrange(8, 12)) as u32 }),
        }
    }
}

/// The bytes of a header are read back as that header.
pub proof fn lemma_header_roundtrip(h: GitIndexHeader)
    ensures
        header_bytes(h).len() == 12,
        header_parse(header_bytes(h)) == Ok::<_, GitErrorKind>(h),
{
    let s = header_bytes(h);
    lemma_be32_of_bytes(2);
    lemma_be32_of_bytes(h.num_entries);
    assert(s.subrange(0, 4) =~= signature());
    assert(s.subrange(4, 8) =~= be32_bytes(2));
    assert(s.subrange(8, 12) =~= be32_bytes(h.num_entries));
}

/// The error says why the bytes are no header: their number is wrong,
/// the signature is missing, or the version is at fault.
pub open spec fn header_fault(e: RustGitError, s: Seq<u8>) -> bool {
    if s.len() != 12 {
        e.error@ == LENGTH_ERR@
    } else if s.subrange(0, 4) != signature() {
        e.error@ == "missing header signature in index file"@
    } else {
        version_fault(e, s.subrange(4, 8))
    }
}

impl GitIndexHeader {
    /// The bytes of the value in the index file.
    pub fn serialize(header: &GitIndexHeader) -> (b: [u8; 12])
        ensures
            b@ == header_bytes(*header),
    {
        let v = GitIndexVersion::serialize(&header.version);
        let n = u32_to_be(header.num_entries);
        let b = [0x44u8, 0x49u8, 0x52u8, 0x43u8, v[0], v[1], v[2], v[3], n[0], n[1], n[2], n[3]];
        assert(b@ =~= header_bytes(*header));
        b
    }

    /// Reads the value from its bytes in the index file.
    pub fn deserialize(bytes: &[u8]) -> (r: Result<GitIndexHeader, RustGitError>)
        ensures
            match r {
                Ok(h) => header_parse(bytes@) == Ok::<_, GitErrorKind>(h),
                Err(e) => header_parse(bytes@) == Err::<GitIndexHeader, _>(e.kind) && header_fault(
                    e,
                    bytes@,
                ),
            },
    {
        if bytes.len() != 12 {
            return Err(wrong_length());
        }
        let found = [bytes[0], bytes[1], bytes[2], bytes[3]];
        assert(found@ =~= bytes@.subrange(0, 4));
        if !(found[0] == 0x44 && found[1] == 0x49 && found[2] == 0x52 && found[3] == 0x43) {
            return Err(
                RustGitError::with_kind(GitErrorKind::Corrupt, "missing header signature in index file"),
            );
        }
        assert(found@ =~= signature());
        let version = match GitIndexVersion::deserialize(&bytes[4..8]) {
            Ok(v) => v,
            Err(e) => {
                return Err(e);
            },
        };
        Ok(GitIndexHeader { version, num_entries: read_u32(bytes, 8) })
    }
}

/// A moment as the file system reports it.
#[derive(Debug, Clone, Copy, PartialEq, Eq, Structural)]
pub struct GitIndexTimestamp {
    pub seconds: u32,
    pub nanoseconds: u32,
}

/// The eight bytes of a moment: the seconds, then the nanoseconds.
pub open spec fn timestamp_bytes(t: GitIndexTimestamp) -> Seq<u8> {
    be32_bytes(t.seconds) + be32_bytes(t.nanoseconds)
}

/// The moment that eight bytes state.
pub open spec fn timestamp_parse(s: Seq<u8>) -> Result<GitIndexTimestamp, GitErrorKind> {
    if s.len() != 8 {
        Err(GitErrorKind::Corrupt)
    } else {
        Ok(
            GitIndexTimestamp {
                seconds: be32(s.subrange(0, 4)) as u32,
                nanoseconds: be32(s.subrange(4, 8)) as u32,
            },
        )
    }
}

/// The bytes of a moment are read back as that moment.
pub proof fn lemma_timestamp_roundtrip(t: GitIndexTimestamp)
    ensures
        timestamp_bytes(t).len() == 8,
        timestamp_parse(timestamp_bytes(t)) == Ok::<_, GitErrorKind>(t),
{
    let s = timestamp_bytes(t);
    lemma_be32_of_bytes(t.seconds);
    lemma_be32_of_bytes(t.nanoseconds);
    assert(s.subrange(0, 4) =~= be32_bytes(t.seconds));
    assert(s.subrange(4, 8) =~= be32_bytes(t.nanoseconds));
}

impl GitIndexTimestamp {
    /// The bytes of the value in the index file.
    pub fn serialize(timestamp: &GitIndexTimestamp) -> (b: [u8; 8])
        ensures
            b@ == timestamp_bytes(*timestamp),
    {
        let s = u32_to_be(timestamp.seconds);
        let n = u32_to_be(timestamp.nanoseconds);
        let b = [s[0], s[1], s[2], s[3], n[0], n[1], n[2], n[3]];
        assert(b@ =~= timestamp_bytes(*timestamp));
        b
    }

    /// Reads the value from its bytes in the index file.
    pub fn deserialize(bytes: &[u8]) -> (r: Result<GitIndexTimestamp, RustGitError>)
        ensures
            match r {
                Ok(t) => timestamp_parse(bytes@) == Ok::<_, GitErrorKind>(t),
                Err(e) => timestamp_parse(bytes@) == Err::<GitIndexTimestamp, _>(e.kind) && e.error@
                    == LENGTH_ERR@,
            },
    {
        if bytes.len() != 8 {
            return Err(wrong_length());
        }
        Ok(GitIndexTimestamp { seconds: read_u32(bytes, 0), nanoseconds: read_u32(bytes, 4) })
    }

    /// The moment as `seconds:nanoseconds`.
    pub fn to_text(&self) -> (v: Vec<u8>)
        ensures
            v@ == decimal(self.seconds as nat) + seq![0x3au8] + decimal(
                self.nanoseconds as nat,
            ),
    {
        let mut v = to_decimal(self.seconds as u128);
        v.push(0x3a);
        let n = to_decimal(self.nanoseconds as u128);
        v.extend_from_slice(n.as_slice());
        assert(v@ =~= decimal(self.seconds as nat) + seq![0x3au8]
            + decimal(self.nanoseconds as nat));
        v
    }
}

/// The file modes that an entry can have.
#[derive(Debug, Clone, Copy, PartialEq, Eq, Structural)]
pub enum GitIndexMode {
    RegularFile0755,
    RegularFile0644,
    SymbolicLink,
    GitLink,
}

/// The four bytes of a mode: the object type in the high bits, the
/// permissions in the low ones.
pub open spec fn mode_bytes(m: GitIndexMode) -> Seq<u8> {
    match m {
        GitIndexMode::RegularFile0755 => seq![0u8, 0u8, 0x81u8, 0xedu8],
        GitIndexMode::RegularFile0644 => seq![0u8, 0u8, 0x81u8, 0xa4u8],
        GitIndexMode::SymbolicLink => seq![0u8, 0u8, 0xa0u8, 0u8],
        GitIndexMode::GitLink => seq![0u8, 0u8, 0xe0u8, 0u8],
    }
}

/// The mode in octal digits.
pub open spec fn mode_octal(m: GitIndexMode) -> Seq<u8> {
    match m {
        GitIndexMode::RegularFile0755 => seq![0x31u8, 0x30u8, 0x30u8, 0x37u8, 0x35u8, 0x35u8],
        GitIndexMode::RegularFile0644 => seq![0x31u8, 0x30u8, 0x30u8, 0x36u8, 0x34u8, 0x34u8],
        GitIndexMode::SymbolicLink => seq![0x31u8, 0x32u8, 0x30u8, 0x30u8, 0x30u8, 0x30u8],
        GitIndexMode::GitLink => seq![0x31u8, 0x36u8, 0x30u8, 0x30u8, 0x30u8, 0x30u8],
    }
}

/// The mode that four bytes state, if they are one of the four patterns.
pub open spec fn mode_parse(s: Seq<u8>) -> Result<GitIndexMode, GitErrorKind> {
    if s == mode_bytes(GitIndexMode::RegularFile0755) {
        Ok(GitIndexMode::RegularFile0755)
    } else if s == mode_bytes(GitIndexMode::RegularFile0644) {
        Ok(GitIndexMode::RegularFile0644)
    } else if s == mode_bytes(GitIndexMode::SymbolicLink) {
        Ok(GitIndexMode::SymbolicLink)
    } else if s == mode_bytes(GitIndexMode::GitLink) {
        Ok(GitIndexMode::GitLink)
    } else {
        Err(GitErrorKind::Corrupt)
    }
}

/// The bytes of a mode are read back as that mode.
pub proof fn lemma_mode_roundtrip(m: GitIndexMode)
    ensures
        mode_bytes(m).len() == 4,
        mode_parse(mode_bytes(m)) == Ok::<_, GitErrorKind>(m),
{
    let a = mode_bytes(GitIndexMode::RegularFile0755);
    let b = mode_bytes(GitIndexMode::RegularFile0644);
    let c = mode_bytes(GitIndexMode::SymbolicLink);
    let d = mode_bytes(GitIndexMode::GitLink);
    assert(a[3] != b[3] && a[2] != c[2] && a[2] != d[2] && b[2] != c[2] && b[2] != d[2] && c[2]
        != d[2]);
}

/// `invalid mode '[`, the four bytes in decimal with `, ` between them,
/// `]' in index entry`
pub open spec fn invalid_mode_text(s: Seq<u8>) -> Seq<u8> {
    "invalid mode '[".spec_bytes() + decimal(s[0] as nat) + ", ".spec_bytes() + decimal(
        s[1] as nat,
    ) + ", ".spec_bytes() + decimal(s[2] as nat) + ", ".spec_bytes() + decimal(s[3] as nat)
        + "]' in index entry".spec_bytes()
}

/// The error says why the bytes state no mode: their number is wrong, or
/// they are none of the four modes.
pub open spec fn mode_fault(e: RustGitError, s: Seq<u8>) -> bool {
    if s.len() != 4 {
        e.error@ == LENGTH_ERR@
    } else {
        e.says(invalid_mode_text(s))
    }
}

impl GitIndexMode {
    /// The bytes of the value in the index file.
    pub fn serialize(mode: &GitIndexMode) -> (b: [u8; 4])
        ensures
            b@ == mode_bytes(*mode),
    {
        let b = match mode {
            GitIndexMode::RegularFile0755 => [0u8, 0u8, 0x81u8, 0xedu8],
            GitIndexMode::RegularFile0644 => [0u8, 0u8, 0x81u8, 0xa4u8],
            GitIndexMode::SymbolicLink => [0u8, 0u8, 0xa0u8, 0u8],
            GitIndexMode::GitLink => [0u8, 0u8, 0xe0u8, 0u8],
        };
        assert(b@ =~= mode_bytes(*mode));
        b
    }

    /// Reads the value from its bytes in the index file.
    pub fn deserialize(bytes: &[u8]) -> (r: Result<GitIndexMode, RustGitError>)
        ensures
            match r {
                Ok(m) => mode_parse(bytes@) == Ok::<_, GitErrorKind>(m),
                Err(e) => mode_parse(bytes@) == Err::<GitIndexMode, _>(e.kind) && mode_fault(
                    e,
                    bytes@,
                ),
            },
    {
        if bytes.len() != 4 {
            proof {
                lemma_mode_roundtrip(GitIndexMode::RegularFile0755);
                lemma_mode_roundtrip(GitIndexMode::RegularFile0644);
                lemma_mode_roundtrip(GitIndexMode::SymbolicLink);
                lemma_mode_roundtrip(GitIndexMode::GitLink);
            }
            return Err(wrong_length());
        }
        let a = GitIndexMode::serialize(&GitIndexMode::RegularFile0755);
        let b = GitIndexMode::serialize(&GitIndexMode::RegularFile0644);
        let c = GitIndexMode::serialize(&GitIndexMode::SymbolicLink);
        let d = GitIndexMode::serialize(&GitIndexMode::GitLink);
        if bytes_eq(bytes, a.as_slice()) {
            Ok(GitIndexMode::RegularFile0755)
        } else if bytes_eq(bytes, b.as_slice()) {
            Ok(GitIndexMode::RegularFile0644)
        } else if bytes_eq(bytes, c.as_slice()) {
            Ok(GitIndexMode::SymbolicLink)
        } else if bytes_eq(bytes, d.as_slice()) {
            Ok(GitIndexMode::GitLink)
        } else {
            let mut text: Vec<u8> = Vec::new();
            text.extend_from_slice("invalid mode '[".as_bytes());
            text.extend_from_slice(to_decimal(bytes[0] as u128).as_slice());
            text.extend_from_slice(", ".as_bytes());
            text.extend_from_slice(to_decimal(bytes[1] as u128).as_slice());
            text.extend_from_slice(", ".as_bytes());
            text.extend_from_slice(to_decimal(bytes[2] as u128).as_slice());
            text.extend_from_slice(", ".as_bytes());
            text.extend_from_slice(to_decimal(bytes[3] as u128).as_slice());
            text.extend_from_slice("]' in index entry".as_bytes());
            assert(text@ =~= invalid_mode_text(bytes@));
            Err(RustGitError::from_text(GitErrorKind::Corrupt, text.as_slice()))
        }
    }

    /// The mode in octal, as a tree shows it.
    pub fn octal(&self) -> (w: &'static [u8])
        ensures
            w@ == mode_octal(*self),
    {
        proof {
            reveal_strlit("100755");
            reveal_strlit("100644");
            reveal_strlit("120000");
            reveal_strlit("160000");
        }
        let w = match self {
            GitIndexMode::RegularFile0755 => ascii_bytes("100755"),
            GitIndexMode::RegularFile0644 => ascii_bytes("100644"),
            GitIndexMode::SymbolicLink => ascii_bytes("120000"),
            GitIndexMode::GitLink => ascii_bytes("160000"),
        };
        assert(w@ =~= mode_octal(*self));
        w
    }

    /// The mode in octal, as listings show it.
    pub fn to_text(&self) -> (s: &'static str)
        ensures
            s@ == (match *self {
                GitIndexMode::RegularFile0755 => "100755"@,
                GitIndexMode::RegularFile0644 => "100644"@,
                GitIndexMode::SymbolicLink => "120000"@,
                GitIndexMode::GitLink => "160000"@,
            }),
    {
        match self {
            GitIndexMode::RegularFile0755 => "100755",
            GitIndexMode::RegularFile0644 => "100644",
            GitIndexMode::SymbolicLink => "120000",
            GitIndexMode::GitLink => "160000",
        }
    }
}

/// The slot of an entry in a merge: 0 where there is no conflict.
#[derive(Debug, Clone, Copy, PartialEq, Eq, Structural)]
pub enum GitIndexStageFlag {
    RegularFileNoConflict,
    Base,
    Ours,
    Theirs,
}

/// The number of a stage, by which entries of one path are ordered.
pub open spec fn stage_number(stage: GitIndexStageFlag) -> int {
    match stage {
        GitIndexStageFlag::RegularFileNoConflict => 0,
        GitIndexStageFlag::Base => 1,
        GitIndexStageFlag::Ours => 2,
        GitIndexStageFlag::Theirs => 3,
    }
}

/// The stage with a given number below 4.
pub open spec fn stage_of_number(n: int) -> GitIndexStageFlag {
    if n == 0 {
        GitIndexStageFlag::RegularFileNoConflict
    } else if n == 1 {
        GitIndexStageFlag::Base
    } else if n == 2 {
        GitIndexStageFlag::Ours
    } else {
        GitIndexStageFlag::Theirs
    }
}

impl GitIndexStageFlag {
    /// The number of the stage.
    pub fn number(&self) -> (n: u8)
        ensures
            n == stage_number(*self),
    {
        match self {
            GitIndexStageFlag::RegularFileNoConflict => 0,
            GitIndexStageFlag::Base => 1,
            GitIndexStageFlag::Ours => 2,
            GitIndexStageFlag::Theirs => 3,
        }
    }

    /// The stage with the given number below 4.
    pub fn from_number(n: u8) -> (s: GitIndexStageFlag)
        requires
            n < 4,
        ensures
            s == stage_of_number(n as int),
    {
        if n == 0 {
            GitIndexStageFlag::RegularFileNoConflict
        } else if n == 1 {
            GitIndexStageFlag::Base
        } else if n == 2 {
            GitIndexStageFlag::Ours
        } else {
            GitIndexStageFlag::Theirs
        }
    }

    /// The number of the stage as text.
    pub fn to_text(&self) -> (s: &'static str)
        ensures
            s@ == (match *self {
                GitIndexStageFlag::RegularFileNoConflict => "0"@,
                GitIndexStageFlag::Base => "1"@,
                GitIndexStageFlag::Ours => "2"@,
                GitIndexStageFlag::Theirs => "3"@,
            }),
    {
        match self {
            GitIndexStageFlag::RegularFileNoConflict => "0",
            GitIndexStageFlag::Base => "1",
            GitIndexStageFlag::Ours => "2",
            GitIndexStageFlag::Theirs => "3",
        }
    }
}

/// The flags of an entry. The length of the name takes twelve bits: a
/// longer name is recorded as 0xFFF.
#[derive(Debug, Clone, Copy, PartialEq, Eq, Structural)]
pub struct GitIndexFlags {
    pub assume_valid: bool,
    pub extended: bool,
    pub stage: GitIndexStageFlag,
    pub name_length: u16,
}

/// The two bytes of the flags: one bit each for `assume_valid` and
/// `extended`, two bits for the stage, the low twelve bits of the length.
pub open spec fn flags_bytes(f: GitIndexFlags) -> Seq<u8> {
    seq![
        ((if f.assume_valid {
            128int
        } else {
            0
        }) + (if f.extended {
            64int
        } else {
            0
        }) + 16 * stage_number(f.stage) + f.name_length as int / 256 % 16) as u8,
        (f.name_length as int % 256) as u8,
    ]
}

/// The flags that two bytes state.
pub open spec fn flags_parse(s: Seq<u8>) -> Result<GitIndexFlags, GitErrorKind> {
    if s.len() != 2 {
        Err(GitErrorKind::Corrupt)
    } else {
        Ok(
            GitIndexFlags {
                assume_valid: s[0] >= 128,
                extended: s[0] as int / 64 % 2 == 1,
                stage: stage_of_number(s[0] as int / 16 % 4),
                name_length: ((s[0] as int % 16) * 256 + s[1] as int) as u16,
            },
        )
    }
}

/// The bytes of flags whose length fits twelve bits are read back as those
/// flags.
pub proof fn lemma_flags_roundtrip(f: GitIndexFlags)
    requires
        f.name_length <= 0xfff,
    ensures
        flags_bytes(f).len() == 2,
        flags_parse(flags_bytes(f)) == Ok::<_, GitErrorKind>(f),
{
    let s = flags_bytes(f);
    let hi = f.name_length as int / 256;
    let lo = f.name_length as int % 256;
    let st = stage_number(f.stage);
    assert(0 <= hi < 16);
    let b0 = (if f.assume_valid {
        128int
    } else {
        0
    }) + (if f.extended {
        64int
    } else {
        0
    }) + 16 * st + hi;
    assert(s[0] as int == b0);
    assert(b0 % 16 == hi);
    assert(b0 / 16 % 4 == st);
    assert(stage_of_number(st) == f.stage);
}

impl GitIndexFlags {
    /// The bytes of the value in the index file.
    pub fn serialize(flags: &GitIndexFlags) -> (b: [u8; 2])
        ensures
            b@ == flags_bytes(*flags),
    {
        let mut first_byte: u8 = 0;
        if flags.assume_valid {
            first_byte = first_byte + 128;
        }
        if flags.extended {
            first_byte = first_byte + 64;
        }
        first_byte = first_byte + 16 * flags.stage.number();
        first_byte = first_byte + (flags.name_length / 256 % 16) as u8;
        let b = [first_byte, (flags.name_length % 256) as u8];
        assert(b@ =~= flags_bytes(*flags));
        b
    }

    /// Reads the value from its bytes in the index file.
    pub fn deserialize(bytes: &[u8]) -> (r: Result<GitIndexFlags, RustGitError>)
        ensures
            match r {
                Ok(f) => flags_parse(bytes@) == Ok::<_, GitErrorKind>(f),
                Err(e) => flags_parse(bytes@) == Err::<GitIndexFlags, _>(e.kind) && e.error@
                    == LENGTH_ERR@,
            },
    {
        if bytes.len() != 2 {
            return Err(wrong_length());
        }
        let assume_valid = bytes[0] >= 128;
        let extended = bytes[0] / 64 % 2 == 1;
        let stage = GitIndexStageFlag::from_number(bytes[0] / 16 % 4);
        let name_length = as_u16_be(&[bytes[0] % 16, bytes[1]]);
        Ok(GitIndexFlags { assume_valid, extended, stage, name_length })
    }
}

} // verus!
