//! The error type shared by the whole library.

use vstd::prelude::*;
use vstd::string::*;
use vstd::utf8::*;

verus! {

/// What went wrong, independent of the wording of the message.
#[derive(Debug, Clone, Copy, PartialEq, Eq, Structural)]
pub enum GitErrorKind {
    /// A failure of the file system, reported by the caller.
    Io,
    /// A binary structure is malformed or truncated.
    Corrupt,
    /// The trailing hash of the index does not match its contents.
    ChecksumMismatch,
    /// An object header declares a size that differs from the payload length.
    LengthMismatch,
    /// An object id that had to exist is not in the object store.
    UnknownObject,
    /// A reference that had to exist is absent.
    UnknownRef,
    /// The expected value of a compare-and-set did not match.
    CasMismatch,
    /// A branch was needed but HEAD does not name one.
    DetachedHead,
    /// A commit or tag was requested without a configured name and email.
    IdentityUnset,
    /// A path left the repository root while being normalised.
    OutsideRepo,
    /// No index entry matched a given path.
    NoMatches,
    /// An index entry with a non-zero stage stood where stage 0 was required.
    Conflicted,
    /// The configuration asks for a hash algorithm that is not implemented.
    UnsupportedHash,
    /// The index file has a version that is not implemented.
    UnsupportedVersion,
    /// The payload of an object is not of the declared kind.
    TypeParseError,
    /// A required line or field of an object is absent.
    MissingField,
    /// A kind word is not one of the known ones.
    UnknownKind,
    /// A timestamp is not a decimal number.
    BadTimestamp,
    /// The arguments of a command do not fit together.
    Usage,
    /// An option was given that is recognised but not implemented.
    Unsupported,
    /// A name of a branch, tag or reference is not acceptable.
    InvalidName,
    /// Something that was to be created exists already.
    AlreadyExists,
    /// A move was refused by one of its checks.
    MoveRefused,
    /// The repository directory that was named does not exist.
    ExplicitGitDirMissing,
    /// No repository directory was found from the current directory up.
    NotARepository,
    /// An error built from a message alone.
    Other,
}

/// An error: its kind and the message shown to the user.
#[derive(Debug, Clone, PartialEq, Eq)]
pub struct RustGitError {
    pub kind: GitErrorKind,
    pub error: String,
}

/// The text that `String::from_utf8_lossy` makes of the bytes: each
/// ill-formed part gives way to a replacement character.
pub uninterp spec fn lossy_text(bytes: Seq<u8>) -> Seq<char>;

/// `String::from_utf8_lossy`: the text named above, which for well-formed
/// UTF-8 is what the bytes decode to.
#[verifier::external_body]
pub(crate) fn text_of(bytes: &[u8]) -> (s: String)
    ensures
        s@ == lossy_text(bytes@),
        valid_utf8(bytes@) ==> s@ == decode_utf8(bytes@),
{
    String::from_utf8_lossy(bytes).into_owned()
}

impl RustGitError {
    /// The message of the error is the given text: what the bytes decode
    /// to where they are well-formed UTF-8, and else the text with a
    /// replacement character for each ill-formed part.
    pub open spec fn says(&self, text: Seq<u8>) -> bool {
        &&& self.error@ == lossy_text(text)
        &&& valid_utf8(text) ==> self.error@ == decode_utf8(text)
    }

    /// An error of kind `Other` with the given message.
    pub fn new(s: &str) -> (e: RustGitError)
        ensures
            e.kind == GitErrorKind::Other,
            e.error@ == s@,
    {
        RustGitError { kind: GitErrorKind::Other, error: s.to_owned() }
    }

    /// An error of the given kind with the given message.
    pub fn with_kind(kind: GitErrorKind, s: &str) -> (e: RustGitError)
        ensures
            e.kind == kind,
            e.error@ == s@,
    {
        RustGitError { kind, error: s.to_owned() }
    }

    /// An error of the given kind whose message is the given UTF-8 text.
    pub fn from_text(kind: GitErrorKind, text: &[u8]) -> (e: RustGitError)
        ensures
            e.kind == kind,
            e.says(text@),
    {
        RustGitError { kind, error: text_of(text) }
    }

    /// An error of the given kind whose message is `a`, then `rest`.
    pub fn prefixed(kind: GitErrorKind, a: &str, rest: &[u8]) -> (e: RustGitError)
        ensures
            e.kind == kind,
            e.says(a.spec_bytes() + rest@),
    {
        let mut text: Vec<u8> = Vec::new();
        text.extend_from_slice(a.as_bytes());
        text.extend_from_slice(rest);
        assert(text@ =~= a.spec_bytes() + rest@);
        RustGitError { kind, error: text_of(text.as_slice()) }
    }

    /// An error of the given kind whose message is `a`, then `mid`, then `b`.
    pub fn framed(kind: GitErrorKind, a: &str, mid: &[u8], b: &str) -> (e: RustGitError)
        ensures
            e.kind == kind,
            e.says(a.spec_bytes() + mid@ + b.spec_bytes()),
    {
        let mut text: Vec<u8> = Vec::new();
        text.extend_from_slice(a.as_bytes());
        text.extend_from_slice(mid);
        text.extend_from_slice(b.as_bytes());
        assert(text@ =~= a.spec_bytes() + mid@ + b.spec_bytes());
        RustGitError { kind, error: text_of(text.as_slice()) }
    }

    /// The exit code of a program that ends with this error: 2 for a
    /// failure of the file system, 1 for every failure that the library
    /// itself tells.
    pub fn exit_code(&self) -> (code: u8)
        ensures
            code == (if self.kind == GitErrorKind::Io {
                2u8
            } else {
                1u8
            }),
    {
        match self.kind {
            GitErrorKind::Io => 2,
            _ => 1,
        }
    }

    /// The message, as the user sees it.
    pub fn message(&self) -> (s: String)
        ensures
            s@ == self.error@,
    {
        self.error.clone()
    }
}

} // verus!
