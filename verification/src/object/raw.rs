//! Raw objects: a header that names the kind and the size, then the payload.

use crate::bytes::after;
use crate::bytes::ascii_bytes;
use crate::bytes::before;
use crate::bytes::bytes_eq;
use crate::bytes::copy_range;
use crate::bytes::decimal;
use crate::bytes::has_byte;
use crate::bytes::is_digit;
use crate::bytes::lemma_decimal;
use crate::bytes::lemma_decimal_has_no;
use crate::bytes::lemma_decimal_len;
use crate::bytes::lemma_has_byte_concat;
use crate::bytes::lemma_index_of;
use crate::bytes::lemma_split_at;
use crate::bytes::numeral_digits;
use crate::bytes::numeral_value;
use crate::bytes::parse_u128;
use crate::bytes::split_at_byte;
use crate::bytes::to_decimal;
use crate::error::GitErrorKind;
use crate::error::RustGitError;
use crate::hash::hash_bytes;
use crate::hash::hex_encoded;
use crate::hash::sha1_digest;
use crate::object::id::GitObjectId;
use vstd::prelude::*;
use vstd::string::*;

verus! {

/// The longest header that is ever written.
pub const MAX_HEADER_LEN: usize = 32;

/// The kind of an object.
#[derive(Debug, Clone, Copy, PartialEq, Eq, Structural)]
pub enum GitObjectType {
    Commit,
    Tree,
    Blob,
    Tag,
}

/// `commit`
pub open spec fn word_commit() -> Seq<u8> {
    seq!['c' as u8, 'o' as u8, 'm' as u8, 'm' as u8, 'i' as u8, 't' as u8]
}

/// `tree`
pub open spec fn word_tree() -> Seq<u8> {
    seq!['t' as u8, 'r' as u8, 'e' as u8, 'e' as u8]
}

/// `blob`
pub open spec fn word_blob() -> Seq<u8> {
    seq!['b' as u8, 'l' as u8, 'o' as u8, 'b' as u8]
}

/// `tag`
pub open spec fn word_tag() -> Seq<u8> {
    seq!['t' as u8, 'a' as u8, 'g' as u8]
}

/// The word that names a kind.
pub open spec fn kind_word(kind: GitObjectType) -> Seq<u8> {
    match kind {
        GitObjectType::Commit => word_commit(),
        GitObjectType::Tree => word_tree(),
        GitObjectType::Blob => word_blob(),
        GitObjectType::Tag => word_tag(),
    }
}

/// The kind that a word names, if any.
pub open spec fn kind_of_word(s: Seq<u8>) -> Option<GitObjectType> {
    if s == word_commit() {
        Some(GitObjectType::Commit)
    } else if s == word_tree() {
        Some(GitObjectType::Tree)
    } else if s == word_blob() {
        Some(GitObjectType::Blob)
    } else if s == word_tag() {
        Some(GitObjectType::Tag)
    } else {
        None
    }
}

/// Every kind is named by its own word, and a word holds only letters.
pub proof fn lemma_kind_word(kind: GitObjectType)
    ensures
        kind_of_word(kind_word(kind)) == Some(kind),
        1 <= kind_word(kind).len() <= 6,
        forall|i: int| 0 <= i < kind_word(kind).len() ==> 0x61 <= #[trigger] kind_word(kind)[i] <= 0x7a,
{
    assert(word_commit().len() == 6 && word_tree().len() == 4 && word_blob().len() == 4
        && word_tag().len() == 3);
    assert(word_tree()[1] != word_blob()[1]);
}

/// A kind word holds no byte that is not a lower-case letter.
pub proof fn lemma_kind_word_has_no(kind: GitObjectType, b: u8)
    requires
        !(0x61 <= b <= 0x7a),
    ensures
        !has_byte(kind_word(kind), b),
{
    lemma_kind_word(kind);
}

impl GitObjectType {
    /// The word that names the kind.
    pub fn word(&self) -> (w: &'static [u8])
        ensures
            w@ == kind_word(*self),
    {
        proof {
            reveal_strlit("commit");
            reveal_strlit("tree");
            reveal_strlit("blob");
            reveal_strlit("tag");
        }
        let w = match self {
            GitObjectType::Commit => ascii_bytes("commit"),
            GitObjectType::Tree => ascii_bytes("tree"),
            GitObjectType::Blob => ascii_bytes("blob"),
            GitObjectType::Tag => ascii_bytes("tag"),
        };
        assert(w@ =~= kind_word(*self));
        w
    }

    /// The kind that the word names, if it names one.
    pub fn from_bytes(s: &[u8]) -> (r: Option<GitObjectType>)
        ensures
            r == kind_of_word(s@),
    {
        if bytes_eq(s, GitObjectType::Commit.word()) {
            Some(GitObjectType::Commit)
        } else if bytes_eq(s, GitObjectType::Tree.word()) {
            Some(GitObjectType::Tree)
        } else if bytes_eq(s, GitObjectType::Blob.word()) {
            Some(GitObjectType::Blob)
        } else if bytes_eq(s, GitObjectType::Tag.word()) {
            Some(GitObjectType::Tag)
        } else {
            None
        }
    }

    /// The kind that the text names; any other text is an unknown kind.
    pub fn from_str(s: &str) -> (r: Result<GitObjectType, RustGitError>)
        ensures
            match r {
                Ok(k) => kind_of_word(s.spec_bytes()) == Some(k),
                Err(e) => kind_of_word(s.spec_bytes()) is None && e.kind == GitErrorKind::UnknownKind
                    && e.says(unknown_kind_text(s.spec_bytes())),
            },
    {
        match GitObjectType::from_bytes(s.as_bytes()) {
            Some(k) => Ok(k),
            None => Err(unknown_kind(s.as_bytes())),
        }
    }

    /// The word as text for display.
    pub fn to_text(&self) -> (s: &'static str)
        ensures
            s@ == (match *self {
                GitObjectType::Commit => "commit"@,
                GitObjectType::Tree => "tree"@,
                GitObjectType::Blob => "blob"@,
                GitObjectType::Tag => "tag"@,
            }),
    {
        match self {
            GitObjectType::Commit => "commit",
            GitObjectType::Tree => "tree",
            GitObjectType::Blob => "blob",
            GitObjectType::Tag => "tag",
        }
    }
}

/// `'`, the word, `' is not a valid object type`
pub open spec fn unknown_kind_text(word: Seq<u8>) -> Seq<u8> {
    "'".spec_bytes() + word + "' is not a valid object type".spec_bytes()
}

fn unknown_kind(word: &[u8]) -> (e: RustGitError)
    ensures
        e.kind == GitErrorKind::UnknownKind,
        e.says(unknown_kind_text(word@)),
{
    RustGitError::framed(GitErrorKind::UnknownKind, "'", word, "' is not a valid object type")
}

/// What a header states: the kind of the object and the size of its payload.
#[derive(Debug, Clone, Copy, PartialEq, Eq, Structural)]
pub struct GitObjectHeader {
    pub obj_type: GitObjectType,
    pub size: usize,
}

/// The words of a header: the kind, a space, the size in decimal.
pub open spec fn header_words(h: GitObjectHeader) -> Seq<u8> {
    kind_word(h.obj_type) + seq![0x20u8] + decimal(h.size as nat)
}

/// The header as it is stored: its words, closed by a zero byte.
pub open spec fn header_text(h: GitObjectHeader) -> Seq<u8> {
    header_words(h) + seq![0u8]
}

/// What the words of a header state, if they are well formed: a known kind,
/// a space, a numeral that fits.
pub open spec fn header_parse(s: Seq<u8>) -> Option<GitObjectHeader> {
    if !has_byte(s, 0x20) {
        None
    } else {
        match (kind_of_word(before(s, 0x20)), numeral_value(after(s, 0x20))) {
            (Some(kind), Some(n)) => if n <= usize::MAX {
                Some(GitObjectHeader { obj_type: kind, size: n as usize })
            } else {
                None
            },
            _ => None,
        }
    }
}

/// The error says why the words are no header: the space is missing, or
/// the kind is unknown, or the size is no numeral that fits.
pub open spec fn header_fault(e: RustGitError, s: Seq<u8>) -> bool {
    if !has_byte(s, 0x20) {
        e.error@ == "Missing space in object header"@
    } else if kind_of_word(before(s, 0x20)) is None {
        e.says(unknown_kind_text(before(s, 0x20)))
    } else {
        e.error@ == numeral_fault_text(after(s, 0x20))
    }
}

/// `Header size `, the size, ` didn't match content length `, the length
pub open spec fn length_mismatch_text(declared: nat, found: nat) -> Seq<u8> {
    "Header size ".spec_bytes() + decimal(declared) + " didn't match content length ".spec_bytes()
        + decimal(found)
}

/// The error says why the text is no stored form: the zero byte is
/// missing, or the header is at fault, or the size that the header states
/// is not the length of the payload.
pub open spec fn contents_fault(e: RustGitError, s: Seq<u8>) -> bool {
    if !has_byte(s, 0u8) {
        e.error@ == "Missing '\\0' in object file"@
    } else {
        match header_parse(before(s, 0u8)) {
            None => header_fault(e, before(s, 0u8)),
            Some(h) => e.says(length_mismatch_text(h.size as nat, after(s, 0u8).len())),
        }
    }
}

/// The words of a header are read back as the header, and hold no zero byte.
pub proof fn lemma_header_roundtrip(h: GitObjectHeader)
    ensures
        header_parse(header_words(h)) == Some(h),
        !has_byte(header_words(h), 0u8),
        header_text(h).len() <= 28,
{
    let w = kind_word(h.obj_type);
    let d = decimal(h.size as nat);
    lemma_kind_word(h.obj_type);
    lemma_kind_word_has_no(h.obj_type, 0x20);
    lemma_kind_word_has_no(h.obj_type, 0);
    lemma_decimal(h.size as nat);
    lemma_decimal_has_no(h.size as nat, 0);
    lemma_split_at(w, 0x20, d);
    lemma_index_of(header_words(h), 0x20);
    lemma_has_byte_concat(w, seq![0x20u8], 0);
    lemma_has_byte_concat(w + seq![0x20u8], d, 0);
    lemma_decimal_len(h.size as nat);
}

impl GitObjectHeader {
    /// The words of the header, without the closing zero byte.
    pub fn words(&self) -> (v: Vec<u8>)
        ensures
            v@ == header_words(*self),
    {
        let mut v: Vec<u8> = Vec::new();
        v.extend_from_slice(self.obj_type.word());
        v.push(0x20);
        let d = to_decimal(self.size as u128);
        v.extend_from_slice(d.as_slice());
        v
    }

    /// The header as it is stored.
    pub fn to_bytes(&self) -> (v: Vec<u8>)
        ensures
            v@ == header_text(*self),
    {
        let mut v = self.words();
        v.push(0);
        v
    }

    /// Reads the words of a header. Words that are not well formed are
    /// refused as corrupt, with the reason.
    pub fn from_bytes(s: &[u8]) -> (r: Result<GitObjectHeader, RustGitError>)
        ensures
            match r {
                Ok(h) => header_parse(s@) == Some(h),
                Err(e) => header_parse(s@) is None && e.kind == GitErrorKind::Corrupt
                    && header_fault(e, s@),
            },
    {
        let (end, next) = split_at_byte(s, 0, 0x20);
        assert(s@.skip(0) =~= s@);
        if end == s.len() {
            return Err(RustGitError::with_kind(GitErrorKind::Corrupt, "Missing space in object header"));
        }
        let word = &s[0..end];
        let digits = &s[next..s.len()];
        assert(digits@ =~= s@.skip(next as int));
        let kind = match GitObjectType::from_bytes(word) {
            Some(k) => k,
            None => {
                return Err(
                    RustGitError::framed(GitErrorKind::Corrupt, "'", word, "' is not a valid object type"),
                );
            },
        };
        match parse_u128(digits) {
            Some(n) => {
                if n > usize::MAX as u128 {
                    Err(RustGitError::with_kind(GitErrorKind::Corrupt, "ParseIntError { kind: PosOverflow }"))
                } else {
                    Ok(GitObjectHeader { obj_type: kind, size: n as usize })
                }
            },
            None => Err(RustGitError::with_kind(GitErrorKind::Corrupt, numeral_fault(digits))),
        }
    }
}

/// Why a text is no numeral that fits, in the words of the standard
/// library: it is empty, or holds something that is no digit, or denotes a
/// number that is too large.
pub open spec fn numeral_fault_text(s: Seq<u8>) -> Seq<char> {
    if s.len() == 0 {
        "ParseIntError { kind: Empty }"@
    } else if numeral_value(s) is Some {
        "ParseIntError { kind: PosOverflow }"@
    } else {
        "ParseIntError { kind: InvalidDigit }"@
    }
}

fn numeral_fault(s: &[u8]) -> (text: &'static str)
    ensures
        text@ == numeral_fault_text(s@),
{
    if s.len() == 0 {
        return "ParseIntError { kind: Empty }";
    }
    let start: usize = if s[0] == 0x2b { 1 } else { 0 };
    let ghost digits = numeral_digits(s@);
    assert(digits =~= s@.skip(start as int));
    let mut i: usize = start;
    while i < s.len()
        invariant
            start <= i <= s@.len(),
            s@.len() > 0,
            digits == s@.skip(start as int),
            digits == numeral_digits(s@),
            forall|k: int| 0 <= k < i - start ==> is_digit(#[trigger] digits[k]),
        decreases s@.len() - i,
    {
        if s[i] < 0x30 || s[i] > 0x39 {
            assert(!is_digit(digits[i - start]));
            return "ParseIntError { kind: InvalidDigit }";
        }
        i += 1;
    }
    if start == s.len() {
        "ParseIntError { kind: InvalidDigit }"
    } else {
        "ParseIntError { kind: PosOverflow }"
    }
}

/// An object as it is stored: its header and its payload.
#[derive(Debug, Clone, PartialEq, Eq)]
pub struct GitObjectContents {
    pub header: GitObjectHeader,
    pub content: Vec<u8>,
}

/// The stored form: the header, a zero byte, the payload.
pub open spec fn contents_text(h: GitObjectHeader, content: Seq<u8>) -> Seq<u8> {
    header_text(h) + content
}

/// What a stored form holds: the kind of its failure, or its header and
/// payload.
pub open spec fn contents_parse(s: Seq<u8>) -> Result<(GitObjectHeader, Seq<u8>), GitErrorKind> {
    if !has_byte(s, 0u8) {
        Err(GitErrorKind::Corrupt)
    } else {
        match header_parse(before(s, 0u8)) {
            None => Err(GitErrorKind::Corrupt),
            Some(h) => if h.size == after(s, 0u8).len() {
                Ok((h, after(s, 0u8)))
            } else {
                Err(GitErrorKind::LengthMismatch)
            },
        }
    }
}

/// A stored form is read back as what it was made of.
pub proof fn lemma_contents_roundtrip(h: GitObjectHeader, content: Seq<u8>)
    requires
        h.size == content.len(),
    ensures
        contents_parse(contents_text(h, content)) == Ok::<_, GitErrorKind>((h, content)),
{
    lemma_header_roundtrip(h);
    lemma_split_at(header_words(h), 0u8, content);
    lemma_index_of(contents_text(h, content), 0u8);
}

impl GitObjectContents {
    /// The header and payload are those that the text holds.
    pub open spec fn holds(&self, parsed: (GitObjectHeader, Seq<u8>)) -> bool {
        self.header == parsed.0 && self.content@ == parsed.1
    }

    /// The stored form of the object.
    pub fn to_bytes(&self) -> (v: Vec<u8>)
        ensures
            v@ == contents_text(self.header, self.content@),
    {
        let mut v = self.header.to_bytes();
        v.extend_from_slice(self.content.as_slice());
        v
    }

    /// Reads a stored form. Without a zero byte or with a malformed header it
    /// is corrupt; a size that is not the length of the payload is a length
    /// mismatch. The error says which, with the two numbers of a mismatch.
    pub fn from_bytes(s: &[u8]) -> (r: Result<GitObjectContents, RustGitError>)
        ensures
            match r {
                Ok(c) => contents_parse(s@) is Ok && c.holds(contents_parse(s@)->Ok_0),
                Err(e) => contents_parse(s@) == Err::<(GitObjectHeader, Seq<u8>), _>(e.kind)
                    && contents_fault(e, s@),
            },
    {
        let (end, next) = split_at_byte(s, 0, 0);
        assert(s@.skip(0) =~= s@);
        if end == s.len() {
            return Err(RustGitError::with_kind(GitErrorKind::Corrupt, "Missing '\\0' in object file"));
        }
        let header = match GitObjectHeader::from_bytes(&s[0..end]) {
            Ok(h) => h,
            Err(e) => {
                return Err(e);
            },
        };
        let content_len = s.len() - next;
        if header.size != content_len {
            let mut text: Vec<u8> = Vec::new();
            text.extend_from_slice("Header size ".as_bytes());
            text.extend_from_slice(to_decimal(header.size as u128).as_slice());
            text.extend_from_slice(" didn't match content length ".as_bytes());
            text.extend_from_slice(to_decimal(content_len as u128).as_slice());
            assert(s@.skip(next as int).len() == content_len);
            assert(text@ =~= length_mismatch_text(header.size as nat, content_len as nat));
            return Err(RustGitError::from_text(GitErrorKind::LengthMismatch, text.as_slice()));
        }
        let content = copy_range(s, next, s.len());
        assert(content@ =~= s@.skip(next as int));
        Ok(GitObjectContents { header, content })
    }
}

/// The stored form of an object of the given kind and payload.
pub open spec fn stored_form(kind: GitObjectType, content: Seq<u8>) -> Seq<u8> {
    contents_text(GitObjectHeader { obj_type: kind, size: content.len() as usize }, content)
}

/// The id of an object of the given kind and payload: the hexadecimal text
/// of the digest of its stored form.
pub open spec fn object_id_of(kind: GitObjectType, content: Seq<u8>) -> Seq<u8> {
    hex_encoded(sha1_digest(stored_form(kind, content)))
}

/// An object with its id.
#[derive(Debug, Clone, PartialEq, Eq)]
pub struct GitObjectRaw {
    pub id: GitObjectId,
    pub object: GitObjectContents,
}

impl GitObjectRaw {
    /// The id is that of the contents, and the header states their size.
    pub open spec fn wf(&self) -> bool {
        &&& self.object.header.size == self.object.content@.len()
        &&& self.id@ == object_id_of(self.object.header.obj_type, self.object.content@)
    }

    /// The id of an object with the given header and payload.
    pub fn get_object_id(header: &GitObjectHeader, content: &[u8]) -> (id: GitObjectId)
        ensures
            id@ == hex_encoded(sha1_digest(contents_text(*header, content@))),
            id.is_valid(),
    {
        let mut stored = header.to_bytes();
        stored.extend_from_slice(content);
        assert(stored@ =~= contents_text(*header, content@));
        hash_bytes(stored.as_slice())
    }

    /// The object of the given kind and payload, with its id.
    pub fn build(obj_type: GitObjectType, content: Vec<u8>) -> (raw: GitObjectRaw)
        ensures
            raw.wf(),
            raw.id.is_valid(),
            raw.object.header.obj_type == obj_type,
            raw.object.content@ == content@,
    {
        let header = GitObjectHeader { obj_type, size: content.len() };
        let id = Self::get_object_id(&header, content.as_slice());
        GitObjectRaw { id, object: GitObjectContents { header, content } }
    }

    /// The object of the given kind and payload, with its id. No header
    /// is longer than the longest allowed, so this always succeeds.
    pub fn new(obj_type: GitObjectType, content: Vec<u8>) -> (r: Result<GitObjectRaw, RustGitError>)
        ensures
            r is Ok,
            r->Ok_0.wf(),
            r->Ok_0.id.is_valid(),
            r->Ok_0.object.header.obj_type == obj_type,
            r->Ok_0.object.content@ == content@,
    {
        let header = GitObjectHeader { obj_type, size: content.len() };
        let header_len = header.to_bytes().len();
        proof {
            lemma_header_roundtrip(header);
        }
        if header_len > MAX_HEADER_LEN {
            return Err(RustGitError::with_kind(GitErrorKind::Corrupt, "header exceeded max size 32"));
        }
        Ok(Self::build(obj_type, content))
    }
}

} // verus!
