//! Object ids: the hexadecimal text of a digest.

use crate::bytes::bytes_eq;
use crate::bytes::copy_range;
use crate::error::lossy_text;
use crate::error::text_of;
use crate::error::GitErrorKind;
use crate::error::RustGitError;
use crate::hash::hex_decodable;
use crate::hash::hex_decode;
use crate::hash::hex_decoded;
use crate::hash::hex_encode;
use crate::hash::hex_encoded;
use crate::hash::is_lower_hex;
use crate::hash::is_lower_hex_text;
use crate::index::fields::LENGTH_ERR;
use vstd::prelude::*;
use vstd::string::*;
use vstd::utf8::*;

verus! {

/// The name of an object. A well-formed one is 40 lower-case hexadecimal
/// digits; the type itself holds any text, as object files may.
#[derive(Debug, Clone, PartialEq, Eq)]
pub struct GitObjectId(pub Vec<u8>);

impl View for GitObjectId {
    type V = Seq<u8>;

    open spec fn view(&self) -> Seq<u8> {
        self.0@
    }
}

/// `s` is the text of a 20-byte digest.
pub open spec fn is_object_id(s: Seq<u8>) -> bool {
    s.len() == 40 && is_lower_hex_text(s)
}

impl GitObjectId {
    /// The text is that of a 20-byte digest.
    pub open spec fn is_valid(&self) -> bool {
        is_object_id(self@)
    }

    /// The id with the given text.
    pub fn new(s: &str) -> (id: GitObjectId)
        ensures
            id@ == s.spec_bytes(),
    {
        GitObjectId(s.as_bytes_vec())
    }

    /// The id with the given text.
    pub fn from_bytes(text: Vec<u8>) -> (id: GitObjectId)
        ensures
            id@ == text@,
    {
        GitObjectId(text)
    }

    /// The text of the id.
    pub fn as_bytes(&self) -> (b: &[u8])
        ensures
            b@ == self@,
    {
        self.0.as_slice()
    }

    /// A copy of the id.
    pub fn duplicate(&self) -> (id: GitObjectId)
        ensures
            id@ == self@,
    {
        GitObjectId(self.0.clone())
    }

    /// Is this the same id as `other`?
    pub fn same_as(&self, other: &GitObjectId) -> (r: bool)
        ensures
            r == (self@ == other@),
    {
        bytes_eq(self.0.as_slice(), other.0.as_slice())
    }

    /// Is the text that of a 20-byte digest?
    pub fn check_valid(&self) -> (r: bool)
        ensures
            r == self.is_valid(),
    {
        if self.0.len() != 40 {
            return false;
        }
        let mut i: usize = 0;
        while i < 40
            invariant
                i <= 40,
                self@.len() == 40,
                forall|j: int| 0 <= j < i ==> is_lower_hex(#[trigger] self@[j]),
            decreases 40 - i,
        {
            let c = self.0[i];
            if !((0x30 <= c && c <= 0x39) || (0x61 <= c && c <= 0x66)) {
                return false;
            }
            i += 1;
        }
        true
    }

    /// The directory and the file under which the object is stored: the first
    /// two characters and the rest.
    pub fn folder_and_file_name(&self) -> (r: (Vec<u8>, Vec<u8>))
        requires
            self@.len() >= 2,
        ensures
            r.0@ == self@.take(2),
            r.1@ == self@.skip(2),
    {
        let b = self.0.as_slice();
        (copy_range(b, 0, 2), copy_range(b, 2, b.len()))
    }

    /// The raw bytes that the hexadecimal text stands for.
    pub fn serialize(obj: &GitObjectId) -> (r: Vec<u8>)
        requires
            hex_decodable(obj@),
        ensures
            r@ == hex_decoded(obj@),
    {
        match hex_decode(obj.0.as_slice()) {
            Some(v) => v,
            None => Vec::new(),
        }
    }

    /// The id of a raw 20-byte digest; any other length is refused.
    pub fn deserialize(bytes: &[u8]) -> (r: Result<GitObjectId, RustGitError>)
        ensures
            match r {
                Ok(id) => bytes@.len() == 20 && id@ == hex_encoded(bytes@),
                Err(e) => bytes@.len() != 20 && e.kind == GitErrorKind::Corrupt && e.error@
                    == LENGTH_ERR@,
            },
    {
        if bytes.len() != 20 {
            return Err(RustGitError::with_kind(GitErrorKind::Corrupt, LENGTH_ERR));
        }
        Ok(GitObjectId(hex_encode(bytes)))
    }

    /// The id as text for display.
    pub fn to_text(&self) -> (s: String)
        ensures
            s@ == lossy_text(self@),
            valid_utf8(self@) ==> s@ == decode_utf8(self@),
    {
        text_of(self.0.as_slice())
    }
}

} // verus!
