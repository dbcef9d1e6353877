//! Hashing: the 160-bit digest and its hexadecimal text.

use crate::error::GitErrorKind;
use crate::error::RustGitError;
use crate::object::id::GitObjectId;
use sha1::Digest;
use sha1::Sha1;
use vstd::prelude::*;

verus! {

/// The SHA-1 digest of `data`.
pub uninterp spec fn sha1_digest(data: Seq<u8>) -> Seq<u8>;

/// The digest as the 20 bytes it has. (That every digest has 20 bytes is
/// known of each one that was computed; this says it of all.)
pub open spec fn digest20(data: Seq<u8>) -> Seq<u8> {
    if sha1_digest(data).len() == 20 {
        sha1_digest(data)
    } else {
        Seq::new(20, |i: int| 0u8)
    }
}

/// The lower-case hexadecimal digit of a value below 16.
pub open spec fn hex_digit(n: int) -> u8 {
    if n < 10 {
        (0x30 + n) as u8
    } else {
        (0x61 + n - 10) as u8
    }
}

/// The lower-case hexadecimal text of `data`, two digits a byte.
pub open spec fn hex_encoded(data: Seq<u8>) -> Seq<u8> {
    Seq::new(
        2 * data.len(),
        |i: int|
            if i % 2 == 0 {
                hex_digit(data[i / 2] as int / 16)
            } else {
                hex_digit(data[i / 2] as int % 16)
            },
    )
}

/// The value of a hexadecimal digit of either case.
pub open spec fn hex_value(c: u8) -> Option<int> {
    if 0x30 <= c <= 0x39 {
        Some(c - 0x30)
    } else if 0x61 <= c <= 0x66 {
        Some(c - 0x61 + 10)
    } else if 0x41 <= c <= 0x46 {
        Some(c - 0x41 + 10)
    } else {
        None
    }
}

/// `s` is hexadecimal text of whole bytes.
pub open spec fn hex_decodable(s: Seq<u8>) -> bool {
    s.len() % 2 == 0 && forall|i: int| 0 <= i < s.len() ==> (#[trigger] hex_value(s[i])) is Some
}

/// The bytes that hexadecimal text stands for.
pub open spec fn hex_decoded(s: Seq<u8>) -> Seq<u8> {
    Seq::new(
        s.len() / 2,
        |i: int| (hex_value(s[2 * i])->0 * 16 + hex_value(s[2 * i + 1])->0) as u8,
    )
}

/// `c` is a digit or one of `a` to `f`.
pub open spec fn is_lower_hex(c: u8) -> bool {
    0x30 <= c <= 0x39 || 0x61 <= c <= 0x66
}

/// `s` is lower-case hexadecimal text of whole bytes.
pub open spec fn is_lower_hex_text(s: Seq<u8>) -> bool {
    s.len() % 2 == 0 && forall|i: int| 0 <= i < s.len() ==> is_lower_hex(#[trigger] s[i])
}

/// Encoding yields lower-case text that decodes to the same bytes.
pub proof fn lemma_hex_roundtrip(data: Seq<u8>)
    ensures
        hex_encoded(data).len() == 2 * data.len(),
        is_lower_hex_text(hex_encoded(data)),
        hex_decodable(hex_encoded(data)),
        hex_decoded(hex_encoded(data)) == data,
{
    let h = hex_encoded(data);
    assert forall|i: int| 0 <= i < h.len() implies is_lower_hex(#[trigger] h[i]) && hex_value(
        h[i],
    ) is Some by {
        let b = data[i / 2] as int;
        assert(0 <= b / 16 < 16 && 0 <= b % 16 < 16);
    }
    assert forall|i: int| 0 <= i < data.len() implies hex_decoded(h)[i] == data[i] by {
        let b = data[i] as int;
        assert(0 <= b / 16 < 16 && 0 <= b % 16 < 16);
        assert(h[2 * i] == hex_digit(b / 16));
        assert(h[2 * i + 1] == hex_digit(b % 16));
        assert(hex_value(hex_digit(b / 16)) == Some(b / 16));
        assert(hex_value(hex_digit(b % 16)) == Some(b % 16));
    }
    assert(hex_decoded(h) =~= data);
}

/// Lower-case text is the encoding of what it decodes to.
pub proof fn lemma_hex_decode_encode(s: Seq<u8>)
    requires
        is_lower_hex_text(s),
    ensures
        hex_decodable(s),
        hex_decoded(s).len() * 2 == s.len(),
        hex_encoded(hex_decoded(s)) == s,
{
    assert forall|i: int| 0 <= i < s.len() implies (#[trigger] hex_value(s[i])) is Some by {
        assert(is_lower_hex(s[i]));
    }
    let d = hex_decoded(s);
    assert forall|i: int| 0 <= i < s.len() implies hex_encoded(d)[i] == s[i] by {
        let k = i / 2;
        assert(is_lower_hex(s[2 * k]));
        assert(is_lower_hex(s[2 * k + 1]));
        let hi = hex_value(s[2 * k])->0;
        let lo = hex_value(s[2 * k + 1])->0;
        assert(0 <= hi < 16 && 0 <= lo < 16);
        assert(d[k] as int == hi * 16 + lo);
        assert((hi * 16 + lo) / 16 == hi && (hi * 16 + lo) % 16 == lo);
        assert(hex_digit(hi) == s[2 * k]);
        assert(hex_digit(lo) == s[2 * k + 1]);
    }
    assert(hex_encoded(d) =~= s);
}

/// `sha1::Sha1::digest`: the SHA-1 digest of `data`, which has 20 bytes.
#[verifier::external_body]
pub(crate) fn sha1_of(data: &[u8]) -> (out: Vec<u8>)
    ensures
        out@ == sha1_digest(data@),
        out@.len() == 20,
{
    Sha1::digest(data).to_vec()
}

/// `hex::encode`: each byte becomes its two lower-case hexadecimal digits,
/// the high one first.
#[verifier::external_body]
pub(crate) fn hex_encode(data: &[u8]) -> (out: Vec<u8>)
    ensures
        out@ == hex_encoded(data@),
{
    hex::encode(data).into_bytes()
}

/// `hex::decode`: text of even length made of hexadecimal digits of either
/// case becomes the bytes it stands for; any other text is refused.
#[verifier::external_body]
pub(crate) fn hex_decode(text: &[u8]) -> (out: Option<Vec<u8>>)
    ensures
        match out {
            Some(v) => hex_decodable(text@) && v@ == hex_decoded(text@),
            None => !hex_decodable(text@),
        },
{
    hex::decode(text).ok()
}

/// The hash algorithms that a repository can name.
#[derive(Debug, Clone, Copy, PartialEq, Eq, Structural)]
pub enum HashAlgorithm {
    Sha1,
    Sha256,
}

impl HashAlgorithm {
    /// The name under which the configuration knows the algorithm.
    pub fn name(&self) -> (s: &'static str)
        ensures
            s@ == (match *self {
                HashAlgorithm::Sha1 => "sha1"@,
                HashAlgorithm::Sha256 => "sha256"@,
            }),
    {
        match self {
            HashAlgorithm::Sha1 => "sha1",
            HashAlgorithm::Sha256 => "sha256",
        }
    }
}

/// A hasher that absorbs bytes piece by piece and then yields an object id.
#[derive(Debug)]
pub struct Hasher {
    absorbed: Vec<u8>,
}

impl Hasher {
    /// What has been absorbed since the last id was taken.
    pub closed spec fn absorbed(&self) -> Seq<u8> {
        self.absorbed@
    }

    /// The algorithm of this hasher.
    pub fn name(&self) -> (a: HashAlgorithm)
        ensures
            a == HashAlgorithm::Sha1,
    {
        HashAlgorithm::Sha1
    }

    /// Absorbs `content`.
    pub fn update_fn(&mut self, content: &[u8])
        ensures
            final(self).absorbed() == old(self).absorbed() + content@,
    {
        self.absorbed.extend_from_slice(content);
    }

    /// The id of what was absorbed; the hasher starts afresh.
    pub fn final_oid_fn(&mut self) -> (id: GitObjectId)
        ensures
            id@ == hex_encoded(sha1_digest(old(self).absorbed())),
            final(self).absorbed() == Seq::<u8>::empty(),
    {
        let digest = sha1_of(self.absorbed.as_slice());
        self.absorbed = Vec::new();
        GitObjectId::from_bytes(hex_encode(digest.as_slice()))
    }
}

/// A hasher for the given algorithm: only SHA-1 is implemented.
pub fn get_hasher(hash_algo: HashAlgorithm) -> (r: Result<Hasher, RustGitError>)
    ensures
        match r {
            Ok(h) => hash_algo == HashAlgorithm::Sha1 && h.absorbed() == Seq::<u8>::empty(),
            Err(e) => hash_algo == HashAlgorithm::Sha256 && e.kind == GitErrorKind::UnsupportedHash
                && e.error@ == "unsupported hash algorithm sha256"@,
        },
{
    match hash_algo {
        HashAlgorithm::Sha1 => Ok(Hasher { absorbed: Vec::new() }),
        HashAlgorithm::Sha256 => Err(
            RustGitError::with_kind(GitErrorKind::UnsupportedHash, "unsupported hash algorithm sha256"),
        ),
    }
}

/// The digest of `data`.
pub fn digest_of(data: &[u8]) -> (out: Vec<u8>)
    ensures
        out@ == sha1_digest(data@),
        out@ == digest20(data@),
        out@.len() == 20,
{
    sha1_of(data)
}

/// The id of `data`: the hexadecimal text of its digest.
pub fn hash_bytes(data: &[u8]) -> (id: GitObjectId)
    ensures
        id@ == hex_encoded(sha1_digest(data@)),
        id.is_valid(),
{
    let digest = sha1_of(data);
    proof {
        lemma_hex_roundtrip(digest@);
    }
    GitObjectId::from_bytes(hex_encode(digest.as_slice()))
}

} // verus!
