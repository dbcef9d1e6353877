//! Text: comparing, searching and cutting strings by characters.

use crate::bytes::bytes_eq;
use vstd::prelude::*;
use vstd::string::*;
use vstd::utf8::*;

verus! {

/// Index of the first `c` in `s`, or `s.len()` where `s` holds none.
pub open spec fn char_index(s: Seq<char>, c: char) -> int
    decreases s.len(),
{
    if s.len() == 0 {
        0
    } else if s[0] == c {
        0
    } else {
        1 + char_index(s.drop_first(), c)
    }
}

/// The first `c` stands where a `c` stands with none before it.
pub proof fn lemma_char_index_at(s: Seq<char>, c: char, i: int)
    requires
        0 <= i <= s.len(),
        i < s.len() ==> s[i] == c,
        forall|j: int| 0 <= j < i ==> s[j] != c,
    ensures
        char_index(s, c) == i,
    decreases s.len(),
{
    if s.len() > 0 && i > 0 {
        assert(s[0] != c);
        let t = s.drop_first();
        assert forall|j: int| 0 <= j < i - 1 implies t[j] != c by {
            assert(t[j] == s[j + 1]);
        }
        lemma_char_index_at(t, c, i - 1);
    }
}

/// Texts with the same bytes are the same text.
pub proof fn lemma_same_bytes(a: Seq<char>, b: Seq<char>)
    requires
        encode_utf8(a) == encode_utf8(b),
    ensures
        a == b,
{
    encode_utf8_decode_utf8(a);
    encode_utf8_decode_utf8(b);
}

/// Are the two texts the same?
pub fn str_is(a: &str, b: &str) -> (r: bool)
    ensures
        r == (a@ == b@),
{
    let r = bytes_eq(a.as_bytes(), b.as_bytes());
    proof {
        if r {
            lemma_same_bytes(a@, b@);
        }
    }
    r
}

/// The place of the first `c` in `s`, counted in characters, or the number
/// of characters of `s`.
pub fn find_char(s: &str, c: char) -> (i: usize)
    ensures
        i == char_index(s@, c),
        i <= s@.len(),
{
    let n = s.unicode_len();
    let mut i: usize = 0;
    while i < n
        invariant
            i <= n,
            n == s@.len(),
            forall|j: int| 0 <= j < i ==> s@[j] != c,
        decreases n - i,
    {
        if s.get_char(i) == c {
            proof {
                lemma_char_index_at(s@, c, i as int);
            }
            return i;
        }
        i += 1;
    }
    proof {
        lemma_char_index_at(s@, c, n as int);
    }
    n
}

/// The texts joined by line feeds.
pub open spec fn joined_lines(lines: Seq<Seq<u8>>) -> Seq<u8>
    decreases lines.len(),
{
    if lines.len() == 0 {
        Seq::empty()
    } else if lines.len() == 1 {
        lines[0]
    } else {
        joined_lines(lines.drop_last()) + seq![0x0au8] + lines.last()
    }
}

/// The bytes of each of the texts.
pub open spec fn texts_bytes(texts: Seq<String>) -> Seq<Seq<u8>> {
    Seq::new(texts.len(), |i: int| encode_utf8(texts[i]@))
}

/// The bytes of an optional text.
pub open spec fn opt_bytes(text: Option<String>) -> Option<Seq<u8>> {
    match text {
        Some(t) => Some(encode_utf8(t@)),
        None => None,
    }
}

/// The texts joined by line feeds, as bytes.
pub fn join_lines(lines: &Vec<String>) -> (v: Vec<u8>)
    ensures
        v@ == joined_lines(texts_bytes(lines@)),
{
    let mut v: Vec<u8> = Vec::new();
    let n = lines.len();
    let mut i: usize = 0;
    assert(texts_bytes(lines@).take(0) =~= Seq::<Seq<u8>>::empty());
    while i < n
        invariant
            i <= n,
            n == lines@.len(),
            v@ == joined_lines(texts_bytes(lines@).take(i as int)),
        decreases n - i,
    {
        let ghost upto = texts_bytes(lines@).take(i + 1);
        proof {
            assert(upto.drop_last() =~= texts_bytes(lines@).take(i as int));
            assert(upto.last() == encode_utf8(lines@[i as int]@));
        }
        if i > 0 {
            v.push(0x0a);
        }
        v.extend_from_slice(lines[i].as_str().as_bytes());
        proof {
            if i == 0 {
                assert(v@ =~= upto[0]);
            }
        }
        i += 1;
    }
    assert(texts_bytes(lines@).take(n as int) =~= texts_bytes(lines@));
    v
}

} // verus!
