//! Byte sequences: searching, comparing, and decimal numerals.

use vstd::prelude::*;
use vstd::string::*;

verus! {

/// Index of the first `b` in `s`, or `s.len()` where `s` holds none.
pub open spec fn index_of(s: Seq<u8>, b: u8) -> int
    decreases s.len(),
{
    if s.len() == 0 {
        0
    } else if s[0] == b {
        0
    } else {
        1 + index_of(s.drop_first(), b)
    }
}

/// `s` holds `b` somewhere.
pub open spec fn has_byte(s: Seq<u8>, b: u8) -> bool {
    exists|i: int| 0 <= i < s.len() && s[i] == b
}

/// What stands before the first `b` (all of `s` where there is no `b`).
pub open spec fn before(s: Seq<u8>, b: u8) -> Seq<u8> {
    s.take(index_of(s, b))
}

/// What stands after the first `b` (nothing where there is no `b`).
pub open spec fn after(s: Seq<u8>, b: u8) -> Seq<u8> {
    if index_of(s, b) < s.len() {
        s.skip(index_of(s, b) + 1)
    } else {
        Seq::empty()
    }
}

/// `p` is a prefix of `s`.
pub open spec fn starts_with(s: Seq<u8>, p: Seq<u8>) -> bool {
    p.len() <= s.len() && s.take(p.len() as int) == p
}

/// Strict lexicographic order on bytes, a proper prefix coming first.
pub open spec fn lex_lt(a: Seq<u8>, b: Seq<u8>) -> bool
    decreases a.len(),
{
    if b.len() == 0 {
        false
    } else if a.len() == 0 {
        true
    } else if a[0] != b[0] {
        a[0] < b[0]
    } else {
        lex_lt(a.drop_first(), b.drop_first())
    }
}

/// `b` is a decimal digit.
pub open spec fn is_digit(b: u8) -> bool {
    0x30 <= b <= 0x39
}

/// `s` holds only decimal digits.
pub open spec fn all_digits(s: Seq<u8>) -> bool {
    forall|i: int| 0 <= i < s.len() ==> is_digit(#[trigger] s[i])
}

/// The number that a run of decimal digits denotes.
pub open spec fn digits_value(s: Seq<u8>) -> nat
    decreases s.len(),
{
    if s.len() == 0 {
        0
    } else {
        digits_value(s.drop_last()) * 10 + (s.last() - 0x30) as nat
    }
}

/// The digits of a numeral: what follows an optional leading `+`.
pub open spec fn numeral_digits(s: Seq<u8>) -> Seq<u8> {
    if s.len() > 0 && s[0] == 0x2b {
        s.skip(1)
    } else {
        s
    }
}

/// The number that a numeral denotes: an optional `+`, then one or more
/// decimal digits. Anything else denotes nothing.
pub open spec fn numeral_value(s: Seq<u8>) -> Option<nat> {
    let d = numeral_digits(s);
    if d.len() > 0 && all_digits(d) {
        Some(digits_value(d))
    } else {
        None
    }
}

/// The shortest decimal numeral of `n`.
pub open spec fn decimal(n: nat) -> Seq<u8>
    decreases n,
{
    if n < 10 {
        seq![(0x30 + n) as u8]
    } else {
        decimal(n / 10).push((0x30 + n % 10) as u8)
    }
}

/// The values of a list of byte strings.
pub open spec fn texts_view(texts: Seq<Vec<u8>>) -> Seq<Seq<u8>> {
    Seq::new(texts.len(), |i: int| texts[i]@)
}

/// The bytes of text made of ASCII characters.
pub open spec fn ascii(s: Seq<char>) -> Seq<u8> {
    Seq::new(s.len(), |i: int| s[i] as u8)
}

/// A byte occurs in a concatenation where it occurs in a part.
pub proof fn lemma_has_byte_concat(x: Seq<u8>, y: Seq<u8>, b: u8)
    ensures
        has_byte(x + y, b) <==> has_byte(x, b) || has_byte(y, b),
{
    let s = x + y;
    if has_byte(s, b) {
        let i = choose|i: int| 0 <= i < s.len() && s[i] == b;
        if i < x.len() {
            assert(x[i] == b);
        } else {
            assert(y[i - x.len()] == b);
        }
    }
    if has_byte(x, b) {
        let i = choose|i: int| 0 <= i < x.len() && x[i] == b;
        assert(s[i] == b);
    }
    if has_byte(y, b) {
        let i = choose|i: int| 0 <= i < y.len() && y[i] == b;
        assert(s[i + x.len()] == b);
    }
}

/// A numeral of a number below 2^64 has at most 20 digits.
pub proof fn lemma_decimal_len(n: nat)
    requires
        n <= u64::MAX,
    ensures
        decimal(n).len() <= 20,
{
    reveal_with_fuel(decimal, 21);
}

/// A numeral holds only digits.
pub proof fn lemma_decimal_has_no(n: nat, b: u8)
    requires
        !is_digit(b),
    ensures
        !has_byte(decimal(n), b),
{
    lemma_decimal(n);
    if has_byte(decimal(n), b) {
        let i = choose|i: int| 0 <= i < decimal(n).len() && decimal(n)[i] == b;
        assert(is_digit(decimal(n)[i]));
    }
}

/// The first `b` stands at a `b`, with none before it, and is there where
/// `s` holds a `b` at all.
pub proof fn lemma_index_of(s: Seq<u8>, b: u8)
    ensures
        0 <= index_of(s, b) <= s.len(),
        index_of(s, b) < s.len() ==> s[index_of(s, b)] == b,
        forall|j: int| 0 <= j < index_of(s, b) ==> s[j] != b,
        index_of(s, b) < s.len() <==> has_byte(s, b),
    decreases s.len(),
{
    if s.len() == 0 {
    } else if s[0] == b {
    } else {
        let t = s.drop_first();
        lemma_index_of(t, b);
        assert forall|j: int| 0 <= j < index_of(s, b) implies s[j] != b by {
            if j > 0 {
                assert(s[j] == t[j - 1]);
            }
        }
        if has_byte(s, b) {
            let i = choose|i: int| 0 <= i < s.len() && s[i] == b;
            assert(t[i - 1] == b);
        }
        if has_byte(t, b) {
            let i = choose|i: int| 0 <= i < t.len() && t[i] == b;
            assert(s[i + 1] == b);
        }
    }
}

/// The first `b` stands where a `b` stands with none before it.
pub proof fn lemma_index_of_at(s: Seq<u8>, b: u8, i: int)
    requires
        0 <= i <= s.len(),
        i < s.len() ==> s[i] == b,
        forall|j: int| 0 <= j < i ==> s[j] != b,
    ensures
        index_of(s, b) == i,
{
    lemma_index_of(s, b);
    let k = index_of(s, b);
    if k < i {
        assert(s[k] != b);
    }
}

/// Splitting `x + [b] + y` at the first `b`, where `x` holds none.
pub proof fn lemma_split_at(x: Seq<u8>, b: u8, y: Seq<u8>)
    requires
        !has_byte(x, b),
    ensures
        index_of(x + seq![b] + y, b) == x.len(),
        before(x + seq![b] + y, b) == x,
        after(x + seq![b] + y, b) == y,
{
    let s = x + seq![b] + y;
    assert forall|j: int| 0 <= j < x.len() implies s[j] != b by {
        assert(s[j] == x[j]);
    }
    assert(s[x.len() as int] == b);
    lemma_index_of_at(s, b, x.len() as int);
    assert(s.take(x.len() as int) =~= x);
    assert(s.skip(x.len() as int + 1) =~= y);
}

/// Without a `b` in it, `s` is its own first part.
pub proof fn lemma_split_absent(s: Seq<u8>, b: u8)
    requires
        !has_byte(s, b),
    ensures
        index_of(s, b) == s.len(),
        before(s, b) == s,
        after(s, b) == Seq::<u8>::empty(),
{
    lemma_index_of(s, b);
    assert(s.take(s.len() as int) =~= s);
}

/// Nothing comes before itself.
pub proof fn lemma_lex_irreflexive(a: Seq<u8>)
    ensures
        !lex_lt(a, a),
    decreases a.len(),
{
    if a.len() > 0 {
        lemma_lex_irreflexive(a.drop_first());
    }
}

/// What comes before something that comes before a third comes before the
/// third.
pub proof fn lemma_lex_transitive(a: Seq<u8>, b: Seq<u8>, c: Seq<u8>)
    requires
        lex_lt(a, b),
        lex_lt(b, c),
    ensures
        lex_lt(a, c),
    decreases a.len(),
{
    if a.len() > 0 && b.len() > 0 && c.len() > 0 {
        if a[0] == b[0] && b[0] == c[0] {
            lemma_lex_transitive(a.drop_first(), b.drop_first(), c.drop_first());
        }
    }
}

/// Of two different sequences one comes first.
pub proof fn lemma_lex_total(a: Seq<u8>, b: Seq<u8>)
    ensures
        lex_lt(a, b) || lex_lt(b, a) || a == b,
        !(lex_lt(a, b) && lex_lt(b, a)),
    decreases a.len(),
{
    if a.len() == 0 || b.len() == 0 {
        if a.len() == 0 && b.len() == 0 {
            assert(a =~= b);
        }
    } else if a[0] == b[0] {
        lemma_lex_total(a.drop_first(), b.drop_first());
        if a.drop_first() == b.drop_first() {
            assert(a =~= seq![a[0]] + a.drop_first());
            assert(b =~= seq![b[0]] + b.drop_first());
        }
    }
}

/// The first digits of a numeral denote no more than the whole.
pub proof fn lemma_digits_value_prefix(s: Seq<u8>, k: int)
    requires
        0 <= k <= s.len(),
        all_digits(s),
    ensures
        digits_value(s.take(k)) <= digits_value(s),
    decreases s.len() - k,
{
    if k < s.len() {
        lemma_digits_value_prefix(s, k + 1);
        let t = s.take(k + 1);
        assert(t.drop_last() =~= s.take(k));
        assert(is_digit(s[k]));
        assert(t.last() == s[k]);
    } else {
        assert(s.take(k) =~= s);
    }
}

/// A decimal numeral is made of digits and denotes its number.
pub proof fn lemma_decimal(n: nat)
    ensures
        decimal(n).len() >= 1,
        all_digits(decimal(n)),
        digits_value(decimal(n)) == n,
        numeral_value(decimal(n)) == Some(n),
    decreases n,
{
    if n < 10 {
        let s = decimal(n);
        assert(s.drop_last() =~= Seq::<u8>::empty());
        assert(digits_value(s.drop_last()) == 0);
    } else {
        lemma_decimal(n / 10);
        let p = decimal(n / 10);
        let s = decimal(n);
        assert(s.drop_last() =~= p);
        assert(s[0] == p[0]);
        assert(is_digit(p[0]));
    }
    assert(is_digit(decimal(n)[0]));
}

/// Are two byte strings equal?
pub fn bytes_eq(a: &[u8], b: &[u8]) -> (r: bool)
    ensures
        r == (a@ == b@),
{
    if a.len() != b.len() {
        return false;
    }
    let n = a.len();
    let mut i: usize = 0;
    while i < n
        invariant
            i <= n,
            n == a@.len(),
            n == b@.len(),
            forall|j: int| 0 <= j < i ==> a@[j] == b@[j],
        decreases n - i,
    {
        if a[i] != b[i] {
            return false;
        }
        i += 1;
    }
    assert(a@ =~= b@);
    true
}

/// Does `s` begin with `p`?
pub fn has_prefix(s: &[u8], p: &[u8]) -> (r: bool)
    ensures
        r == starts_with(s@, p@),
{
    if p.len() > s.len() {
        return false;
    }
    let n = p.len();
    let mut i: usize = 0;
    while i < n
        invariant
            i <= n,
            n == p@.len(),
            n <= s@.len(),
            forall|j: int| 0 <= j < i ==> s@[j] == p@[j],
        decreases n - i,
    {
        if s[i] != p[i] {
            assert(s@.take(n as int)[i as int] != p@[i as int]);
            return false;
        }
        i += 1;
    }
    assert(s@.take(n as int) =~= p@);
    true
}

/// The position of the first `b` at or after `from`, or the length of `s`.
pub fn find_byte(s: &[u8], from: usize, b: u8) -> (i: usize)
    requires
        from <= s@.len(),
    ensures
        i == from + index_of(s@.skip(from as int), b),
        from <= i <= s@.len(),
{
    let n = s.len();
    let mut i: usize = from;
    while i < n
        invariant
            from <= i <= n,
            n == s@.len(),
            forall|j: int| from <= j < i ==> s@[j] != b,
        decreases n - i,
    {
        if s[i] == b {
            proof {
                lemma_index_of_at(s@.skip(from as int), b, i - from);
            }
            return i;
        }
        i += 1;
    }
    proof {
        lemma_index_of_at(s@.skip(from as int), b, n - from);
    }
    n
}

/// A copy of the bytes from `from` up to `to`.
pub fn copy_range(s: &[u8], from: usize, to: usize) -> (v: Vec<u8>)
    requires
        from <= to <= s@.len(),
    ensures
        v@ == s@.subrange(from as int, to as int),
{
    let mut v: Vec<u8> = Vec::new();
    v.extend_from_slice(&s[from..to]);
    v
}

/// A copy of the bytes.
pub fn to_vec(s: &[u8]) -> (v: Vec<u8>)
    ensures
        v@ == s@,
{
    let mut v: Vec<u8> = Vec::new();
    v.extend_from_slice(s);
    assert(v@ =~= s@);
    v
}

/// Does `a` come before `b` in lexicographic order?
pub fn lex_less(a: &[u8], b: &[u8]) -> (r: bool)
    ensures
        r == lex_lt(a@, b@),
{
    let mut i: usize = 0;
    assert(a@.skip(0) =~= a@ && b@.skip(0) =~= b@);
    loop
        invariant
            i <= a@.len(),
            i <= b@.len(),
            lex_lt(a@, b@) == lex_lt(a@.skip(i as int), b@.skip(i as int)),
        decreases a@.len() - i,
    {
        if i >= b.len() {
            return false;
        }
        if i >= a.len() {
            return true;
        }
        if a[i] != b[i] {
            return a[i] < b[i];
        }
        proof {
            assert(a@.skip(i as int).drop_first() =~= a@.skip(i + 1));
            assert(b@.skip(i as int).drop_first() =~= b@.skip(i + 1));
        }
        i += 1;
    }
}

/// The bytes of an ASCII literal.
pub fn ascii_bytes(s: &str) -> (b: &[u8])
    requires
        is_ascii(s),
    ensures
        b@ == ascii(s@),
{
    broadcast use is_ascii_spec_bytes;

    s.as_bytes()
}

/// Where the part before the first `b` at or after `from` ends, and where
/// the part after it begins.
pub fn split_at_byte(s: &[u8], from: usize, b: u8) -> (r: (usize, usize))
    requires
        from <= s@.len(),
    ensures
        from <= r.0 <= r.1 <= s@.len(),
        s@.subrange(from as int, r.0 as int) == before(s@.skip(from as int), b),
        s@.skip(r.1 as int) == after(s@.skip(from as int), b),
        r.1 == (if r.0 < s@.len() { r.0 + 1 } else { r.0 as int }),
        r.0 < s@.len() <==> has_byte(s@.skip(from as int), b),
{
    let i = find_byte(s, from, b);
    let ghost t = s@.skip(from as int);
    proof {
        lemma_index_of(t, b);
        assert(t.take(i - from) =~= s@.subrange(from as int, i as int));
    }
    if i < s.len() {
        assert(t.skip(i - from + 1) =~= s@.skip(i + 1));
        (i, i + 1)
    } else {
        assert(s@.skip(i as int) =~= Seq::<u8>::empty());
        (i, i)
    }
}

/// The shortest decimal numeral of `n`.
pub fn to_decimal(n: u128) -> (v: Vec<u8>)
    ensures
        v@ == decimal(n as nat),
    decreases n,
{
    if n < 10 {
        let mut v: Vec<u8> = Vec::new();
        v.push(0x30u8 + (n as u8));
        assert(v@ =~= decimal(n as nat));
        v
    } else {
        let mut v = to_decimal(n / 10);
        v.push(0x30u8 + ((n % 10) as u8));
        v
    }
}

/// Reads a numeral: `Some` of its number where it denotes one that fits.
pub fn parse_u128(s: &[u8]) -> (r: Option<u128>)
    ensures
        r == match numeral_value(s@) {
            Some(n) => if n <= u128::MAX { Some(n as u128) } else { None },
            None => None,
        },
{
    let n = s.len();
    let start: usize = if n > 0 && s[0] == 0x2b { 1 } else { 0 };
    let ghost d = numeral_digits(s@);
    assert(d =~= s@.skip(start as int));
    if start == n {
        return None;
    }
    let mut acc: u128 = 0;
    let mut i: usize = start;
    while i < n
        invariant
            start <= i <= n,
            n == s@.len(),
            d == s@.skip(start as int),
            d == numeral_digits(s@),
            all_digits(d.take(i - start)),
            acc == digits_value(d.take(i - start)),
        decreases n - i,
    {
        let c = s[i];
        if c < 0x30 || c > 0x39 {
            assert(!is_digit(d[i - start]));
            return None;
        }
        let digit: u128 = (c - 0x30) as u128;
        proof {
            let t = d.take(i - start + 1);
            assert(t.drop_last() =~= d.take(i - start));
            assert(t.last() == c);
            assert forall|j: int| 0 <= j < t.len() implies is_digit(#[trigger] t[j]) by {
                if j < i - start {
                    assert(t[j] == d.take(i - start)[j]);
                }
            }
        }
        if acc > (u128::MAX - digit) / 10 {
            proof {
                if all_digits(d) {
                    lemma_digits_value_prefix(d, i - start + 1);
                }
            }
            return None;
        }
        acc = acc * 10 + digit;
        i += 1;
    }
    assert(d.take(n - start) =~= d);
    Some(acc)
}

} // verus!
