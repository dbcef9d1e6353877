//! Who made a commit or a tag, and when.

use crate::bytes::after;
use crate::bytes::ascii_bytes;
use crate::bytes::before;
use crate::bytes::bytes_eq;
use crate::bytes::copy_range;
use crate::bytes::decimal;
use crate::bytes::has_byte;
use crate::bytes::is_digit;
use crate::bytes::lemma_decimal;
use crate::bytes::lemma_decimal_has_no;
use crate::bytes::lemma_has_byte_concat;
use crate::bytes::lemma_split_at;
use crate::bytes::numeral_value;
use crate::bytes::parse_u128;
use crate::bytes::split_at_byte;
use crate::bytes::to_decimal;
use crate::error::GitErrorKind;
use crate::error::RustGitError;
use vstd::prelude::*;
use vstd::string::*;

verus! {

/// The role in which an identity stands on its line.
#[derive(Debug, Clone, Copy, PartialEq, Eq, Structural)]
pub enum GitIdentityType {
    Author,
    Committer,
    Tagger,
}

/// `author`
pub open spec fn word_author() -> Seq<u8> {
    seq!['a' as u8, 'u' as u8, 't' as u8, 'h' as u8, 'o' as u8, 'r' as u8]
}

/// `committer`
pub open spec fn word_committer() -> Seq<u8> {
    seq![
        'c' as u8,
        'o' as u8,
        'm' as u8,
        'm' as u8,
        'i' as u8,
        't' as u8,
        't' as u8,
        'e' as u8,
        'r' as u8,
    ]
}

/// `tagger`
pub open spec fn word_tagger() -> Seq<u8> {
    seq!['t' as u8, 'a' as u8, 'g' as u8, 'g' as u8, 'e' as u8, 'r' as u8]
}

/// The word that names a role.
pub open spec fn role_word(role: GitIdentityType) -> Seq<u8> {
    match role {
        GitIdentityType::Author => word_author(),
        GitIdentityType::Committer => word_committer(),
        GitIdentityType::Tagger => word_tagger(),
    }
}

/// The role that a word names, if any.
pub open spec fn role_of_word(s: Seq<u8>) -> Option<GitIdentityType> {
    if s == word_author() {
        Some(GitIdentityType::Author)
    } else if s == word_committer() {
        Some(GitIdentityType::Committer)
    } else if s == word_tagger() {
        Some(GitIdentityType::Tagger)
    } else {
        None
    }
}

/// Every role is named by its own word, which holds only letters.
pub proof fn lemma_role_word(role: GitIdentityType)
    ensures
        role_of_word(role_word(role)) == Some(role),
        role_word(role).len() >= 6,
        forall|i: int| 0 <= i < role_word(role).len() ==> 0x61 <= #[trigger] role_word(role)[i] <= 0x7a,
{
    assert(word_author().len() == 6 && word_committer().len() == 9 && word_tagger().len() == 6);
    assert(word_author()[0] != word_tagger()[0]);
}

/// An identity: a name, an email address, and the moment in milliseconds
/// since the epoch.
#[derive(Debug, Clone, PartialEq, Eq)]
pub struct GitIdentity {
    pub identity_type: GitIdentityType,
    pub name: Vec<u8>,
    pub email: Vec<u8>,
    pub timestamp: u128,
}

/// The mathematical value of an identity.
pub struct IdentityView {
    pub identity_type: GitIdentityType,
    pub name: Seq<u8>,
    pub email: Seq<u8>,
    pub timestamp: u128,
}

impl View for GitIdentity {
    type V = IdentityView;

    open spec fn view(&self) -> IdentityView {
        IdentityView {
            identity_type: self.identity_type,
            name: self.name@,
            email: self.email@,
            timestamp: self.timestamp,
        }
    }
}

/// The line of an identity under the given role: the role, the name, the
/// address in angle brackets, the moment in decimal.
pub open spec fn identity_line(role: GitIdentityType, v: IdentityView) -> Seq<u8> {
    role_word(role) + seq![0x20u8] + v.name + seq![0x20u8, 0x3cu8] + v.email + seq![0x3eu8, 0x20u8]
        + decimal(v.timestamp as nat)
}

/// `s` without one space at its end, if it has one there.
pub open spec fn without_last_space(s: Seq<u8>) -> Seq<u8> {
    if s.len() > 0 && s.last() == 0x20 {
        s.drop_last()
    } else {
        s
    }
}

/// `s` without one space at its start, if it has one there.
pub open spec fn without_first_space(s: Seq<u8>) -> Seq<u8> {
    if s.len() > 0 && s[0] == 0x20 {
        s.skip(1)
    } else {
        s
    }
}

/// What an identity line states. The role is the word before the first
/// space; the name is what stands from there to the first `<`, less one
/// space at its end; the address is what follows up to the first `>`; the
/// moment is the numeral after that, less one space at its start.
pub open spec fn identity_parse(line: Seq<u8>) -> Result<IdentityView, GitErrorKind> {
    match role_of_word(before(line, 0x20)) {
        None => Err(GitErrorKind::UnknownKind),
        Some(role) => {
            let r1 = after(line, 0x20);
            let r2 = after(r1, 0x3c);
            match numeral_value(without_first_space(after(r2, 0x3e))) {
                Some(n) => if n <= u128::MAX {
                    Ok(
                        IdentityView {
                            identity_type: role,
                            name: without_last_space(before(r1, 0x3c)),
                            email: before(r2, 0x3e),
                            timestamp: n as u128,
                        },
                    )
                } else {
                    Err(GitErrorKind::BadTimestamp)
                },
                None => Err(GitErrorKind::BadTimestamp),
            }
        },
    }
}

/// `invalid identity type '`, the word, `'`
pub open spec fn invalid_role_text(word: Seq<u8>) -> Seq<u8> {
    "invalid identity type '".spec_bytes() + word + "'".spec_bytes()
}

/// The error says why the line states no identity: its role is unknown,
/// or its moment is no numeral that fits.
pub open spec fn identity_fault(e: RustGitError, line: Seq<u8>) -> bool {
    if role_of_word(before(line, 0x20)) is None {
        e.says(invalid_role_text(before(line, 0x20)))
    } else {
        e.error@ == "ParseIntError { kind: InvalidDigit }"@
    }
}

/// The names and addresses that a line can carry: a name without `<`, an
/// address without `>`, neither with a line feed.
pub open spec fn identity_fits(v: IdentityView) -> bool {
    &&& !has_byte(v.name, 0x3c)
    &&& !has_byte(v.name, 0x0a)
    &&& !has_byte(v.email, 0x3e)
    &&& !has_byte(v.email, 0x0a)
}

/// The line of an identity that fits is read back as that identity, and
/// holds no line feed.
pub proof fn lemma_identity_roundtrip(v: IdentityView)
    requires
        identity_fits(v),
    ensures
        identity_parse(identity_line(v.identity_type, v)) == Ok::<_, GitErrorKind>(v),
        !has_byte(identity_line(v.identity_type, v), 0x0a),
{
    let w = role_word(v.identity_type);
    let d = decimal(v.timestamp as nat);
    let line = identity_line(v.identity_type, v);
    let r3 = seq![0x20u8] + d;
    let r2 = v.email + seq![0x3eu8] + r3;
    let raw = v.name + seq![0x20u8];
    let r1 = raw + seq![0x3cu8] + r2;
    lemma_role_word(v.identity_type);
    lemma_decimal(v.timestamp as nat);
    assert(line =~= w + seq![0x20u8] + r1);
    assert(!has_byte(w, 0x20)) by {
        if has_byte(w, 0x20) {
            let i = choose|i: int| 0 <= i < w.len() && w[i] == 0x20;
            assert(0x61 <= w[i]);
        }
    }
    lemma_split_at(w, 0x20, r1);
    lemma_has_byte_concat(v.name, seq![0x20u8], 0x3c);
    lemma_split_at(raw, 0x3c, r2);
    assert(without_last_space(raw) =~= v.name);
    lemma_split_at(v.email, 0x3e, r3);
    assert(without_first_space(r3) =~= d);
    lemma_identity_line_has_no(v.identity_type, v, 0x0a);
}

/// An identity line holds no byte that is neither in the name or the
/// address nor a letter, a digit, a space or an angle bracket.
pub proof fn lemma_identity_line_has_no(role: GitIdentityType, v: IdentityView, b: u8)
    requires
        !has_byte(v.name, b),
        !has_byte(v.email, b),
        !is_digit(b),
        !(0x61 <= b <= 0x7a),
        b != 0x20,
        b != 0x3c,
        b != 0x3e,
    ensures
        !has_byte(identity_line(role, v), b),
{
    let w = role_word(role);
    let d = decimal(v.timestamp as nat);
    lemma_role_word(role);
    lemma_decimal_has_no(v.timestamp as nat, b);
    let s1 = w + seq![0x20u8];
    let s2 = s1 + v.name;
    let s3 = s2 + seq![0x20u8, 0x3cu8];
    let s4 = s3 + v.email;
    let s5 = s4 + seq![0x3eu8, 0x20u8];
    lemma_has_byte_concat(w, seq![0x20u8], b);
    lemma_has_byte_concat(s1, v.name, b);
    lemma_has_byte_concat(s2, seq![0x20u8, 0x3cu8], b);
    lemma_has_byte_concat(s3, v.email, b);
    lemma_has_byte_concat(s4, seq![0x3eu8, 0x20u8], b);
    lemma_has_byte_concat(s5, d, b);
}

impl GitIdentityType {
    /// The word that names the role.
    pub fn word(&self) -> (w: &'static [u8])
        ensures
            w@ == role_word(*self),
    {
        proof {
            reveal_strlit("author");
            reveal_strlit("committer");
            reveal_strlit("tagger");
        }
        let w = match self {
            GitIdentityType::Author => ascii_bytes("author"),
            GitIdentityType::Committer => ascii_bytes("committer"),
            GitIdentityType::Tagger => ascii_bytes("tagger"),
        };
        assert(w@ =~= role_word(*self));
        w
    }

    /// The role that the word names, if it names one.
    pub fn from_bytes(s: &[u8]) -> (r: Option<GitIdentityType>)
        ensures
            r == role_of_word(s@),
    {
        if bytes_eq(s, GitIdentityType::Author.word()) {
            Some(GitIdentityType::Author)
        } else if bytes_eq(s, GitIdentityType::Committer.word()) {
            Some(GitIdentityType::Committer)
        } else if bytes_eq(s, GitIdentityType::Tagger.word()) {
            Some(GitIdentityType::Tagger)
        } else {
            None
        }
    }

    /// The role that the text names; any other text is an unknown kind.
    pub fn from_str(s: &str) -> (r: Result<GitIdentityType, RustGitError>)
        ensures
            match r {
                Ok(k) => role_of_word(s.spec_bytes()) == Some(k),
                Err(e) => role_of_word(s.spec_bytes()) is None && e.kind == GitErrorKind::UnknownKind
                    && e.says(invalid_role_text(s.spec_bytes())),
            },
    {
        match GitIdentityType::from_bytes(s.as_bytes()) {
            Some(k) => Ok(k),
            None => Err(
                RustGitError::framed(GitErrorKind::UnknownKind, "invalid identity type '", s.as_bytes(), "'"),
            ),
        }
    }
}

impl GitIdentity {
    /// A copy of the identity.
    pub fn duplicate(&self) -> (r: GitIdentity)
        ensures
            r@ == self@,
    {
        GitIdentity {
            identity_type: self.identity_type,
            name: self.name.clone(),
            email: self.email.clone(),
            timestamp: self.timestamp,
        }
    }

    /// Appends the line of the identity under the given role.
    pub fn write_line(&self, role: GitIdentityType, out: &mut Vec<u8>)
        ensures
            final(out)@ == old(out)@ + identity_line(role, self@),
    {
        let ghost start = out@;
        out.extend_from_slice(role.word());
        out.push(0x20);
        out.extend_from_slice(self.name.as_slice());
        out.push(0x20);
        out.push(0x3c);
        out.extend_from_slice(self.email.as_slice());
        out.push(0x3e);
        out.push(0x20);
        let d = to_decimal(self.timestamp);
        out.extend_from_slice(d.as_slice());
        assert(out@ =~= start + identity_line(role, self@));
    }

    /// Reads an identity line.
    pub fn from_bytes(line: &[u8]) -> (r: Result<GitIdentity, RustGitError>)
        ensures
            match r {
                Ok(id) => identity_parse(line@) == Ok::<_, GitErrorKind>(id@),
                Err(e) => identity_parse(line@) == Err::<IdentityView, _>(e.kind) && identity_fault(
                    e,
                    line@,
                ),
            },
    {
        let n = line.len();
        assert(line@.skip(0) =~= line@);
        let (w_end, p1) = split_at_byte(line, 0, 0x20);
        let role = match GitIdentityType::from_bytes(&line[0..w_end]) {
            Some(role) => role,
            None => {
                return Err(
                    RustGitError::framed(
                        GitErrorKind::UnknownKind,
                        "invalid identity type '",
                        &line[0..w_end],
                        "'",
                    ),
                );
            },
        };
        let ghost r1 = line@.skip(p1 as int);
        let (raw_end, p2) = split_at_byte(line, p1, 0x3c);
        let ghost raw = line@.subrange(p1 as int, raw_end as int);
        let name_end = if raw_end > p1 && line[raw_end - 1] == 0x20 {
            raw_end - 1
        } else {
            raw_end
        };
        let name = copy_range(line, p1, name_end);
        assert(name@ =~= without_last_space(raw));
        let ghost r2 = line@.skip(p2 as int);
        let (email_end, p3) = split_at_byte(line, p2, 0x3e);
        let email = copy_range(line, p2, email_end);
        let ghost r3 = line@.skip(p3 as int);
        let p4 = if p3 < n && line[p3] == 0x20 {
            p3 + 1
        } else {
            p3
        };
        let digits = &line[p4..n];
        assert(digits@ =~= without_first_space(r3)) by {
            if p3 < n && line@[p3 as int] == 0x20 {
                assert(r3.skip(1) =~= line@.skip(p4 as int));
            }
        }
        match parse_u128(digits) {
            Some(timestamp) => Ok(GitIdentity { identity_type: role, name, email, timestamp }),
            None => Err(
                RustGitError::with_kind(GitErrorKind::BadTimestamp, "ParseIntError { kind: InvalidDigit }"),
            ),
        }
    }
}

} // verus!
