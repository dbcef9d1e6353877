//! Annotated tags: a named, described pointer to another object.

use crate::bytes::after;
use crate::bytes::ascii_bytes;
use crate::bytes::before;
use crate::bytes::copy_range;
use crate::bytes::has_byte;
use crate::bytes::has_prefix;
use crate::bytes::lemma_has_byte_concat;
use crate::bytes::lemma_split_at;
use crate::bytes::split_at_byte;
use crate::bytes::starts_with;
use crate::error::GitErrorKind;
use crate::error::RustGitError;
use crate::object::id::GitObjectId;
use crate::object::identity::identity_fits;
use crate::object::identity::identity_line;
use crate::object::identity::identity_parse;
use crate::object::identity::identity_fault;
use crate::object::identity::lemma_identity_roundtrip;
use crate::object::identity::lemma_role_word;
use crate::object::identity::GitIdentity;
use crate::object::identity::GitIdentityType;
use crate::object::identity::IdentityView;
use crate::object::raw::kind_of_word;
use crate::object::raw::unknown_kind_text;
use crate::object::raw::kind_word;
use crate::object::raw::lemma_kind_word;
use crate::object::raw::lemma_kind_word_has_no;
use crate::object::raw::GitObjectRaw;
use crate::object::raw::GitObjectType;
use vstd::prelude::*;
use vstd::string::*;

verus! {

/// An annotated tag.
#[derive(Debug, Clone, PartialEq, Eq)]
pub struct GitTagObject {
    pub tag_name: Vec<u8>,
    pub object_id: GitObjectId,
    pub object_type: GitObjectType,
    pub tagger: GitIdentity,
    pub message: Vec<u8>,
}

/// The mathematical value of a tag.
pub struct TagView {
    pub tag_name: Seq<u8>,
    pub object_id: Seq<u8>,
    pub object_type: GitObjectType,
    pub tagger: IdentityView,
    pub message: Seq<u8>,
}

impl View for GitTagObject {
    type V = TagView;

    open spec fn view(&self) -> TagView {
        TagView {
            tag_name: self.tag_name@,
            object_id: self.object_id@,
            object_type: self.object_type,
            tagger: self.tagger@,
            message: self.message@,
        }
    }
}

/// `object ` with its space
pub open spec fn key_object() -> Seq<u8> {
    seq!['o' as u8, 'b' as u8, 'j' as u8, 'e' as u8, 'c' as u8, 't' as u8, ' ' as u8]
}

/// `type ` with its space
pub open spec fn key_type() -> Seq<u8> {
    seq!['t' as u8, 'y' as u8, 'p' as u8, 'e' as u8, ' ' as u8]
}

/// `tag ` with its space
pub open spec fn key_tag() -> Seq<u8> {
    seq!['t' as u8, 'a' as u8, 'g' as u8, ' ' as u8]
}

/// The payload of a tag: the lines of the object, its kind, the name and
/// the tagger, an empty line, the message.
pub open spec fn tag_text(t: TagView) -> Seq<u8> {
    key_object() + t.object_id + seq![0x0au8] + key_type() + kind_word(t.object_type) + seq![0x0au8]
        + key_tag() + t.tag_name + seq![0x0au8] + identity_line(GitIdentityType::Tagger, t.tagger)
        + seq![0x0au8, 0x0au8] + t.message
}

/// What a payload states as a tag. The first three lines name the object,
/// its kind and the tag; the fourth is the identity of the tagger; one more
/// line is passed over, and all that follows is the message.
pub open spec fn tag_parse(s: Seq<u8>) -> Result<TagView, GitErrorKind> {
    let r1 = after(s, 0x0a);
    let r2 = after(r1, 0x0a);
    let r3 = after(r2, 0x0a);
    if s.len() == 0 || !starts_with(before(s, 0x0a), key_object()) {
        Err(GitErrorKind::MissingField)
    } else if r1.len() == 0 || !starts_with(before(r1, 0x0a), key_type()) {
        Err(GitErrorKind::MissingField)
    } else {
        match kind_of_word(before(r1, 0x0a).skip(5)) {
            None => Err(GitErrorKind::UnknownKind),
            Some(kind) => if r2.len() == 0 || !starts_with(before(r2, 0x0a), key_tag()) {
                Err(GitErrorKind::MissingField)
            } else if r3.len() == 0 {
                Err(GitErrorKind::MissingField)
            } else {
                match identity_parse(before(r3, 0x0a)) {
                    Err(k) => Err(k),
                    Ok(tagger) => Ok(
                        TagView {
                            tag_name: before(r2, 0x0a).skip(4),
                            object_id: before(s, 0x0a).skip(7),
                            object_type: kind,
                            tagger,
                            message: after(after(r3, 0x0a), 0x0a),
                        },
                    ),
                }
            },
        }
    }
}

/// The error says why the payload states no tag: what is missing, that
/// the kind of the object is unknown, or what is at fault in the line of
/// the tagger.
pub open spec fn tag_fault(e: RustGitError, s: Seq<u8>) -> bool {
    let r1 = after(s, 0x0a);
    let r2 = after(r1, 0x0a);
    let r3 = after(r2, 0x0a);
    if s.len() == 0 {
        e.error@ == "invalid tag object, empty"@
    } else if !starts_with(before(s, 0x0a), key_object()) {
        e.error@ == "invalid tag object, missing object id"@
    } else if r1.len() == 0 || !starts_with(before(r1, 0x0a), key_type()) {
        e.error@ == "invalid tag object, missing object type"@
    } else if kind_of_word(before(r1, 0x0a).skip(5)) is None {
        e.says(unknown_kind_text(before(r1, 0x0a).skip(5)))
    } else if r2.len() == 0 || !starts_with(before(r2, 0x0a), key_tag()) {
        e.error@ == "invalid tag object, missing tag name"@
    } else if r3.len() == 0 {
        e.error@ == "invalid tag object, missing tagger"@
    } else {
        identity_fault(e, before(r3, 0x0a))
    }
}

/// The tags that their text can carry: an id and a name without line feeds,
/// and a tagger that fits its line and stands in that role. The message is
/// free.
pub open spec fn tag_fits(t: TagView) -> bool {
    &&& !has_byte(t.object_id, 0x0a)
    &&& !has_byte(t.tag_name, 0x0a)
    &&& identity_fits(t.tagger)
    &&& t.tagger.identity_type == GitIdentityType::Tagger
}

proof fn lemma_key_has_no_line_feed(key: Seq<u8>)
    requires
        key == key_object() || key == key_type() || key == key_tag(),
    ensures
        !has_byte(key, 0x0a),
{
    if has_byte(key, 0x0a) {
        let i = choose|i: int| 0 <= i < key.len() && key[i] == 0x0a;
    }
}

/// The text of a tag that fits is read back as that tag.
pub proof fn lemma_tag_roundtrip(t: TagView)
    requires
        tag_fits(t),
    ensures
        tag_parse(tag_text(t)) == Ok::<_, GitErrorKind>(t),
{
    let nl = seq![0x0au8];
    let l1 = key_object() + t.object_id;
    let l2 = key_type() + kind_word(t.object_type);
    let l3 = key_tag() + t.tag_name;
    let l4 = identity_line(GitIdentityType::Tagger, t.tagger);
    let r4 = nl + t.message;
    let r3 = l4 + nl + r4;
    let r2 = l3 + nl + r3;
    let r1 = l2 + nl + r2;
    let s = tag_text(t);
    assert(s == l1 + nl + r1) by {
        assert(s =~= l1 + nl + r1);
    }
    assert(before(s, 0x0a) == l1 && after(s, 0x0a) == r1) by {
        lemma_key_has_no_line_feed(key_object());
        lemma_has_byte_concat(key_object(), t.object_id, 0x0a);
        lemma_split_at(l1, 0x0a, r1);
    }
    assert(before(r1, 0x0a) == l2 && after(r1, 0x0a) == r2) by {
        lemma_key_has_no_line_feed(key_type());
        lemma_kind_word_has_no(t.object_type, 0x0a);
        lemma_has_byte_concat(key_type(), kind_word(t.object_type), 0x0a);
        lemma_split_at(l2, 0x0a, r2);
    }
    assert(before(r2, 0x0a) == l3 && after(r2, 0x0a) == r3) by {
        lemma_key_has_no_line_feed(key_tag());
        lemma_has_byte_concat(key_tag(), t.tag_name, 0x0a);
        lemma_split_at(l3, 0x0a, r3);
    }
    assert(before(r3, 0x0a) == l4 && after(r3, 0x0a) == r4 && identity_parse(l4) == Ok::<
        _,
        GitErrorKind,
    >(t.tagger)) by {
        lemma_identity_roundtrip(t.tagger);
        lemma_split_at(l4, 0x0a, r4);
    }
    assert(after(r4, 0x0a) == t.message) by {
        assert(r4 =~= Seq::<u8>::empty() + nl + t.message);
        assert(!has_byte(Seq::<u8>::empty(), 0x0a));
        lemma_split_at(Seq::<u8>::empty(), 0x0a, t.message);
    }
    assert(starts_with(l1, key_object()) && l1.skip(7) == t.object_id) by {
        assert(l1.take(7) =~= key_object());
        assert(l1.skip(7) =~= t.object_id);
    }
    assert(starts_with(l2, key_type()) && l2.skip(5) == kind_word(t.object_type)) by {
        assert(l2.take(5) =~= key_type());
        assert(l2.skip(5) =~= kind_word(t.object_type));
    }
    assert(starts_with(l3, key_tag()) && l3.skip(4) == t.tag_name) by {
        assert(l3.take(4) =~= key_tag());
        assert(l3.skip(4) =~= t.tag_name);
    }
    assert(kind_of_word(kind_word(t.object_type)) == Some(t.object_type)) by {
        lemma_kind_word(t.object_type);
    }
    assert(s.len() > 0 && r1.len() > 0 && r2.len() > 0 && r3.len() > 0) by {
        lemma_role_word(GitIdentityType::Tagger);
    }
}

fn key_object_bytes() -> (k: &'static [u8])
    ensures
        k@ == key_object(),
{
    proof {
        reveal_strlit("object ");
    }
    let k = ascii_bytes("object ");
    assert(k@ =~= key_object());
    k
}

fn key_type_bytes() -> (k: &'static [u8])
    ensures
        k@ == key_type(),
{
    proof {
        reveal_strlit("type ");
    }
    let k = ascii_bytes("type ");
    assert(k@ =~= key_type());
    k
}

fn key_tag_bytes() -> (k: &'static [u8])
    ensures
        k@ == key_tag(),
{
    proof {
        reveal_strlit("tag ");
    }
    let k = ascii_bytes("tag ");
    assert(k@ =~= key_tag());
    k
}

fn missing(what: &str) -> (e: RustGitError)
    ensures
        e.kind == GitErrorKind::MissingField,
        e.error@ == what@,
{
    RustGitError::with_kind(GitErrorKind::MissingField, what)
}

impl GitTagObject {
    /// The tag is one that its text can carry.
    pub open spec fn fits(&self) -> bool {
        tag_fits(self@)
    }

    /// The payload of the tag.
    pub fn to_bytes(&self) -> (v: Vec<u8>)
        ensures
            v@ == tag_text(self@),
    {
        let mut v: Vec<u8> = Vec::new();
        v.extend_from_slice(key_object_bytes());
        v.extend_from_slice(self.object_id.as_bytes());
        v.push(0x0a);
        v.extend_from_slice(key_type_bytes());
        v.extend_from_slice(self.object_type.word());
        v.push(0x0a);
        v.extend_from_slice(key_tag_bytes());
        v.extend_from_slice(self.tag_name.as_slice());
        v.push(0x0a);
        self.tagger.write_line(GitIdentityType::Tagger, &mut v);
        v.push(0x0a);
        v.push(0x0a);
        v.extend_from_slice(self.message.as_slice());
        assert(v@ =~= tag_text(self@));
        v
    }

    /// Reads the payload of a tag. The error says what is missing or at
    /// fault.
    #[verifier::rlimit(60)]
    pub fn from_bytes(s: &[u8]) -> (r: Result<GitTagObject, RustGitError>)
        ensures
            match r {
                Ok(t) => tag_parse(s@) == Ok::<_, GitErrorKind>(t@),
                Err(e) => tag_parse(s@) == Err::<TagView, _>(e.kind) && tag_fault(e, s@),
            },
    {
        let n = s.len();
        assert(s@.skip(0) =~= s@);
        if n == 0 {
            return Err(missing("invalid tag object, empty"));
        }
        let (l1_end, p1) = split_at_byte(s, 0, 0x0a);
        if !has_prefix(&s[0..l1_end], key_object_bytes()) {
            return Err(missing("invalid tag object, missing object id"));
        }
        let object_id = GitObjectId::from_bytes(copy_range(s, 7, l1_end));
        assert(object_id@ =~= before(s@, 0x0a).skip(7));
        if p1 == n {
            return Err(missing("invalid tag object, missing object type"));
        }
        let (l2_end, p2) = split_at_byte(s, p1, 0x0a);
        if !has_prefix(&s[p1..l2_end], key_type_bytes()) {
            return Err(missing("invalid tag object, missing object type"));
        }
        let word = &s[p1 + 5..l2_end];
        assert(word@ =~= before(s@.skip(p1 as int), 0x0a).skip(5));
        let object_type = match GitObjectType::from_bytes(word) {
            Some(k) => k,
            None => {
                return Err(
                    RustGitError::framed(GitErrorKind::UnknownKind, "'", word, "' is not a valid object type"),
                );
            },
        };
        if p2 == n {
            return Err(missing("invalid tag object, missing tag name"));
        }
        let (l3_end, p3) = split_at_byte(s, p2, 0x0a);
        if !has_prefix(&s[p2..l3_end], key_tag_bytes()) {
            return Err(missing("invalid tag object, missing tag name"));
        }
        let tag_name = copy_range(s, p2 + 4, l3_end);
        assert(tag_name@ =~= before(s@.skip(p2 as int), 0x0a).skip(4));
        if p3 == n {
            return Err(missing("invalid tag object, missing tagger"));
        }
        let (l4_end, p4) = split_at_byte(s, p3, 0x0a);
        let tagger = match GitIdentity::from_bytes(&s[p3..l4_end]) {
            Ok(t) => t,
            Err(e) => {
                return Err(e);
            },
        };
        let (_skipped, p5) = split_at_byte(s, p4, 0x0a);
        let message = copy_range(s, p5, n);
        assert(message@ =~= s@.skip(p5 as int));
        Ok(GitTagObject { tag_name, object_id, object_type, tagger, message })
    }

    /// The tag as a raw object with its id.
    pub fn to_raw(&self) -> (r: Result<GitObjectRaw, RustGitError>)
        ensures
            r is Ok,
            r->Ok_0.wf(),
            r->Ok_0.id.is_valid(),
            r->Ok_0.object.header.obj_type == GitObjectType::Tag,
            r->Ok_0.object.content@ == tag_text(self@),
    {
        GitObjectRaw::new(GitObjectType::Tag, self.to_bytes())
    }
}

} // verus!
