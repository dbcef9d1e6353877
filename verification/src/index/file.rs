//! The index file: a header, the entries, and the digest of both.

use crate::bytes::bytes_eq;
use crate::error::GitErrorKind;
use crate::error::RustGitError;
use crate::hash::digest20;
use crate::hash::digest_of;
use crate::hash::hex_decode;
use crate::hash::hex_encode;
use crate::hash::hex_encoded;
use crate::hash::sha1_digest;
use crate::index::entries_view;
use crate::index::sorted;
use crate::index::entry::entry_bytes;
use crate::index::entry::entry_encodable;
use crate::index::entry::entry_fault;
use crate::index::entry::entry_parse;
use crate::index::entry::entry_storable;
use crate::index::entry::lemma_entry_roundtrip;
use crate::index::entry::EntryView;
use crate::index::entry::GitIndexEntry;
use crate::index::fields::header_bytes;
use crate::index::fields::header_fault;
use crate::index::fields::header_parse;
use crate::index::fields::lemma_header_roundtrip;
use crate::index::fields::GitIndexHeader;
use crate::index::GitIndex;
use crate::index::IndexView;
use vstd::prelude::*;
use vstd::string::*;

verus! {

/// The bytes of a list of entries, one after the other.
pub open spec fn entries_bytes(es: Seq<EntryView>) -> Seq<u8>
    decreases es.len(),
{
    if es.len() == 0 {
        Seq::empty()
    } else {
        entries_bytes(es.drop_last()) + entry_bytes(es.last())
    }
}

/// What the digest at the end of the file covers: the header and the
/// entries.
pub open spec fn index_body(idx: IndexView) -> Seq<u8> {
    header_bytes(idx.header) + entries_bytes(idx.entries)
}

/// The index file: the header, the entries, and the digest of both.
pub open spec fn index_bytes(idx: IndexView) -> Seq<u8> {
    index_body(idx) + digest20(index_body(idx))
}

/// `entries`, then what `rest` holds, unless `rest` is a failure.
pub open spec fn entries_then(
    entries: Seq<EntryView>,
    rest: Result<Seq<EntryView>, GitErrorKind>,
) -> Result<Seq<EntryView>, GitErrorKind> {
    match rest {
        Ok(more) => Ok(entries + more),
        Err(k) => Err(k),
    }
}

/// The `count` entries with which `s` begins, each beginning where the one
/// before it ends; the failure of the first that cannot be read.
pub open spec fn entries_parse(s: Seq<u8>, count: nat) -> Result<Seq<EntryView>, GitErrorKind>
    decreases count,
{
    if count == 0 {
        Ok(Seq::empty())
    } else {
        match entry_parse(s) {
            Err(k) => Err(k),
            Ok((e, taken)) => entries_then(seq![e], entries_parse(s.skip(taken), (count - 1) as nat)),
        }
    }
}

/// What an index file holds. The last 20 bytes are the digest; before them
/// stand the header and as many entries as the header counts. A file too
/// short for a header and a digest is corrupt; the header and the entries
/// are read before the digest is held against what it covers.
pub open spec fn index_parse(s: Seq<u8>) -> Result<IndexView, GitErrorKind> {
    if s.len() < 32 {
        Err(GitErrorKind::Corrupt)
    } else {
        let body = s.take(s.len() - 20);
        match header_parse(body.take(12)) {
            Err(k) => Err(k),
            Ok(header) => match entries_parse(body.skip(12), header.num_entries as nat) {
                Err(k) => Err(k),
                Ok(entries) => if s.skip(s.len() - 20) == digest20(body) {
                    Ok(IndexView { header, entries })
                } else {
                    Err(GitErrorKind::ChecksumMismatch)
                },
            },
        }
    }
}

/// `Index checksum `, the stored digest, ` doesn't match computed hash `,
/// the computed digest, both in hexadecimal
pub open spec fn checksum_text(stored: Seq<u8>, computed: Seq<u8>) -> Seq<u8> {
    "Index checksum ".spec_bytes() + hex_encoded(stored)
        + " doesn't match computed hash ".spec_bytes() + hex_encoded(computed)
}

/// Where the first of `count` entries in `s` that cannot be read begins:
/// what is left of `s` after the entries before it.
pub open spec fn unread_from(s: Seq<u8>, count: nat) -> Seq<u8>
    decreases count,
{
    if count == 0 {
        s
    } else {
        match entry_parse(s) {
            Err(_) => s,
            Ok((_, taken)) => unread_from(s.skip(taken), (count - 1) as nat),
        }
    }
}

/// The error says why the file holds no index: it is too short, its
/// header is at fault, or the first entry that cannot be read is; or else
/// it names the digest at the end of the file and the digest of what
/// stands before it.
pub open spec fn index_fault(e: RustGitError, s: Seq<u8>) -> bool {
    let body = s.take(s.len() - 20);
    if s.len() < 32 {
        e.error@ == "index file is truncated"@
    } else {
        match header_parse(body.take(12)) {
            Err(_) => header_fault(e, body.take(12)),
            Ok(header) => match entries_parse(body.skip(12), header.num_entries as nat) {
                Err(_) => entry_fault(e, unread_from(body.skip(12), header.num_entries as nat)),
                Ok(_) => e.says(checksum_text(s.skip(s.len() - 20), sha1_digest(body))),
            },
        }
    }
}

/// Every entry of the list can be written.
pub open spec fn all_encodable(es: Seq<EntryView>) -> bool {
    forall|i: int|
        0 <= i < es.len() ==> entry_encodable(#[trigger] es[i]) && es[i].path_name.len() + 70
            <= usize::MAX
}

/// Every entry of the list is read back as it was written.
pub open spec fn all_storable(es: Seq<EntryView>) -> bool {
    forall|i: int| 0 <= i < es.len() ==> entry_storable(#[trigger] es[i])
}

/// The indexes that are read back as they were written: the header counts
/// the entries, and every entry is storable.
pub open spec fn index_storable(idx: IndexView) -> bool {
    idx.header.num_entries == idx.entries.len() && all_storable(idx.entries)
}

proof fn lemma_entries_bytes_front(e: EntryView, rest: Seq<EntryView>)
    ensures
        entries_bytes(seq![e] + rest) == entry_bytes(e) + entries_bytes(rest),
    decreases rest.len(),
{
    let all = seq![e] + rest;
    if rest.len() == 0 {
        assert(all.drop_last() =~= Seq::<EntryView>::empty());
        assert(rest =~= Seq::<EntryView>::empty());
        assert(all.last() == e);
        assert(entries_bytes(all.drop_last()) =~= Seq::<u8>::empty());
        assert(entries_bytes(rest) =~= Seq::<u8>::empty());
        assert(entries_bytes(all) =~= entry_bytes(e) + entries_bytes(rest));
    } else {
        assert(all.drop_last() =~= seq![e] + rest.drop_last());
        assert(all.last() == rest.last());
        lemma_entries_bytes_front(e, rest.drop_last());
        assert(entries_bytes(all) =~= entry_bytes(e) + entries_bytes(rest));
    }
}

/// The bytes of storable entries, whatever follows them, are read back as
/// those entries.
pub proof fn lemma_entries_roundtrip(es: Seq<EntryView>, tail: Seq<u8>)
    requires
        all_storable(es),
    ensures
        entries_parse(entries_bytes(es) + tail, es.len()) == Ok::<_, GitErrorKind>(es),
    decreases es.len(),
{
    if es.len() == 0 {
        assert(es =~= Seq::<EntryView>::empty());
    } else {
        let e = es[0];
        let rest = es.drop_first();
        let after = entries_bytes(rest) + tail;
        let s = entries_bytes(es) + tail;
        let taken = entry_bytes(e).len() as int;
        assert(es == seq![e] + rest) by {
            assert(es =~= seq![e] + rest);
        }
        assert(s == entry_bytes(e) + after) by {
            lemma_entries_bytes_front(e, rest);
            assert(s =~= entry_bytes(e) + after);
        }
        assert(entry_parse(s) == Ok::<_, GitErrorKind>((e, taken))) by {
            lemma_entry_roundtrip(e, after);
        }
        assert(s.skip(taken) == after) by {
            assert(s.skip(taken) =~= after);
        }
        assert(entries_parse(after, rest.len()) == Ok::<_, GitErrorKind>(rest)) by {
            assert forall|i: int| 0 <= i < rest.len() implies entry_storable(#[trigger] rest[i]) by {
                assert(rest[i] == es[i + 1]);
            }
            lemma_entries_roundtrip(rest, tail);
        }
        assert((es.len() - 1) as nat == rest.len());
    }
}

/// Where entries are read, there are as many as were asked for.
pub proof fn lemma_entries_parse_len(s: Seq<u8>, count: nat)
    ensures
        entries_parse(s, count) matches Ok(es) ==> es.len() == count,
    decreases count,
{
    if count > 0 {
        match entry_parse(s) {
            Err(_) => {},
            Ok((e, taken)) => {
                lemma_entries_parse_len(s.skip(taken), (count - 1) as nat);
            },
        }
    }
}

/// A storable index is read back from its file as it was.
pub proof fn lemma_index_roundtrip(idx: IndexView)
    requires
        index_storable(idx),
    ensures
        index_parse(index_bytes(idx)) == Ok::<_, GitErrorKind>(idx),
{
    let body = index_body(idx);
    let s = index_bytes(idx);
    lemma_header_roundtrip(idx.header);
    assert(s.take(s.len() - 20) =~= body);
    assert(s.skip(s.len() - 20) =~= digest20(body));
    assert(body.take(12) =~= header_bytes(idx.header));
    assert(body.skip(12) =~= entries_bytes(idx.entries) + Seq::<u8>::empty());
    lemma_entries_roundtrip(idx.entries, Seq::<u8>::empty());
}

/// A file that differs from the file of a storable index only within its
/// last 20 bytes is refused for its checksum.
pub proof fn lemma_checksum_guards(idx: IndexView, file: Seq<u8>)
    requires
        index_storable(idx),
        file.len() == index_bytes(idx).len(),
        file.take(file.len() - 20) == index_body(idx),
        file != index_bytes(idx),
    ensures
        index_parse(file) == Err::<IndexView, _>(GitErrorKind::ChecksumMismatch),
{
    let body = index_body(idx);
    let s = index_bytes(idx);
    lemma_index_roundtrip(idx);
    assert(s.take(s.len() - 20) =~= body);
    assert(s.skip(s.len() - 20) =~= digest20(body));
    if file.skip(file.len() - 20) == digest20(body) {
        assert(file =~= file.take(file.len() - 20) + file.skip(file.len() - 20));
        assert(file =~= s);
    }
}

proof fn lemma_entries_then_empty(r: Result<Seq<EntryView>, GitErrorKind>)
    ensures
        entries_then(Seq::empty(), r) == r,
{
    match r {
        Ok(more) => {
            assert(Seq::<EntryView>::empty() + more =~= more);
        },
        Err(_) => {},
    }
}

impl GitIndex {
    /// Every entry can be written.
    pub open spec fn encodable(&self) -> bool {
        all_encodable(self@.entries)
    }

    /// The index is read back from its file as it was.
    pub open spec fn storable(&self) -> bool {
        index_storable(self@)
    }

    /// Can every entry be written?
    pub fn check_encodable(&self) -> (r: bool)
        ensures
            r == self.encodable(),
    {
        let n = self.entries.len();
        let mut i: usize = 0;
        while i < n
            invariant
                i <= n,
                n == self.entries@.len(),
                forall|k: int|
                    0 <= k < i ==> entry_encodable(#[trigger] self@.entries[k])
                        && self@.entries[k].path_name.len() + 70 <= usize::MAX,
            decreases n - i,
        {
            let entry = &self.entries[i];
            let fits = entry.name.as_bytes().len() == 40 && entry.path_name.len() <= usize::MAX - 70
                && hex_decode(entry.name.as_bytes()).is_some();
            if !fits {
                assert(!(entry_encodable(self@.entries[i as int]) && self@.entries[i as int].path_name.len()
                    + 70 <= usize::MAX));
                return false;
            }
            i += 1;
        }
        true
    }

    /// Does the header count the entries, and are they sorted?
    pub fn check_wf(&self) -> (r: bool)
        ensures
            r == self.wf(),
    {
        self.entries.len() <= u32::MAX as usize && self.header.num_entries as usize
            == self.entries.len() && self.is_sorted()
    }

    /// The index file: the header, the entries, and the SHA-1 digest of
    /// both.
    pub fn serialize(index: &GitIndex) -> (v: Vec<u8>)
        requires
            index.encodable(),
        ensures
            v@ == index_bytes(index@),
            v@ == index_body(index@) + sha1_digest(index_body(index@)),
    {
        let mut v: Vec<u8> = Vec::new();
        let header_bytes = GitIndexHeader::serialize(&index.header);
        v.extend_from_slice(header_bytes.as_slice());
        let n = index.entries.len();
        let mut i: usize = 0;
        assert(index@.entries.take(0) =~= Seq::<EntryView>::empty());
        assert(v@ =~= header_bytes@ + entries_bytes(index@.entries.take(0)));
        while i < n
            invariant
                i <= n,
                n == index.entries@.len(),
                index.encodable(),
                v@ == header_bytes@ + entries_bytes(index@.entries.take(i as int)),
            decreases n - i,
        {
            assert(entry_encodable(index@.entries[i as int]));
            let entry_bytes = GitIndexEntry::serialize(&index.entries[i]);
            v.extend_from_slice(entry_bytes.as_slice());
            proof {
                let upto = index@.entries.take(i + 1);
                assert(upto.drop_last() =~= index@.entries.take(i as int));
                assert(upto.last() == index.entries@[i as int]@);
                assert(v@ =~= header_bytes@ + entries_bytes(upto));
            }
            i += 1;
        }
        assert(index@.entries.take(n as int) =~= index@.entries);
        let checksum = digest_of(v.as_slice());
        v.extend_from_slice(checksum.as_slice());
        v
    }

    /// Reads an index file. The error says what is at fault; where the
    /// digest at the end of the file is not that of what stands before it,
    /// it names both.
    pub fn deserialize(bytes: &[u8]) -> (r: Result<GitIndex, RustGitError>)
        ensures
            match r {
                Ok(index) => index_parse(bytes@) == Ok::<_, GitErrorKind>(index@)
                    && index.header.num_entries == index.entries@.len(),
                Err(e) => index_parse(bytes@) == Err::<IndexView, _>(e.kind) && index_fault(
                    e,
                    bytes@,
                ),
            },
    {
        let n = bytes.len();
        if n < 32 {
            return Err(RustGitError::with_kind(GitErrorKind::Corrupt, "index file is truncated"));
        }
        let end = n - 20;
        let ghost body = bytes@.take(end as int);
        assert(bytes@.subrange(0, 12) =~= body.take(12));
        let header = match GitIndexHeader::deserialize(&bytes[0..12]) {
            Ok(h) => h,
            Err(e) => {
                return Err(e);
            },
        };
        let ghost region = body.skip(12);
        let ghost count = header.num_entries as nat;
        let mut entries: Vec<GitIndexEntry> = Vec::new();
        let mut entry_start: usize = 12;
        let mut i: u32 = 0;
        proof {
            assert(entries_view(entries@) =~= Seq::<EntryView>::empty());
            lemma_entries_then_empty(entries_parse(region, count));
            assert(bytes@.subrange(12, end as int) =~= region);
        }
        while i < header.num_entries
            invariant
                i <= header.num_entries,
                12 <= entry_start <= end,
                end == n - 20,
                n == bytes@.len(),
                count == header.num_entries,
                region == bytes@.subrange(12, end as int),
                region == bytes@.take(end as int).skip(12),
                header_parse(bytes@.take(end as int).take(12)) == Ok::<_, GitErrorKind>(header),
                entries@.len() == i,
                entries_parse(region, count) == entries_then(
                    entries_view(entries@),
                    entries_parse(
                        bytes@.subrange(entry_start as int, end as int),
                        (count - i) as nat,
                    ),
                ),
                unread_from(region, count) == unread_from(
                    bytes@.subrange(entry_start as int, end as int),
                    (count - i) as nat,
                ),
            decreases header.num_entries - i,
        {
            let ghost here = bytes@.subrange(entry_start as int, end as int);
            let ghost collected = entries_view(entries@);
            let (entry, taken) = match GitIndexEntry::deserialize(&bytes[entry_start..end]) {
                Ok(pair) => pair,
                Err(e) => {
                    assert(entries_parse(here, (count - i) as nat) == Err::<Seq<EntryView>, _>(
                        e.kind,
                    ));
                    return Err(e);
                },
            };
            let ghost e = entry@;
            entries.push(entry);
            proof {
                assert(entries_view(entries@) =~= collected + seq![e]);
                assert(here.skip(taken as int) =~= bytes@.subrange(entry_start + taken, end as int));
                let rest = entries_parse(here.skip(taken as int), (count - i - 1) as nat);
                match rest {
                    Ok(more) => {
                        assert(collected + (seq![e] + more) =~= (collected + seq![e]) + more);
                    },
                    Err(_) => {},
                }
            }
            entry_start = entry_start + taken;
            i += 1;
        }
        proof {
            assert(entries_view(entries@) + Seq::<EntryView>::empty() =~= entries_view(entries@));
            assert(bytes@.subrange(end as int, n as int) =~= bytes@.skip(n - 20));
            assert(bytes@.subrange(0, end as int) =~= body);
        }
        let computed = digest_of(&bytes[0..end]);
        if !bytes_eq(&bytes[end..n], computed.as_slice()) {
            let mut text: Vec<u8> = Vec::new();
            text.extend_from_slice("Index checksum ".as_bytes());
            text.extend_from_slice(hex_encode(&bytes[end..n]).as_slice());
            text.extend_from_slice(" doesn't match computed hash ".as_bytes());
            text.extend_from_slice(hex_encode(computed.as_slice()).as_slice());
            assert(text@ =~= checksum_text(bytes@.skip(n - 20), sha1_digest(body)));
            return Err(RustGitError::from_text(GitErrorKind::ChecksumMismatch, text.as_slice()));
        }
        Ok(GitIndex { header, entries })
    }

    /// The index that a repository holds: the one in its index file, or an
    /// empty one where it has no such file. A file whose entries are not
    /// sorted by path and stage, each key once, is refused as corrupt.
    pub fn open(file: Option<&[u8]>) -> (r: Result<GitIndex, RustGitError>)
        ensures
            match (file, r) {
                (None, Ok(index)) => index.wf() && index@.entries.len() == 0,
                (Some(bytes), Ok(index)) => index.wf() && index_parse(bytes@) == Ok::<
                    _,
                    GitErrorKind,
                >(index@),
                (Some(bytes), Err(e)) => match index_parse(bytes@) {
                    Ok(held) => !sorted(held.entries) && e.kind == GitErrorKind::Corrupt && e.error@
                        == "index entries are not sorted"@,
                    Err(kind) => e.kind == kind && index_fault(e, bytes@),
                },
                (None, Err(_)) => false,
            },
    {
        match file {
            None => Ok(GitIndex::new()),
            Some(bytes) => {
                let index = match GitIndex::deserialize(bytes) {
                    Ok(index) => index,
                    Err(e) => {
                        return Err(e);
                    },
                };
                if !index.is_sorted() {
                    return Err(
                        RustGitError::with_kind(GitErrorKind::Corrupt, "index entries are not sorted"),
                    );
                }
                Ok(index)
            },
        }
    }

    /// The file to put in place of the index file.
    pub fn write(&self) -> (v: Vec<u8>)
        requires
            self.encodable(),
        ensures
            v@ == index_bytes(self@),
            v@ == index_body(self@) + sha1_digest(index_body(self@)),
    {
        GitIndex::serialize(self)
    }
}

} // verus!
