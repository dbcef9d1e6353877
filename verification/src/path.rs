//! Repository paths: normalised, with `/` between their parts.

use crate::bytes::after;
use crate::bytes::before;
use crate::bytes::copy_range;
use crate::bytes::to_vec;
use crate::bytes::has_byte;
use crate::bytes::lemma_index_of;
use crate::bytes::lemma_split_at;
use crate::bytes::split_at_byte;
use crate::bytes::texts_view;
use crate::error::lossy_text;
use crate::error::text_of;
use crate::error::GitErrorKind;
use crate::error::RustGitError;
use crate::index::entry::is_utf8;
use vstd::prelude::*;
use vstd::utf8::*;

verus! {

/// The parts of a path: what stands between its slashes.
pub open spec fn split_path(s: Seq<u8>) -> Seq<Seq<u8>>
    decreases s.len(),
    via split_path_decreases
{
    if !has_byte(s, 0x2f) {
        seq![s]
    } else {
        seq![before(s, 0x2f)] + split_path(after(s, 0x2f))
    }
}

#[via_fn]
proof fn split_path_decreases(s: Seq<u8>) {
    lemma_index_of(s, 0x2f);
}

/// The parts joined by slashes.
pub open spec fn join_path(parts: Seq<Seq<u8>>) -> Seq<u8>
    decreases parts.len(),
{
    if parts.len() == 0 {
        Seq::empty()
    } else if parts.len() == 1 {
        parts[0]
    } else {
        join_path(parts.drop_last()) + seq![0x2fu8] + parts.last()
    }
}

/// `.`
pub open spec fn dot() -> Seq<u8> {
    seq![0x2eu8]
}

/// `..`
pub open spec fn dot_dot() -> Seq<u8> {
    seq![0x2eu8, 0x2eu8]
}

/// A part that names something: not empty, not `.`, not `..`, and without
/// a slash.
pub open spec fn is_name(part: Seq<u8>) -> bool {
    part.len() > 0 && part != dot() && part != dot_dot() && !has_byte(part, 0x2f)
}

/// Every part names something.
pub open spec fn all_names(parts: Seq<Seq<u8>>) -> bool {
    forall|i: int| 0 <= i < parts.len() ==> is_name(#[trigger] parts[i])
}

/// The names that are left after one more part: an empty part and `.`
/// change nothing, `..` takes the last name away, and fails where there is
/// none.
pub open spec fn walk_step(names: Seq<Seq<u8>>, part: Seq<u8>) -> Option<Seq<Seq<u8>>> {
    if part.len() == 0 || part == dot() {
        Some(names)
    } else if part == dot_dot() {
        if names.len() == 0 {
            None
        } else {
            Some(names.drop_last())
        }
    } else {
        Some(names.push(part))
    }
}

/// The names that are left after the parts, taken from the left, starting
/// from `names`.
pub open spec fn walk(names: Seq<Seq<u8>>, parts: Seq<Seq<u8>>) -> Option<Seq<Seq<u8>>>
    decreases parts.len(),
{
    if parts.len() == 0 {
        Some(names)
    } else {
        match walk_step(names, parts[0]) {
            None => None,
            Some(next) => walk(next, parts.drop_first()),
        }
    }
}

/// The normal form of a path: its names joined by slashes, or nothing where
/// the path leaves the directory it starts in.
pub open spec fn normal_form(path: Seq<u8>) -> Option<Seq<u8>> {
    match walk(Seq::empty(), split_path(path)) {
        None => None,
        Some(names) => Some(join_path(names)),
    }
}

/// The path `path` as seen from the directory `dir`.
pub open spec fn joined(dir: Seq<u8>, path: Seq<u8>) -> Seq<u8> {
    dir + seq![0x2fu8] + path
}

/// The parts of a path hold no slash.
pub proof fn lemma_split_parts(s: Seq<u8>)
    ensures
        split_path(s).len() >= 1,
        forall|i: int| 0 <= i < split_path(s).len() ==> !has_byte(#[trigger] split_path(s)[i], 0x2f),
    decreases s.len(),
{
    lemma_index_of(s, 0x2f);
    if has_byte(s, 0x2f) {
        let rest = after(s, 0x2f);
        lemma_split_parts(rest);
        let head = before(s, 0x2f);
        assert(!has_byte(head, 0x2f)) by {
            if has_byte(head, 0x2f) {
                let i = choose|i: int| 0 <= i < head.len() && head[i] == 0x2f;
                assert(s[i] == 0x2f);
            }
        }
        let parts = split_path(s);
        assert forall|i: int| 0 <= i < parts.len() implies !has_byte(#[trigger] parts[i], 0x2f) by {
            if i > 0 {
                assert(parts[i] == split_path(rest)[i - 1]);
            }
        }
    }
}

/// Walking on from names over parts without slashes leaves names.
pub proof fn lemma_walk_names(names: Seq<Seq<u8>>, parts: Seq<Seq<u8>>)
    requires
        all_names(names),
        forall|i: int| 0 <= i < parts.len() ==> !has_byte(#[trigger] parts[i], 0x2f),
    ensures
        walk(names, parts) matches Some(out) ==> all_names(out),
    decreases parts.len(),
{
    if parts.len() > 0 {
        match walk_step(names, parts[0]) {
            None => {},
            Some(next) => {
                assert(all_names(next)) by {
                    assert forall|i: int| 0 <= i < next.len() implies is_name(#[trigger] next[i]) by {
                        if i < names.len() {
                            assert(is_name(names[i]));
                        }
                    }
                }
                let rest = parts.drop_first();
                assert forall|i: int| 0 <= i < rest.len() implies !has_byte(
                    #[trigger] rest[i],
                    0x2f,
                ) by {
                    assert(rest[i] == parts[i + 1]);
                }
                lemma_walk_names(next, rest);
            },
        }
    }
}

/// Walking over names adds them.
pub proof fn lemma_walk_over_names(names: Seq<Seq<u8>>, parts: Seq<Seq<u8>>)
    requires
        all_names(parts),
    ensures
        walk(names, parts) == Some(names + parts),
    decreases parts.len(),
{
    if parts.len() == 0 {
        assert(names + parts =~= names);
    } else {
        assert(is_name(parts[0]));
        let rest = parts.drop_first();
        assert forall|i: int| 0 <= i < rest.len() implies is_name(#[trigger] rest[i]) by {
            assert(rest[i] == parts[i + 1]);
        }
        lemma_walk_over_names(names.push(parts[0]), rest);
        assert(names.push(parts[0]) + rest =~= names + parts);
    }
}

/// Joined names hold a slash only between them, so that they split into
/// the same names again.
pub proof fn lemma_split_join(names: Seq<Seq<u8>>)
    requires
        all_names(names),
        names.len() > 0,
    ensures
        split_path(join_path(names)) == names,
    decreases names.len(),
{
    if names.len() == 1 {
        assert(is_name(names[0]));
        assert(split_path(names[0]) =~= names);
    } else {
        let front = names.drop_last();
        let last = names.last();
        assert(is_name(last));
        assert forall|i: int| 0 <= i < front.len() implies is_name(#[trigger] front[i]) by {
            assert(front[i] == names[i]);
        }
        lemma_split_join(front);
        lemma_split_then(join_path(front), last);
        assert(front + seq![last] =~= names);
    }
}

/// A path followed by a slash and a part without slashes splits into the
/// parts of the path and that part.
pub proof fn lemma_split_then(s: Seq<u8>, last: Seq<u8>)
    requires
        !has_byte(last, 0x2f),
    ensures
        split_path(s + seq![0x2fu8] + last) == split_path(s) + seq![last],
    decreases s.len(),
{
    let whole = s + seq![0x2fu8] + last;
    lemma_index_of(s, 0x2f);
    assert(whole[s.len() as int] == 0x2f);
    assert(has_byte(whole, 0x2f));
    if !has_byte(s, 0x2f) {
        lemma_split_at(s, 0x2f, last);
        assert(split_path(last) =~= seq![last]);
        assert(split_path(whole) =~= seq![s] + seq![last]);
    } else {
        let head = before(s, 0x2f);
        let rest = after(s, 0x2f);
        assert(!has_byte(head, 0x2f)) by {
            if has_byte(head, 0x2f) {
                let i = choose|i: int| 0 <= i < head.len() && head[i] == 0x2f;
                assert(s[i] == 0x2f);
            }
        }
        assert(s =~= head + seq![0x2fu8] + rest);
        assert(whole =~= head + seq![0x2fu8] + (rest + seq![0x2fu8] + last));
        lemma_split_at(head, 0x2f, rest + seq![0x2fu8] + last);
        lemma_split_then(rest, last);
        assert(split_path(whole) =~= split_path(s) + seq![last]);
    }
}

/// Walking over two lists of parts is walking over the first and then,
/// from there, over the second.
pub proof fn lemma_walk_concat(names: Seq<Seq<u8>>, a: Seq<Seq<u8>>, b: Seq<Seq<u8>>)
    ensures
        walk(names, a + b) == (match walk(names, a) {
            None => None,
            Some(mid) => walk(mid, b),
        }),
    decreases a.len(),
{
    if a.len() == 0 {
        assert(a + b =~= b);
    } else {
        assert((a + b)[0] == a[0]);
        assert((a + b).drop_first() =~= a.drop_first() + b);
        match walk_step(names, a[0]) {
            None => {},
            Some(next) => {
                lemma_walk_concat(next, a.drop_first(), b);
            },
        }
    }
}

/// The parts of two paths joined by a slash are the parts of the first,
/// then those of the second.
pub proof fn lemma_split_joined(a: Seq<u8>, b: Seq<u8>)
    ensures
        split_path(joined(a, b)) == split_path(a) + split_path(b),
    decreases b.len(),
{
    lemma_index_of(b, 0x2f);
    if !has_byte(b, 0x2f) {
        lemma_split_then(a, b);
        assert(split_path(b) =~= seq![b]);
    } else {
        let head = before(b, 0x2f);
        let rest = after(b, 0x2f);
        assert(!has_byte(head, 0x2f)) by {
            if has_byte(head, 0x2f) {
                let i = choose|i: int| 0 <= i < head.len() && head[i] == 0x2f;
                assert(b[i] == 0x2f);
            }
        }
        assert(b =~= head + seq![0x2fu8] + rest);
        assert(joined(a, b) =~= joined(joined(a, head), rest));
        lemma_split_joined(joined(a, head), rest);
        lemma_split_then(a, head);
        assert(split_path(joined(a, b)) =~= split_path(a) + split_path(b));
    }
}

/// The normal form of a path seen from a directory that is the top: that
/// of the path itself.
pub proof fn lemma_joined_at_top(dir: Seq<u8>, path: Seq<u8>)
    requires
        walk(Seq::empty(), split_path(dir)) == Some(Seq::<Seq<u8>>::empty()),
    ensures
        normal_form(joined(dir, path)) == normal_form(path),
{
    lemma_split_joined(dir, path);
    lemma_walk_concat(Seq::empty(), split_path(dir), split_path(path));
}

/// A normal form is its own normal form.
pub proof fn lemma_normal_form_idempotent(path: Seq<u8>)
    ensures
        normal_form(path) matches Some(q) ==> normal_form(q) == Some(q),
{
    let parts = split_path(path);
    lemma_split_parts(path);
    assert(all_names(Seq::<Seq<u8>>::empty()));
    lemma_walk_names(Seq::empty(), parts);
    match walk(Seq::empty(), parts) {
        None => {},
        Some(names) => {
            let q = join_path(names);
            if names.len() == 0 {
                assert(!has_byte(q, 0x2f));
                assert(split_path(q) =~= seq![q]);
                assert(walk(Seq::<Seq<u8>>::empty(), split_path(q).drop_first()) == Some(
                    Seq::<Seq<u8>>::empty(),
                ));
            } else {
                lemma_split_join(names);
                lemma_walk_over_names(Seq::empty(), names);
                assert(Seq::<Seq<u8>>::empty() + names =~= names);
            }
        },
    }
}

/// A path in a repository, from its top, in normal form.
#[derive(Debug, Clone, PartialEq, Eq)]
pub struct GitRepoPath(pub Vec<u8>);

impl View for GitRepoPath {
    type V = Seq<u8>;

    open spec fn view(&self) -> Seq<u8> {
        self.0@
    }
}

/// The last part of a path.
pub open spec fn file_name(path: Seq<u8>) -> Seq<u8> {
    split_path(path).last()
}

/// Where `path` ends up when it is moved into the directory `dir`.
pub open spec fn moved_into(path: Seq<u8>, dir: Seq<u8>) -> Seq<u8> {
    if dir.len() == 0 {
        file_name(path)
    } else {
        dir + seq![0x2fu8] + file_name(path)
    }
}

impl GitRepoPath {
    /// The path as bytes.
    pub fn as_bytes(&self) -> (b: &[u8])
        ensures
            b@ == self@,
    {
        self.0.as_slice()
    }

    /// The path as an owned path of the file system, which is a byte string.
    pub fn as_path_buf(&self) -> (p: Vec<u8>)
        ensures
            p@ == self@,
    {
        self.0.clone()
    }

    /// A copy of the path.
    pub fn duplicate(&self) -> (p: GitRepoPath)
        ensures
            p@ == self@,
    {
        GitRepoPath(self.0.clone())
    }

    /// The path as text.
    pub fn as_string(&self) -> (s: String)
        ensures
            s@ == lossy_text(self@),
            valid_utf8(self@) ==> s@ == decode_utf8(self@),
    {
        text_of(self.0.as_slice())
    }

    /// The path of this file once it is moved into the directory
    /// `destination`: the destination, then the last part of this path.
    pub fn as_moved_file(&self, destination: &GitRepoPath) -> (p: GitRepoPath)
        ensures
            p@ == moved_into(self@, destination@),
    {
        let s = self.0.as_slice();
        let n = s.len();
        let mut start: usize = 0;
        assert(s@.skip(0) =~= s@);
        loop
            invariant
                start <= n,
                n == s@.len(),
                file_name(s@) == file_name(s@.skip(start as int)),
            ensures
                start <= n,
                file_name(s@) == s@.skip(start as int),
            decreases n - start,
        {
            let (end, next) = split_at_byte(s, start, 0x2f);
            let ghost here = s@.skip(start as int);
            proof {
                lemma_index_of(here, 0x2f);
            }
            if end == n {
                proof {
                    assert(split_path(here) =~= seq![here]);
                }
                break ;
            }
            proof {
                assert(split_path(here).last() == split_path(after(here, 0x2f)).last()) by {
                    lemma_split_parts(after(here, 0x2f));
                }
            }
            start = next;
        }
        let mut v: Vec<u8> = Vec::new();
        if destination.0.len() > 0 {
            v.extend_from_slice(destination.0.as_slice());
            v.push(0x2f);
        }
        v.extend_from_slice(&s[start..n]);
        assert(v@ =~= moved_into(self@, destination@));
        GitRepoPath(v)
    }

    /// The path that the bytes spell: they must be UTF-8.
    pub fn deserialize(bytes: &[u8]) -> (r: Result<GitRepoPath, RustGitError>)
        ensures
            match r {
                Ok(p) => valid_utf8(bytes@) && p@ == bytes@,
                Err(e) => !valid_utf8(bytes@) && e.kind == GitErrorKind::Corrupt && e.error@
                    == "path is not UTF-8"@,
            },
    {
        if !is_utf8(bytes) {
            return Err(RustGitError::with_kind(GitErrorKind::Corrupt, "path is not UTF-8"));
        }
        Ok(GitRepoPath(to_vec(bytes)))
    }
}

/// The path `path` as seen from the directory `dir`.
pub fn join_paths(dir: &[u8], path: &[u8]) -> (v: Vec<u8>)
    ensures
        v@ == joined(dir@, path@),
{
    let mut v: Vec<u8> = Vec::new();
    v.extend_from_slice(dir);
    v.push(0x2f);
    v.extend_from_slice(path);
    v
}

/// The normal form of `path`, or `None` where it leaves the directory it
/// starts in.
pub fn normalize(path: &[u8]) -> (r: Option<Vec<u8>>)
    ensures
        match r {
            Some(q) => normal_form(path@) == Some(q@),
            None => normal_form(path@) is None,
        },
{
    let n = path.len();
    let mut names: Vec<Vec<u8>> = Vec::new();
    let mut pos: usize = 0;
    let ghost whole = split_path(path@);
    proof {
        assert(path@.skip(0) =~= path@);
        assert(texts_view(names@) =~= Seq::<Seq<u8>>::empty());
    }
    loop
        invariant_except_break
            walk(Seq::empty(), split_path(path@)) == walk(
                texts_view(names@),
                split_path(path@.skip(pos as int)),
            ),
        invariant
            pos <= n,
            n == path@.len(),
        ensures
            walk(Seq::empty(), split_path(path@)) == Some(texts_view(names@)),
        decreases n - pos,
    {
        let ghost here = path@.skip(pos as int);
        let ghost so_far = texts_view(names@);
        let (end, next) = split_at_byte(path, pos, 0x2f);
        let part = &path[pos..end];
        proof {
            lemma_index_of(here, 0x2f);
            if end < n {
                assert(split_path(here).drop_first() =~= split_path(after(here, 0x2f)));
            } else {
                assert(split_path(here).drop_first() =~= Seq::<Seq<u8>>::empty());
            }
            assert(split_path(here)[0] == part@);
        }
        let is_dot = part.len() == 1 && part[0] == 0x2e;
        let is_dot_dot = part.len() == 2 && part[0] == 0x2e && part[1] == 0x2e;
        proof {
            assert(is_dot == (part@ == dot())) by {
                if is_dot {
                    assert(part@ =~= dot());
                }
            }
            assert(is_dot_dot == (part@ == dot_dot())) by {
                if is_dot_dot {
                    assert(part@ =~= dot_dot());
                }
            }
        }
        if part.len() == 0 || is_dot {
        } else if is_dot_dot {
            if names.len() == 0 {
                return None;
            }
            names.pop();
            assert(texts_view(names@) =~= so_far.drop_last());
        } else {
            names.push(copy_range(path, pos, end));
            assert(texts_view(names@) =~= so_far.push(part@));
        }
        if end == n {
            break ;
        }
        pos = next;
    }
    let mut out: Vec<u8> = Vec::new();
    let count = names.len();
    let mut i: usize = 0;
    assert(texts_view(names@).take(0) =~= Seq::<Seq<u8>>::empty());
    while i < count
        invariant
            i <= count,
            count == names@.len(),
            out@ == join_path(texts_view(names@).take(i as int)),
        decreases count - i,
    {
        let ghost upto = texts_view(names@).take(i + 1);
        proof {
            assert(upto.drop_last() =~= texts_view(names@).take(i as int));
            assert(upto.last() == names@[i as int]@);
        }
        if i > 0 {
            out.push(0x2f);
        }
        out.extend_from_slice(names[i].as_slice());
        proof {
            if i == 0 {
                assert(out@ =~= upto[0]);
            }
        }
        i += 1;
    }
    assert(texts_view(names@).take(count as int) =~= texts_view(names@));
    Some(out)
}

} // verus!
