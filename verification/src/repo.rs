//! The repository: its configuration, index, object store and references.

use crate::bytes::ascii_bytes;
use crate::bytes::bytes_eq;
use crate::bytes::copy_range;
use crate::bytes::has_prefix;
use crate::bytes::starts_with;
use crate::bytes::texts_view;
use crate::bytes::to_vec;
use crate::config::GitConfig;
use crate::error::GitErrorKind;
use crate::error::RustGitError;
use crate::hash::HashAlgorithm;
use crate::hash::get_hasher;
use crate::hash::sha1_digest;
use crate::index::GitIndex;
use crate::index::file::index_body;
use crate::index::file::index_bytes;
use crate::object::GitObject;
use crate::object::ObjectView;
use crate::object::commit::CommitView;
use crate::object::commit::GitCommitObject;
use crate::object::commit::commit_text;
use crate::object::commit::ids_view;
use crate::object::id::GitObjectId;
use crate::object::identity::GitIdentity;
use crate::object::identity::GitIdentityType;
use crate::object::identity::IdentityView;
use crate::object::object_id;
use crate::object::raw::GitObjectRaw;
use crate::object::raw::GitObjectType;
use crate::object::raw::object_id_of;
use crate::object::tag::GitTagObject;
use crate::object::tag::TagView;
use crate::object::tag::tag_text;
use crate::object::tree::tree_text;
use crate::object_store::can_store;
use crate::object_store::STORE_ERR;
use crate::object_store::GitObjectStore;
use crate::object_store::LooseObject;
use crate::path::GitRepoPath;
use crate::path::join_paths;
use crate::path::joined;
use crate::path::lemma_joined_at_top;
use crate::path::lemma_normal_form_idempotent;
use crate::path::normal_form;
use crate::path::normalize;
use crate::path::split_path;
use crate::path::walk;
use crate::refs::GitRefs;
use crate::refs::RefWrite;
use crate::refs::cas_allows;
use crate::refs::cas_text;
use crate::refs::held;
use crate::refs::invalid_name_text;
use crate::refs::check_name;
use crate::refs::dot_git;
use crate::refs::is_valid_name;
use crate::refs::opt_view;
use crate::refs::refs_prefix;
use crate::refs::trimmed;
use crate::snapshot::all_trees;
use crate::snapshot::payloads;
use crate::snapshot::trees_at;
use crate::snapshot::tree_id_at;
use crate::snapshot::tree_rows;
use crate::snapshot::write_index_as_tree;
use vstd::prelude::*;
use vstd::string::*;

verus! {

/// The name of the repository directory.
pub const DEFAULT_GIT_DIR_NAME: &'static str = ".git";

/// What the user is told where no identity is configured.
pub const IDENTITY_ERR: &'static str =
    "*** Please tell me who you are.\n\nRun\n\ngit config --global user.email \"you@example.com\"\ngit config --global user.name \"Your Name\"\n\nto set your account's default identity.\nOmit --global to set the identity only in this repository.";

/// What kind of thing lies at a path of the working directory.
#[derive(Debug, Clone, Copy, PartialEq, Eq, Structural)]
pub enum FileKind {
    File,
    Symlink,
    Directory,
    Other,
}

/// A repository.
#[derive(Debug, Clone, PartialEq, Eq)]
pub struct GitRepo {
    pub config: GitConfig,
    pub index: GitIndex,
    /// The absolute path of the top directory.
    pub root_dir: Vec<u8>,
    /// The current directory, from the top directory.
    pub working_dir: Vec<u8>,
    /// The repository directory.
    pub git_dir: Vec<u8>,
    pub obj_store: GitObjectStore,
    pub refs: GitRefs,
}

/// What the search for a repository came to.
#[derive(Debug, Clone, PartialEq, Eq)]
pub enum RepoState {
    Repo(GitRepo),
    /// The repository directory that was named does not exist.
    NoRepoExplicit(Vec<u8>),
    /// No repository directory was found from this directory up.
    NoRepoDiscovered(Vec<u8>),
}

/// `couldn't resolve provided git repository: "`, the directory, `"`
pub open spec fn no_explicit_text(git_dir: Seq<u8>) -> Seq<u8> {
    "couldn't resolve provided git repository: \"".spec_bytes() + git_dir + "\"".spec_bytes()
}

/// `not a git repository (or any of the parent directories): "`, the
/// directory, `"`
pub open spec fn not_a_repository_text(working_dir: Seq<u8>) -> Seq<u8> {
    "not a git repository (or any of the parent directories): \"".spec_bytes() + working_dir
        + "\"".spec_bytes()
}

impl RepoState {
    /// The repository, or the failure that says why there is none.
    pub fn try_get(self) -> (r: Result<GitRepo, RustGitError>)
        ensures
            match (self, r) {
                (RepoState::Repo(repo), Ok(got)) => got == repo,
                (RepoState::NoRepoExplicit(git_dir), Err(e)) => e.kind
                    == GitErrorKind::ExplicitGitDirMissing && e.says(no_explicit_text(git_dir@)),
                (RepoState::NoRepoDiscovered(working_dir), Err(e)) => e.kind
                    == GitErrorKind::NotARepository && e.says(
                    not_a_repository_text(working_dir@),
                ),
                _ => false,
            },
    {
        match self {
            RepoState::Repo(repo) => Ok(repo),
            RepoState::NoRepoExplicit(git_dir) => Err(
                RustGitError::framed(
                    GitErrorKind::ExplicitGitDirMissing,
                    "couldn't resolve provided git repository: \"",
                    git_dir.as_slice(),
                    "\"",
                ),
            ),
            RepoState::NoRepoDiscovered(working_dir) => Err(
                RustGitError::framed(
                    GitErrorKind::NotARepository,
                    "not a git repository (or any of the parent directories): \"",
                    working_dir.as_slice(),
                    "\"",
                ),
            ),
        }
    }
}

/// The directory above `path`: what stands before its last slash.
pub open spec fn parent_dir(path: Seq<u8>) -> Option<Seq<u8>>
    decreases path.len(),
{
    if path.len() == 0 {
        None
    } else if path.last() == 0x2f {
        Some(path.drop_last())
    } else {
        parent_dir(path.drop_last())
    }
}

/// The directory above is shorter.
pub proof fn lemma_parent_shorter(path: Seq<u8>)
    ensures
        parent_dir(path) matches Some(p) ==> p.len() < path.len(),
    decreases path.len(),
{
    if path.len() > 0 && path.last() != 0x2f {
        lemma_parent_shorter(path.drop_last());
    }
}

/// Where a repository directory may lie for work in `path`: in `path`
/// itself, then in each directory above it, the nearest first.
pub open spec fn git_dir_candidates(path: Seq<u8>) -> Seq<Seq<u8>>
    decreases path.len(),
    via git_dir_candidates_decreases
{
    match parent_dir(path) {
        None => seq![joined(path, dot_git())],
        Some(p) => seq![joined(path, dot_git())] + git_dir_candidates(p),
    }
}

#[via_fn]
proof fn git_dir_candidates_decreases(path: Seq<u8>) {
    lemma_parent_shorter(path);
}

/// The first of the candidates that exists.
pub open spec fn first_existing(candidates: Seq<Seq<u8>>, exists: Seq<bool>) -> Option<Seq<u8>>
    decreases candidates.len(),
{
    if candidates.len() == 0 || exists.len() != candidates.len() {
        None
    } else if exists[0] {
        Some(candidates[0])
    } else {
        first_existing(candidates.drop_first(), exists.drop_first())
    }
}

/// `current` as seen from `root`: nothing where they are the same
/// directory, what follows `root` and a slash where `current` lies below.
pub open spec fn relative_to(current: Seq<u8>, root: Seq<u8>) -> Option<Seq<u8>> {
    if current == root {
        Some(Seq::empty())
    } else if starts_with(current, root + seq![0x2fu8]) {
        Some(current.skip(root.len() as int + 1))
    } else {
        None
    }
}

/// The path in the repository that `path` names when seen from the
/// directory `working_dir`.
pub open spec fn repo_path(working_dir: Seq<u8>, path: Seq<u8>) -> Option<Seq<u8>> {
    normal_form(joined(working_dir, path))
}

/// Seen from the top of the repository, the path of a path in the
/// repository is that path itself: naming is idempotent there.
pub proof fn lemma_repo_path_idempotent(working_dir: Seq<u8>, path: Seq<u8>)
    requires
        walk(Seq::empty(), split_path(working_dir)) == Some(Seq::<Seq<u8>>::empty()),
    ensures
        repo_path(working_dir, path) matches Some(q) ==> repo_path(working_dir, q) == Some(q),
{
    lemma_joined_at_top(working_dir, path);
    lemma_normal_form_idempotent(path);
    match repo_path(working_dir, path) {
        Some(q) => {
            lemma_joined_at_top(working_dir, q);
        },
        None => {},
    }
}

/// The commit that is made of a tree, its parents and a message by the
/// given user at the given moment.
pub open spec fn commit_by(
    tree: Seq<u8>,
    parents: Seq<Seq<u8>>,
    message: Seq<u8>,
    name: Seq<u8>,
    email: Seq<u8>,
    timestamp: u128,
) -> CommitView {
    CommitView {
        tree_id: tree,
        parents,
        message,
        author: IdentityView { identity_type: GitIdentityType::Author, name, email, timestamp },
        committer: IdentityView { identity_type: GitIdentityType::Committer, name, email, timestamp },
    }
}

/// Every one of the flags is set.
pub open spec fn all_set(flags: Seq<bool>) -> bool {
    forall|i: int| 0 <= i < flags.len() ==> #[trigger] flags[i]
}

/// The place of the first flag that is not set: the number of the flags
/// where all are set.
pub open spec fn first_unset(flags: Seq<bool>) -> int
    decreases flags.len(),
{
    if flags.len() == 0 || !flags[0] {
        0
    } else {
        1 + first_unset(flags.drop_first())
    }
}

/// A flag that is not set, with all before it set, is the first such.
pub proof fn lemma_first_unset(flags: Seq<bool>, i: int)
    requires
        0 <= i < flags.len(),
        !flags[i],
        forall|k: int| 0 <= k < i ==> #[trigger] flags[k],
    ensures
        first_unset(flags) == i,
    decreases i,
{
    if i > 0 {
        let rest = flags.drop_first();
        assert(flags[0]);
        assert(rest[i - 1] == flags[i]);
        assert forall|k: int| 0 <= k < i - 1 implies #[trigger] rest[k] by {
            assert(rest[k] == flags[k + 1]);
        }
        lemma_first_unset(rest, i - 1);
    }
}

/// `path "`, the path, `" is outside of repo`
pub open spec fn outside_text(path: Seq<u8>) -> Seq<u8> {
    "path \"".spec_bytes() + path + "\" is outside of repo".spec_bytes()
}

/// `fatal: not a valid object name `, then the id
pub open spec fn unknown_object_text(id: Seq<u8>) -> Seq<u8> {
    "fatal: not a valid object name ".spec_bytes() + id
}

/// `no object `, then the id
pub open spec fn no_object_text(id: Seq<u8>) -> Seq<u8> {
    "no object ".spec_bytes() + id
}

/// `current directory is outside of repo: "`, the directory, `"`
pub open spec fn outside_dir_text(dir: Seq<u8>) -> Seq<u8> {
    "current directory is outside of repo: \"".spec_bytes() + dir + "\"".spec_bytes()
}

/// `invalid ref `, then the name
pub open spec fn invalid_ref_text(name: Seq<u8>) -> Seq<u8> {
    "invalid ref ".spec_bytes() + name
}

/// The id that a commit of the tree with the parents lacks first: the tree
/// where it is not in the store, else the first parent that is not.
pub open spec fn missing_id(
    tree: Seq<u8>,
    parents: Seq<Seq<u8>>,
    tree_exists: bool,
    parents_exist: Seq<bool>,
) -> Seq<u8> {
    if !tree_exists {
        tree
    } else {
        parents[first_unset(parents_exist)]
    }
}

fn dot_git_bytes() -> (k: &'static [u8])
    ensures
        k@ == dot_git(),
{
    proof {
        reveal_strlit(".git");
    }
    let k = ascii_bytes(".git");
    assert(k@ =~= dot_git());
    k
}

fn refs_prefix_bytes() -> (k: &'static [u8])
    ensures
        k@ == refs_prefix(),
{
    proof {
        reveal_strlit("refs/");
    }
    let k = ascii_bytes("refs/");
    assert(k@ =~= refs_prefix());
    k
}

fn unknown_object(id: &GitObjectId) -> (e: RustGitError)
    ensures
        e.kind == GitErrorKind::UnknownObject,
        e.says(unknown_object_text(id@)),
{
    RustGitError::prefixed(
        GitErrorKind::UnknownObject,
        "fatal: not a valid object name ",
        id.as_bytes(),
    )
}

fn identity_unset() -> (e: RustGitError)
    ensures
        e.kind == GitErrorKind::IdentityUnset,
        e.error@ == IDENTITY_ERR@,
{
    RustGitError::with_kind(GitErrorKind::IdentityUnset, IDENTITY_ERR)
}

impl GitRepo {
    /// Where a repository directory may lie for work in `path`.
    pub fn discover_candidates(path: &[u8]) -> (r: Vec<Vec<u8>>)
        ensures
            texts_view(r@) == git_dir_candidates(path@),
    {
        let mut r: Vec<Vec<u8>> = Vec::new();
        let mut end: usize = path.len();
        r.push(join_paths(path, dot_git_bytes()));
        proof {
            assert(path@.take(end as int) =~= path@);
            assert(texts_view(r@) =~= seq![joined(path@, dot_git())]);
        }
        while end > 0
            invariant
                end <= path@.len(),
                r@.len() > 0,
                texts_view(r@) + (match parent_dir(path@.take(end as int)) {
                    None => Seq::<Seq<u8>>::empty(),
                    Some(p) => git_dir_candidates(p),
                }) == git_dir_candidates(path@),
            decreases end,
        {
            let ghost so_far = texts_view(r@);
            let ghost cut = path@.take(end as int);
            assert(cut.drop_last() =~= path@.take(end - 1));
            if path[end - 1] == 0x2f {
                let dir = &path[0..end - 1];
                assert(dir@ =~= cut.drop_last());
                r.push(join_paths(dir, dot_git_bytes()));
                proof {
                    let p = dir@;
                    assert(texts_view(r@) =~= so_far.push(joined(p, dot_git())));
                    let tail = match parent_dir(p) {
                        None => Seq::<Seq<u8>>::empty(),
                        Some(q) => git_dir_candidates(q),
                    };
                    assert(git_dir_candidates(p) =~= seq![joined(p, dot_git())] + tail);
                    assert(so_far + git_dir_candidates(p) =~= so_far.push(joined(p, dot_git()))
                        + tail);
                }
            }
            end -= 1;
        }
        proof {
            assert(path@.take(0) =~= Seq::<u8>::empty());
            assert(texts_view(r@) + Seq::<Seq<u8>>::empty() =~= texts_view(r@));
        }
        r
    }

    /// The repository directory for work in a directory: the first of the
    /// candidates that exists.
    pub fn discover_git_dir(candidates: &Vec<Vec<u8>>, exists: &Vec<bool>) -> (r: Option<Vec<u8>>)
        ensures
            match r {
                Some(dir) => first_existing(texts_view(candidates@), exists@) == Some(dir@),
                None => first_existing(texts_view(candidates@), exists@) is None,
            },
    {
        if candidates.len() != exists.len() {
            return None;
        }
        let n = candidates.len();
        let mut i: usize = 0;
        assert(texts_view(candidates@).skip(0) =~= texts_view(candidates@));
        assert(exists@.skip(0) =~= exists@);
        while i < n
            invariant
                i <= n,
                n == candidates@.len(),
                n == exists@.len(),
                first_existing(texts_view(candidates@), exists@) == first_existing(
                    texts_view(candidates@).skip(i as int),
                    exists@.skip(i as int),
                ),
            decreases n - i,
        {
            if exists[i] {
                return Some(candidates[i].clone());
            }
            proof {
                assert(texts_view(candidates@).skip(i as int).drop_first() =~= texts_view(
                    candidates@,
                ).skip(i + 1));
                assert(exists@.skip(i as int).drop_first() =~= exists@.skip(i + 1));
            }
            i += 1;
        }
        None
    }

    /// The repository directory to work with: the one that was named, which
    /// must exist, or else the first of the candidates that exists.
    pub fn find_git_dir(
        explicit: Option<&[u8]>,
        explicit_exists: bool,
        current_dir: &[u8],
        candidates: &Vec<Vec<u8>>,
        exists: &Vec<bool>,
    ) -> (r: Result<Vec<u8>, RepoState>)
        ensures
            match (explicit, r) {
                (Some(named), Ok(dir)) => explicit_exists && dir@ == named@,
                (Some(named), Err(RepoState::NoRepoExplicit(dir))) => !explicit_exists && dir@
                    == named@,
                (None, Ok(dir)) => first_existing(texts_view(candidates@), exists@) == Some(dir@),
                (None, Err(RepoState::NoRepoDiscovered(dir))) => first_existing(
                    texts_view(candidates@),
                    exists@,
                ) is None && dir@ == current_dir@,
                _ => false,
            },
    {
        match explicit {
            Some(named) => {
                if explicit_exists {
                    Ok(to_vec(named))
                } else {
                    Err(RepoState::NoRepoExplicit(to_vec(named)))
                }
            },
            None => match Self::discover_git_dir(candidates, exists) {
                Some(dir) => Ok(dir),
                None => Err(RepoState::NoRepoDiscovered(to_vec(current_dir))),
            },
        }
    }

    /// The repository with the given directories, configuration and index.
    /// The configuration must name the one hash algorithm that is
    /// implemented, and the current directory must be the top directory or
    /// lie below it.
    pub fn new(
        git_dir: &[u8],
        root_dir: &[u8],
        current_dir: &[u8],
        config: GitConfig,
        index: GitIndex,
    ) -> (r: Result<GitRepo, RustGitError>)
        ensures
            match r {
                Ok(repo) => {
                    &&& config.extensions.objectformat == HashAlgorithm::Sha1
                    &&& relative_to(current_dir@, root_dir@) == Some(repo.working_dir@)
                    &&& repo.root_dir@ == root_dir@
                    &&& repo.git_dir@ == git_dir@
                    &&& repo.config == config
                    &&& repo.index == index
                    &&& repo.refs.wf()
                    &&& repo.refs.git_dir@ == git_dir@
                },
                Err(e) => if config.extensions.objectformat != HashAlgorithm::Sha1 {
                    e.kind == GitErrorKind::UnsupportedHash && e.error@
                        == "unsupported hash algorithm sha256"@
                } else {
                    relative_to(current_dir@, root_dir@) is None && e.kind
                        == GitErrorKind::OutsideRepo && e.says(outside_dir_text(current_dir@))
                },
            },
    {
        match get_hasher(config.extensions.objectformat) {
            Ok(_) => {},
            Err(e) => {
                return Err(e);
            },
        }
        let working_dir: Vec<u8> = if bytes_eq(current_dir, root_dir) {
            let top: Vec<u8> = Vec::new();
            assert(top@ =~= Seq::<u8>::empty());
            top
        } else {
            let mut prefix = to_vec(root_dir);
            prefix.push(0x2f);
            assert(prefix@ =~= root_dir@ + seq![0x2fu8]);
            if has_prefix(current_dir, prefix.as_slice()) {
                let rest = copy_range(current_dir, prefix.len(), current_dir.len());
                assert(rest@ =~= current_dir@.skip(root_dir@.len() as int + 1));
                rest
            } else {
                return Err(
                    RustGitError::framed(
                        GitErrorKind::OutsideRepo,
                        "current directory is outside of repo: \"",
                        current_dir,
                        "\"",
                    ),
                );
            }
        };
        Ok(
            GitRepo {
                config,
                index,
                root_dir: to_vec(root_dir),
                working_dir,
                git_dir: to_vec(git_dir),
                obj_store: GitObjectStore::new(git_dir),
                refs: GitRefs::new(git_dir),
            },
        )
    }

    /// The normal form of a path: `.` is dropped, and `..` takes back the
    /// name before it. `None` where the path leaves the directory it starts
    /// in.
    pub fn normalize_path(&self, path: &[u8]) -> (r: Option<Vec<u8>>)
        ensures
            match r {
                Some(q) => normal_form(path@) == Some(q@),
                None => normal_form(path@) is None,
            },
    {
        normalize(path)
    }

    /// The path in the repository that `path` names when seen from the
    /// working directory. A path that leaves the repository is refused.
    pub fn path_to_git_repo_path(&self, path: &[u8]) -> (r: Result<GitRepoPath, RustGitError>)
        ensures
            match r {
                Ok(p) => repo_path(self.working_dir@, path@) == Some(p@),
                Err(e) => repo_path(self.working_dir@, path@) is None && e.kind
                    == GitErrorKind::OutsideRepo && e.says(outside_text(path@)),
            },
    {
        let git_repo_path = join_paths(self.working_dir.as_slice(), path);
        match self.normalize_path(git_repo_path.as_slice()) {
            Some(normalized_path) => Ok(GitRepoPath(normalized_path)),
            None => Err(
                RustGitError::framed(GitErrorKind::OutsideRepo, "path \"", path, "\" is outside of repo"),
            ),
        }
    }

    /// The id of an object of the given kind and contents and, where it is
    /// to be written, its file. It fails only where the object is to be
    /// written and the compression fails.
    pub fn hash_obj(&self, obj_type: GitObjectType, contents: Vec<u8>, write: bool) -> (r: Result<
        (GitObjectId, Option<LooseObject>),
        RustGitError,
    >)
        ensures
            match r {
                Ok((id, file)) => {
                    &&& id@ == object_id_of(obj_type, contents@)
                    &&& id.is_valid()
                    &&& match file {
                        None => !write,
                        Some(f) => write && f.is_file_of(
                            self.obj_store.obj_dir@,
                            obj_type,
                            contents@,
                        ),
                    }
                },
                Err(e) => write && e.kind == GitErrorKind::Io && e.error@ == STORE_ERR@ && !can_store(
                    obj_type,
                    contents@,
                ),
            },
    {
        let obj = GitObjectRaw::build(obj_type, contents);
        if write {
            match self.obj_store.write_raw_object(&obj) {
                Ok(file) => Ok((obj.id, Some(file))),
                Err(e) => Err(e),
            }
        } else {
            Ok((obj.id, None))
        }
    }

    /// The id and the file of the blob for a file of the working directory
    /// with the given contents. Only the contents of regular files are
    /// stored.
    pub fn index_path(&self, kind: FileKind, contents: Vec<u8>) -> (r: Result<
        (GitObjectId, LooseObject),
        RustGitError,
    >)
        ensures
            match r {
                Ok((id, file)) => kind == FileKind::File && id@ == object_id_of(
                    GitObjectType::Blob,
                    contents@,
                ) && id.is_valid() && file.is_file_of(
                    self.obj_store.obj_dir@,
                    GitObjectType::Blob,
                    contents@,
                ),
                Err(e) => if kind == FileKind::File {
                    e.kind == GitErrorKind::Io && e.error@ == STORE_ERR@ && !can_store(
                        GitObjectType::Blob,
                        contents@,
                    )
                } else {
                    e.kind == GitErrorKind::Unsupported && e.error@ == "Unsupported file type"@
                },
            },
    {
        match kind {
            FileKind::File => {
                match self.hash_obj(GitObjectType::Blob, contents, true) {
                    Ok((id, Some(file))) => Ok((id, file)),
                    Ok((_, None)) => Err(RustGitError::with_kind(GitErrorKind::Io, "no file")),
                    Err(e) => Err(e),
                }
            },
            _ => Err(RustGitError::with_kind(GitErrorKind::Unsupported, "Unsupported file type")),
        }
    }

    /// The absolute path of a path in the repository.
    pub fn path_in_repo(&self, path: &GitRepoPath) -> (p: Vec<u8>)
        ensures
            p@ == joined(self.root_dir@, path@),
    {
        join_paths(self.root_dir.as_slice(), path.as_bytes())
    }

    /// The value of a reference, given its file if it has one.
    pub fn get_ref(file: Option<&[u8]>) -> (r: Option<GitObjectId>)
        ensures
            match (file, r) {
                (None, None) => true,
                (Some(contents), Some(id)) => id@ == trimmed(contents@),
                _ => false,
            },
    {
        match GitRefs::try_read_ref(file) {
            Some(v) => Some(GitObjectId::from_bytes(v)),
            None => None,
        }
    }

    /// Compare-and-set of the reference `git_ref`, which must lie under
    /// `refs/`: see `GitRefs::update_ref`.
    pub fn update_ref(
        &self,
        git_ref: &[u8],
        new_value: &[u8],
        old_value: Option<&[u8]>,
        current: Option<&[u8]>,
    ) -> (r: Result<RefWrite, RustGitError>)
        ensures
            match r {
                Ok(w) => {
                    &&& starts_with(git_ref@, refs_prefix())
                    &&& cas_allows(opt_view(current), opt_view(old_value))
                    &&& w.path@ == joined(self.refs.refs_dir@, git_ref@.skip(5))
                    &&& w.value@ == new_value@
                },
                Err(e) => if !starts_with(git_ref@, refs_prefix()) {
                    e.kind == GitErrorKind::InvalidName && e.says(invalid_ref_text(git_ref@))
                } else {
                    !cas_allows(opt_view(current), opt_view(old_value)) && e.kind
                        == GitErrorKind::CasMismatch && e.says(
                        cas_text(
                            held(opt_view(current)),
                            git_ref@.skip(5),
                            opt_view(old_value)->0,
                        ),
                    )
                },
            },
    {
        if !has_prefix(git_ref, refs_prefix_bytes()) {
            return Err(RustGitError::prefixed(GitErrorKind::InvalidName, "invalid ref ", git_ref));
        }
        let name = &git_ref[5..git_ref.len()];
        assert(name@ =~= git_ref@.skip(5));
        self.refs.update_ref(name, new_value, old_value, current)
    }

    /// The trees of the index: the id of the tree of the top directory, and
    /// every tree to write, a directory after those below it, the top one
    /// last.
    pub fn write_index_as_tree(&self) -> (r: (GitObjectId, Vec<GitObjectRaw>))
        ensures
            r.0@ == tree_id_at(self.index@.entries, Seq::empty()),
            r.0.is_valid(),
            all_trees(r.1@),
            payloads(r.1@) == trees_at(self.index@.entries, Seq::empty()),
            r.1@.len() > 0,
            r.1@.last().id@ == r.0@,
            r.1@.last().object.content@ == tree_text(tree_rows(self.index@.entries, Seq::empty())),
    {
        write_index_as_tree(&self.index.entries)
    }

    /// The index file to write.
    pub fn write_index(&self) -> (v: Vec<u8>)
        requires
            self.index.encodable(),
        ensures
            v@ == index_bytes(self.index@),
            v@ == index_body(self.index@) + sha1_digest(index_body(self.index@)),
    {
        self.index.write()
    }

    /// The commit of a tree with its parents and a message, made by the
    /// configured user at the given moment. Without a configured name and
    /// email there is no commit; nor is there one where the tree or a
    /// parent is not in the object store.
    pub fn new_commit(
        &self,
        tree: &GitObjectId,
        parents: &Vec<GitObjectId>,
        message: &[u8],
        tree_exists: bool,
        parents_exist: &Vec<bool>,
        timestamp: u128,
    ) -> (r: Result<GitCommitObject, RustGitError>)
        requires
            parents_exist@.len() == parents@.len(),
        ensures
            match r {
                Ok(c) => {
                    &&& self.config.user.name is Some
                    &&& self.config.user.email is Some
                    &&& tree_exists
                    &&& all_set(parents_exist@)
                    &&& c@ == commit_by(
                        tree@,
                        ids_view(parents@),
                        message@,
                        self.config.user.name->0@,
                        self.config.user.email->0@,
                        timestamp,
                    )
                },
                Err(e) => if self.config.user.name is None || self.config.user.email is None {
                    e.kind == GitErrorKind::IdentityUnset && e.error@ == IDENTITY_ERR@
                } else {
                    !(tree_exists && all_set(parents_exist@)) && e.kind
                        == GitErrorKind::UnknownObject && e.says(
                        unknown_object_text(
                            missing_id(tree@, ids_view(parents@), tree_exists, parents_exist@),
                        ),
                    )
                },
            },
    {
        let (user_name, user_email) = match self.config.identity() {
            Some(pair) => pair,
            None => {
                return Err(identity_unset());
            },
        };
        if !tree_exists {
            return Err(unknown_object(tree));
        }
        let n = parents.len();
        let mut copies: Vec<GitObjectId> = Vec::new();
        let mut i: usize = 0;
        assert(ids_view(copies@) =~= ids_view(parents@).take(0));
        while i < n
            invariant
                i <= n,
                n == parents@.len(),
                n == parents_exist@.len(),
                tree_exists,
                self.config.user.name is Some,
                self.config.user.email is Some,
                forall|k: int| 0 <= k < i ==> #[trigger] parents_exist@[k],
                ids_view(copies@) == ids_view(parents@).take(i as int),
            decreases n - i,
        {
            if !parents_exist[i] {
                assert(!parents_exist@[i as int]);
                proof {
                    lemma_first_unset(parents_exist@, i as int);
                }
                return Err(unknown_object(&parents[i]));
            }
            let ghost so_far = ids_view(copies@);
            copies.push(parents[i].duplicate());
            assert(ids_view(copies@) =~= so_far.push(parents@[i as int]@));
            assert(ids_view(parents@).take(i + 1) =~= so_far.push(parents@[i as int]@));
            i += 1;
        }
        assert(ids_view(parents@).take(n as int) =~= ids_view(parents@));
        Ok(
            GitCommitObject {
                tree_id: tree.duplicate(),
                parents: copies,
                message: to_vec(message),
                author: GitIdentity {
                    identity_type: GitIdentityType::Author,
                    name: user_name.clone(),
                    email: user_email.clone(),
                    timestamp,
                },
                committer: GitIdentity {
                    identity_type: GitIdentityType::Committer,
                    name: user_name.clone(),
                    email: user_email.clone(),
                    timestamp,
                },
            },
        )
    }

    /// `r` is what writing the commit of the tree with the parents and the
    /// message comes to, for the configured user at the given moment: the
    /// id and the file of that commit; or the failure for want of an
    /// identity, else for the first of the tree and the parents that is not
    /// in the store, else because the commit cannot be stored.
    pub open spec fn commit_written(
        &self,
        tree: Seq<u8>,
        parents: Seq<Seq<u8>>,
        message: Seq<u8>,
        tree_exists: bool,
        parents_exist: Seq<bool>,
        timestamp: u128,
        r: Result<(GitObjectId, LooseObject), RustGitError>,
    ) -> bool {
        match r {
            Ok((id, file)) => {
                &&& self.config.user.name is Some
                &&& self.config.user.email is Some
                &&& tree_exists
                &&& all_set(parents_exist)
                &&& id@ == object_id(
                    ObjectView::Commit(
                        commit_by(
                            tree,
                            parents,
                            message,
                            self.config.user.name->0@,
                            self.config.user.email->0@,
                            timestamp,
                        ),
                    ),
                )
                &&& file.is_file_of(
                    self.obj_store.obj_dir@,
                    GitObjectType::Commit,
                    commit_text(
                        commit_by(
                            tree,
                            parents,
                            message,
                            self.config.user.name->0@,
                            self.config.user.email->0@,
                            timestamp,
                        ),
                    ),
                )
            },
            Err(e) => if self.config.user.name is None || self.config.user.email is None {
                e.kind == GitErrorKind::IdentityUnset && e.error@ == IDENTITY_ERR@
            } else if !(tree_exists && all_set(parents_exist)) {
                e.kind == GitErrorKind::UnknownObject && e.says(
                    unknown_object_text(
                        missing_id(tree, parents, tree_exists, parents_exist),
                    ),
                )
            } else {
                e.kind == GitErrorKind::Io && e.error@ == STORE_ERR@ && !can_store(
                    GitObjectType::Commit,
                    commit_text(
                        commit_by(
                            tree,
                            parents,
                            message,
                            self.config.user.name->0@,
                            self.config.user.email->0@,
                            timestamp,
                        ),
                    ),
                )
            },
        }
    }

    /// The id and the file of the commit that `new_commit` makes. Beyond
    /// the failures of `new_commit` it fails where the commit cannot be
    /// stored, and only there.
    pub fn write_commit(
        &self,
        tree: &GitObjectId,
        parents: &Vec<GitObjectId>,
        message: &[u8],
        tree_exists: bool,
        parents_exist: &Vec<bool>,
        timestamp: u128,
    ) -> (r: Result<(GitObjectId, LooseObject), RustGitError>)
        requires
            parents_exist@.len() == parents@.len(),
        ensures
            self.commit_written(
                tree@,
                ids_view(parents@),
                message@,
                tree_exists,
                parents_exist@,
                timestamp,
                r,
            ),
    {
        let commit = match self.new_commit(
            tree,
            parents,
            message,
            tree_exists,
            parents_exist,
            timestamp,
        ) {
            Ok(c) => c,
            Err(e) => {
                return Err(e);
            },
        };
        self.obj_store.write_object(&GitObject::Commit(commit))
    }

    /// The annotated tag of an object, made by the configured user at the
    /// given moment, given the object if it is in the store. Without the
    /// object there is no tag, nor without a configured name and email.
    pub fn new_annotated_tag(
        &self,
        tag_name: &[u8],
        object_id: &GitObjectId,
        message: &[u8],
        target: Option<&GitObjectRaw>,
        timestamp: u128,
    ) -> (r: Result<GitTagObject, RustGitError>)
        ensures
            match r {
                Ok(t) => {
                    &&& target is Some
                    &&& self.config.user.name is Some
                    &&& self.config.user.email is Some
                    &&& t@ == (TagView {
                        tag_name: tag_name@,
                        object_id: object_id@,
                        object_type: target->0.object.header.obj_type,
                        tagger: IdentityView {
                            identity_type: GitIdentityType::Tagger,
                            name: self.config.user.name->0@,
                            email: self.config.user.email->0@,
                            timestamp,
                        },
                        message: message@,
                    })
                },
                Err(e) => if target is None {
                    e.kind == GitErrorKind::UnknownObject && e.says(no_object_text(object_id@))
                } else {
                    (self.config.user.name is None || self.config.user.email is None) && e.kind
                        == GitErrorKind::IdentityUnset && e.error@ == IDENTITY_ERR@
                },
            },
    {
        let target_object = match target {
            Some(t) => t,
            None => {
                return Err(
                    RustGitError::prefixed(GitErrorKind::UnknownObject, "no object ", object_id.as_bytes()),
                );
            },
        };
        match self.config.identity() {
            Some((user_name, user_email)) => Ok(
                GitTagObject {
                    tag_name: to_vec(tag_name),
                    object_id: object_id.duplicate(),
                    object_type: target_object.object.header.obj_type,
                    tagger: GitIdentity {
                        identity_type: GitIdentityType::Tagger,
                        name: user_name.clone(),
                        email: user_email.clone(),
                        timestamp,
                    },
                    message: to_vec(message),
                },
            ),
            None => Err(identity_unset()),
        }
    }

    /// The file of the annotated tag that `new_annotated_tag` makes, and
    /// the write that points the tag's reference at it. Beyond the failures
    /// of `new_annotated_tag`, a name that a tag may not have is refused;
    /// then it fails where the tag cannot be stored, and only there.
    pub fn create_annotated_tag(
        &self,
        tag_name: &[u8],
        object_id: &GitObjectId,
        message: &[u8],
        target: Option<&GitObjectRaw>,
        timestamp: u128,
    ) -> (r: Result<(LooseObject, RefWrite), RustGitError>)
        ensures
            match r {
                Ok((file, w)) => {
                    &&& target is Some
                    &&& self.config.user.name is Some
                    &&& self.config.user.email is Some
                    &&& is_valid_name(tag_name@)
                    &&& w.path@ == joined(self.refs.tags_dir@, tag_name@)
                    &&& w.value@ == crate::object::object_id(
                        ObjectView::Tag(
                            TagView {
                                tag_name: tag_name@,
                                object_id: object_id@,
                                object_type: target->0.object.header.obj_type,
                                tagger: IdentityView {
                                    identity_type: GitIdentityType::Tagger,
                                    name: self.config.user.name->0@,
                                    email: self.config.user.email->0@,
                                    timestamp,
                                },
                                message: message@,
                            },
                        ),
                    )
                    &&& file.is_file_of(
                        self.obj_store.obj_dir@,
                        GitObjectType::Tag,
                        tag_text(
                            TagView {
                                tag_name: tag_name@,
                                object_id: object_id@,
                                object_type: target->0.object.header.obj_type,
                                tagger: IdentityView {
                                    identity_type: GitIdentityType::Tagger,
                                    name: self.config.user.name->0@,
                                    email: self.config.user.email->0@,
                                    timestamp,
                                },
                                message: message@,
                            },
                        ),
                    )
                },
                Err(e) => if target is None {
                    e.kind == GitErrorKind::UnknownObject && e.says(no_object_text(object_id@))
                } else if self.config.user.name is None || self.config.user.email is None {
                    e.kind == GitErrorKind::IdentityUnset && e.error@ == IDENTITY_ERR@
                } else if !is_valid_name(tag_name@) {
                    e.kind == GitErrorKind::InvalidName && e.says(invalid_name_text(tag_name@))
                } else {
                    e.kind == GitErrorKind::Io && e.error@ == STORE_ERR@ && !can_store(
                        GitObjectType::Tag,
                        tag_text(
                            TagView {
                                tag_name: tag_name@,
                                object_id: object_id@,
                                object_type: target->0.object.header.obj_type,
                                tagger: IdentityView {
                                    identity_type: GitIdentityType::Tagger,
                                    name: self.config.user.name->0@,
                                    email: self.config.user.email->0@,
                                    timestamp,
                                },
                                message: message@,
                            },
                        ),
                    )
                },
            },
    {
        let tag = match self.new_annotated_tag(tag_name, object_id, message, target, timestamp) {
            Ok(t) => t,
            Err(e) => {
                return Err(e);
            },
        };
        if !check_name(tag_name) {
            return Err(
                RustGitError::framed(GitErrorKind::InvalidName, "invalid name '", tag_name, "'"),
            );
        }
        let (tag_obj_id, file) = match self.obj_store.write_object(&GitObject::Tag(tag)) {
            Ok(pair) => pair,
            Err(e) => {
                return Err(e);
            },
        };
        match self.refs.create_tag(tag_name, &tag_obj_id) {
            Ok(w) => Ok((file, w)),
            Err(e) => Err(e),
        }
    }

    /// The write that points the tag at the object itself.
    pub fn create_lightweight_tag(&self, tag_name: &[u8], object_id: &GitObjectId) -> (r: Result<
        RefWrite,
        RustGitError,
    >)
        ensures
            match r {
                Ok(w) => is_valid_name(tag_name@) && w.path@ == joined(
                    self.refs.tags_dir@,
                    tag_name@,
                ) && w.value@ == object_id@,
                Err(e) => !is_valid_name(tag_name@) && e.kind == GitErrorKind::InvalidName && e.says(
                    invalid_name_text(tag_name@),
                ),
            },
    {
        self.refs.create_tag(tag_name, object_id)
    }
}

} // verus!
