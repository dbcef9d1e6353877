//! Removing files from the index and from the working directory.

use crate::bytes::bytes_eq;
use crate::bytes::texts_view;
use crate::error::GitErrorKind;
use crate::error::RustGitError;
use crate::index::dropped_paths;
use crate::index::entry::EntryView;
use crate::index::entry::GitIndexEntry;
use crate::index::kept;
use crate::repo::first_unset;
use crate::repo::lemma_first_unset;
use crate::repo::outside_text;
use crate::repo::repo_path;
use crate::repo::GitRepo;
use vstd::prelude::*;
use vstd::string::*;
use vstd::utf8::*;

verus! {

/// The arguments of the command.
#[derive(Debug, Clone, PartialEq, Eq)]
pub struct RmArgs {
    pub files: Vec<String>,
    pub force: bool,
    /// Do not say what is removed.
    pub quiet: bool,
    /// Succeed even where no file matched.
    pub ignore_unmatch: bool,
    /// Say what would be removed, and remove nothing.
    pub dry_run: bool,
    /// Remove from the index only.
    pub cached: bool,
}

/// The command.
#[derive(Debug, Clone, PartialEq, Eq)]
pub struct RmCommand {
    pub args: RmArgs,
}

/// What the command has decided.
#[derive(Debug, Clone, PartialEq, Eq)]
pub struct RmPlan {
    /// The paths that were taken out of the index, in order.
    pub removed: Vec<Vec<u8>>,
    /// What to print: one line for each removed path.
    pub output: Vec<Vec<u8>>,
    /// The removed paths are to be removed from the working directory too.
    pub unlink: bool,
    /// The index is to be written.
    pub persist: bool,
}

/// One of the paths is `path`.
pub open spec fn lists(paths: Seq<Seq<u8>>, path: Seq<u8>) -> bool {
    exists|i: int| 0 <= i < paths.len() && paths[i] == path
}

/// For each entry, whether it stays: whether its path is none of `paths`.
pub open spec fn stays(es: Seq<EntryView>, paths: Seq<Seq<u8>>) -> Seq<bool> {
    Seq::new(es.len(), |i: int| !lists(paths, es[i].path_name))
}

/// The paths in the repository that the files name, seen from the working
/// directory, as far as each names one.
pub open spec fn repo_paths(working_dir: Seq<u8>, files: Seq<String>) -> Seq<Option<Seq<u8>>> {
    Seq::new(files.len(), |i: int| repo_path(working_dir, encode_utf8(files[i]@)))
}

/// Every file names a path in the repository.
pub open spec fn all_inside(paths: Seq<Option<Seq<u8>>>) -> bool {
    forall|i: int| 0 <= i < paths.len() ==> (#[trigger] paths[i]) is Some
}

/// For each file, whether it names a path in the repository.
pub open spec fn inside(paths: Seq<Option<Seq<u8>>>) -> Seq<bool> {
    Seq::new(paths.len(), |i: int| paths[i] is Some)
}

/// The paths that were named.
pub open spec fn named(paths: Seq<Option<Seq<u8>>>) -> Seq<Seq<u8>> {
    Seq::new(paths.len(), |i: int| paths[i]->0)
}

/// `rm '`, the path, `'`
pub open spec fn rm_line(path: Seq<u8>) -> Seq<u8> {
    seq!['r' as u8, 'm' as u8, ' ' as u8, 0x27u8] + path + seq![0x27u8]
}

/// The lines that announce the removed paths.
pub open spec fn rm_lines(removed: Seq<Seq<u8>>) -> Seq<Seq<u8>> {
    Seq::new(removed.len(), |i: int| rm_line(removed[i]))
}

fn list_has(paths: &Vec<Vec<u8>>, path: &[u8]) -> (r: bool)
    ensures
        r == lists(texts_view(paths@), path@),
{
    let n = paths.len();
    let mut i: usize = 0;
    while i < n
        invariant
            i <= n,
            n == paths@.len(),
            forall|k: int| 0 <= k < i ==> texts_view(paths@)[k] != path@,
        decreases n - i,
    {
        if bytes_eq(paths[i].as_slice(), path) {
            assert(texts_view(paths@)[i as int] == path@);
            return true;
        }
        i += 1;
    }
    false
}

impl RmCommand {
    /// The command for the arguments.
    pub fn new(args: RmArgs) -> (cmd: RmCommand)
        ensures
            cmd.args == args,
    {
        RmCommand { args }
    }

    /// Takes the named files out of the index of the repository and says
    /// what else is to be done.
    ///
    /// Without a file the command fails, and so it does where a file names
    /// a path outside the repository, with the message for the first such
    /// file. Every entry whose path is one of the
    /// named paths leaves the index. Where none did, the command fails
    /// unless `ignore_unmatch` is given, and nothing more is to be done. In
    /// a dry run nothing more is to be done either. Else the index is to be
    /// written, and unless `cached` is given the removed paths are to be
    /// removed from the working directory.
    pub fn execute(&self, repo: &mut GitRepo) -> (r: Result<RmPlan, RustGitError>)
        requires
            old(repo).index.wf(),
        ensures
            final(repo).index.wf(),
            final(repo).working_dir == old(repo).working_dir,
            final(repo).config == old(repo).config,
            ({
                let paths = repo_paths(old(repo).working_dir@, self.args.files@);
                let es = old(repo).index@.entries;
                let keep = stays(es, named(paths));
                match r {
                    Err(e) => {
                        &&& if self.args.files@.len() == 0 {
                            e.kind == GitErrorKind::Usage && e.error@
                                == "No pathspec was given. Which files should I remove?"@
                        } else if !all_inside(paths) {
                            e.kind == GitErrorKind::OutsideRepo && e.says(
                                outside_text(
                                    encode_utf8(self.args.files@[first_unset(inside(paths))]@),
                                ),
                            )
                        } else {
                            e.kind == GitErrorKind::NoMatches && e.error@
                                == "No files matched for rm"@
                        }
                        &&& self.args.files@.len() > 0 && all_inside(paths) ==> dropped_paths(
                            es,
                            keep,
                        ).len() == 0 && !self.args.ignore_unmatch
                    },
                    Ok(plan) => {
                        &&& self.args.files@.len() > 0
                        &&& all_inside(paths)
                        &&& final(repo).index@.entries == kept(es, keep)
                        &&& texts_view(plan.removed@) == dropped_paths(es, keep)
                        &&& texts_view(plan.output@) == (if self.args.quiet {
                            Seq::<Seq<u8>>::empty()
                        } else {
                            rm_lines(dropped_paths(es, keep))
                        })
                        &&& plan.removed@.len() == 0 ==> self.args.ignore_unmatch
                        &&& plan.persist == (plan.removed@.len() > 0 && !self.args.dry_run)
                        &&& plan.unlink == (plan.persist && !self.args.cached)
                    },
                }
            }),
    {
        let ghost es = repo.index@.entries;
        let ghost paths = repo_paths(repo.working_dir@, self.args.files@);
        let ghost at_start = *repo;
        if self.args.files.len() == 0 {
            return Err(
                RustGitError::with_kind(
                    GitErrorKind::Usage,
                    "No pathspec was given. Which files should I remove?",
                ),
            );
        }
        let mut file_repo_paths: Vec<Vec<u8>> = Vec::new();
        let n = self.args.files.len();
        let mut i: usize = 0;
        assert(texts_view(file_repo_paths@) =~= named(paths).take(0));
        while i < n
            invariant
                i <= n,
                n == self.args.files@.len(),
                *repo == at_start,
                at_start.index.wf(),
                paths == repo_paths(repo.working_dir@, self.args.files@),
                forall|k: int| 0 <= k < i ==> (#[trigger] paths[k]) is Some,
                texts_view(file_repo_paths@) == named(paths).take(i as int),
            decreases n - i,
        {
            let ghost so_far = texts_view(file_repo_paths@);
            match repo.path_to_git_repo_path(self.args.files[i].as_str().as_bytes()) {
                Ok(p) => {
                    assert(paths[i as int] == Some(p@));
                    file_repo_paths.push(p.0);
                    assert(texts_view(file_repo_paths@) =~= so_far.push(p@));
                    assert(named(paths).take(i + 1) =~= so_far.push(p@));
                },
                Err(e) => {
                    assert(paths[i as int] is None);
                    proof {
                        lemma_first_unset(inside(paths), i as int);
                    }
                    return Err(e);
                },
            }
            i += 1;
        }
        assert(named(paths).take(n as int) =~= named(paths));
        let ghost keep = stays(es, named(paths));
        let listed = &file_repo_paths;
        let keep_entry = |entry: &GitIndexEntry| -> (keep_it: bool)
            ensures
                keep_it == !lists(texts_view(listed@), entry@.path_name),
            {
                let listed_here = list_has(listed, entry.path_name.as_slice());
                !listed_here
            };
        let paths_to_remove = repo.index.filter_entries(keep_entry);
        proof {
            let found = choose|found: Seq<bool>|
                {
                    &&& found.len() == es.len()
                    &&& forall|k: int|
                        0 <= k < found.len() ==> #[trigger] found[k] == !lists(
                            texts_view(listed@),
                            es[k].path_name,
                        )
                    &&& repo.index@.entries == kept(es, found)
                    &&& texts_view(paths_to_remove@) == dropped_paths(es, found)
                };
            assert(found =~= keep);
        }
        let mut output: Vec<Vec<u8>> = Vec::new();
        if !self.args.quiet {
            let count = paths_to_remove.len();
            let mut j: usize = 0;
            let ghost lines = rm_lines(texts_view(paths_to_remove@));
            assert(texts_view(output@) =~= lines.take(0));
            while j < count
                invariant
                    j <= count,
                    count == paths_to_remove@.len(),
                    lines == rm_lines(texts_view(paths_to_remove@)),
                    texts_view(output@) == lines.take(j as int),
                decreases count - j,
            {
                let ghost so_far = texts_view(output@);
                let mut line: Vec<u8> = Vec::new();
                line.push(0x72);
                line.push(0x6d);
                line.push(0x20);
                line.push(0x27);
                line.extend_from_slice(paths_to_remove[j].as_slice());
                line.push(0x27);
                assert(line@ =~= rm_line(paths_to_remove@[j as int]@));
                output.push(line);
                assert(texts_view(output@) =~= so_far.push(lines[j as int]));
                assert(lines.take(j + 1) =~= so_far.push(lines[j as int]));
                j += 1;
            }
            assert(lines.take(count as int) =~= lines);
        } else {
            assert(texts_view(output@) =~= Seq::<Seq<u8>>::empty());
        }
        if paths_to_remove.len() == 0 {
            if self.args.ignore_unmatch {
                return Ok(RmPlan { removed: paths_to_remove, output, unlink: false, persist: false });
            } else {
                return Err(RustGitError::with_kind(GitErrorKind::NoMatches, "No files matched for rm"));
            }
        }
        if self.args.dry_run {
            return Ok(RmPlan { removed: paths_to_remove, output, unlink: false, persist: false });
        }
        Ok(RmPlan { removed: paths_to_remove, output, unlink: !self.args.cached, persist: true })
    }

    /// What the failure to remove the path at `position` among the removed
    /// ones means: the first one ends the command, a later one is let
    /// pass.
    pub fn after_unlink(&self, position: usize, path: &[u8], failed: bool) -> (r: Result<
        (),
        RustGitError,
    >)
        ensures
            match r {
                Ok(()) => !(failed && position == 0),
                Err(e) => failed && position == 0 && e.kind == GitErrorKind::Io && e.says(
                    "git rm: '".spec_bytes() + path@ + "'".spec_bytes(),
                ),
            },
    {
        if failed && position == 0 {
            Err(RustGitError::framed(GitErrorKind::Io, "git rm: '", path, "'"))
        } else {
            Ok(())
        }
    }
}

} // verus!
