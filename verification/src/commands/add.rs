//! Staging files: their contents go to the object store, their state to
//! the index.

use crate::error::GitErrorKind;
use crate::error::RustGitError;
use crate::index::entry::FileStat;
use crate::index::entry::GitIndexEntry;
use crate::index::with_entry;
use crate::object::raw::object_id_of;
use crate::object::raw::GitObjectType;
use crate::object_store::can_store;
use crate::object_store::STORE_ERR;
use crate::object_store::LooseObject;
use crate::options::ChmodFlag;
use crate::repo::repo_path;
use crate::repo::outside_text;
use crate::repo::FileKind;
use crate::repo::GitRepo;
use crate::text::str_is;
use vstd::prelude::*;
use vstd::string::*;

verus! {

/// The arguments of the command.
#[derive(Debug, Clone, PartialEq, Eq)]
pub struct AddArgs {
    pub pathspec: Option<String>,
    pub dry_run: bool,
    pub verbose: bool,
    pub force: bool,
    pub sparse: bool,
    pub interactive: bool,
    pub patch: bool,
    pub edit: bool,
    pub update: bool,
    pub no_ignore_removal: bool,
    pub ignore_removal: bool,
    pub intent_to_add: bool,
    pub refresh: bool,
    pub ignore_errors: bool,
    pub ignore_missing: bool,
    pub no_warn_embedded_repo: bool,
    pub renormalize: bool,
    pub chmod: Option<ChmodFlag>,
    pub pathspec_from_file: Option<String>,
    pub pathspec_file_nul: bool,
}

/// The command.
#[derive(Debug, Clone, PartialEq, Eq)]
pub struct AddCommand {
    pub args: AddArgs,
}

/// The flag that the value of `--chmod` names: `+x` or `-x`.
pub fn parse_chmod_flag(s: &str) -> (r: Result<ChmodFlag, String>)
    ensures
        match r {
            Ok(ChmodFlag::Executable) => s@ == "+x"@,
            Ok(ChmodFlag::NonExecutable) => s@ == "-x"@ && s@ != "+x"@,
            Err(e) => s@ != "+x"@ && s@ != "-x"@ && e@ == "-chmod param '"@ + s@
                + "' must be either -x or +x"@,
        },
{
    if str_is(s, "+x") {
        Ok(ChmodFlag::Executable)
    } else if str_is(s, "-x") {
        Ok(ChmodFlag::NonExecutable)
    } else {
        Err("-chmod param '".to_owned().concat(s).concat("' must be either -x or +x"))
    }
}

impl AddCommand {
    /// The command for the arguments.
    pub fn new(args: AddArgs) -> (cmd: AddCommand)
        ensures
            cmd.args == args,
    {
        AddCommand { args }
    }

    /// The paths that the command is to stage.
    pub fn paths(&self) -> (r: Vec<&String>)
        ensures
            match self.args.pathspec {
                Some(p) => r@.len() == 1 && *r@[0] == p,
                None => r@.len() == 0,
            },
    {
        let mut r: Vec<&String> = Vec::new();
        match &self.args.pathspec {
            Some(p) => {
                r.push(p);
            },
            None => {},
        }
        r
    }
}

/// Stages one file, given its state and its contents: the blob of the
/// contents is to be written, and the entry of the file is put into the
/// index under the path that `path` names in the repository. Only regular
/// files are staged, and only paths inside the repository.
pub fn add_one_path(
    path: &[u8],
    metadata: &FileStat,
    kind: FileKind,
    contents: Vec<u8>,
    repo: &mut GitRepo,
) -> (r: Result<LooseObject, RustGitError>)
    requires
        old(repo).index.wf(),
        old(repo).index.entries@.len() < u32::MAX,
    ensures
        final(repo).index.wf(),
        final(repo).working_dir == old(repo).working_dir,
        final(repo).config == old(repo).config,
        final(repo).obj_store == old(repo).obj_store,
        match r {
            Ok(file) => {
                &&& kind == FileKind::File
                &&& repo_path(old(repo).working_dir@, path@) is Some
                &&& final(repo).index@.entries == with_entry(
                    old(repo).index@.entries,
                    GitIndexEntry::new_spec(
                        repo_path(old(repo).working_dir@, path@)->0,
                        *metadata,
                        object_id_of(GitObjectType::Blob, contents@),
                    ),
                )
                &&& file.is_file_of(old(repo).obj_store.obj_dir@, GitObjectType::Blob, contents@)
            },
            Err(e) => {
                &&& final(repo).index == old(repo).index
                &&& if kind != FileKind::File {
                    e.kind == GitErrorKind::Unsupported && e.error@ == "Unsupported file type"@
                } else if repo_path(old(repo).working_dir@, path@) is None {
                    e.kind == GitErrorKind::OutsideRepo && e.says(outside_text(path@))
                } else {
                    e.kind == GitErrorKind::Io && e.error@ == STORE_ERR@ && !can_store(
                        GitObjectType::Blob,
                        contents@,
                    )
                }
            },
        },
{
    let kind_is_file = match kind {
        FileKind::File => true,
        _ => false,
    };
    if !kind_is_file {
        return Err(RustGitError::with_kind(GitErrorKind::Unsupported, "Unsupported file type"));
    }
    let repo_path = match repo.path_to_git_repo_path(path) {
        Ok(p) => p,
        Err(e) => {
            return Err(e);
        },
    };
    let (obj_id, file) = match repo.index_path(kind, contents) {
        Ok(pair) => pair,
        Err(e) => {
            return Err(e);
        },
    };
    let index_entry = GitIndexEntry::new(repo_path.as_bytes(), metadata, obj_id);
    repo.index.add(index_entry);
    Ok(file)
}

} // verus!
