//! Creating a repository.

use crate::bytes::ascii_bytes;
use crate::bytes::to_vec;
use crate::config::core_defaults;
use crate::config::CoreConfig;
use crate::config::ExtensionsConfig;
use crate::config::GitConfig;
use crate::config::UserConfig;
use crate::error::GitErrorKind;
use crate::error::RustGitError;
use crate::hash::HashAlgorithm;
use crate::path::join_paths;
use crate::path::joined;
use crate::refs::head_name;
use crate::refs::heads_prefix;
use crate::refs::heads_prefix_bytes;
use crate::refs::symbolic_mark;
use crate::text::str_is;
use vstd::prelude::*;
use vstd::string::*;
use vstd::utf8::*;

verus! {

/// The name of the repository directory where none is given.
pub const DEFAULT_GIT_DIR: &'static str = ".git";

/// With whom a repository is shared.
#[derive(Debug, Clone, Copy, PartialEq, Eq, Structural)]
pub enum InitPermissionFlag {
    Umask,
    Group,
    All,
    Perm(u8),
}

/// The value of an octal digit.
pub open spec fn octal_value(c: char) -> Option<int> {
    if '0' <= c <= '7' {
        Some(c as int - '0' as int)
    } else {
        None
    }
}

/// The number that octal digits denote.
pub open spec fn octal_number(s: Seq<char>) -> Option<int>
    decreases s.len(),
{
    if s.len() == 0 {
        Some(0)
    } else {
        match (octal_number(s.drop_last()), octal_value(s.last())) {
            (Some(n), Some(d)) => Some(n * 8 + d),
            _ => None,
        }
    }
}

/// The digits of a numeral: what follows an optional leading `+`.
pub open spec fn after_plus(s: Seq<char>) -> Seq<char> {
    if s.len() > 0 && s[0] == '+' {
        s.skip(1)
    } else {
        s
    }
}

/// The permissions that a text names: a `0`, then a numeral of three
/// characters in octal that is no more than 255.
pub open spec fn permission_number(s: Seq<char>) -> Option<u8> {
    if s.len() == 4 && s[0] == '0' && after_plus(s.skip(1)).len() > 0 {
        match octal_number(after_plus(s.skip(1))) {
            Some(n) => if n <= 255 {
                Some(n as u8)
            } else {
                None
            },
            None => None,
        }
    } else {
        None
    }
}

/// The flag that a text names, if it names one.
pub open spec fn permission_flag(s: Seq<char>) -> Option<InitPermissionFlag> {
    if s == "umask"@ || s == "false"@ {
        Some(InitPermissionFlag::Umask)
    } else if s == "group"@ || s == "true"@ {
        Some(InitPermissionFlag::Group)
    } else if s == "all"@ || s == "world"@ || s == "everybody"@ {
        Some(InitPermissionFlag::All)
    } else {
        match permission_number(s) {
            Some(n) => Some(InitPermissionFlag::Perm(n)),
            None => None,
        }
    }
}

/// The flag that the value of `--shared` names.
pub fn parse_init_permission(s: &str) -> (r: Result<InitPermissionFlag, String>)
    ensures
        match r {
            Ok(flag) => permission_flag(s@) == Some(flag),
            Err(e) => permission_flag(s@) is None && e@ == "Invalid permission provided"@,
        },
{
    if str_is(s, "umask") || str_is(s, "false") {
        return Ok(InitPermissionFlag::Umask);
    }
    if str_is(s, "group") || str_is(s, "true") {
        return Ok(InitPermissionFlag::Group);
    }
    if str_is(s, "all") || str_is(s, "world") || str_is(s, "everybody") {
        return Ok(InitPermissionFlag::All);
    }
    let n = s.unicode_len();
    if n != 4 || s.get_char(0) != '0' {
        return Err("Invalid permission provided".to_owned());
    }
    let start: usize = if s.get_char(1) == '+' { 2 } else { 1 };
    let ghost digits = after_plus(s@.skip(1));
    assert(digits =~= s@.skip(start as int));
    let mut value: u32 = 0;
    let mut i: usize = start;
    assert(digits.take(0) =~= Seq::<char>::empty());
    while i < 4
        invariant
            start <= i <= 4,
            1 <= start <= 2,
            s@.len() == 4,
            digits == s@.skip(start as int),
            digits == after_plus(s@.skip(1)),
            s@[0] == '0',
            s@ != "umask"@ && s@ != "false"@ && s@ != "group"@ && s@ != "true"@ && s@ != "all"@
                && s@ != "world"@ && s@ != "everybody"@,
            octal_number(digits.take(i - start)) == Some(value as int),
            i - start == 0 ==> value == 0,
            i - start == 1 ==> value < 8,
            i - start == 2 ==> value < 64,
            value < 512,
        decreases 4 - i,
    {
        let c = s.get_char(i);
        let ghost upto = digits.take(i - start + 1);
        proof {
            assert(upto.drop_last() =~= digits.take(i - start));
            assert(upto.last() == c);
        }
        if c < '0' || c > '7' {
            proof {
                lemma_octal_prefix(digits, i - start + 1);
            }
            return Err("Invalid permission provided".to_owned());
        }
        let digit: u32 = (c as u32) - ('0' as u32);
        value = value * 8 + digit;
        i += 1;
    }
    assert(digits.take(4 - start) =~= digits);
    if value > 255 {
        return Err("Invalid permission provided".to_owned());
    }
    Ok(InitPermissionFlag::Perm(value as u8))
}

/// Digits that denote a number do so from their start.
proof fn lemma_octal_prefix(s: Seq<char>, k: int)
    requires
        0 <= k <= s.len(),
        octal_number(s.take(k)) is None,
    ensures
        octal_number(s) is None,
    decreases s.len() - k,
{
    if k < s.len() {
        assert(s.take(k + 1).drop_last() =~= s.take(k));
        lemma_octal_prefix(s, k + 1);
    } else {
        assert(s.take(k) =~= s);
    }
}

/// The arguments of the command.
#[derive(Debug, Clone, PartialEq, Eq)]
pub struct InitArgs {
    pub quiet: bool,
    pub bare: bool,
    pub template: Option<String>,
    pub separate_git_dir: Option<String>,
    pub object_format: HashAlgorithm,
    pub initial_branch: String,
    pub shared: InitPermissionFlag,
    pub directory: Option<String>,
}

/// The command.
#[derive(Debug, Clone, PartialEq, Eq)]
pub struct InitCommand {
    pub args: InitArgs,
    pub git_dir: Option<String>,
    pub git_work_tree: Option<String>,
}

/// What a new repository consists of.
#[derive(Debug, Clone, PartialEq, Eq)]
pub struct RepoLayout {
    /// The repository directory.
    pub git_repo_dir: Vec<u8>,
    /// The repository directory is to be created; it must not exist yet.
    pub create_git_repo_dir: bool,
    /// The directories to create in it, a directory before those in it.
    pub dirs: Vec<Vec<u8>>,
    /// The file of HEAD and what it holds.
    pub head_path: Vec<u8>,
    pub head_value: Vec<u8>,
}

/// The names of the directories of a repository, from the repository
/// directory.
pub open spec fn layout_dirs() -> Seq<Seq<char>> {
    seq![
        "objects"@,
        "objects/info"@,
        "objects/pack"@,
        "info"@,
        "hooks"@,
        "refs"@,
        "refs/heads"@,
        "refs/tags"@,
    ]
}

/// What stands in the way of the command, if anything does: options that
/// are recognised and not implemented, and a work tree without a
/// repository directory of its own.
pub open spec fn init_obstacle(cmd: InitCommand) -> Option<GitErrorKind> {
    if cmd.args.separate_git_dir is Some {
        Some(GitErrorKind::Unsupported)
    } else if cmd.args.template is Some {
        Some(GitErrorKind::Unsupported)
    } else if cmd.args.shared != InitPermissionFlag::Group {
        Some(GitErrorKind::Unsupported)
    } else if (cmd.git_dir is None || cmd.args.bare) && cmd.git_work_tree is Some {
        Some(GitErrorKind::Usage)
    } else {
        None
    }
}

/// What the refusal of the command says: the option that is not
/// implemented, or that a work tree needs a repository directory.
pub open spec fn init_refusal(cmd: InitCommand) -> Seq<char> {
    if cmd.args.separate_git_dir is Some {
        "--separate-git-dir not supported"@
    } else if cmd.args.template is Some {
        "--template not supported"@
    } else if cmd.args.shared != InitPermissionFlag::Group {
        "--shared not supported"@
    } else {
        "work-tree can't be set without specifying git-dir"@
    }
}

/// `"`, the directory, `" already exists`
pub open spec fn exists_text(dir: Seq<u8>) -> Seq<u8> {
    "\"".spec_bytes() + dir + "\" already exists".spec_bytes()
}

impl InitCommand {
    /// The command for the arguments.
    pub fn new(args: InitArgs, git_dir: Option<String>, git_work_tree: Option<String>) -> (cmd:
        InitCommand)
        ensures
            cmd.args == args,
            cmd.git_dir == git_dir,
            cmd.git_work_tree == git_work_tree,
    {
        InitCommand { args, git_dir, git_work_tree }
    }

    /// The directory in which the repository is made: the one that was
    /// named, or the current one.
    pub fn root_dir(&self) -> (dir: Vec<u8>)
        ensures
            dir@ == (match self.args.directory {
                Some(d) => encode_utf8(d@),
                None => "./".spec_bytes(),
            }),
    {
        match &self.args.directory {
            Some(d) => to_vec(d.as_str().as_bytes()),
            None => to_vec("./".as_bytes()),
        }
    }

    /// The name of the repository directory: the one that was given, or
    /// `.git`.
    pub fn git_dir_name(&self) -> (dir: Vec<u8>)
        ensures
            dir@ == (match self.git_dir {
                Some(d) => encode_utf8(d@),
                None => DEFAULT_GIT_DIR.spec_bytes(),
            }),
    {
        match &self.git_dir {
            Some(d) => to_vec(d.as_str().as_bytes()),
            None => to_vec(DEFAULT_GIT_DIR.as_bytes()),
        }
    }

    /// Refuses the options that are not implemented and the ones that do
    /// not fit together.
    pub fn execute(&self) -> (r: Result<(), RustGitError>)
        ensures
            match r {
                Ok(()) => init_obstacle(*self) is None,
                Err(e) => init_obstacle(*self) == Some(e.kind) && e.error@ == init_refusal(*self),
            },
    {
        if self.args.separate_git_dir.is_some() {
            return Err(RustGitError::with_kind(GitErrorKind::Unsupported, "--separate-git-dir not supported"));
        }
        if self.args.template.is_some() {
            return Err(RustGitError::with_kind(GitErrorKind::Unsupported, "--template not supported"));
        }
        let shared_is_group = match self.args.shared {
            InitPermissionFlag::Group => true,
            _ => false,
        };
        if !shared_is_group {
            return Err(RustGitError::with_kind(GitErrorKind::Unsupported, "--shared not supported"));
        }
        if (self.git_dir.is_none() || self.args.bare) && self.git_work_tree.is_some() {
            return Err(
                RustGitError::with_kind(
                    GitErrorKind::Usage,
                    "work-tree can't be set without specifying git-dir",
                ),
            );
        }
        Ok(())
    }
}

/// What the new repository in `project_dir` consists of, given whether its
/// repository directory exists already. A repository that is not bare has
/// its own directory `git_dir` in the project directory, which must not
/// exist yet, else the command fails and says that it exists; a bare one
/// lies in the project directory itself. HEAD points to the initial branch.
pub fn create_git_repo(cmd: &InitCommand, project_dir: &[u8], git_dir: &[u8], exists: bool) -> (r:
    Result<RepoLayout, RustGitError>)
    ensures
        match r {
            Ok(layout) => {
                &&& cmd.args.bare || !exists
                &&& layout.create_git_repo_dir == !cmd.args.bare
                &&& layout.git_repo_dir@ == (if cmd.args.bare {
                    project_dir@
                } else {
                    joined(project_dir@, git_dir@)
                })
                &&& layout.dirs@.len() == layout_dirs().len()
                &&& forall|i: int|
                    0 <= i < layout_dirs().len() ==> (#[trigger] layout.dirs@[i])@ == joined(
                        layout.git_repo_dir@,
                        encode_utf8(layout_dirs()[i]),
                    )
                &&& layout.head_path@ == joined(layout.git_repo_dir@, head_name())
                &&& layout.head_value@ == symbolic_mark() + heads_prefix() + encode_utf8(
                    cmd.args.initial_branch@,
                )
            },
            Err(e) => !cmd.args.bare && exists && e.kind == GitErrorKind::AlreadyExists && e.says(
                exists_text(joined(project_dir@, git_dir@)),
            ),
        },
{
    let git_repo_dir = if cmd.args.bare {
        to_vec(project_dir)
    } else {
        if exists {
            return Err(
                RustGitError::framed(
                    GitErrorKind::AlreadyExists,
                    "\"",
                    join_paths(project_dir, git_dir).as_slice(),
                    "\" already exists",
                ),
            );
        }
        join_paths(project_dir, git_dir)
    };
    let base = git_repo_dir.as_slice();
    let mut dirs: Vec<Vec<u8>> = Vec::new();
    dirs.push(join_paths(base, "objects".as_bytes()));
    dirs.push(join_paths(base, "objects/info".as_bytes()));
    dirs.push(join_paths(base, "objects/pack".as_bytes()));
    dirs.push(join_paths(base, "info".as_bytes()));
    dirs.push(join_paths(base, "hooks".as_bytes()));
    dirs.push(join_paths(base, "refs".as_bytes()));
    dirs.push(join_paths(base, "refs/heads".as_bytes()));
    dirs.push(join_paths(base, "refs/tags".as_bytes()));
    proof {
        reveal_strlit("HEAD");
        reveal_strlit("ref: ");
    }
    let head = ascii_bytes("HEAD");
    assert(head@ =~= head_name());
    let mark = ascii_bytes("ref: ");
    assert(mark@ =~= symbolic_mark());
    let head_path = join_paths(base, head);
    let mut head_value: Vec<u8> = Vec::new();
    head_value.extend_from_slice(mark);
    head_value.extend_from_slice(heads_prefix_bytes());
    head_value.extend_from_slice(cmd.args.initial_branch.as_str().as_bytes());
    Ok(RepoLayout { git_repo_dir, create_git_repo_dir: !cmd.args.bare, dirs, head_path, head_value })
}

/// The configuration of the new repository, given whether its file system
/// takes names for the same whatever their case.
pub fn init_config(cmd: &InitCommand, ignorecase: bool) -> (c: GitConfig)
    ensures
        c.core == (CoreConfig {
            repositoryformatversion: if cmd.args.object_format == HashAlgorithm::Sha1 {
                1u32
            } else {
                0u32
            },
            bare: cmd.args.bare,
            ignorecase,
            ..core_defaults()
        }),
        c.extensions.objectformat == cmd.args.object_format,
        c.user.name is None,
        c.user.email is None,
{
    let repo_version: u32 = match cmd.args.object_format {
        HashAlgorithm::Sha1 => 1,
        _ => 0,
    };
    let defaults = CoreConfig::default();
    GitConfig {
        core: CoreConfig {
            repositoryformatversion: repo_version,
            filemode: defaults.filemode,
            bare: cmd.args.bare,
            logallrefupdates: defaults.logallrefupdates,
            ignorecase,
            precomposeunicode: defaults.precomposeunicode,
            symlinks: defaults.symlinks,
        },
        extensions: ExtensionsConfig { objectformat: cmd.args.object_format },
        user: UserConfig::default(),
    }
}

} // verus!
