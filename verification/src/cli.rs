//! From the command line to a command.

use crate::commands::add::AddArgs;
use crate::commands::add::AddCommand;
use crate::commands::branch::BranchArgs;
use crate::commands::branch::BranchCommand;
use crate::commands::cat_file::CatFileArgs;
use crate::commands::cat_file::CatFileCommand;
use crate::commands::commit::CommitArgs;
use crate::commands::commit::CommitCommand;
use crate::commands::commit_tree::CommitTreeArgs;
use crate::commands::commit_tree::CommitTreeCommand;
use crate::commands::hash_object::HashObjectArgs;
use crate::commands::hash_object::HashObjectCommand;
use crate::commands::init::InitArgs;
use crate::commands::init::InitCommand;
use crate::commands::ls_files::LsFilesArgs;
use crate::commands::ls_files::LsFilesCommand;
use crate::commands::mv::MvArgs;
use crate::commands::mv::MvCommand;
use crate::commands::restore::RestoreArgs;
use crate::commands::restore::RestoreCommand;
use crate::commands::rm::RmArgs;
use crate::commands::rm::RmCommand;
use crate::commands::switch::SwitchArgs;
use crate::commands::switch::SwitchCommand;
use crate::commands::symbolic_ref::SymbolicRefArgs;
use crate::commands::symbolic_ref::SymbolicRefCommand;
use crate::commands::tag::TagArgs;
use crate::commands::tag::TagCommand;
use crate::commands::update_index::UpdateIndexArgs;
use crate::commands::update_index::UpdateIndexCommand;
use crate::commands::update_ref::UpdateRefArgs;
use crate::commands::update_ref::UpdateRefCommand;
use crate::commands::write_tree::WriteTreeArgs;
use crate::commands::write_tree::WriteTreeCommand;
use crate::error::RustGitError;
use crate::text::char_index;
use crate::text::find_char;
use vstd::prelude::*;
use vstd::string::*;

verus! {

/// The name and the value of a configuration setting given as
/// `name=value`: what stands before the first `=` and what stands after
/// it. A name alone is set to `true`.
pub fn parse_config_override(s: &str) -> (r: Result<(String, String), String>)
    ensures
        r matches Ok((name, value)) && (if char_index(s@, '=') < s@.len() {
            name@ == s@.take(char_index(s@, '=')) && value@ == s@.skip(char_index(s@, '=') + 1)
        } else {
            name@ == s@ && value@ == "true"@
        }),
{
    let n = s.unicode_len();
    let eq_idx = find_char(s, '=');
    if eq_idx < n {
        let name = s.substring_char(0, eq_idx).to_owned();
        let value = s.substring_char(eq_idx + 1, n).to_owned();
        assert(s@.subrange(0, eq_idx as int) =~= s@.take(eq_idx as int));
        assert(s@.subrange(eq_idx + 1, n as int) =~= s@.skip(eq_idx + 1));
        Ok((name, value))
    } else {
        Ok((s.to_owned(), "true".to_owned()))
    }
}

/// The name of a configuration setting and the environment variable that
/// holds its value, given as `name=variable`. Both the `=` and a variable
/// after it must be there.
pub fn parse_config_env(s: &str) -> (r: Result<(String, String), String>)
    ensures
        match r {
            Ok((name, variable)) => {
                &&& char_index(s@, '=') + 1 < s@.len()
                &&& name@ == s@.take(char_index(s@, '='))
                &&& variable@ == s@.skip(char_index(s@, '=') + 1)
            },
            Err(e) => if char_index(s@, '=') < s@.len() {
                char_index(s@, '=') + 1 == s@.len() && e@ == "Expected env_var in config-env"@
            } else {
                e@ == "Expected '=' in config-env"@
            },
        },
{
    let n = s.unicode_len();
    let eq_idx = find_char(s, '=');
    if eq_idx < n {
        if eq_idx + 1 == n {
            Err("Expected env_var in config-env".to_owned())
        } else {
            let name = s.substring_char(0, eq_idx).to_owned();
            let variable = s.substring_char(eq_idx + 1, n).to_owned();
            assert(s@.subrange(0, eq_idx as int) =~= s@.take(eq_idx as int));
            assert(s@.subrange(eq_idx + 1, n as int) =~= s@.skip(eq_idx + 1));
            Ok((name, variable))
        }
    } else {
        Err("Expected '=' in config-env".to_owned())
    }
}

/// A command with its arguments, as the command line names it.
#[derive(Debug, Clone, PartialEq, Eq)]
pub enum CliCommand {
    Init(InitArgs),
    Add(AddArgs),
    HashObject(HashObjectArgs),
    CatFile(CatFileArgs),
    UpdateIndex(UpdateIndexArgs),
    LsFiles(LsFilesArgs),
    Rm(RmArgs),
    Mv(MvArgs),
    Restore(RestoreArgs),
    WriteTree(WriteTreeArgs),
    CommitTree(CommitTreeArgs),
    UpdateRef(UpdateRefArgs),
    SymbolicRef(SymbolicRefArgs),
    Commit(CommitArgs),
    Branch(BranchArgs),
    Switch(SwitchArgs),
    Tag(TagArgs),
}

/// What the command line holds of interest to the commands.
#[derive(Debug, Clone, PartialEq, Eq)]
pub struct Cli {
    pub git_dir: Option<String>,
    pub work_tree: Option<String>,
    pub command: CliCommand,
}

/// A command that is ready to run.
#[derive(Debug, Clone, PartialEq, Eq)]
pub enum Command {
    Init(InitCommand),
    Add(AddCommand),
    HashObject(HashObjectCommand),
    CatFile(CatFileCommand),
    UpdateIndex(UpdateIndexCommand),
    LsFiles(LsFilesCommand),
    Rm(RmCommand),
    Mv(MvCommand),
    Restore(RestoreCommand),
    WriteTree(WriteTreeCommand),
    CommitTree(CommitTreeCommand),
    UpdateRef(UpdateRefCommand),
    SymbolicRef(SymbolicRefCommand),
    Commit(CommitCommand),
    Branch(BranchCommand),
    Switch(SwitchCommand),
    Tag(TagCommand),
}

/// The command that the command line asks for. It is the one of the named
/// subcommand, made of its arguments; only the repository directory and
/// the work tree are handed on, and only to `init`. Where the arguments do
/// not make a command, the failure is that of the subcommand.
pub fn from_cli(value: Cli) -> (r: Result<Command, RustGitError>)
    ensures
        match value.command {
            CliCommand::Init(args) => r matches Ok(Command::Init(c)) && c.args == args && c.git_dir
                == value.git_dir && c.git_work_tree == value.work_tree,
            CliCommand::Add(args) => r matches Ok(Command::Add(c)) && c.args == args,
            CliCommand::HashObject(args) => r matches Ok(Command::HashObject(c)) && c.args == args,
            CliCommand::CatFile(args) => match r {
                Ok(Command::CatFile(c)) => CatFileCommand::made(args, Ok(c)),
                Ok(_) => false,
                Err(e) => CatFileCommand::made(args, Err(e)),
            },
            CliCommand::UpdateIndex(args) => r matches Ok(Command::UpdateIndex(c)) && c.args
                == args,
            CliCommand::LsFiles(args) => r matches Ok(Command::LsFiles(c)) && c
                == LsFilesCommand::made(args),
            CliCommand::Rm(args) => r matches Ok(Command::Rm(c)) && c.args == args,
            CliCommand::Mv(args) => r matches Ok(Command::Mv(c)) && c.args == args,
            CliCommand::Restore(args) => r matches Ok(Command::Restore(c)) && c.args == args,
            CliCommand::WriteTree(_) => r matches Ok(Command::WriteTree(_)),
            CliCommand::CommitTree(args) => match r {
                Ok(Command::CommitTree(c)) => CommitTreeCommand::made(args, Ok(c)),
                Ok(_) => false,
                Err(e) => CommitTreeCommand::made(args, Err(e)),
            },
            CliCommand::UpdateRef(args) => r matches Ok(Command::UpdateRef(c)) && c.args == args,
            CliCommand::SymbolicRef(args) => r matches Ok(Command::SymbolicRef(c)) && c
                == SymbolicRefCommand::made(args),
            CliCommand::Commit(args) => match r {
                Ok(Command::Commit(c)) => CommitCommand::made(args, Ok(c)),
                Ok(_) => false,
                Err(e) => CommitCommand::made(args, Err(e)),
            },
            CliCommand::Branch(args) => match r {
                Ok(Command::Branch(c)) => BranchCommand::made(args, Ok(c)),
                Ok(_) => false,
                Err(e) => BranchCommand::made(args, Err(e)),
            },
            CliCommand::Switch(args) => r matches Ok(Command::Switch(c)) && c.branch == args.branch,
            CliCommand::Tag(args) => match r {
                Ok(Command::Tag(c)) => TagCommand::made(args, Ok(c)),
                Ok(_) => false,
                Err(e) => TagCommand::made(args, Err(e)),
            },
        },
{
    match value.command {
        CliCommand::Init(args) => Ok(
            Command::Init(InitCommand::new(args, value.git_dir, value.work_tree)),
        ),
        CliCommand::Add(args) => Ok(Command::Add(AddCommand::new(args))),
        CliCommand::HashObject(args) => Ok(Command::HashObject(HashObjectCommand::new(args))),
        CliCommand::CatFile(args) => match CatFileCommand::new(args) {
            Ok(c) => Ok(Command::CatFile(c)),
            Err(e) => Err(e),
        },
        CliCommand::UpdateIndex(args) => Ok(Command::UpdateIndex(UpdateIndexCommand::new(args))),
        CliCommand::LsFiles(args) => Ok(Command::LsFiles(LsFilesCommand::new(args))),
        CliCommand::Rm(args) => Ok(Command::Rm(RmCommand::new(args))),
        CliCommand::Mv(args) => Ok(Command::Mv(MvCommand::new(args))),
        CliCommand::Restore(args) => Ok(Command::Restore(RestoreCommand::new(args))),
        CliCommand::WriteTree(args) => Ok(Command::WriteTree(WriteTreeCommand::new(args))),
        CliCommand::CommitTree(args) => match CommitTreeCommand::new(args) {
            Ok(c) => Ok(Command::CommitTree(c)),
            Err(e) => Err(e),
        },
        CliCommand::UpdateRef(args) => Ok(Command::UpdateRef(UpdateRefCommand::new(args))),
        CliCommand::SymbolicRef(args) => Ok(Command::SymbolicRef(SymbolicRefCommand::new(args))),
        CliCommand::Commit(args) => match CommitCommand::new(args) {
            Ok(c) => Ok(Command::Commit(c)),
            Err(e) => Err(e),
        },
        CliCommand::Branch(args) => match BranchCommand::new(args) {
            Ok(c) => Ok(Command::Branch(c)),
            Err(e) => Err(e),
        },
        CliCommand::Switch(args) => Ok(Command::Switch(SwitchCommand::new(args))),
        CliCommand::Tag(args) => match TagCommand::new(args) {
            Ok(c) => Ok(Command::Tag(c)),
            Err(e) => Err(e),
        },
    }
}

} // verus!
