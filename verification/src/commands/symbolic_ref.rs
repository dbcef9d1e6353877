//! Reading, setting and deleting symbolic references.

use crate::bytes::has_prefix;
use crate::bytes::starts_with;
use crate::bytes::to_vec;
use crate::error::GitErrorKind;
use crate::error::RustGitError;
use crate::refs::heads_prefix;
use crate::refs::heads_prefix_bytes;
use crate::refs::SymbolicRef;
use vstd::prelude::*;
use vstd::string::*;
use vstd::utf8::*;

verus! {

/// The arguments of the command.
#[derive(Debug, Clone, PartialEq, Eq)]
pub struct SymbolicRefArgs {
    pub ref_name: String,
    pub new_value: Option<String>,
    pub delete: bool,
    pub quiet: bool,
    pub short: bool,
}

/// The reference of this name is read.
#[derive(Debug, Clone, PartialEq, Eq)]
pub struct ReadSymbolicRef {
    pub ref_name: String,
    pub quiet: bool,
    pub short: bool,
}

/// The reference of this name is pointed at another.
#[derive(Debug, Clone, PartialEq, Eq)]
pub struct UpdateSymbolicRef {
    pub ref_name: String,
    pub new_value: String,
}

/// The reference of this name is deleted.
#[derive(Debug, Clone, PartialEq, Eq)]
pub struct DeleteSymbolicRef {
    pub ref_name: String,
    pub quiet: bool,
}

/// The command.
#[derive(Debug, Clone, PartialEq, Eq)]
pub enum SymbolicRefCommand {
    ReadSymbolicRef(ReadSymbolicRef),
    UpdateSymbolicRef(UpdateSymbolicRef),
    DeleteSymbolicRef(DeleteSymbolicRef),
}

/// `no symbolic-ref '`
pub open spec fn text_no_symbolic_ref() -> Seq<u8> {
    "no symbolic-ref '".spec_bytes()
}

/// What reading a symbolic reference prints, given what the reference
/// says: its target as it is, or where the short form is asked for the
/// target without `refs/heads/` as a line. Of a detached reference it is
/// said that it is, or where quiet is asked for the command fails instead.
/// Of a reference that does not exist it is said that there is none.
pub open spec fn read_output(
    name: Seq<u8>,
    quiet: bool,
    short: bool,
    value: Option<SymbolicRef>,
) -> Result<Seq<u8>, GitErrorKind> {
    match value {
        None => Ok(text_no_symbolic_ref() + name + seq![0x27u8, 0x0au8]),
        Some(SymbolicRef::Detached(_)) => if quiet {
            Err(GitErrorKind::DetachedHead)
        } else {
            Ok("HEAD is in detatched state\n".spec_bytes())
        },
        Some(SymbolicRef::Ref(target)) => if !short {
            Ok(target@)
        } else if starts_with(target@, heads_prefix()) {
            Ok(target@.skip(11) + seq![0x0au8])
        } else {
            Ok(target@ + seq![0x0au8])
        },
    }
}

impl SymbolicRefCommand {
    /// The command that the arguments make: with a new value the
    /// reference is set, else with `delete` it is deleted, else it is read.
    pub open spec fn made(args: SymbolicRefArgs) -> SymbolicRefCommand {
        match args.new_value {
            Some(new_value) => SymbolicRefCommand::UpdateSymbolicRef(
                UpdateSymbolicRef { ref_name: args.ref_name, new_value },
            ),
            None => if args.delete {
                SymbolicRefCommand::DeleteSymbolicRef(
                    DeleteSymbolicRef { ref_name: args.ref_name, quiet: args.quiet },
                )
            } else {
                SymbolicRefCommand::ReadSymbolicRef(
                    ReadSymbolicRef { ref_name: args.ref_name, quiet: args.quiet, short: args.short },
                )
            },
        }
    }

    /// The command for the arguments.
    pub fn new(args: SymbolicRefArgs) -> (cmd: SymbolicRefCommand)
        ensures
            cmd == Self::made(args),
    {
        if let Some(new_value) = args.new_value {
            return SymbolicRefCommand::UpdateSymbolicRef(
                UpdateSymbolicRef { ref_name: args.ref_name, new_value },
            );
        }
        if args.delete {
            return SymbolicRefCommand::DeleteSymbolicRef(
                DeleteSymbolicRef { ref_name: args.ref_name, quiet: args.quiet },
            );
        }
        SymbolicRefCommand::ReadSymbolicRef(
            ReadSymbolicRef { ref_name: args.ref_name, quiet: args.quiet, short: args.short },
        )
    }
}

impl ReadSymbolicRef {
    /// What reading the reference prints, given what the reference says.
    pub fn execute(&self, value: Option<SymbolicRef>) -> (r: Result<Vec<u8>, RustGitError>)
        ensures
            match r {
                Ok(text) => read_output(encode_utf8(self.ref_name@), self.quiet, self.short, value)
                    == Ok::<_, GitErrorKind>(text@),
                Err(e) => read_output(encode_utf8(self.ref_name@), self.quiet, self.short, value)
                    == Err::<Seq<u8>, _>(e.kind) && e.error@ == ""@,
            },
    {
        match value {
            None => {
                let mut text = to_vec("no symbolic-ref '".as_bytes());
                text.extend_from_slice(self.ref_name.as_str().as_bytes());
                text.push(0x27);
                text.push(0x0a);
                assert(text@ =~= text_no_symbolic_ref() + encode_utf8(self.ref_name@) + seq![
                    0x27u8,
                    0x0au8,
                ]);
                Ok(text)
            },
            Some(SymbolicRef::Detached(_)) => {
                if self.quiet {
                    Err(RustGitError::with_kind(GitErrorKind::DetachedHead, ""))
                } else {
                    Ok(to_vec("HEAD is in detatched state\n".as_bytes()))
                }
            },
            Some(SymbolicRef::Ref(target)) => {
                if !self.short {
                    return Ok(target);
                }
                let shown: &[u8] = if has_prefix(
                    target.as_slice(),
                    heads_prefix_bytes(),
                ) {
                    let all = target.as_slice();
                    let rest = &all[11..all.len()];
                    assert(rest@ =~= target@.skip(11));
                    rest
                } else {
                    target.as_slice()
                };
                let mut text = to_vec(shown);
                text.push(0x0a);
                assert(text@ =~= shown@ + seq![0x0au8]);
                Ok(text)
            },
        }
    }
}

} // verus!
