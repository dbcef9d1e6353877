//! Setting a reference, with or without a look at its old value.

use crate::bytes::starts_with;
use crate::error::GitErrorKind;
use crate::error::RustGitError;
use crate::path::joined;
use crate::refs::cas_allows;
use crate::refs::cas_text;
use crate::refs::held;
use crate::refs::opt_view;
use crate::refs::refs_prefix;
use crate::refs::RefWrite;
use crate::repo::GitRepo;
use crate::repo::invalid_ref_text;
use crate::text::opt_bytes;
use vstd::prelude::*;
use vstd::string::*;
use vstd::utf8::*;

verus! {

/// The arguments of the command.
#[derive(Debug, Clone, PartialEq, Eq)]
pub struct UpdateRefArgs {
    pub git_ref: String,
    pub new_value: String,
    pub old_value: Option<String>,
}

/// The command.
#[derive(Debug, Clone, PartialEq, Eq)]
pub struct UpdateRefCommand {
    pub args: UpdateRefArgs,
}

impl UpdateRefCommand {
    /// The command for the arguments.
    pub fn new(args: UpdateRefArgs) -> (cmd: UpdateRefCommand)
        ensures
            cmd.args == args,
    {
        UpdateRefCommand { args }
    }

    /// The write that sets the reference, given its current value if it
    /// has one. The reference must lie under `refs/`; where an old value
    /// is given it must be the current one, the empty value standing for a
    /// reference that does not exist.
    pub fn execute(&self, repo: &GitRepo, current: Option<&[u8]>) -> (r: Result<
        RefWrite,
        RustGitError,
    >)
        ensures
            match r {
                Ok(w) => {
                    &&& starts_with(encode_utf8(self.args.git_ref@), refs_prefix())
                    &&& cas_allows(opt_view(current), opt_bytes(self.args.old_value))
                    &&& w.path@ == joined(repo.refs.refs_dir@, encode_utf8(self.args.git_ref@).skip(5))
                    &&& w.value@ == encode_utf8(self.args.new_value@)
                },
                Err(e) => if !starts_with(encode_utf8(self.args.git_ref@), refs_prefix()) {
                    e.kind == GitErrorKind::InvalidName && e.says(
                        invalid_ref_text(encode_utf8(self.args.git_ref@)),
                    )
                } else {
                    !cas_allows(opt_view(current), opt_bytes(self.args.old_value)) && e.kind
                        == GitErrorKind::CasMismatch && e.says(
                        cas_text(
                            held(opt_view(current)),
                            encode_utf8(self.args.git_ref@).skip(5),
                            opt_bytes(self.args.old_value)->0,
                        ),
                    )
                },
            },
    {
        let old_value: Option<&[u8]> = match &self.args.old_value {
            Some(v) => Some(v.as_str().as_bytes()),
            None => None,
        };
        repo.update_ref(
            self.args.git_ref.as_str().as_bytes(),
            self.args.new_value.as_str().as_bytes(),
            old_value,
            current,
        )
    }
}

} // verus!
