//! Options that several commands share.

use crate::text::str_is;
use vstd::prelude::*;
use vstd::string::*;

verus! {

/// Whether the executable bit of a file is to be set or cleared.
#[derive(Debug, Clone, Copy, PartialEq, Eq, Structural)]
pub enum ChmodFlag {
    Executable,
    NonExecutable,
}

impl ChmodFlag {
    /// The flag that `+x` or `-x` names; any other text is refused.
    pub fn from_str(s: &str) -> (r: Result<ChmodFlag, String>)
        ensures
            match r {
                Ok(ChmodFlag::Executable) => s@ == "+x"@,
                Ok(ChmodFlag::NonExecutable) => s@ == "-x"@ && s@ != "+x"@,
                Err(e) => s@ != "+x"@ && s@ != "-x"@ && e@ == "chmod option '"@ + s@
                    + "' must be either -x or +x"@,
            },
    {
        if str_is(s, "+x") {
            Ok(ChmodFlag::Executable)
        } else if str_is(s, "-x") {
            Ok(ChmodFlag::NonExecutable)
        } else {
            Err("chmod option '".to_owned().concat(s).concat("' must be either -x or +x"))
        }
    }
}

} // verus!
