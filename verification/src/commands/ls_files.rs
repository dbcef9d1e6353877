//! Listing the entries of the index.

use crate::bytes::decimal;
use crate::bytes::to_decimal;
use crate::index::entry::EntryView;
use crate::index::entry::GitIndexEntry;
use crate::index::fields::mode_octal;
use crate::index::fields::stage_number;
use vstd::prelude::*;
use vstd::string::*;

verus! {

/// The arguments of the command.
#[derive(Debug, Clone, Copy, PartialEq, Eq, Structural)]
pub struct LsFilesArgs {
    pub cached: bool,
    pub deleted: bool,
    pub modified: bool,
    pub others: bool,
    pub ignored: bool,
    pub stage: bool,
    pub debug: bool,
}

/// The command.
#[derive(Debug, Clone, Copy, PartialEq, Eq, Structural)]
pub struct LsFilesCommand {
    pub args: LsFilesArgs,
}

/// What precedes the path where the stage is shown: the mode, the id, the
/// number of the stage, a tab.
pub open spec fn stage_columns(e: EntryView) -> Seq<u8> {
    mode_octal(e.mode) + seq![0x20u8] + e.name + seq![0x20u8] + decimal(
        stage_number(e.flags.stage) as nat,
    ) + seq![0x09u8]
}

/// A label and a number after it.
pub open spec fn field(label: Seq<u8>, n: nat) -> Seq<u8> {
    label + decimal(n)
}

/// The lines that show the state of the file as it was recorded.
pub open spec fn debug_lines(e: EntryView) -> Seq<u8> {
    field("  ctime: ".spec_bytes(), e.last_metadata_update.seconds as nat) + field(
        ":".spec_bytes(),
        e.last_metadata_update.nanoseconds as nat,
    ) + field("\n  mtime: ".spec_bytes(), e.last_data_update.seconds as nat) + field(
        ":".spec_bytes(),
        e.last_data_update.nanoseconds as nat,
    ) + field("\n  dev: ".spec_bytes(), e.dev as nat) + field("\tino: ".spec_bytes(), e.ino as nat)
        + field("\n  uid: ".spec_bytes(), e.uid as nat) + field("\tgid: ".spec_bytes(), e.gid as nat)
        + field("\n  size: ".spec_bytes(), e.file_size as nat) + "\tflags: 0\n".spec_bytes()
}

/// What is printed for an entry: its path on a line, after the stage
/// columns where the stage is shown, and followed by the debug lines where
/// they are asked for.
pub open spec fn entry_text(args: LsFilesArgs, e: EntryView) -> Seq<u8> {
    if args.cached || args.stage {
        (if args.stage {
            stage_columns(e)
        } else {
            Seq::<u8>::empty()
        }) + e.path_name + seq![0x0au8] + (if args.debug {
            debug_lines(e)
        } else {
            Seq::<u8>::empty()
        })
    } else {
        Seq::empty()
    }
}

/// Appends a label and a number to what was shown after the line so far.
fn push_field(out: &mut Vec<u8>, label: &str, n: u32, Ghost(line): Ghost<Seq<u8>>, Ghost(shown): Ghost<
    Seq<u8>,
>)
    requires
        old(out)@ == line + shown,
    ensures
        final(out)@ == line + (shown + field(label.spec_bytes(), n as nat)),
{
    out.extend_from_slice(label.as_bytes());
    let digits = to_decimal(n as u128);
    out.extend_from_slice(digits.as_slice());
    assert(out@ =~= line + (shown + field(label.spec_bytes(), n as nat)));
}

impl LsFilesCommand {
    /// The command that the arguments make: where the stage is not asked
    /// for, the cached files are shown.
    pub open spec fn made(args: LsFilesArgs) -> LsFilesCommand {
        LsFilesCommand {
            args: if !args.stage {
                LsFilesArgs { cached: true, ..args }
            } else {
                args
            },
        }
    }

    /// The command for the arguments.
    pub fn new(args: LsFilesArgs) -> (cmd: LsFilesCommand)
        ensures
            cmd == Self::made(args),
    {
        if !args.stage {
            LsFilesCommand {
                args: LsFilesArgs {
                    cached: true,
                    deleted: args.deleted,
                    modified: args.modified,
                    others: args.others,
                    ignored: args.ignored,
                    stage: args.stage,
                    debug: args.debug,
                },
            }
        } else {
            LsFilesCommand { args }
        }
    }

    /// What is printed for an entry.
    pub fn execute(&self, index_entry: &GitIndexEntry) -> (v: Vec<u8>)
        ensures
            v@ == entry_text(self.args, index_entry@),
    {
        let mut v: Vec<u8> = Vec::new();
        if self.args.cached || self.args.stage {
            if self.args.stage {
                v.extend_from_slice(index_entry.mode.octal());
                v.push(0x20);
                v.extend_from_slice(index_entry.name.as_bytes());
                v.push(0x20);
                let stage = to_decimal(index_entry.flags.stage.number() as u128);
                v.extend_from_slice(stage.as_slice());
                v.push(0x09);
                assert(v@ =~= stage_columns(index_entry@));
            }
            let ghost head = v@;
            v.extend_from_slice(index_entry.path_name.as_slice());
            v.push(0x0a);
            let ghost line = v@;
            assert(line =~= head + index_entry@.path_name + seq![0x0au8]);
            if self.args.debug {
                let ghost mut shown = Seq::<u8>::empty();
                assert(v@ =~= line + shown);
                let e = index_entry;
                push_field(&mut v, "  ctime: ", e.last_metadata_update.seconds, Ghost(line), Ghost(shown));
                proof {
                    shown = shown + field("  ctime: ".spec_bytes(), e.last_metadata_update.seconds as nat);
                }
                push_field(&mut v, ":", e.last_metadata_update.nanoseconds, Ghost(line), Ghost(shown));
                proof {
                    shown = shown + field(":".spec_bytes(), e.last_metadata_update.nanoseconds as nat);
                }
                push_field(&mut v, "\n  mtime: ", e.last_data_update.seconds, Ghost(line), Ghost(shown));
                proof {
                    shown = shown + field("\n  mtime: ".spec_bytes(), e.last_data_update.seconds as nat);
                }
                push_field(&mut v, ":", e.last_data_update.nanoseconds, Ghost(line), Ghost(shown));
                proof {
                    shown = shown + field(":".spec_bytes(), e.last_data_update.nanoseconds as nat);
                }
                push_field(&mut v, "\n  dev: ", e.dev, Ghost(line), Ghost(shown));
                proof {
                    shown = shown + field("\n  dev: ".spec_bytes(), e.dev as nat);
                }
                push_field(&mut v, "\tino: ", e.ino, Ghost(line), Ghost(shown));
                proof {
                    shown = shown + field("\tino: ".spec_bytes(), e.ino as nat);
                }
                push_field(&mut v, "\n  uid: ", e.uid, Ghost(line), Ghost(shown));
                proof {
                    shown = shown + field("\n  uid: ".spec_bytes(), e.uid as nat);
                }
                push_field(&mut v, "\tgid: ", e.gid, Ghost(line), Ghost(shown));
                proof {
                    shown = shown + field("\tgid: ".spec_bytes(), e.gid as nat);
                }
                push_field(&mut v, "\n  size: ", e.file_size, Ghost(line), Ghost(shown));
                proof {
                    shown = shown + field("\n  size: ".spec_bytes(), e.file_size as nat);
                }
                v.extend_from_slice("\tflags: 0\n".as_bytes());
                assert(v@ =~= line + (shown + "\tflags: 0\n".spec_bytes()));
                assert(shown + "\tflags: 0\n".spec_bytes() == debug_lines(index_entry@));
            } else {
                assert(v@ =~= line + Seq::<u8>::empty());
            }
        }
        v
    }
}

} // verus!
