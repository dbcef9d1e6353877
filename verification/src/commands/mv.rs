//! Moving and renaming files and directories.

use crate::bytes::bytes_eq;
use crate::bytes::to_vec;
use crate::error::GitErrorKind;
use crate::error::RustGitError;
use crate::index::GitIndex;
use crate::index::entries_under;
use crate::index::entry::EntryView;
use crate::index::fields::stage_number;
use crate::index::lemma_under_length;
use crate::index::rank;
use crate::index::refs_view;
use crate::index::renamed;
use crate::index::sorted;
use crate::path::GitRepoPath;
use crate::path::moved_into;
use crate::repo::FileKind;
use vstd::prelude::*;
use vstd::string::*;

verus! {

/// The arguments of the command.
#[derive(Debug, Clone, PartialEq, Eq)]
pub struct MvArgs {
    /// The sources, then the destination.
    pub files: Vec<String>,
    /// Overwrite a file at the destination.
    pub force: bool,
    /// Pass over sources that cannot be moved.
    pub skip: bool,
    /// Say what would be done, and do nothing.
    pub dry_run: bool,
    /// Say what is done.
    pub verbose: bool,
}

/// The command.
#[derive(Debug, Clone, PartialEq, Eq)]
pub struct MvCommand {
    pub args: MvArgs,
}

/// One step of a move.
#[derive(Debug, Clone, PartialEq, Eq)]
pub struct MvAction {
    pub source: GitRepoPath,
    pub destination: GitRepoPath,
    /// The entry of the source in the index gets the path of the
    /// destination.
    pub update_index: bool,
    /// The source is renamed in the working directory.
    pub update_working_dir: bool,
}

/// The mathematical value of a step.
pub struct MvActionView {
    pub source: Seq<u8>,
    pub destination: Seq<u8>,
    pub update_index: bool,
    pub update_working_dir: bool,
}

impl View for MvAction {
    type V = MvActionView;

    open spec fn view(&self) -> MvActionView {
        MvActionView {
            source: self.source@,
            destination: self.destination@,
            update_index: self.update_index,
            update_working_dir: self.update_working_dir,
        }
    }
}

/// What lies at the destination of a move.
#[derive(Debug, Clone, Copy, PartialEq, Eq, Structural)]
pub enum DestinationType {
    ExistingDirectory,
    ExistingFile,
    MissingFile,
    MissingDirectory,
}

/// Why a source cannot be moved.
#[derive(Debug, Clone, Copy, PartialEq, Eq, Structural)]
pub enum MvRefusal {
    /// The source is the directory it would be moved into.
    IntoItself,
    /// A directory would be moved over a file.
    DestinationExists,
    /// The source is a directory without a file in the index.
    SourceDirectoryEmpty,
    /// The entry of the source is in conflict.
    Conflicted,
    /// There is a file at the destination, or the source is no file.
    CannotOverwrite,
    /// The destination names a directory that does not exist.
    DestinationDirectoryMissing,
    /// The source exists and is not in the index.
    NotUnderVersionControl,
    /// The source exists only in the index, and so does the destination.
    DestinationInIndex,
    /// The source exists neither in the working directory nor in the index.
    BadSource,
}

/// The values of a list of steps.
pub open spec fn actions_view(actions: Seq<MvAction>) -> Seq<MvActionView> {
    Seq::new(actions.len(), |i: int| actions[i]@)
}

/// An entry of the index has the given path.
pub open spec fn is_in_index(es: Seq<EntryView>, path: Seq<u8>) -> bool {
    exists|i: int| 0 <= i < es.len() && (#[trigger] es[i]).path_name == path
}

/// What lies at a destination of the given spelling, given the kind of
/// what is there, if anything is.
pub open spec fn destination_type(destination_str: Seq<u8>, dest_kind: Option<FileKind>) -> DestinationType {
    match dest_kind {
        Some(FileKind::Directory) => DestinationType::ExistingDirectory,
        Some(_) => DestinationType::ExistingFile,
        None => if destination_str.len() > 0 && destination_str.last() == 0x2f {
            DestinationType::MissingDirectory
        } else {
            DestinationType::MissingFile
        },
    }
}

/// Where the source ends up: in the destination, under its own last part,
/// where the destination is a directory or there are several sources; else
/// at the destination.
pub open spec fn full_destination(
    source: Seq<u8>,
    destination: Seq<u8>,
    t: DestinationType,
    several: bool,
) -> Seq<u8> {
    if several || t == DestinationType::ExistingDirectory {
        moved_into(source, destination)
    } else {
        destination
    }
}

/// The command has several sources: more than two files are named.
pub open spec fn several_sources(args: MvArgs) -> bool {
    args.files@.len() > 2
}

/// Where a path under the directory `source` lies once that directory is
/// at `target`: as far below `target` as it was below `source`.
pub open spec fn moved_under(path: Seq<u8>, source: Seq<u8>, target: Seq<u8>) -> Seq<u8> {
    if path == source {
        target
    } else if source.len() == 0 {
        target + seq![0x2fu8] + path
    } else {
        target + path.skip(source.len() as int)
    }
}

/// The steps that move the files in the index `under` the directory `source`
/// along with it.
pub open spec fn entry_actions(under: Seq<EntryView>, source: Seq<u8>, target: Seq<u8>) -> Seq<
    MvActionView,
> {
    Seq::new(
        under.len(),
        |i: int|
            MvActionView {
                source: under[i].path_name,
                destination: moved_under(under[i].path_name, source, target),
                update_index: true,
                update_working_dir: false,
            },
    )
}

/// The step that moves the source itself, in the index and in the working
/// directory.
pub open spec fn whole_move(source: Seq<u8>, target: Seq<u8>) -> Seq<MvActionView> {
    seq![
        MvActionView {
            source,
            destination: target,
            update_index: true,
            update_working_dir: true,
        },
    ]
}

/// What moving `source` to `destination` takes, or why it cannot be done.
///
/// With several sources, or with a directory at the destination, the
/// source goes into the destination under its own last part; else it goes
/// to the destination itself.
///
/// A source that exists in the working directory: it cannot be moved into
/// itself, nor a directory over a file. A directory is renamed as a whole,
/// and the entries of the files in the index under it are renamed with it; it
/// needs at least one. Any other source must be in the index at stage 0,
/// and is moved in both places: into a directory at the destination, to a
/// destination where nothing is, or with `force` over a file there.
///
/// A source that exists only in the index is renamed there, unless the
/// destination is in the index too and `force` is not given.
pub open spec fn check_source_spec(
    force: bool,
    several: bool,
    es: Seq<EntryView>,
    source: Seq<u8>,
    destination: Seq<u8>,
    destination_str: Seq<u8>,
    source_kind: Option<FileKind>,
    dest_kind: Option<FileKind>,
) -> Result<Seq<MvActionView>, MvRefusal> {
    let t = destination_type(destination_str, dest_kind);
    let target = full_destination(source, destination, t, several);
    let under = entries_under(es, source);
    let at = rank(es, source, 0);
    match source_kind {
        None => if !is_in_index(es, source) {
            Err(MvRefusal::BadSource)
        } else if is_in_index(es, destination) && !force {
            Err(MvRefusal::DestinationInIndex)
        } else {
            Ok(
                seq![
                    MvActionView {
                        source,
                        destination,
                        update_index: true,
                        update_working_dir: false,
                    },
                ],
            )
        },
        Some(kind) => if source == destination && dest_kind == Some(FileKind::Directory) {
            Err(MvRefusal::IntoItself)
        } else if kind == FileKind::Directory && dest_kind == Some(FileKind::File) {
            Err(MvRefusal::DestinationExists)
        } else if kind == FileKind::Directory {
            if under.len() == 0 {
                Err(MvRefusal::SourceDirectoryEmpty)
            } else {
                Ok(
                    seq![
                        MvActionView {
                            source,
                            destination: target,
                            update_index: false,
                            update_working_dir: true,
                        },
                    ] + entry_actions(under, source, target),
                )
            }
        } else if !is_in_index(es, source) {
            Err(MvRefusal::NotUnderVersionControl)
        } else if stage_number(es[at].flags.stage) != 0 {
            Err(MvRefusal::Conflicted)
        } else {
            match t {
                DestinationType::ExistingDirectory => Ok(whole_move(source, target)),
                DestinationType::MissingFile => Ok(whole_move(source, target)),
                DestinationType::MissingDirectory => Err(MvRefusal::DestinationDirectoryMissing),
                DestinationType::ExistingFile => if force && (kind == FileKind::File || kind
                    == FileKind::Symlink) {
                    Ok(whole_move(source, target))
                } else {
                    Err(MvRefusal::CannotOverwrite)
                },
            }
        },
    }
}

/// The refusal in words, as bytes.
pub open spec fn refusal_words(refusal: MvRefusal) -> Seq<u8> {
    match refusal {
        MvRefusal::IntoItself => "can not move directory into itself".spec_bytes(),
        MvRefusal::DestinationExists => "destination already exists".spec_bytes(),
        MvRefusal::SourceDirectoryEmpty => "source directory is empty".spec_bytes(),
        MvRefusal::Conflicted => "conflicted".spec_bytes(),
        MvRefusal::CannotOverwrite => "cannot overwrite".spec_bytes(),
        MvRefusal::DestinationDirectoryMissing => "destination directory does not exist".spec_bytes(),
        MvRefusal::NotUnderVersionControl => "not under version control".spec_bytes(),
        MvRefusal::DestinationInIndex => "destination exists".spec_bytes(),
        MvRefusal::BadSource => "bad source".spec_bytes(),
    }
}

/// The refusal in words, `, source="`, the source, `", destination="`, the
/// destination, `"`
pub open spec fn refusal_text(refusal: MvRefusal, source: Seq<u8>, destination: Seq<u8>) -> Seq<u8> {
    refusal_words(refusal) + ", source=\"".spec_bytes() + source + "\", destination=\"".spec_bytes()
        + destination + "\"".spec_bytes()
}

/// `renaming "`, the path, `" failed`
pub open spec fn rename_failed_text(path: Seq<u8>) -> Seq<u8> {
    "renaming \"".spec_bytes() + path + "\" failed".spec_bytes()
}

impl MvRefusal {
    /// The refusal in words.
    pub fn message(&self) -> (s: &'static str)
        ensures
            s.spec_bytes() == refusal_words(*self),
            s@ == (match *self {
                MvRefusal::IntoItself => "can not move directory into itself"@,
                MvRefusal::DestinationExists => "destination already exists"@,
                MvRefusal::SourceDirectoryEmpty => "source directory is empty"@,
                MvRefusal::Conflicted => "conflicted"@,
                MvRefusal::CannotOverwrite => "cannot overwrite"@,
                MvRefusal::DestinationDirectoryMissing => "destination directory does not exist"@,
                MvRefusal::NotUnderVersionControl => "not under version control"@,
                MvRefusal::DestinationInIndex => "destination exists"@,
                MvRefusal::BadSource => "bad source"@,
            }),
    {
        match self {
            MvRefusal::IntoItself => "can not move directory into itself",
            MvRefusal::DestinationExists => "destination already exists",
            MvRefusal::SourceDirectoryEmpty => "source directory is empty",
            MvRefusal::Conflicted => "conflicted",
            MvRefusal::CannotOverwrite => "cannot overwrite",
            MvRefusal::DestinationDirectoryMissing => "destination directory does not exist",
            MvRefusal::NotUnderVersionControl => "not under version control",
            MvRefusal::DestinationInIndex => "destination exists",
            MvRefusal::BadSource => "bad source",
        }
    }
}

/// The sources and the destination among the arguments: the last argument
/// is the destination, and there must be a source before it.
pub fn get_src_and_dst(files: &Vec<String>) -> (r: Result<(&[String], &String), RustGitError>)
    ensures
        match r {
            Ok((sources, destination)) => {
                &&& files@.len() >= 2
                &&& sources@ == files@.subrange(0, files@.len() - 1)
                &&& *destination == files@.last()
            },
            Err(e) => files@.len() < 2 && e.kind == GitErrorKind::Usage && e.error@ == (if files@.len()
                == 0 {
                "mv expects at least 2 inputs, got 0"@
            } else {
                "mv expects at least 2 inputs, got 1"@
            }),
        },
{
    let n = files.len();
    if n == 0 {
        return Err(RustGitError::with_kind(GitErrorKind::Usage, "mv expects at least 2 inputs, got 0"));
    }
    if n == 1 {
        return Err(RustGitError::with_kind(GitErrorKind::Usage, "mv expects at least 2 inputs, got 1"));
    }
    let all = files.as_slice();
    Ok((&all[0..n - 1], &files[n - 1]))
}

/// Where a path under the directory `source` lies once that directory is
/// at `target`.
pub fn move_under(path: &[u8], source: &[u8], target: &[u8]) -> (v: Vec<u8>)
    requires
        path@.len() >= source@.len(),
    ensures
        v@ == moved_under(path@, source@, target@),
{
    let mut v = to_vec(target);
    if bytes_eq(path, source) {
        return v;
    }
    if source.len() == 0 {
        v.push(0x2f);
        v.extend_from_slice(path);
    } else {
        v.extend_from_slice(&path[source.len()..path.len()]);
        assert(v@ =~= target@ + path@.skip(source@.len() as int));
    }
    v
}

/// Checks that `source` can be moved to `destination`, given the kind of
/// what lies at each in the working directory (`None` where nothing does),
/// and says what the move takes.
pub fn check_source(
    cmd: &MvCommand,
    index: &GitIndex,
    source: GitRepoPath,
    destination: GitRepoPath,
    destination_str: &[u8],
    source_kind: Option<FileKind>,
    dest_kind: Option<FileKind>,
) -> (r: Result<Vec<MvAction>, MvRefusal>)
    requires
        sorted(index@.entries),
    ensures
        match r {
            Ok(actions) => check_source_spec(
                cmd.args.force,
                several_sources(cmd.args),
                index@.entries,
                source@,
                destination@,
                destination_str@,
                source_kind,
                dest_kind,
            ) == Ok::<_, MvRefusal>(actions_view(actions@)),
            Err(refusal) => check_source_spec(
                cmd.args.force,
                several_sources(cmd.args),
                index@.entries,
                source@,
                destination@,
                destination_str@,
                source_kind,
                dest_kind,
            ) == Err::<Seq<MvActionView>, _>(refusal),
        },
{
    let ghost es = index@.entries;
    let in_index = index.entry_by_path(source.as_bytes());
    proof {
        match in_index {
            Some((at, _)) => {
                assert(es[at as int].path_name == source@);
            },
            None => {},
        }
    }
    let kind = match source_kind {
        Some(kind) => kind,
        None => {
            if in_index.is_none() {
                return Err(MvRefusal::BadSource);
            }
            let dest_in_index = index.entry_by_path(destination.as_bytes());
            proof {
                match dest_in_index {
                    Some((at, _)) => {
                        assert(es[at as int].path_name == destination@);
                    },
                    None => {},
                }
            }
            if dest_in_index.is_some() && !cmd.args.force {
                return Err(MvRefusal::DestinationInIndex);
            }
            let mut actions: Vec<MvAction> = Vec::new();
            actions.push(
                MvAction { source, destination, update_index: true, update_working_dir: false },
            );
            assert(actions_view(actions@) =~= seq![
                MvActionView {
                    source: source@,
                    destination: destination@,
                    update_index: true,
                    update_working_dir: false,
                },
            ]);
            return Ok(actions);
        },
    };
    let dest_is_dir = match dest_kind {
        Some(FileKind::Directory) => true,
        _ => false,
    };
    let dest_is_file = match dest_kind {
        Some(FileKind::File) => true,
        _ => false,
    };
    let source_is_dir = match kind {
        FileKind::Directory => true,
        _ => false,
    };
    if dest_is_dir && bytes_eq(source.as_bytes(), destination.as_bytes()) {
        return Err(MvRefusal::IntoItself);
    }
    if source_is_dir && dest_is_file {
        return Err(MvRefusal::DestinationExists);
    }
    let t = match dest_kind {
        Some(FileKind::Directory) => DestinationType::ExistingDirectory,
        Some(_) => DestinationType::ExistingFile,
        None => {
            let n = destination_str.len();
            if n > 0 && destination_str[n - 1] == 0x2f {
                DestinationType::MissingDirectory
            } else {
                DestinationType::MissingFile
            }
        },
    };
    assert(t == destination_type(destination_str@, dest_kind));
    let several = cmd.args.files.len() > 2;
    let into_directory = several || (match t {
        DestinationType::ExistingDirectory => true,
        _ => false,
    });
    let target = if into_directory {
        source.as_moved_file(&destination)
    } else {
        destination
    };
    assert(target@ == full_destination(source@, destination@, t, several));
    if source_is_dir {
        let matching = index.entry_range_by_path(source.as_bytes());
        let ghost under = entries_under(es, source@);
        if matching.len() == 0 {
            assert(refs_view(matching@).len() == 0);
            return Err(MvRefusal::SourceDirectoryEmpty);
        }
        assert(refs_view(matching@).len() == matching@.len());
        let mut actions: Vec<MvAction> = Vec::new();
        let ghost first = MvActionView {
            source: source@,
            destination: target@,
            update_index: false,
            update_working_dir: true,
        };
        let source_len = source.as_bytes().len();
        let mut i: usize = 0;
        let n = matching.len();
        proof {
            lemma_under_length(es, source@);
        }
        let ghost steps = entry_actions(under, source@, target@);
        let mut moves: Vec<MvAction> = Vec::new();
        assert(actions_view(moves@) =~= steps.take(0));
        while i < n
            invariant
                i <= n,
                n == matching@.len(),
                under == refs_view(matching@),
                steps == entry_actions(under, source@, target@),
                actions_view(moves@) == steps.take(i as int),
                forall|k: int| 0 <= k < under.len() ==> (#[trigger] under[k]).path_name.len()
                    >= source@.len(),
            decreases n - i,
        {
            let entry = matching[i];
            let ghost so_far = actions_view(moves@);
            assert(under[i as int] == entry@);
            let new_destination = move_under(
                entry.path_name.as_slice(),
                source.as_bytes(),
                target.as_bytes(),
            );
            moves.push(
                MvAction {
                    source: GitRepoPath(entry.path_name.clone()),
                    destination: GitRepoPath(new_destination),
                    update_index: true,
                    update_working_dir: false,
                },
            );
            assert(actions_view(moves@) =~= so_far.push(steps[i as int]));
            assert(steps.take(i + 1) =~= so_far.push(steps[i as int]));
            i += 1;
        }
        assert(steps.take(n as int) =~= steps);
        actions.push(
            MvAction { source, destination: target, update_index: false, update_working_dir: true },
        );
        let ghost head = actions_view(actions@);
        assert(head =~= seq![first]);
        actions.append(&mut moves);
        assert(actions_view(actions@) =~= seq![first] + steps);
        return Ok(actions);
    }
    let source_index_entry = match in_index {
        Some((_, entry)) => entry,
        None => {
            return Err(MvRefusal::NotUnderVersionControl);
        },
    };
    if source_index_entry.flags.stage.number() != 0 {
        return Err(MvRefusal::Conflicted);
    }
    let allowed = match t {
        DestinationType::ExistingDirectory => true,
        DestinationType::MissingFile => true,
        DestinationType::MissingDirectory => {
            return Err(MvRefusal::DestinationDirectoryMissing);
        },
        DestinationType::ExistingFile => {
            let source_is_file = match kind {
                FileKind::File => true,
                FileKind::Symlink => true,
                _ => false,
            };
            cmd.args.force && source_is_file
        },
    };
    if !allowed {
        return Err(MvRefusal::CannotOverwrite);
    }
    let mut actions: Vec<MvAction> = Vec::new();
    actions.push(
        MvAction { source, destination: target, update_index: true, update_working_dir: true },
    );
    assert(actions_view(actions@) =~= whole_move(source@, target@));
    Ok(actions)
}

/// What is to be done for one step of a move.
#[derive(Debug, Clone, Copy, PartialEq, Eq, Structural)]
pub struct MvStep {
    /// Say that the source is renamed to the destination.
    pub announce: bool,
    /// Rename the source in the working directory.
    pub rename_file: bool,
    /// Rename the entry in the index afterwards.
    pub rename_entry: bool,
}

impl MvCommand {
    /// The command for the arguments.
    pub fn new(args: MvArgs) -> (cmd: MvCommand)
        ensures
            cmd.args == args,
    {
        MvCommand { args }
    }

    /// What a source that cannot be moved means for the command: with
    /// `skip` the source is passed over, else the command fails and says
    /// why, with the source and the destination as they were given.
    pub fn on_refusal(&self, refusal: MvRefusal, source: &[u8], destination: &[u8]) -> (r: Result<
        (),
        RustGitError,
    >)
        ensures
            match r {
                Ok(()) => self.args.skip,
                Err(e) => !self.args.skip && e.kind == (if refusal == MvRefusal::Conflicted {
                    GitErrorKind::Conflicted
                } else if refusal == MvRefusal::BadSource || refusal
                    == MvRefusal::NotUnderVersionControl || refusal
                    == MvRefusal::SourceDirectoryEmpty {
                    GitErrorKind::NoMatches
                } else {
                    GitErrorKind::MoveRefused
                }) && e.says(refusal_text(refusal, source@, destination@)),
            },
    {
        if self.args.skip {
            return Ok(());
        }
        let kind = match refusal {
            MvRefusal::Conflicted => GitErrorKind::Conflicted,
            MvRefusal::BadSource => GitErrorKind::NoMatches,
            MvRefusal::NotUnderVersionControl => GitErrorKind::NoMatches,
            MvRefusal::SourceDirectoryEmpty => GitErrorKind::NoMatches,
            _ => GitErrorKind::MoveRefused,
        };
        let mut text: Vec<u8> = Vec::new();
        text.extend_from_slice(refusal.message().as_bytes());
        text.extend_from_slice(", source=\"".as_bytes());
        text.extend_from_slice(source);
        text.extend_from_slice("\", destination=\"".as_bytes());
        text.extend_from_slice(destination);
        text.extend_from_slice("\"".as_bytes());
        assert(text@ =~= refusal_text(refusal, source@, destination@));
        Err(RustGitError::from_text(kind, text.as_slice()))
    }

    /// What is to be done for a step: it is announced in a dry run and
    /// where the command is verbose, and carried out unless the run is dry.
    pub fn begin(&self, action: &MvAction) -> (step: MvStep)
        ensures
            step.announce == (self.args.dry_run || self.args.verbose),
            step.rename_file == (!self.args.dry_run && action.update_working_dir),
            step.rename_entry == (!self.args.dry_run && action.update_index),
    {
        MvStep {
            announce: self.args.dry_run || self.args.verbose,
            rename_file: !self.args.dry_run && action.update_working_dir,
            rename_entry: !self.args.dry_run && action.update_index,
        }
    }

    /// Ends a step, given whether the renaming in the working directory
    /// failed. A failure ends the command unless `skip` is given; else the
    /// entry of the source is renamed in the index where the step asks for
    /// it.
    pub fn finish(&self, index: &mut GitIndex, action: &MvAction, rename_failed: bool) -> (r: Result<
        (),
        RustGitError,
    >)
        requires
            old(index).wf(),
        ensures
            final(index).wf(),
            match r {
                Err(e) => rename_failed && !self.args.skip && e.kind == GitErrorKind::Io
                    && e.says(rename_failed_text(action.source@)) && final(index)@ == old(index)@,
                Ok(()) => !(rename_failed && !self.args.skip) && final(index)@.entries == (if !self.args.dry_run
                    && action.update_index {
                    renamed(old(index)@.entries, action.source@, action.destination@)
                } else {
                    old(index)@.entries
                }),
            },
    {
        if rename_failed && !self.args.skip {
            return Err(
                RustGitError::framed(
                    GitErrorKind::Io,
                    "renaming \"",
                    action.source.as_bytes(),
                    "\" failed",
                ),
            );
        }
        if !self.args.dry_run && action.update_index {
            index.rename_entry_by_path(action.source.as_bytes(), action.destination.as_bytes());
        }
        Ok(())
    }
}

} // verus!
