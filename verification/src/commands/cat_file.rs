//! Showing the type, the size or the contents of objects.

use crate::bytes::ascii_bytes;
use crate::bytes::decimal;
use crate::bytes::to_decimal;
use crate::bytes::to_vec;
use crate::error::GitErrorKind;
use crate::error::RustGitError;
use crate::object::id::GitObjectId;
use crate::object::raw::GitObjectContents;
use crate::object::raw::GitObjectRaw;
use crate::object::raw::GitObjectType;
use crate::object::raw::kind_of_word;
use crate::object::raw::kind_word;
use crate::object::raw::unknown_kind_text;
use crate::text::texts_bytes;
use vstd::prelude::*;
use vstd::string::*;
use vstd::utf8::*;

verus! {

/// What to show of one object.
#[derive(Debug, Clone, Copy, PartialEq, Eq, Structural)]
pub struct CatFileMode {
    pub show_type: bool,
    pub show_size: bool,
    pub check: bool,
    pub print: bool,
}

/// The arguments of the command.
#[derive(Debug, Clone, PartialEq, Eq)]
pub struct CatFileArgs {
    pub mode: CatFileMode,
    /// Read ids from the standard input, one a line.
    pub batch: bool,
    /// An id, or a type and an id.
    pub input: Vec<String>,
}

/// The command.
#[derive(Debug, Clone, PartialEq, Eq)]
pub enum CatFileCommand {
    ShowType(GitObjectId),
    ShowSize(GitObjectId),
    Check(GitObjectId),
    Print(GitObjectId),
    ShowContent(GitObjectType, GitObjectId),
    ShowAll(),
}

/// The mathematical value of the command.
pub enum CatFileView {
    ShowType(Seq<u8>),
    ShowSize(Seq<u8>),
    Check(Seq<u8>),
    Print(Seq<u8>),
    ShowContent(GitObjectType, Seq<u8>),
    ShowAll,
}

impl View for CatFileCommand {
    type V = CatFileView;

    open spec fn view(&self) -> CatFileView {
        match *self {
            CatFileCommand::ShowType(id) => CatFileView::ShowType(id@),
            CatFileCommand::ShowSize(id) => CatFileView::ShowSize(id@),
            CatFileCommand::Check(id) => CatFileView::Check(id@),
            CatFileCommand::Print(id) => CatFileView::Print(id@),
            CatFileCommand::ShowContent(t, id) => CatFileView::ShowContent(t, id@),
            CatFileCommand::ShowAll() => CatFileView::ShowAll,
        }
    }
}

/// The command that the arguments ask for. Without an input it is the
/// batch mode, which must be asked for. With one input, an id, the first
/// of the modes that is set decides, and one must be. With two inputs, a
/// type and an id, the contents are shown. More inputs are refused.
pub open spec fn cat_file_command(mode: CatFileMode, batch: bool, input: Seq<Seq<u8>>) -> Result<
    CatFileView,
    GitErrorKind,
> {
    if input.len() == 0 {
        if batch {
            Ok(CatFileView::ShowAll)
        } else {
            Err(GitErrorKind::Usage)
        }
    } else if input.len() == 1 {
        if mode.show_type {
            Ok(CatFileView::ShowType(input[0]))
        } else if mode.show_size {
            Ok(CatFileView::ShowSize(input[0]))
        } else if mode.check {
            Ok(CatFileView::Check(input[0]))
        } else if mode.print {
            Ok(CatFileView::Print(input[0]))
        } else {
            Err(GitErrorKind::Usage)
        }
    } else if input.len() == 2 {
        match kind_of_word(input[0]) {
            Some(kind) => Ok(CatFileView::ShowContent(kind, input[1])),
            None => Err(GitErrorKind::UnknownKind),
        }
    } else {
        Err(GitErrorKind::Usage)
    }
}

/// `object `
pub open spec fn text_object() -> Seq<u8> {
    seq!['o' as u8, 'b' as u8, 'j' as u8, 'e' as u8, 'c' as u8, 't' as u8, ' ' as u8]
}

/// ` not found`
pub open spec fn text_not_found() -> Seq<u8> {
    seq![' ' as u8, 'n' as u8, 'o' as u8, 't' as u8, ' ' as u8, 'f' as u8, 'o' as u8, 'u' as u8, 'n' as u8, 'd' as u8]
}

/// What is said of an object that is not in the store.
pub open spec fn not_found(id: Seq<u8>) -> Seq<u8> {
    text_object() + id + text_not_found()
}

/// The object that the command reads, if it reads one.
pub open spec fn cat_file_subject(cmd: CatFileView) -> Option<Seq<u8>> {
    match cmd {
        CatFileView::ShowType(id) => Some(id),
        CatFileView::ShowSize(id) => Some(id),
        CatFileView::Check(id) => Some(id),
        CatFileView::Print(id) => Some(id),
        CatFileView::ShowContent(_, id) => Some(id),
        CatFileView::ShowAll => None,
    }
}

/// What the command prints for the object it read, `None` standing for an
/// object that is not in the store. Only the check fails for a missing
/// object; the other modes say that it was not found.
pub open spec fn cat_file_output(
    cmd: CatFileView,
    object: Option<(GitObjectType, nat, Seq<u8>)>,
) -> Result<Seq<u8>, GitErrorKind> {
    match (cmd, object) {
        (CatFileView::ShowAll, _) => Ok(Seq::empty()),
        (CatFileView::Check(_), None) => Err(GitErrorKind::UnknownObject),
        (CatFileView::Check(_), Some(_)) => Ok(Seq::empty()),
        (_, None) => Ok(not_found(cat_file_subject(cmd)->0)),
        (CatFileView::ShowType(_), Some((kind, _, _))) => Ok(kind_word(kind)),
        (CatFileView::ShowSize(_), Some((_, size, _))) => Ok(decimal(size)),
        (CatFileView::Print(_), Some((_, _, content))) => Ok(content),
        (CatFileView::ShowContent(_, _), Some((_, _, content))) => Ok(content),
    }
}

/// What the batch mode prints for an object: a line with its id, kind and
/// size, its contents, and an empty line.
pub open spec fn batch_text(id: Seq<u8>, kind: GitObjectType, size: nat, content: Seq<u8>) -> Seq<u8> {
    id + seq![0x20u8] + kind_word(kind) + seq![0x20u8] + decimal(size) + seq![0x0au8] + content
        + seq![0x0au8, 0x0au8]
}

/// The header and the contents of an object, if there is one.
pub open spec fn object_facts(object: Option<&GitObjectContents>) -> Option<
    (GitObjectType, nat, Seq<u8>),
> {
    match object {
        Some(o) => Some((o.header.obj_type, o.header.size as nat, o.content@)),
        None => None,
    }
}

fn not_found_text(id: &GitObjectId) -> (v: Vec<u8>)
    ensures
        v@ == not_found(id@),
{
    proof {
        reveal_strlit("object ");
        reveal_strlit(" not found");
    }
    let a = ascii_bytes("object ");
    let b = ascii_bytes(" not found");
    assert(a@ =~= text_object());
    assert(b@ =~= text_not_found());
    let mut v: Vec<u8> = Vec::new();
    v.extend_from_slice(a);
    v.extend_from_slice(id.as_bytes());
    v.extend_from_slice(b);
    v
}

/// `Unexpected number of args `, the number, ` for cat-file`
pub open spec fn too_many_text(n: nat) -> Seq<u8> {
    "Unexpected number of args ".spec_bytes() + decimal(n) + " for cat-file".spec_bytes()
}

/// The error says why the inputs ask for no command: the batch mode was
/// not asked for, no mode is set, the type is unknown, or there are too
/// many inputs.
pub open spec fn cat_file_refusal(e: RustGitError, input: Seq<Seq<u8>>) -> bool {
    if input.len() == 0 {
        e.error@ == "Provide --batch for batch processing from stdin"@
    } else if input.len() == 1 {
        e.error@ == "One of -t, -s, -e, -p is required if type is omitted"@
    } else if input.len() == 2 {
        e.says(unknown_kind_text(input[0]))
    } else {
        e.says(too_many_text(input.len()))
    }
}

impl CatFileCommand {
    /// `r` is what the arguments make: the command they ask for, or the
    /// failure to ask for one, which says why.
    pub open spec fn made(args: CatFileArgs, r: Result<CatFileCommand, RustGitError>) -> bool {
        match r {
            Ok(cmd) => cat_file_command(args.mode, args.batch, texts_bytes(args.input@)) == Ok::<
                _,
                GitErrorKind,
            >(cmd@),
            Err(e) => cat_file_command(args.mode, args.batch, texts_bytes(args.input@)) == Err::<
                CatFileView,
                _,
            >(e.kind) && cat_file_refusal(e, texts_bytes(args.input@)),
        }
    }

    /// The command for the arguments.
    pub fn new(args: CatFileArgs) -> (r: Result<CatFileCommand, RustGitError>)
        ensures
            Self::made(args, r),
    {
        let n = args.input.len();
        if n == 0 {
            if args.batch {
                Ok(CatFileCommand::ShowAll())
            } else {
                Err(
                    RustGitError::with_kind(
                        GitErrorKind::Usage,
                        "Provide --batch for batch processing from stdin",
                    ),
                )
            }
        } else if n == 1 {
            let obj_id = GitObjectId::new(args.input[0].as_str());
            if args.mode.show_type {
                Ok(CatFileCommand::ShowType(obj_id))
            } else if args.mode.show_size {
                Ok(CatFileCommand::ShowSize(obj_id))
            } else if args.mode.check {
                Ok(CatFileCommand::Check(obj_id))
            } else if args.mode.print {
                Ok(CatFileCommand::Print(obj_id))
            } else {
                Err(
                    RustGitError::with_kind(
                        GitErrorKind::Usage,
                        "One of -t, -s, -e, -p is required if type is omitted",
                    ),
                )
            }
        } else if n == 2 {
            let obj_id = GitObjectId::new(args.input[1].as_str());
            match GitObjectType::from_str(args.input[0].as_str()) {
                Ok(obj_type) => Ok(CatFileCommand::ShowContent(obj_type, obj_id)),
                Err(e) => Err(e),
            }
        } else {
            let count = to_decimal(n as u128);
            Err(
                RustGitError::framed(
                    GitErrorKind::Usage,
                    "Unexpected number of args ",
                    count.as_slice(),
                    " for cat-file",
                ),
            )
        }
    }

    /// The object that the command reads, if it reads one.
    pub fn subject(&self) -> (r: Option<&GitObjectId>)
        ensures
            match r {
                Some(id) => cat_file_subject(self@) == Some(id@),
                None => cat_file_subject(self@) is None,
            },
    {
        match self {
            CatFileCommand::ShowType(id) => Some(id),
            CatFileCommand::ShowSize(id) => Some(id),
            CatFileCommand::Check(id) => Some(id),
            CatFileCommand::Print(id) => Some(id),
            CatFileCommand::ShowContent(_, id) => Some(id),
            CatFileCommand::ShowAll() => None,
        }
    }

    /// What the command prints, given the object it read if that is in the
    /// store.
    pub fn execute(&self, object: Option<&GitObjectContents>) -> (r: Result<Vec<u8>, RustGitError>)
        ensures
            match r {
                Ok(text) => cat_file_output(self@, object_facts(object)) == Ok::<_, GitErrorKind>(
                    text@,
                ),
                Err(e) => cat_file_output(self@, object_facts(object)) == Err::<Seq<u8>, _>(e.kind)
                    && e.says(not_found(cat_file_subject(self@)->0)),
            },
    {
        match self {
            CatFileCommand::ShowType(obj_id) => match object {
                Some(obj) => Ok(to_vec(obj.header.obj_type.word())),
                None => Ok(not_found_text(obj_id)),
            },
            CatFileCommand::ShowSize(obj_id) => match object {
                Some(obj) => Ok(to_decimal(obj.header.size as u128)),
                None => Ok(not_found_text(obj_id)),
            },
            CatFileCommand::Check(obj_id) => match object {
                Some(_) => Ok(Vec::new()),
                None => {
                    let text = not_found_text(obj_id);
                    Err(RustGitError::from_text(GitErrorKind::UnknownObject, text.as_slice()))
                },
            },
            CatFileCommand::Print(obj_id) => match object {
                Some(obj) => Ok(obj.content.clone()),
                None => Ok(not_found_text(obj_id)),
            },
            CatFileCommand::ShowContent(_, obj_id) => match object {
                Some(obj) => Ok(obj.content.clone()),
                None => Ok(not_found_text(obj_id)),
            },
            CatFileCommand::ShowAll() => Ok(Vec::new()),
        }
    }
}

/// One line of the batch mode: the object with the id on the line, or what
/// to say where there is none. `object` is what was read for the id.
pub fn show(obj_id: GitObjectId, object: Option<GitObjectContents>) -> (r: Result<GitObjectRaw, Vec<u8>>)
    ensures
        match (object, r) {
            (Some(o), Ok(raw)) => raw.id@ == obj_id@ && raw.object == o,
            (None, Err(text)) => text@ == not_found(obj_id@),
            _ => false,
        },
{
    match object {
        Some(content) => Ok(GitObjectRaw { id: obj_id, object: content }),
        None => Err(not_found_text(&obj_id)),
    }
}

/// What the batch mode prints for an object.
pub fn batch_entry(obj: &GitObjectRaw) -> (v: Vec<u8>)
    ensures
        v@ == batch_text(
            obj.id@,
            obj.object.header.obj_type,
            obj.object.header.size as nat,
            obj.object.content@,
        ),
{
    let mut v: Vec<u8> = Vec::new();
    v.extend_from_slice(obj.id.as_bytes());
    v.push(0x20);
    v.extend_from_slice(obj.object.header.obj_type.word());
    v.push(0x20);
    let size = to_decimal(obj.object.header.size as u128);
    v.extend_from_slice(size.as_slice());
    v.push(0x0a);
    v.extend_from_slice(obj.object.content.as_slice());
    v.push(0x0a);
    v.push(0x0a);
    assert(v@ =~= batch_text(
        obj.id@,
        obj.object.header.obj_type,
        obj.object.header.size as nat,
        obj.object.content@,
    ));
    v
}

} // verus!
