//! Listing, creating and deleting tags.

use crate::bytes::to_vec;
use crate::error::GitErrorKind;
use crate::error::RustGitError;
use crate::object::id::GitObjectId;
use crate::path::joined;
use crate::refs::GitRefs;
use crate::refs::RefWrite;
use crate::refs::is_valid_name;
use crate::refs::invalid_name_text;
use crate::refs::no_tag_text;
use crate::text::opt_bytes;
use vstd::prelude::*;
use vstd::string::*;
use vstd::utf8::*;

verus! {

/// The arguments of the command.
#[derive(Debug, Clone, PartialEq, Eq)]
pub struct TagArgs {
    pub tag_name: Option<String>,
    pub object: Option<String>,
    pub force: bool,
    pub delete: bool,
    pub message: Option<String>,
}

/// A tag of this name is made for the object, or for the commit of HEAD
/// where no object is given.
#[derive(Debug, Clone, PartialEq, Eq)]
pub struct CreateTag {
    pub tag_name: String,
    pub object_id: Option<GitObjectId>,
    pub force: bool,
    pub message: Option<String>,
}

/// The tag of this name is deleted.
#[derive(Debug, Clone, PartialEq, Eq)]
pub struct DeleteTag {
    pub tag_name: String,
}

/// The command.
#[derive(Debug, Clone, PartialEq, Eq)]
pub enum TagCommand {
    ListTags(),
    CreateTag(CreateTag),
    DeleteTag(DeleteTag),
}

/// What the command does.
#[derive(Debug, Clone, PartialEq, Eq)]
pub enum TagAction {
    /// The names of the tags are printed.
    List,
    /// The file of the tag is removed.
    Delete(Vec<u8>),
    /// The reference of the tag is written: a lightweight tag.
    Lightweight(RefWrite),
    /// An annotated tag with this message is made for this object.
    Annotated(GitObjectId, Vec<u8>),
}

/// The id that an optional text spells.
pub open spec fn opt_id(id: Option<GitObjectId>) -> Option<Seq<u8>> {
    match id {
        Some(id) => Some(id@),
        None => None,
    }
}

/// `cannot overwrite existing tag `, then the name
pub open spec fn tag_exists_text(name: Seq<u8>) -> Seq<u8> {
    "cannot overwrite existing tag ".spec_bytes() + name
}

impl TagCommand {
    /// `r` is what the arguments make: with a name, the tag is deleted
    /// where `delete` is given without an object, else created; without
    /// name and object the tags are listed. An object without a name is
    /// refused.
    pub open spec fn made(args: TagArgs, r: Result<TagCommand, RustGitError>) -> bool {
        match (args.tag_name, r) {
            (None, Ok(TagCommand::ListTags())) => args.object is None,
            (None, Err(e)) => args.object is Some && e.kind == GitErrorKind::Usage && e.error@
                == "tag_name required when object provided"@,
            (Some(tag_name), Ok(TagCommand::DeleteTag(d))) => args.object is None && args.delete
                && d.tag_name == tag_name,
            (Some(tag_name), Ok(TagCommand::CreateTag(c))) => {
                &&& args.object is Some || !args.delete
                &&& c.tag_name == tag_name
                &&& opt_id(c.object_id) == opt_bytes(args.object)
                &&& c.force == args.force
                &&& c.message == args.message
            },
            _ => false,
        }
    }

    /// The command for the arguments.
    pub fn new(args: TagArgs) -> (r: Result<TagCommand, RustGitError>)
        ensures
            Self::made(args, r),
    {
        match (args.tag_name, args.object) {
            (Some(tag_name), Some(object_id)) => {
                let object_id = GitObjectId::new(object_id.as_str());
                Ok(
                    TagCommand::CreateTag(
                        CreateTag {
                            tag_name,
                            object_id: Some(object_id),
                            force: args.force,
                            message: args.message,
                        },
                    ),
                )
            },
            (Some(tag_name), None) => {
                if args.delete {
                    Ok(TagCommand::DeleteTag(DeleteTag { tag_name }))
                } else {
                    Ok(
                        TagCommand::CreateTag(
                            CreateTag {
                                tag_name,
                                object_id: None,
                                force: args.force,
                                message: args.message,
                            },
                        ),
                    )
                }
            },
            (None, None) => Ok(TagCommand::ListTags()),
            (None, Some(_)) => Err(
                RustGitError::with_kind(GitErrorKind::Usage, "tag_name required when object provided"),
            ),
        }
    }

    /// What the command does, given whether the tag exists and the commit
    /// of HEAD where there is one. An existing tag is overwritten only
    /// with `force`. A tag without an object is a tag of the commit of
    /// HEAD, which there must then be. With a message the tag is an
    /// annotated one.
    pub fn execute(&self, refs: &GitRefs, tag_exists: bool, head_ref: Option<&GitObjectId>) -> (r:
        Result<TagAction, RustGitError>)
        ensures
            match (*self, r) {
                (TagCommand::ListTags(), Ok(TagAction::List)) => true,
                (TagCommand::DeleteTag(d), Ok(TagAction::Delete(path))) => {
                    &&& is_valid_name(encode_utf8(d.tag_name@))
                    &&& tag_exists
                    &&& path@ == joined(refs.tags_dir@, encode_utf8(d.tag_name@))
                },
                (TagCommand::DeleteTag(d), Err(e)) => if !is_valid_name(encode_utf8(d.tag_name@)) {
                    e.kind == GitErrorKind::InvalidName && e.says(
                        invalid_name_text(encode_utf8(d.tag_name@)),
                    )
                } else {
                    !tag_exists && e.kind == GitErrorKind::UnknownRef && e.says(
                        no_tag_text(encode_utf8(d.tag_name@)),
                    )
                },
                (TagCommand::CreateTag(c), Ok(TagAction::Lightweight(w))) => {
                    &&& c.force || !tag_exists
                    &&& c.message is None
                    &&& c.object_id is Some || head_ref is Some
                    &&& is_valid_name(encode_utf8(c.tag_name@))
                    &&& w.path@ == joined(refs.tags_dir@, encode_utf8(c.tag_name@))
                    &&& w.value@ == (match c.object_id {
                        Some(id) => id@,
                        None => head_ref->0@,
                    })
                },
                (TagCommand::CreateTag(c), Ok(TagAction::Annotated(id, message))) => {
                    &&& c.force || !tag_exists
                    &&& c.message is Some
                    &&& message@ == encode_utf8(c.message->0@)
                    &&& c.object_id is Some || head_ref is Some
                    &&& id@ == (match c.object_id {
                        Some(id) => id@,
                        None => head_ref->0@,
                    })
                },
                (TagCommand::CreateTag(c), Err(e)) => if !c.force && tag_exists {
                    e.kind == GitErrorKind::AlreadyExists && e.says(
                        tag_exists_text(encode_utf8(c.tag_name@)),
                    )
                } else if c.object_id is None && head_ref is None {
                    e.kind == GitErrorKind::UnknownRef && e.error@ == "no HEAD ref"@
                } else {
                    c.message is None && !is_valid_name(encode_utf8(c.tag_name@)) && e.kind
                        == GitErrorKind::InvalidName && e.says(
                        invalid_name_text(encode_utf8(c.tag_name@)),
                    )
                },
                _ => false,
            },
    {
        match self {
            TagCommand::ListTags() => Ok(TagAction::List),
            TagCommand::DeleteTag(delete_cmd) => {
                match refs.delete_tag(delete_cmd.tag_name.as_str().as_bytes(), tag_exists) {
                    Ok(path) => Ok(TagAction::Delete(path)),
                    Err(e) => Err(e),
                }
            },
            TagCommand::CreateTag(create_cmd) => {
                if !create_cmd.force && tag_exists {
                    return Err(
                        RustGitError::prefixed(
                            GitErrorKind::AlreadyExists,
                            "cannot overwrite existing tag ",
                            create_cmd.tag_name.as_str().as_bytes(),
                        ),
                    );
                }
                let object_id: &GitObjectId = match &create_cmd.object_id {
                    Some(id) => id,
                    None => match head_ref {
                        Some(id) => id,
                        None => {
                            return Err(RustGitError::with_kind(GitErrorKind::UnknownRef, "no HEAD ref"));
                        },
                    },
                };
                match &create_cmd.message {
                    Some(message) => Ok(
                        TagAction::Annotated(
                            object_id.duplicate(),
                            to_vec(message.as_str().as_bytes()),
                        ),
                    ),
                    None => match refs.create_tag(create_cmd.tag_name.as_str().as_bytes(), object_id) {
                        Ok(w) => Ok(TagAction::Lightweight(w)),
                        Err(e) => Err(e),
                    },
                }
            },
        }
    }
}

} // verus!
