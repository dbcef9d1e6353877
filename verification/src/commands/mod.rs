//! The commands: what each decides from its arguments and from what it is
//! told of the repository.

pub mod add;
pub mod branch;
pub mod cat_file;
pub mod commit;
pub mod commit_tree;
pub mod hash_object;
pub mod init;
pub mod ls_files;
pub mod mv;
pub mod restore;
pub mod rm;
pub mod switch;
pub mod symbolic_ref;
pub mod tag;
pub mod update_index;
pub mod update_ref;
pub mod write_tree;
