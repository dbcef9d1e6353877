//! The commands from end to end, on a file system in memory: each test runs
//! command lines one after another as a program would, and looks at what
//! was printed and at the files that are left.

use flate2::read::ZlibDecoder;
use rust_git::cli::from_cli;
use rust_git::cli::Cli;
use rust_git::cli::CliCommand;
use rust_git::cli::Command;
use rust_git::commands::add::add_one_path;
use rust_git::commands::add::AddArgs;
use rust_git::commands::add::AddCommand;
use rust_git::commands::branch::BranchAction;
use rust_git::commands::branch::BranchArgs;
use rust_git::commands::branch::BranchCommand;
use rust_git::commands::cat_file::batch_entry;
use rust_git::commands::cat_file::show;
use rust_git::commands::cat_file::CatFileArgs;
use rust_git::commands::cat_file::CatFileCommand;
use rust_git::commands::cat_file::CatFileMode;
use rust_git::commands::commit::CommitArgs;
use rust_git::commands::commit::CommitCommand;
use rust_git::commands::commit_tree::CommitTreeArgs;
use rust_git::commands::commit_tree::CommitTreeCommand;
use rust_git::commands::hash_object::HashObjectArgs;
use rust_git::commands::hash_object::HashObjectCommand;
use rust_git::commands::init::create_git_repo;
use rust_git::commands::init::init_config;
use rust_git::commands::init::InitArgs;
use rust_git::commands::init::InitCommand;
use rust_git::commands::init::InitPermissionFlag;
use rust_git::commands::ls_files::LsFilesArgs;
use rust_git::commands::ls_files::LsFilesCommand;
use rust_git::commands::mv::check_source;
use rust_git::commands::mv::get_src_and_dst;
use rust_git::commands::mv::MvArgs;
use rust_git::commands::mv::MvCommand;
use rust_git::commands::restore::RestoreArgs;
use rust_git::commands::restore::RestoreCommand;
use rust_git::commands::rm::RmArgs;
use rust_git::commands::rm::RmCommand;
use rust_git::commands::switch::SwitchArgs;
use rust_git::commands::switch::SwitchCommand;
use rust_git::commands::symbolic_ref::SymbolicRefArgs;
use rust_git::commands::symbolic_ref::SymbolicRefCommand;
use rust_git::commands::tag::TagAction;
use rust_git::commands::tag::TagArgs;
use rust_git::commands::tag::TagCommand;
use rust_git::commands::update_index::UpdateIndexCommand;
use rust_git::commands::update_ref::UpdateRefArgs;
use rust_git::commands::update_ref::UpdateRefCommand;
use rust_git::commands::write_tree::WriteTreeArgs;
use rust_git::config::CoreConfig;
use rust_git::config::ExtensionsConfig;
use rust_git::config::GitConfig;
use rust_git::config::UserConfig;
use rust_git::error::GitErrorKind;
use rust_git::error::RustGitError;
use rust_git::hash::HashAlgorithm;
use rust_git::index::entry::FileStat;
use rust_git::index::GitIndex;
use rust_git::object::id::GitObjectId;
use rust_git::object::raw::GitObjectRaw;
use rust_git::object::raw::GitObjectType;
use rust_git::object::tree::GitTreeEntryType;
use rust_git::object::tree::GitTreeObject;
use rust_git::object::GitObject;
use rust_git::object_store::GitObjectStore;
use rust_git::object_store::LooseObject;
use rust_git::path::GitRepoPath;
use rust_git::refs::GitRefs;
use rust_git::refs::RefWrite;
use rust_git::repo::FileKind;
use rust_git::repo::GitRepo;
use rust_git::repo::RepoState;
use std::io::Read;

/// Where the working directory of every test lies.
const TOP: &str = "/work";

/// The moment at which every command runs, in milliseconds.
const NOW: u128 = 1_700_000_000_000;

fn text(bytes: &[u8]) -> String {
    String::from_utf8_lossy(bytes).into_owned()
}

fn io_error(what: &str) -> RustGitError {
    RustGitError { kind: GitErrorKind::Io, error: String::from(what) }
}

/// The path without its dots, double dots and empty parts.
fn tidy(path: &str) -> String {
    let mut parts: Vec<&str> = Vec::new();
    for part in path.split('/') {
        match part {
            "" | "." => {}
            ".." => {
                parts.pop();
            }
            name => parts.push(name),
        }
    }
    format!("/{}", parts.join("/"))
}

fn parent(path: &str) -> String {
    match path.rfind('/') {
        Some(0) | None => String::from("/"),
        Some(at) => String::from(&path[..at]),
    }
}

fn last_part(path: &str) -> String {
    match path.rfind('/') {
        Some(at) => String::from(&path[at + 1..]),
        None => String::from(path),
    }
}

/// What a command left behind: its exit code and what it printed.
struct Outcome {
    code: u8,
    stdout: String,
    stderr: String,
}

impl Outcome {
    fn success(&self) -> &Outcome {
        assert_eq!(self.code, 0, "the command failed: {}", self.stderr);
        self
    }

    fn failure(&self) -> &Outcome {
        assert_ne!(self.code, 0, "the command succeeded: {}", self.stdout);
        self
    }

    fn code(&self, expected: u8) -> &Outcome {
        assert_eq!(self.code, expected);
        self
    }

    fn stdout(&self, expected: impl AsRef<str>) -> &Outcome {
        assert_eq!(self.stdout, expected.as_ref());
        self
    }

    fn stderr(&self, expected: impl AsRef<str>) -> &Outcome {
        assert_eq!(self.stderr, expected.as_ref());
        self
    }

    fn stderr_starts_with(&self, expected: &str) -> &Outcome {
        assert!(self.stderr.starts_with(expected), "it said: {}", self.stderr);
        self
    }
}

/// A file system in memory with a current directory. An item is a directory
/// (no contents) or a file, under its full path, in the order of creation.
struct World {
    items: Vec<(String, Option<Vec<u8>>)>,
    cwd: String,
    input: Vec<u8>,
    out: String,
    err: String,
}

impl World {
    fn new() -> World {
        World {
            items: vec![(String::from(TOP), None)],
            cwd: String::from(TOP),
            input: Vec::new(),
            out: String::new(),
            err: String::new(),
        }
    }

    // ---- the file system ----

    fn full(&self, path: &str) -> String {
        if path.starts_with('/') {
            tidy(path)
        } else {
            tidy(&format!("{}/{}", self.cwd, path))
        }
    }

    fn full_bytes(&self, path: &[u8]) -> String {
        self.full(&text(path))
    }

    fn place(&self, path: &str) -> Option<usize> {
        let path = self.full(path);
        if path == "/" {
            return None;
        }
        self.items.iter().position(|(p, _)| *p == path)
    }

    fn is_there(&self, path: &str) -> bool {
        self.full(path) == "/" || self.place(path).is_some()
    }

    fn is_dir(&self, path: &str) -> bool {
        match self.place(path) {
            Some(at) => self.items[at].1.is_none(),
            None => self.full(path) == "/",
        }
    }

    fn is_file(&self, path: &str) -> bool {
        match self.place(path) {
            Some(at) => self.items[at].1.is_some(),
            None => false,
        }
    }

    fn kind_of(&self, path: &str) -> Option<FileKind> {
        if self.is_dir(path) {
            Some(FileKind::Directory)
        } else if self.is_file(path) {
            Some(FileKind::File)
        } else {
            None
        }
    }

    fn read(&self, path: &str) -> Result<Vec<u8>, RustGitError> {
        match self.place(path) {
            Some(at) => self.items[at].1.clone().ok_or(io_error("is a directory")),
            None => Err(io_error("no such file")),
        }
    }

    fn read_optional(&self, path: &str) -> Result<Option<Vec<u8>>, RustGitError> {
        if !self.is_there(path) {
            return Ok(None);
        }
        self.read(path).map(Some)
    }

    fn read_text(&self, path: &str) -> String {
        text(&self.read(path).unwrap())
    }

    fn write(&mut self, path: &str, bytes: &[u8]) -> Result<(), RustGitError> {
        let path = self.full(path);
        if !self.is_dir(&parent(&path)) || self.is_dir(&path) {
            return Err(io_error("cannot write the file"));
        }
        match self.place(&path) {
            Some(at) => self.items[at].1 = Some(bytes.to_vec()),
            None => self.items.push((path, Some(bytes.to_vec()))),
        }
        Ok(())
    }

    fn create_dir(&mut self, path: &str) -> Result<(), RustGitError> {
        let path = self.full(path);
        if self.is_there(&path) || !self.is_dir(&parent(&path)) {
            return Err(io_error("cannot create the directory"));
        }
        self.items.push((path, None));
        Ok(())
    }

    fn create_dir_all(&mut self, path: &str) -> Result<(), RustGitError> {
        let path = self.full(path);
        if self.is_dir(&path) {
            return Ok(());
        }
        if self.is_file(&path) {
            return Err(io_error("a file is in the way"));
        }
        self.create_dir_all(&parent(&path))?;
        self.create_dir(&path)
    }

    fn remove_file(&mut self, path: &str) -> Result<(), RustGitError> {
        match self.place(path) {
            Some(at) if self.items[at].1.is_some() => {
                self.items.remove(at);
                Ok(())
            }
            _ => Err(io_error("no such file")),
        }
    }

    fn remove_dir_all(&mut self, path: &str) {
        let path = self.full(path);
        let below = format!("{}/", path);
        self.items.retain(|(p, _)| *p != path && !p.starts_with(&below));
    }

    /// The names in a directory, the newest first.
    fn read_dir(&self, path: &str) -> Result<Vec<String>, RustGitError> {
        if !self.is_dir(path) {
            return Err(io_error("not a directory"));
        }
        let path = self.full(path);
        let mut names = Vec::new();
        for (item, _) in self.items.iter().rev() {
            if *item != path && parent(item) == path {
                names.push(last_part(item));
            }
        }
        Ok(names)
    }

    /// Renames a file or a directory, with all that lies in it. A file takes
    /// the place of a file; nothing takes the place of a directory that
    /// holds anything or of an item of the other kind.
    fn rename(&mut self, from: &str, to: &str) -> Result<(), RustGitError> {
        let from = self.full(from);
        let to = self.full(to);
        if !self.is_there(&from) || !self.is_dir(&parent(&to)) {
            return Err(io_error("cannot rename"));
        }
        if from == to {
            return Ok(());
        }
        if self.is_file(&from) {
            if self.is_dir(&to) {
                return Err(io_error("a directory is in the way"));
            }
            if self.is_file(&to) {
                self.remove_file(&to)?;
            }
            let at = self.place(&from).unwrap();
            self.items[at].0 = to;
            return Ok(());
        }
        if self.is_file(&to) || to.starts_with(&format!("{}/", from)) {
            return Err(io_error("cannot rename the directory"));
        }
        if self.is_dir(&to) {
            if !self.read_dir(&to)?.is_empty() {
                return Err(io_error("the directory is not empty"));
            }
            self.remove_dir_all(&to);
        }
        let below = format!("{}/", from);
        for (path, _) in self.items.iter_mut() {
            if *path == from {
                *path = to.clone();
            } else if path.starts_with(&below) {
                *path = format!("{}/{}", to, &path[below.len()..]);
            }
        }
        Ok(())
    }

    /// The state of the file at a path as plain numbers.
    fn stat(&self, path: &str) -> Result<(FileStat, FileKind), RustGitError> {
        let at = self.place(path).ok_or(io_error("no such file"))?;
        let is_dir = self.items[at].1.is_none();
        let size = self.items[at].1.as_ref().map(|c| c.len()).unwrap_or(0);
        let stat = FileStat {
            ctime: 1_700_000_000,
            ctime_nsec: 0,
            mtime: 1_700_000_000,
            mtime_nsec: 0,
            dev: 1,
            ino: at as u64 + 1,
            uid: 1000,
            gid: 1000,
            size: size as u64,
            mode: if is_dir { 0o040755 } else { 0o100644 },
            is_symlink: false,
            is_dir,
        };
        Ok((stat, if is_dir { FileKind::Directory } else { FileKind::File }))
    }

    // ---- what the tests prepare and look at ----

    fn create_test_dir(&mut self, name: &str) {
        self.create_dir_all(&format!("{TOP}/{name}")).unwrap();
    }

    fn create_test_file(&mut self, name: &str, contents: &[u8]) {
        self.write(&format!("{TOP}/{name}"), contents).unwrap();
    }

    /// Writes more at the end of a file.
    fn append(&mut self, name: &str, more: &[u8]) {
        let path = self.child(name);
        let mut contents = self.read(&path).unwrap();
        contents.extend_from_slice(more);
        self.write(&path, &contents).unwrap();
    }

    /// Runs a command with an option that it does not implement, which has
    /// to fail and to say so.
    fn assert_unsupported_option(&mut self, command: &str, args: Vec<&str>) {
        let option = args[0];
        let mut line = vec![command];
        line.extend(args.iter());
        self.run_on("test", &line).failure().stderr(format!("{option} not supported"));
    }

    fn child(&self, name: &str) -> String {
        format!("{TOP}/{name}")
    }

    fn assert_exists(&self, name: &str) {
        assert!(self.is_there(&self.child(name)), "{name} is missing");
    }

    fn assert_missing(&self, name: &str) {
        assert!(!self.is_there(&self.child(name)), "{name} there");
    }

    fn assert_contents(&self, name: &str, contents: &str) {
        assert_eq!(self.read_text(&self.child(name)), contents);
    }

    fn write_config(&mut self, contents: &[u8]) {
        self.write(&format!("{TOP}/.git/config"), contents).unwrap();
    }

    fn object_file(&self, obj_id: &str) -> String {
        let (folder_name, file_name) = obj_id.split_at(2);
        format!("{TOP}/.git/objects/{folder_name}/{file_name}")
    }

    fn read_obj_file(&self, obj_id: &str) -> String {
        let file = self.read(&self.object_file(obj_id)).unwrap();
        let mut decoded = String::new();
        ZlibDecoder::new(file.as_slice()).read_to_string(&mut decoded).unwrap();
        decoded
    }

    fn assert_obj_file(&self, obj_id: &str, contents: &str) {
        assert_eq!(contents, self.read_obj_file(obj_id));
    }

    fn assert_no_obj_file(&self, obj_id: &str) {
        assert!(!self.is_there(&self.object_file(obj_id)));
    }

    fn assert_ref_file_read(&self, git_ref: &str) -> String {
        self.read_text(&format!("{TOP}/.git/{git_ref}"))
    }

    fn assert_ref_file(&self, git_ref: &str, contents: &str) {
        assert_eq!(contents, self.assert_ref_file_read(git_ref));
    }

    fn assert_no_ref_file(&self, git_ref: &str) {
        assert!(!self.is_there(&format!("{TOP}/.git/{git_ref}")));
    }

    // ---- the program ----

    fn say(&mut self, line: &str) {
        self.out.push_str(line);
        self.out.push('\n');
    }

    fn print(&mut self, bytes: &[u8]) {
        self.out.push_str(&text(bytes));
    }

    fn run_line(&mut self, args: &[&str]) -> Result<(), RustGitError> {
        match command_line(args) {
            Ok(cli) => self.load_repo_and_execute(cli),
            Err(usage) => Err(RustGitError { kind: GitErrorKind::Io, error: usage }),
        }
    }

    /// Runs one command line in the current directory. `add` takes one
    /// path: a line that names several is run once for each of them.
    fn run(&mut self, args: &[&str]) -> Outcome {
        self.out = String::new();
        self.err = String::new();
        let several = args.len() > 2 && args[0] == "add" && args.iter().all(|a| !a.starts_with('-'));
        let done = if several {
            args[1..].iter().try_for_each(|path| self.run_line(&["add", path]))
        } else {
            self.run_line(args)
        };
        let code = match done {
            Ok(()) => 0,
            Err(e) => {
                self.err.push_str(&e.message());
                e.exit_code()
            }
        };
        self.input = Vec::new();
        Outcome { code, stdout: self.out.clone(), stderr: self.err.clone() }
    }

    /// Runs one command line that reads what is given as its input.
    fn run_on(&mut self, input: impl AsRef<str>, args: &[&str]) -> Outcome {
        self.input = input.as_ref().as_bytes().to_vec();
        self.run(args)
    }

    /// Runs one command line in a directory below the top.
    fn run_in(&mut self, dir: &str, args: &[&str]) -> Outcome {
        let before = self.cwd.clone();
        self.cwd = self.child(dir);
        let outcome = self.run(args);
        self.cwd = before;
        outcome
    }

    /// Runs one command line that has to succeed, and gives what it printed
    /// without the white space around it.
    fn printed(&mut self, args: &[&str]) -> String {
        let outcome = self.run(args);
        outcome.success();
        String::from(outcome.stdout.trim())
    }

    fn init(&mut self) {
        self.printed(&["init"]);
    }

    fn init_in_dir(&mut self, dir_name: &str) {
        self.printed(&["init", dir_name]);
    }

    fn hash_object(&mut self, obj: &str) -> String {
        let outcome = self.run_on(obj, &["hash-object", "--stdin", "-w"]);
        outcome.success();
        String::from(outcome.stdout.trim())
    }

    /// Stages the files, which are named with a space between them.
    fn add(&mut self, files: &str) {
        let mut line = vec!["add"];
        line.extend(files.split(' '));
        self.printed(&line);
    }

    fn cat_file(&mut self, flag: &str, file: &str) -> String {
        self.printed(&["cat-file", flag, file])
    }

    fn ls_files(&mut self) -> String {
        self.printed(&["ls-files"])
    }

    fn write_tree(&mut self) -> String {
        self.printed(&["write-tree"])
    }

    fn commit_tree(&mut self, tree_obj_id: &str, message: &str) -> String {
        self.printed(&["commit-tree", tree_obj_id, "-m", message])
    }

    fn commit(&mut self, message: &str) -> String {
        self.printed(&["commit", "-m", message])
    }

    fn branch(&mut self, name: &str) {
        self.printed(&["branch", name]);
    }

    fn update_ref(&mut self, ref_name: &str, ref_value: &str) {
        self.printed(&["update-ref", ref_name, ref_value]);
    }

    fn symbolic_ref(&mut self, ref_name: &str, ref_value: &str) {
        self.printed(&["symbolic-ref", ref_name, ref_value]);
    }

    fn load_repo_and_execute(&mut self, cli: Cli) -> Result<(), RustGitError> {
        let git_dir = cli.git_dir.clone();
        match from_cli(cli)? {
            Command::Init(command) => self.init_repo(&command),
            other => {
                let state = self.open_repo(git_dir.as_deref())?;
                self.execute(other, state)
            }
        }
    }

    fn load_config(&self, git_dir: &str) -> Result<GitConfig, RustGitError> {
        let file = match self.read_optional(&format!("{git_dir}/config"))? {
            Some(file) => text(&file),
            None => return Ok(GitConfig::new(None)),
        };
        let table: toml::Table = file.parse().map_err(|_| io_error("the configuration"))?;
        let mut config = GitConfig::default();
        if let Some(core) = table.get("core").and_then(|v| v.as_table()) {
            let flag = |name: &str, or: bool| core.get(name).and_then(|v| v.as_bool()).unwrap_or(or);
            config.core = CoreConfig {
                repositoryformatversion: core
                    .get("repositoryformatversion")
                    .and_then(|v| v.as_integer())
                    .map(|v| v as u32)
                    .unwrap_or(config.core.repositoryformatversion),
                filemode: flag("filemode", config.core.filemode),
                bare: flag("bare", config.core.bare),
                logallrefupdates: flag("logallrefupdates", config.core.logallrefupdates),
                ignorecase: flag("ignorecase", config.core.ignorecase),
                precomposeunicode: flag("precomposeunicode", config.core.precomposeunicode),
                symlinks: flag("symlinks", config.core.symlinks),
            };
        }
        if let Some(user) = table.get("user").and_then(|v| v.as_table()) {
            let field =
                |name: &str| user.get(name).and_then(|v| v.as_str()).map(|v| v.as_bytes().to_vec());
            config.user = UserConfig { name: field("name"), email: field("email") };
        }
        if let Some(extensions) = table.get("extensions").and_then(|v| v.as_table()) {
            if extensions.get("objectformat").and_then(|v| v.as_str()) == Some("sha256") {
                config.extensions = ExtensionsConfig { objectformat: HashAlgorithm::Sha256 };
            }
        }
        Ok(GitConfig::new(Some(config)))
    }

    fn save_config(&mut self, config: &GitConfig, git_dir: &str) -> Result<(), RustGitError> {
        let mut core = toml::Table::new();
        core.insert(
            String::from("repositoryformatversion"),
            toml::Value::Integer(config.core.repositoryformatversion as i64),
        );
        core.insert(String::from("filemode"), toml::Value::Boolean(config.core.filemode));
        core.insert(String::from("bare"), toml::Value::Boolean(config.core.bare));
        core.insert(
            String::from("logallrefupdates"),
            toml::Value::Boolean(config.core.logallrefupdates),
        );
        core.insert(String::from("ignorecase"), toml::Value::Boolean(config.core.ignorecase));
        core.insert(
            String::from("precomposeunicode"),
            toml::Value::Boolean(config.core.precomposeunicode),
        );
        core.insert(String::from("symlinks"), toml::Value::Boolean(config.core.symlinks));
        let mut user = toml::Table::new();
        if let Some(name) = &config.user.name {
            user.insert(String::from("name"), toml::Value::String(text(name)));
        }
        if let Some(email) = &config.user.email {
            user.insert(String::from("email"), toml::Value::String(text(email)));
        }
        let mut extensions = toml::Table::new();
        let format = match config.extensions.objectformat {
            HashAlgorithm::Sha1 => "sha1",
            HashAlgorithm::Sha256 => "sha256",
        };
        extensions.insert(String::from("objectformat"), toml::Value::String(String::from(format)));
        let mut table = toml::Table::new();
        table.insert(String::from("core"), toml::Value::Table(core));
        table.insert(String::from("user"), toml::Value::Table(user));
        table.insert(String::from("extensions"), toml::Value::Table(extensions));
        self.write(&format!("{git_dir}/config"), table.to_string().as_bytes())
    }

    fn open_repo(&mut self, git_dir: Option<&str>) -> Result<RepoState, RustGitError> {
        let current_dir = self.cwd.clone();
        let explicit = git_dir.map(|d| d.as_bytes().to_vec());
        let explicit_exists = git_dir.map(|d| self.is_there(d)).unwrap_or(false);
        let candidates = GitRepo::discover_candidates(current_dir.as_bytes());
        let there: Vec<bool> = candidates.iter().map(|c| self.is_there(&text(c))).collect();
        let found = GitRepo::find_git_dir(
            explicit.as_deref(),
            explicit_exists,
            current_dir.as_bytes(),
            &candidates,
            &there,
        );
        let git_dir = match found {
            Ok(dir) => text(&dir),
            Err(state) => return Ok(state),
        };
        let config = self.load_config(&git_dir)?;
        let index_file = self.read_optional(&format!("{git_dir}/index"))?;
        let index = GitIndex::open(index_file.as_deref())?;
        let absolute = self.full(&git_dir);
        self.create_dir_all(&format!("{absolute}/refs/heads"))?;
        self.create_dir_all(&format!("{absolute}/refs/tags"))?;
        let repo = GitRepo::new(
            git_dir.as_bytes(),
            parent(&absolute).as_bytes(),
            current_dir.as_bytes(),
            config,
            index,
        )?;
        Ok(RepoState::Repo(repo))
    }

    fn execute(&mut self, command: Command, state: RepoState) -> Result<(), RustGitError> {
        let mut repo = state.try_get()?;
        match command {
            Command::Init(command) => self.init_repo(&command),
            Command::Add(command) => self.do_add(&command, &mut repo),
            Command::HashObject(command) => self.do_hash_object(&command, &repo),
            Command::CatFile(command) => self.do_cat_file(&command, &repo),
            Command::UpdateIndex(command) => self.update_index(&command, &mut repo),
            Command::LsFiles(command) => self.do_ls_files(&command, &repo),
            Command::Rm(command) => self.rm(&command, &mut repo),
            Command::Mv(command) => self.mv(&command, &mut repo),
            Command::Restore(command) => self.restore(&command, &repo),
            Command::WriteTree(_) => {
                let id = self.do_write_tree(&repo)?;
                self.say(&id.to_text());
                Ok(())
            }
            Command::CommitTree(command) => self.do_commit_tree(&command, &repo),
            Command::UpdateRef(command) => self.do_update_ref(&command, &repo),
            Command::SymbolicRef(command) => self.do_symbolic_ref(&command, &repo),
            Command::Commit(command) => self.do_commit(&command, &repo),
            Command::Branch(command) => self.do_branch(&command, &repo),
            Command::Switch(command) => self.switch(&command, &repo),
            Command::Tag(command) => self.tag(&command, &repo),
        }
    }

    fn init_repo(&mut self, command: &InitCommand) -> Result<(), RustGitError> {
        let root_dir = self.full_bytes(&command.root_dir());
        if command.args.directory.is_some() {
            self.create_dir_all(&root_dir)?;
        }
        command.execute()?;

        let git_dir = command.git_dir_name();
        let there =
            !command.args.bare && self.is_there(&format!("{}/{}", root_dir, text(&git_dir)));
        let layout = create_git_repo(command, root_dir.as_bytes(), &git_dir, there)?;
        if layout.create_git_repo_dir {
            self.create_dir(&text(&layout.git_repo_dir))?;
        }
        for dir in &layout.dirs {
            self.create_dir(&text(dir))?;
        }
        self.write(&text(&layout.head_path), &layout.head_value)?;

        let git_repo_dir = self.full_bytes(&layout.git_repo_dir);
        let ignorecase = self.is_there(&format!("{git_repo_dir}/head"));
        self.save_config(&init_config(command, ignorecase), &git_repo_dir)?;
        self.say(&format!("Initialized empty Git repository in {git_repo_dir}"));
        Ok(())
    }

    fn write_loose(&mut self, object: &LooseObject) -> Result<(), RustGitError> {
        let folder = text(&object.folder);
        self.create_dir_all(&folder)?;
        let path = format!("{}/{}", folder, text(&object.file_name));
        if self.is_there(&path) {
            return Ok(());
        }
        self.write(&path, &object.bytes)
    }

    fn write_ref(&mut self, write: &RefWrite) -> Result<(), RustGitError> {
        let path = self.full_bytes(&write.path);
        self.create_dir_all(&parent(&path))?;
        self.write(&path, &write.value)
    }

    fn save_index(&mut self, repo: &GitRepo) -> Result<(), RustGitError> {
        assert!(repo.index.check_encodable());
        let bytes = repo.write_index();
        self.write(&format!("{}/index", text(&repo.git_dir)), &bytes)
    }

    fn in_work_dir(&self, repo: &GitRepo, path: &GitRepoPath) -> String {
        format!("{}/{}", text(&repo.root_dir), text(&path.as_path_buf()))
    }

    fn object_path(&self, repo: &GitRepo, id: &GitObjectId) -> Result<String, RustGitError> {
        if id.as_bytes().len() < 2 {
            return Err(RustGitError::with_kind(
                GitErrorKind::UnknownObject,
                &format!("not a valid object name {}", id.to_text()),
            ));
        }
        let (folder, file_name) = repo.obj_store.loose_object_path(id);
        Ok(format!("{}/{}", text(&folder), text(&file_name)))
    }

    fn object_exists(&self, repo: &GitRepo, id: &GitObjectId) -> bool {
        match self.object_path(repo, id) {
            Ok(path) => self.is_there(&path),
            Err(_) => false,
        }
    }

    fn read_object_raw(
        &self,
        repo: &GitRepo,
        id: &GitObjectId,
    ) -> Result<Option<GitObjectRaw>, RustGitError> {
        let file = self.read_optional(&self.object_path(repo, id)?)?;
        GitObjectStore::read_object_raw(id, file.as_deref())
    }

    fn read_object(
        &self,
        repo: &GitRepo,
        id: &GitObjectId,
    ) -> Result<Option<GitObject>, RustGitError> {
        match self.read_object_raw(repo, id)? {
            Some(raw) => Ok(Some(GitObject::try_from(raw)?)),
            None => Ok(None),
        }
    }

    fn head(&self, repo: &GitRepo) -> Result<(Option<Vec<u8>>, Option<GitObjectId>), RustGitError> {
        let git_dir = text(&repo.git_dir);
        let head_file = self.read_optional(&format!("{git_dir}/HEAD"))?;
        let branch_file = match GitRefs::head_branch(head_file.as_deref())? {
            Some(branch) => self.read_optional(&format!("{}/{}", git_dir, text(&branch)))?,
            None => None,
        };
        GitRefs::get_head_ref(head_file.as_deref(), branch_file.as_deref())
    }

    fn stage(&mut self, path: &str, repo: &mut GitRepo) -> Result<(), RustGitError> {
        let (stat, kind) = self.stat(path)?;
        let contents = self.read(path)?;
        assert!(repo.index.check_wf());
        let file = add_one_path(path.as_bytes(), &stat, kind, contents, repo)?;
        self.write_loose(&file)
    }

    fn process_path(&mut self, path: &str, repo: &mut GitRepo) -> Result<(), RustGitError> {
        let (stat, _) = self.stat(path)?;
        if stat.is_dir {
            for name in self.read_dir(path)? {
                self.process_path(&format!("{path}/{name}"), repo)?;
            }
            return Ok(());
        }
        self.stage(path, repo)
    }

    fn do_add(&mut self, command: &AddCommand, repo: &mut GitRepo) -> Result<(), RustGitError> {
        for file_path in command.paths() {
            self.process_path(file_path, repo)?;
        }
        self.save_index(repo)
    }

    fn update_index(
        &mut self,
        command: &UpdateIndexCommand,
        repo: &mut GitRepo,
    ) -> Result<(), RustGitError> {
        for file_path in command.files() {
            self.stage(file_path, repo)?;
        }
        self.save_index(repo)
    }

    fn hash_one(
        &mut self,
        command: &HashObjectCommand,
        repo: &GitRepo,
        contents: Vec<u8>,
    ) -> Result<(), RustGitError> {
        let (id, file) = command.hash_one(repo, contents)?;
        if let Some(file) = file {
            self.write_loose(&file)?;
        }
        self.say(&id.to_text());
        Ok(())
    }

    fn do_hash_object(
        &mut self,
        command: &HashObjectCommand,
        repo: &GitRepo,
    ) -> Result<(), RustGitError> {
        command.execute()?;
        let sources = command.collect_items_to_hash();
        if sources.files_named_on_stdin {
            for name in text(&self.input).lines() {
                let contents = self.read(name)?;
                self.hash_one(command, repo, contents)?;
            }
        }
        if sources.stdin {
            let contents = self.input.clone();
            self.hash_one(command, repo, contents)?;
        }
        if sources.files {
            for name in &command.args.files {
                let contents = self.read(name)?;
                self.hash_one(command, repo, contents)?;
            }
        }
        Ok(())
    }

    fn do_cat_file(&mut self, command: &CatFileCommand, repo: &GitRepo) -> Result<(), RustGitError> {
        match command.subject() {
            Some(id) => {
                let object = self.read_object_raw(repo, id)?.map(|raw| raw.object);
                let shown = command.execute(object.as_ref())?;
                self.print(&shown);
                Ok(())
            }
            None => {
                for line in text(&self.input).lines() {
                    let id = GitObjectId::new(line);
                    let object = match self.read_object_raw(repo, &id) {
                        Ok(object) => object.map(|raw| raw.object),
                        Err(e) => {
                            self.err.push_str(&format!(
                                "error reading object {}, ({})",
                                id.to_text(),
                                e.message()
                            ));
                            continue;
                        }
                    };
                    match show(id, object) {
                        Ok(raw) => self.print(&batch_entry(&raw)),
                        Err(said) => self.err.push_str(&text(&said)),
                    }
                }
                command.execute(None).map(|_| ())
            }
        }
    }

    fn do_ls_files(&mut self, command: &LsFilesCommand, repo: &GitRepo) -> Result<(), RustGitError> {
        for index_entry in repo.index.iter_entries() {
            self.print(&command.execute(index_entry));
        }
        Ok(())
    }

    fn rm(&mut self, command: &RmCommand, repo: &mut GitRepo) -> Result<(), RustGitError> {
        assert!(repo.index.check_wf());
        let plan = command.execute(repo)?;
        for line in &plan.output {
            self.say(&text(line));
        }
        if plan.unlink {
            for (i, path) in plan.removed.iter().enumerate() {
                let target = self.in_work_dir(repo, &GitRepoPath(path.clone()));
                let failed = self.remove_file(&target).is_err();
                command.after_unlink(i, path, failed)?;
            }
        }
        if plan.persist {
            self.save_index(repo)?;
        }
        Ok(())
    }

    fn mv(&mut self, command: &MvCommand, repo: &mut GitRepo) -> Result<(), RustGitError> {
        let (sources, destination) = get_src_and_dst(&command.args.files)?;
        let destination_repo_path = repo.path_to_git_repo_path(destination.as_bytes())?;

        for source in sources {
            let source_repo_path = repo.path_to_git_repo_path(source.as_bytes())?;
            if command.args.dry_run {
                self.say(&format!(
                    "Checking rename of \"{}\" to \"{}\"",
                    source_repo_path.as_string(),
                    destination_repo_path.as_string()
                ));
            }
            assert!(repo.index.check_wf());
            let source_kind = self.kind_of(&self.in_work_dir(repo, &source_repo_path));
            let dest_kind = self.kind_of(&self.in_work_dir(repo, &destination_repo_path));
            let checked = check_source(
                command,
                &repo.index,
                source_repo_path,
                destination_repo_path.clone(),
                destination.as_bytes(),
                source_kind,
                dest_kind,
            );
            match checked {
                Ok(actions) => {
                    for action in actions {
                        let step = command.begin(&action);
                        if step.announce {
                            self.say(&format!(
                                "Renaming \"{}\" to \"{}\"",
                                action.source.as_string(),
                                action.destination.as_string()
                            ));
                        }
                        let rename_failed = step.rename_file
                            && self
                                .rename(
                                    &self.in_work_dir(repo, &action.source),
                                    &self.in_work_dir(repo, &action.destination),
                                )
                                .is_err();
                        assert!(repo.index.check_wf());
                        command.finish(&mut repo.index, &action, rename_failed)?;
                    }
                }
                Err(refusal) => {
                    command.on_refusal(refusal, source.as_bytes(), destination.as_bytes())?;
                }
            }
        }
        self.save_index(repo)
    }

    fn restore(&mut self, command: &RestoreCommand, repo: &GitRepo) -> Result<(), RustGitError> {
        for file in command.args.files.iter() {
            self.say(&format!("restoring {file}"));
            for target in command.execute(repo, file)? {
                let object = self.read_object_raw(repo, &target.obj_id)?;
                match RestoreCommand::contents(object) {
                    Some(contents) => {
                        let path = self.in_work_dir(repo, &GitRepoPath(target.path.clone()));
                        self.write(&path, &contents)?;
                        self.say(&format!("restored \"{}\"", text(&target.path)));
                    }
                    None => self.say(&format!(
                        "obj {} missing for \"{}\"",
                        target.obj_id.to_text(),
                        text(&target.path)
                    )),
                }
            }
        }
        Ok(())
    }

    fn do_write_tree(&mut self, repo: &GitRepo) -> Result<GitObjectId, RustGitError> {
        let (id, trees) = repo.write_index_as_tree();
        for tree in &trees {
            self.write_loose(&repo.obj_store.write_raw_object(tree)?)?;
        }
        Ok(id)
    }

    fn write_commit(
        &mut self,
        repo: &GitRepo,
        tree: &GitObjectId,
        parents: &Vec<GitObjectId>,
        message: &[u8],
    ) -> Result<GitObjectId, RustGitError> {
        let tree_exists = self.object_exists(repo, tree);
        let parents_exist: Vec<bool> = parents.iter().map(|p| self.object_exists(repo, p)).collect();
        let (id, file) =
            repo.write_commit(tree, parents, message, tree_exists, &parents_exist, NOW)?;
        self.write_loose(&file)?;
        Ok(id)
    }

    fn do_commit_tree(
        &mut self,
        command: &CommitTreeCommand,
        repo: &GitRepo,
    ) -> Result<(), RustGitError> {
        let tree_exists = self.object_exists(repo, &command.tree);
        let parents_exist: Vec<bool> =
            command.parents.iter().map(|p| self.object_exists(repo, p)).collect();
        let (id, file) = command.execute(repo, tree_exists, &parents_exist, NOW)?;
        self.write_loose(&file)?;
        self.say(&id.to_text());
        Ok(())
    }

    fn do_commit(&mut self, command: &CommitCommand, repo: &GitRepo) -> Result<(), RustGitError> {
        let (head_branch, head_ref) = self.head(repo)?;
        let (branch, parents) = command.execute(&repo.config, head_branch, head_ref)?;
        let tree_id = self.do_write_tree(repo)?;
        let commit_id = self.write_commit(repo, &tree_id, &parents, &command.message)?;

        let current =
            self.read_optional(&format!("{}/{}", text(&repo.git_dir), text(&branch)))?;
        let current = GitRefs::try_read_ref(current.as_deref());
        let write = repo.update_ref(&branch, commit_id.as_bytes(), None, current.as_deref())?;
        self.write_ref(&write)?;
        self.say(&commit_id.to_text());
        Ok(())
    }

    fn do_update_ref(
        &mut self,
        command: &UpdateRefCommand,
        repo: &GitRepo,
    ) -> Result<(), RustGitError> {
        let path = format!("{}/{}", text(&repo.git_dir), command.args.git_ref);
        let current = self.read_optional(&path)?;
        let current = GitRefs::try_read_ref(current.as_deref());
        let write = command.execute(repo, current.as_deref())?;
        self.write_ref(&write)
    }

    fn do_symbolic_ref(
        &mut self,
        command: &SymbolicRefCommand,
        repo: &GitRepo,
    ) -> Result<(), RustGitError> {
        let git_dir = text(&repo.git_dir);
        match command {
            SymbolicRefCommand::ReadSymbolicRef(read) => {
                let file = self.read_optional(&format!("{}/{}", git_dir, read.ref_name))?;
                let shown = read.execute(GitRefs::get_symbolic_ref(file.as_deref()))?;
                self.print(&shown);
                Ok(())
            }
            SymbolicRefCommand::UpdateSymbolicRef(update) => {
                let write = repo
                    .refs
                    .update_symbolic_ref(update.ref_name.as_bytes(), update.new_value.as_bytes());
                self.write_ref(&write)
            }
            SymbolicRefCommand::DeleteSymbolicRef(delete) => {
                let file = self.read_optional(&format!("{}/{}", git_dir, delete.ref_name))?;
                match repo.refs.delete_symbolic_ref(delete.ref_name.as_bytes(), file.as_deref())? {
                    Some(path) => self.remove_file(&text(&path)),
                    None => Ok(()),
                }
            }
        }
    }

    fn list_names(&mut self, dir: &[u8]) -> Result<(), RustGitError> {
        for name in self.read_dir(&text(dir))? {
            self.say(&name);
        }
        Ok(())
    }

    fn do_branch(&mut self, command: &BranchCommand, repo: &GitRepo) -> Result<(), RustGitError> {
        let there = match command {
            BranchCommand::DeleteBranch(delete) => {
                self.is_there(&text(&repo.refs.branch_path(delete.branch_name.as_bytes())))
            }
            _ => false,
        };
        let (head_branch, head_ref) = match command {
            BranchCommand::CreateBranch(_) | BranchCommand::RenameBranch(_) => self.head(repo)?,
            _ => (None, None),
        };
        match command.execute(&repo.refs, head_branch.as_ref(), head_ref.as_ref(), there)? {
            BranchAction::List => self.list_names(&repo.refs.heads_dir),
            BranchAction::Write(write) => self.write_ref(&write),
            BranchAction::Rename(from, to, head) => {
                self.rename(&text(&from), &text(&to))?;
                self.write_ref(&head)
            }
            BranchAction::Delete(path) => self.remove_file(&text(&path)),
        }
    }

    fn tag(&mut self, command: &TagCommand, repo: &GitRepo) -> Result<(), RustGitError> {
        let tag_name: Option<&String> = match command {
            TagCommand::CreateTag(create) => Some(&create.tag_name),
            TagCommand::DeleteTag(delete) => Some(&delete.tag_name),
            TagCommand::ListTags() => None,
        };
        let tag_exists = match tag_name {
            Some(name) => self.is_there(&text(&repo.refs.tag_path(name.as_bytes()))),
            None => false,
        };
        let head_ref = match command {
            TagCommand::CreateTag(create) if create.object_id.is_none() => self.head(repo)?.1,
            _ => None,
        };
        match command.execute(&repo.refs, tag_exists, head_ref.as_ref())? {
            TagAction::List => self.list_names(&repo.refs.tags_dir),
            TagAction::Delete(path) => self.remove_file(&text(&path)),
            TagAction::Lightweight(write) => self.write_ref(&write),
            TagAction::Annotated(object_id, message) => {
                let target = self.read_object_raw(repo, &object_id)?;
                let name = tag_name.map(|n| n.as_bytes()).unwrap_or(b"");
                let (file, write) =
                    repo.create_annotated_tag(name, &object_id, &message, target.as_ref(), NOW)?;
                self.write_loose(&file)?;
                self.write_ref(&write)
            }
        }
    }

    fn write_tree_obj(
        &mut self,
        command: &SwitchCommand,
        path: &str,
        repo: &GitRepo,
        tree_obj: &GitTreeObject,
    ) -> Result<(), RustGitError> {
        for step in command.write_tree_obj(path.as_bytes(), tree_obj) {
            let object = self.read_object(repo, &step.obj_id)?;
            let new_path = text(&step.path);
            match step.entry_type {
                GitTreeEntryType::Blob => {
                    let contents = SwitchCommand::write_blob_obj(object)?;
                    self.write(&new_path, &contents)?;
                }
                GitTreeEntryType::Tree => {
                    let tree = SwitchCommand::expect_tree(object)?;
                    if !self.is_dir(&new_path) {
                        self.create_dir(&new_path)?;
                    }
                    self.write_tree_obj(command, &new_path, repo, &tree)?;
                }
            }
        }
        Ok(())
    }

    fn switch(&mut self, command: &SwitchCommand, repo: &GitRepo) -> Result<(), RustGitError> {
        let ref_file = self.read_optional(&text(&command.ref_path(&repo.refs)))?;
        let commit_id = command.commit_id(GitRepo::get_ref(ref_file.as_deref()))?;
        let commit_obj = command.expect_commit(self.read_object(repo, &commit_id)?)?;
        let root_tree_obj =
            SwitchCommand::expect_tree(self.read_object(repo, &commit_obj.tree_id)?)?;
        self.write_tree_obj(command, &text(&repo.root_dir), repo, &root_tree_obj)?;
        let write = command.execute(&repo.refs);
        self.write_ref(&write)
    }
}

// ---- command lines ----

/// The words of a command line after the command's name: the switches
/// that were given, the options with their values, and the rest.
struct Words {
    switches: Vec<String>,
    options: Vec<(String, String)>,
    rest: Vec<String>,
}

impl Words {
    fn has(&self, name: &str) -> bool {
        self.switches.iter().any(|s| s == name)
    }

    fn all(&self, name: &str) -> Vec<String> {
        self.options.iter().filter(|(n, _)| n == name).map(|(_, v)| v.clone()).collect()
    }

    fn one(&self, name: &str) -> Option<String> {
        self.all(name).pop()
    }

    fn rest_at(&self, at: usize) -> Option<String> {
        self.rest.get(at).cloned()
    }

    fn at_most(&self, n: usize) -> Result<(), String> {
        if self.rest.len() > n {
            return Err(format!("unexpected argument '{}'", self.rest[n]));
        }
        Ok(())
    }

    fn needed(&self, at: usize, what: &str) -> Result<String, String> {
        self.rest_at(at).ok_or(format!("the argument <{what}> is missing"))
    }
}

/// Reads the words against the switches and the options that a command
/// knows. Each is given with its other spellings, the first being its name.
fn words(args: &[&str], switches: &[&[&str]], options: &[&[&str]]) -> Result<Words, String> {
    let mut read = Words { switches: Vec::new(), options: Vec::new(), rest: Vec::new() };
    let mut at = 0;
    while at < args.len() {
        let word = args[at];
        at += 1;
        if !word.starts_with('-') || word.len() < 2 {
            read.rest.push(String::from(word));
            continue;
        }
        let (name, value) = match word.find('=') {
            Some(eq) => (&word[..eq], Some(&word[eq + 1..])),
            None => (word, None),
        };
        if let Some(known) = switches.iter().find(|s| s.contains(&name)) {
            if value.is_some() {
                return Err(format!("unexpected value for '{name}'"));
            }
            read.switches.push(String::from(known[0]));
        } else if let Some(known) = options.iter().find(|s| s.contains(&name)) {
            let value = match value {
                Some(value) => value,
                None if at < args.len() => {
                    at += 1;
                    args[at - 1]
                }
                None => return Err(format!("a value is required for '{name}'")),
            };
            read.options.push((String::from(known[0]), String::from(value)));
        } else {
            return Err(format!("unexpected argument '{name}'"));
        }
    }
    Ok(read)
}

fn init_line(args: &[&str]) -> Result<CliCommand, String> {
    let w = words(
        args,
        &[&["--quiet", "-q"], &["--bare"]],
        &[
            &["--template"],
            &["--separate-git-dir"],
            &["--object-format"],
            &["--initial-branch", "-b"],
            &["--shared"],
        ],
    )?;
    w.at_most(1)?;
    let object_format = match w.one("--object-format").as_deref() {
        None | Some("sha1") => HashAlgorithm::Sha1,
        Some("sha256") => HashAlgorithm::Sha256,
        Some(other) => return Err(format!("unknown object format {other}")),
    };
    let shared = match w.one("--shared") {
        Some(flag) => rust_git::commands::init::parse_init_permission(&flag)?,
        None => InitPermissionFlag::Group,
    };
    Ok(CliCommand::Init(InitArgs {
        quiet: w.has("--quiet"),
        bare: w.has("--bare"),
        template: w.one("--template"),
        separate_git_dir: w.one("--separate-git-dir"),
        object_format,
        initial_branch: w.one("--initial-branch").unwrap_or(String::from("main")),
        shared,
        directory: w.rest_at(0),
    }))
}

fn add_line(args: &[&str]) -> Result<CliCommand, String> {
    let w = words(args, &[&["--dry-run", "-n"], &["--verbose", "-v"], &["--force", "-f"]], &[])?;
    w.at_most(1)?;
    Ok(CliCommand::Add(AddArgs {
        pathspec: w.rest_at(0),
        dry_run: w.has("--dry-run"),
        verbose: w.has("--verbose"),
        force: w.has("--force"),
        sparse: false,
        interactive: false,
        patch: false,
        edit: false,
        update: false,
        no_ignore_removal: false,
        ignore_removal: false,
        intent_to_add: false,
        refresh: false,
        ignore_errors: false,
        ignore_missing: false,
        no_warn_embedded_repo: false,
        renormalize: false,
        chmod: None,
        pathspec_from_file: None,
        pathspec_file_nul: false,
    }))
}

fn hash_object_line(args: &[&str]) -> Result<CliCommand, String> {
    let w = words(
        args,
        &[&["-w"], &["--stdin"], &["--stdin-paths"], &["--no-filters"], &["--literally"]],
        &[&["-t"], &["--path"]],
    )?;
    let object_type = match w.one("-t").as_deref() {
        None | Some("blob") => GitObjectType::Blob,
        Some("commit") => GitObjectType::Commit,
        Some("tree") => GitObjectType::Tree,
        Some("tag") => GitObjectType::Tag,
        Some(other) => return Err(format!("unknown object type {other}")),
    };
    Ok(CliCommand::HashObject(HashObjectArgs {
        object_type,
        write: w.has("-w"),
        stdin: w.has("--stdin"),
        stdin_paths: w.has("--stdin-paths"),
        path: w.one("--path"),
        no_filters: w.has("--no-filters"),
        literally: w.has("--literally"),
        files: w.rest.clone(),
    }))
}

fn cat_file_line(args: &[&str]) -> Result<CliCommand, String> {
    let w = words(args, &[&["-t"], &["-s"], &["-e"], &["-p"], &["--batch"]], &[])?;
    w.at_most(2)?;
    if w.switches.iter().filter(|s| *s != "--batch").count() > 1 {
        return Err(String::from("the modes cannot be used together"));
    }
    Ok(CliCommand::CatFile(CatFileArgs {
        mode: CatFileMode {
            show_type: w.has("-t"),
            show_size: w.has("-s"),
            check: w.has("-e"),
            print: w.has("-p"),
        },
        batch: w.has("--batch"),
        input: w.rest.clone(),
    }))
}

fn ls_files_line(args: &[&str]) -> Result<CliCommand, String> {
    let w = words(
        args,
        &[
            &["--cached", "-c"],
            &["--deleted", "-d"],
            &["--modified", "-m"],
            &["--others", "-o"],
            &["--ignored", "-i"],
            &["--stage", "-s"],
            &["--debug"],
        ],
        &[],
    )?;
    w.at_most(0)?;
    Ok(CliCommand::LsFiles(LsFilesArgs {
        cached: w.has("--cached"),
        deleted: w.has("--deleted"),
        modified: w.has("--modified"),
        others: w.has("--others"),
        ignored: w.has("--ignored"),
        stage: w.has("--stage"),
        debug: w.has("--debug"),
    }))
}

fn rm_line(args: &[&str]) -> Result<CliCommand, String> {
    let w = words(
        args,
        &[
            &["--force", "-f"],
            &["--dry-run", "-n"],
            &["--cached"],
            &["--ignore-unmatch"],
            &["--quiet", "-q"],
        ],
        &[],
    )?;
    Ok(CliCommand::Rm(RmArgs {
        files: w.rest.clone(),
        force: w.has("--force"),
        quiet: w.has("--quiet"),
        ignore_unmatch: w.has("--ignore-unmatch"),
        dry_run: w.has("--dry-run"),
        cached: w.has("--cached"),
    }))
}

fn mv_line(args: &[&str]) -> Result<CliCommand, String> {
    let w = words(
        args,
        &[&["--force", "-f"], &["-k"], &["--dry-run", "-n"], &["--verbose", "-v"]],
        &[],
    )?;
    Ok(CliCommand::Mv(MvArgs {
        files: w.rest.clone(),
        force: w.has("--force"),
        skip: w.has("-k"),
        dry_run: w.has("--dry-run"),
        verbose: w.has("--verbose"),
    }))
}

fn commit_tree_line(args: &[&str]) -> Result<CliCommand, String> {
    let w = words(args, &[], &[&["-p"], &["-m"]])?;
    w.at_most(1)?;
    Ok(CliCommand::CommitTree(CommitTreeArgs {
        tree: w.needed(0, "tree")?,
        parents: w.all("-p"),
        messages: w.all("-m"),
    }))
}

fn update_ref_line(args: &[&str]) -> Result<CliCommand, String> {
    let w = words(args, &[], &[])?;
    w.at_most(3)?;
    Ok(CliCommand::UpdateRef(UpdateRefArgs {
        git_ref: w.needed(0, "ref")?,
        new_value: w.needed(1, "new-value")?,
        old_value: w.rest_at(2),
    }))
}

fn symbolic_ref_line(args: &[&str]) -> Result<CliCommand, String> {
    let w = words(args, &[&["--delete", "-d"], &["--quiet", "-q"], &["--short"]], &[])?;
    w.at_most(2)?;
    Ok(CliCommand::SymbolicRef(SymbolicRefArgs {
        ref_name: w.needed(0, "name")?,
        new_value: w.rest_at(1),
        delete: w.has("--delete"),
        quiet: w.has("--quiet"),
        short: w.has("--short"),
    }))
}

fn branch_line(args: &[&str]) -> Result<CliCommand, String> {
    let w = words(args, &[&["--delete", "-d"], &["--move", "-m"]], &[])?;
    w.at_most(2)?;
    Ok(CliCommand::Branch(BranchArgs {
        branch_name: w.rest_at(0),
        new_branch: w.rest_at(1),
        delete: w.has("--delete"),
        move_flag: w.has("--move"),
    }))
}

fn tag_line(args: &[&str]) -> Result<CliCommand, String> {
    let w = words(args, &[&["--force", "-f"], &["--delete", "-d"]], &[&["--message", "-m"]])?;
    w.at_most(2)?;
    Ok(CliCommand::Tag(TagArgs {
        tag_name: w.rest_at(0),
        object: w.rest_at(1),
        force: w.has("--force"),
        delete: w.has("--delete"),
        message: w.one("--message"),
    }))
}

/// The command line as the values that the library takes. The words before
/// the command's name are the options of the program itself.
fn command_line(args: &[&str]) -> Result<Cli, String> {
    let mut at = 0;
    while at < args.len() && args[at].starts_with('-') {
        at += 1;
    }
    let before = words(&args[..at], &[], &[&["--git-dir"], &["--work-tree"]])?;
    let name = *args.get(at).ok_or(String::from("a command is required"))?;
    let after = &args[at + 1..];
    let command = match name {
        "init" => init_line(after)?,
        "add" => add_line(after)?,
        "hash-object" => hash_object_line(after)?,
        "cat-file" => cat_file_line(after)?,
        "ls-files" => ls_files_line(after)?,
        "rm" => rm_line(after)?,
        "mv" => mv_line(after)?,
        "restore" => CliCommand::Restore(RestoreArgs { files: words(after, &[], &[])?.rest }),
        "write-tree" => {
            words(after, &[], &[])?.at_most(0)?;
            CliCommand::WriteTree(WriteTreeArgs { missing_ok: false, prefix: None })
        }
        "commit-tree" => commit_tree_line(after)?,
        "update-ref" => update_ref_line(after)?,
        "symbolic-ref" => symbolic_ref_line(after)?,
        "commit" => {
            let w = words(after, &[], &[&["--message", "-m"]])?;
            w.at_most(0)?;
            CliCommand::Commit(CommitArgs { messages: w.all("--message") })
        }
        "branch" => branch_line(after)?,
        "switch" => {
            let w = words(after, &[], &[])?;
            w.at_most(1)?;
            CliCommand::Switch(SwitchArgs { branch: w.needed(0, "branch")? })
        }
        "tag" => tag_line(after)?,
        other => return Err(format!("unrecognized subcommand '{other}'")),
    };
    Ok(Cli { git_dir: before.one("--git-dir"), work_tree: before.one("--work-tree"), command })
}

// ---- the tests ----

#[test]
fn should_add_files_to_index() {
    let mut w = World::new();
    w.create_test_file("test.txt", b"test");
    w.create_test_file("test2.txt", b"test2");
    w.create_test_dir("test_dir");
    w.create_test_file("test_dir/test_in_dir.txt", b"test_in_dir");

    w.init();

    w.run(&["add", "test.txt", "test2.txt", "test_dir"]).success();

    let ls_files_output = w.ls_files();
    assert_eq!(ls_files_output, "test.txt
test2.txt
test_dir/test_in_dir.txt")
}

#[test]
fn should_add_file_to_index_from_nested_dir() {
    let mut w = World::new();
    w.create_test_dir("test_dir");
    w.create_test_file("test_dir/test_in_dir.txt", b"test_in_dir");

    w.init();

    w.run_in("test_dir", &["add", "test_in_dir.txt"]).success();

    let ls_files_output = w.ls_files();
    assert_eq!(ls_files_output, "test_dir/test_in_dir.txt")
}

#[test]
fn should_add_file_from_upper_directory() {
    let mut w = World::new();
    w.create_test_dir("test_dir");
    w.create_test_file("test.txt", b"test");
    w.create_test_file("test_dir/test_in_dir.txt", b"test_in_dir");

    w.init();

    w.run_in("test_dir", &["add", "../test.txt"]).success();

    let ls_files_output = w.ls_files();
    assert_eq!(ls_files_output, "test.txt")
}

#[test]
fn should_fail_to_add_file_from_outside_repo() {
    let mut w = World::new();
    w.create_test_file("test.txt", b"test");

    w.init_in_dir("my_proj");

    w.run_in("my_proj", &["add", "../test.txt"]).failure().stderr("path \"../test.txt\" is outside of repo");
}

#[test]
fn should_create_read_update_and_delete_branch() {
    let mut w = World::new();
    w.create_test_file("test.txt", b"test");
    w.init();
    w.write_config(
        b"
[user]
name = \"Test User\"
email = \"test@user.com\"",
    );

    w.add("test.txt");
    let commit_obj_id = w.commit("Test commit");

    // Create branch.
    w.run(&["branch", "my-new-branch"]).success();

    w.assert_ref_file("refs/heads/my-new-branch", &commit_obj_id);
    w.run(&["branch"]).success().stdout("my-new-branch\nmain\n");

    // Delete branch.
    w.run(&["branch", "--delete", "my-new-branch"]).success();

    // Ref file deleted.
    w.assert_no_ref_file("refs/heads/my-new-branch");

    // List branches.
    w.run(&["branch"]).success().stdout("main\n");
}

#[test]
fn should_return_content_for_object_and_type() {
    let mut w = World::new();
    w.init();

    let content = "test";
    let obj_id = w.hash_object(content);

    w.run(&["cat-file", "blob", &obj_id]).success().stdout(format!("{content}"));
}

#[test]
fn should_return_content_for_object_with_print_flag() {
    let mut w = World::new();
    w.init();

    let content = "test";
    let obj_id = w.hash_object(content);

    w.run(&["cat-file", "-p", &obj_id]).success().stdout(format!("{content}"));
}

#[test]
fn should_return_type_for_object_with_type_flag() {
    let mut w = World::new();
    w.init();

    let content = "test";
    let obj_id = w.hash_object(content);

    w.run(&["cat-file", "-t", &obj_id]).success().stdout(format!("blob"));
}

#[test]
fn should_return_size_for_object_with_size_flag() {
    let mut w = World::new();
    w.init();

    let content = "test";
    let obj_id = w.hash_object(content);

    w.run(&["cat-file", "-s", &obj_id]).success().stdout(format!("4"));
}

#[test]
fn should_return_info_for_multiple_objects_in_batch_mode() {
    let mut w = World::new();
    w.init();

    let content1 = "test1";
    let obj_id1 = w.hash_object(content1);

    let content2 = "test2";
    let obj_id2 = w.hash_object(content2);

    let content3 = "test3";
    let obj_id3 = w.hash_object(content3);

    w.run_on(format!("{obj_id1}\n{obj_id2}\n{obj_id3}"), &["cat-file", "--batch"]).success().stdout(format!("{obj_id1} blob 5\n{content1}\n\n{obj_id2} blob 5\n{content2}\n\n{obj_id3} blob 5\n{content3}\n\n"));
}

#[test]
fn should_return_success_exit_code_for_object_with_check_flag() {
    let mut w = World::new();
    w.init();

    let content = "test";
    let obj_id = w.hash_object(content);

    w.run(&["cat-file", "-e", &obj_id]).success();
}

#[test]
fn should_return_failure_status_code_with_check_flag_and_missing_object() {
    let mut w = World::new();
    w.init();
    let obj_id = "not-an-object-id";

    w.run(&["cat-file", "-e", &obj_id]).failure().stderr(format!("object {obj_id} not found"));
}
 

#[test]
fn should_return_error_emssage_when_user_config_unset() {
    let mut w = World::new();
    w.create_test_file("test.txt", b"test");
    w.init();
    w.add("test.txt");
    let tree_obj_id = w.write_tree();

    w.run(&["commit-tree", &tree_obj_id, "-m", "Test commit"]).failure().stderr_starts_with("*** Please tell me who you are.");
}

#[test]
fn should_return_error_message_for_missing_commit_message() {
    let mut w = World::new();
    w.create_test_file("test.txt", b"test");

    w.init();
    w.write_config(
        b"
[user]
name = \"Test User\"
email = \"test@user.com\"",
    );

    w.add("test.txt");
    let tree_obj_id = w.write_tree();

    w.run(&["commit-tree", &tree_obj_id]).failure().stderr("commit message cannot be empty");
}

#[test]
fn should_commit_tree_object_to_repo() {
    let mut w = World::new();
    w.create_test_file("test.txt", b"test");
    w.create_test_file("test2.txt", b"test2");
    w.create_test_dir("test_dir");
    w.create_test_file("test_dir/test_in_dir.txt", b"test_in_dir");

    w.init();
    w.write_config(
        b"
[user]
name = \"Test User\"
email = \"test@user.com\"",
    );

    w.add("test.txt test2.txt test_dir");
    let tree_obj_id = w.write_tree();

    let cmd = w.run(&["commit-tree", &tree_obj_id, "-m", "Test commit"]);

    let commit_id = String::from(cmd.stdout.trim());

    cmd.success();

    let cat_file_type = w.cat_file("-t", &commit_id);

    assert_eq!(cat_file_type, "commit");

    let cat_file_content = w.cat_file("-p", &commit_id);
    let file_content_lines: Vec<&str> = cat_file_content.split("\n").collect();

    let line1: &str = file_content_lines[0];
    let line2: &str = file_content_lines[1];
    let line3: &str = file_content_lines[2];
    let line4: &str = file_content_lines[3];
    let line5: &str = file_content_lines[4];

    assert_eq!(line1, "tree 03f9b0b16745d6529b86f7e7cf12bb0a254b6b8e");
    assert!(line2.starts_with("author Test User <test@user.com>"));
    assert!(line3.starts_with("committer Test User <test@user.com>"));
    assert_eq!(line4, "");
    assert_eq!(line5, "Test commit");
}

#[test]
fn should_return_and_write_expected_hash_from_stdin() {
    let mut w = World::new();
    w.init();

    w.run_on("test", &["hash-object", "--stdin", "-w"]).success().stdout("30d74d258442c7c65512eafab474568dd706c430\n");

    w.assert_obj_file("30d74d258442c7c65512eafab474568dd706c430", "blob 4\0test");
}

#[test]
fn should_not_write_if_flag_missing() {
    let mut w = World::new();
    w.init();

    w.run_on("test", &["hash-object", "--stdin"]).success().stdout("30d74d258442c7c65512eafab474568dd706c430\n");

    w.assert_no_obj_file("30d74d258442c7c65512eafab474568dd706c430");
}

#[test]
fn should_return_and_write_expected_hash_from_files() {
    let mut w = World::new();
    w.init();

    let test_file_name1 = "test-file-1.txt";
    w.create_test_file(test_file_name1, b"test1");
    let test_file_name2 = "test-file-2.txt";
    w.create_test_file(test_file_name2, b"test2");

    w.run(&["hash-object", "-w", &test_file_name1, &test_file_name2]).success().stdout("f079749c42ffdcc5f52ed2d3a6f15b09307e975e\nd606037cb232bfda7788a8322492312d55b2ae9d\n");

    w.assert_obj_file("f079749c42ffdcc5f52ed2d3a6f15b09307e975e", "blob 5\0test1");
    w.assert_obj_file("d606037cb232bfda7788a8322492312d55b2ae9d", "blob 5\0test2");
}

#[test]
fn should_return_and_write_expected_hash_from_stdin_paths() {
    let mut w = World::new();
    w.init();

    let test_file_name1 = "test-file-1.txt";
    w.create_test_file(test_file_name1, b"test1");
    let test_file_name2 = "test-file-2.txt";
    w.create_test_file(test_file_name2, b"test2");

    w.run_on(format!("{test_file_name1}\n{test_file_name2}"), &["hash-object", "-w", "--stdin-paths"]).success().stdout("f079749c42ffdcc5f52ed2d3a6f15b09307e975e\nd606037cb232bfda7788a8322492312d55b2ae9d\n");

    w.assert_obj_file("f079749c42ffdcc5f52ed2d3a6f15b09307e975e", "blob 5\0test1");
    w.assert_obj_file("d606037cb232bfda7788a8322492312d55b2ae9d", "blob 5\0test2");
}

#[test]
fn should_fail_if_unsupported_options_provided() {
    let mut w = World::new();
    w.init();

    w.assert_unsupported_option("hash-object", vec!["--no-filters"]);
    w.assert_unsupported_option("hash-object", vec!["--path", "my-path"]);
    w.assert_unsupported_option("hash-object", vec!["--literally"]);
}
#[test]
fn should_return_failure_if_no_git_repo_found() {
    let mut w = World::new();

    w.run_on("test", &["hash-object", "--stdin"]).failure().stderr(format!("not a git repository (or any of the parent directories): {TOP:?}"));
}
 

fn assert_git_init_files(w: &World, git_dir: &str, expected_head: Option<&str>) {
    let expected_head = format!("ref: refs/heads/{}", expected_head.unwrap_or("main"));
    w.assert_exists(git_dir);

    w.assert_exists(&format!("{git_dir}/objects"));
    w.assert_exists(&format!("{git_dir}/objects/info"));
    w.assert_exists(&format!("{git_dir}/objects/pack"));
    w.assert_exists(&format!("{git_dir}/info"));
    w.assert_exists(&format!("{git_dir}/hooks"));
    w.assert_exists(&format!("{git_dir}/refs"));
    w.assert_exists(&format!("{git_dir}/refs/heads"));
    w.assert_exists(&format!("{git_dir}/refs/tags"));

    w.assert_contents(&format!("{git_dir}/HEAD"), &expected_head);

    w.assert_exists(&format!("{git_dir}/config"));
}

#[test]
fn should_create_expected_dirs() {
    let mut w = World::new();

    let cmd = w.run(&["init"]);

    let git_dir_display = w.child(".git");

    cmd.success().stdout(format!("Initialized empty Git repository in {git_dir_display}\n"));

    assert_git_init_files(&w, ".git", None);
}

#[test]
fn should_create_expected_files_with_custom_initial_branch() {
    let mut w = World::new();

    let cmd = w.run(&["init", "-b=my-branch"]);

    let git_dir_display = w.child(".git");

    cmd.success().stdout(format!("Initialized empty Git repository in {git_dir_display}\n"));

    assert_git_init_files(&w, ".git", Some("my-branch"));
}

#[test]
fn should_create_expected_dirs_with_directory_specified() {
    let mut w = World::new();

    let cmd = w.run(&["init", "my_project"]);

    let git_dir_display = w.child("my_project/.git");

    cmd.success().stdout(format!("Initialized empty Git repository in {git_dir_display}\n"));

    w.assert_exists("my_project");
    assert_git_init_files(&w, "my_project/.git", None);
}

#[test]
fn should_create_expected_dirs_with_directory_specified_nested() {
    let mut w = World::new();

    let cmd = w.run(&["init", "my/great/project"]);

    let git_dir_display = w.child("my/great/project/.git");

    cmd.success().stdout(format!("Initialized empty Git repository in {git_dir_display}\n"));

    w.assert_exists("my/great/project");
    assert_git_init_files(&w, "my/great/project/.git", None);
}

#[test]
fn should_create_expected_dirs_when_already_exists() {
    let mut w = World::new();
    w.create_dir(&w.child("my_project")).unwrap();

    let cmd = w.run(&["init", "my_project"]);

    let git_dir_display = w.child("my_project/.git");

    cmd.success().stdout(format!("Initialized empty Git repository in {git_dir_display}\n"));

    w.assert_exists("my_project");
    assert_git_init_files(&w, "my_project/.git", None);
}

#[test]
fn should_create_expected_dirs_with_bare() {
    let mut w = World::new();

    let cmd = w.run(&["init", "--bare"]);

    let git_dir_display = String::from(TOP);

    cmd.success().stdout(format!("Initialized empty Git repository in {git_dir_display}\n"));

    assert_git_init_files(&w, ".", None);
}

#[test]
fn should_create_expected_dirs_with_custom_git_dir() {
    let mut w = World::new();

    let cmd = w.run(&["--git-dir=.my-custom-git-dir", "init"]);

    let git_dir_display = w.child(".my-custom-git-dir");

    cmd.success().stdout(format!("Initialized empty Git repository in {git_dir_display}\n"));

    assert_git_init_files(&w, ".my-custom-git-dir", None);
}

#[test]
fn should_fail_if_already_exists() {
    let mut w = World::new();
    w.create_dir(&w.child(".git")).unwrap();

    w.run(&["init"]).failure();
}

#[test]
fn should_fail_if_separate_git_repository_provided() {
    let mut w = World::new();

    w.run(&["init", "--separate-git-repository=../test"]).failure();
}

#[test]
fn should_fail_if_template_provided() {
    let mut w = World::new();

    w.run(&["init", "--template=test"]).failure();
}

#[test]
fn should_fail_if_shared_provided_with_non_default() {
    let mut w = World::new();

    w.run(&["init", "--shared=umask"]).failure();
}

#[test]
fn should_fail_if_work_tree_set_without_git_dir() {
    let mut w = World::new();

    w.run(&["--work-tree ./test", "init"]).failure();
}

#[test]
fn should_fail_if_bare_and_work_tree_set() {
    let mut w = World::new();

    w.run(&["--work-tree test", "init", "--bare"]).failure();
}

#[test]
fn should_show_basic_details_for_staged_files() {
    let mut w = World::new();
    w.create_test_file("test.txt", b"test");
    w.create_test_file("test2.txt", b"test2");
    w.create_test_dir("test_dir");
    w.create_test_file("test_dir/test_in_dir.txt", b"test_in_dir");

    w.init();
    w.add("test.txt test2.txt test_dir");

    w.run(&["ls-files"]).success().stdout("test.txt
test2.txt
test_dir/test_in_dir.txt
");
}

#[test]
fn should_show_additional_details_with_stage_flag() {
    let mut w = World::new();
    w.create_test_file("test.txt", b"test");
    w.create_test_file("test2.txt", b"test2");
    w.create_test_dir("test_dir");
    w.create_test_file("test_dir/test_in_dir.txt", b"test_in_dir");

    w.init();
    w.add("test.txt test2.txt test_dir");

    w.run(&["ls-files", "-s"]).success().stdout("100644 30d74d258442c7c65512eafab474568dd706c430 0\ttest.txt
100644 d606037cb232bfda7788a8322492312d55b2ae9d 0\ttest2.txt
100644 27961cd8c28d3fd780672e10e8c7c25d6eee10ee 0\ttest_dir/test_in_dir.txt
");
}

fn get_expected_debug_output(w: &World, file: &str) -> String {
    let (stat, _) = w.stat(&w.child(file)).unwrap();
    return format!("  ctime: {}:{}
  mtime: {}:{}
  dev: {}\tino: {}
  uid: {}\tgid: {}
  size: {}\tflags: 0",
  stat.ctime, stat.ctime_nsec,
  stat.mtime, stat.mtime_nsec,
  stat.dev, stat.ino,
  stat.uid, stat.gid,
  stat.size)
}

#[test]
fn should_show_additional_details_with_debug_flag() {
    let mut w = World::new();
    w.create_test_file("test.txt", b"test");
    w.create_test_file("test2.txt", b"test2");
    w.create_test_dir("test_dir");
    w.create_test_file("test_dir/test_in_dir.txt", b"test_in_dir");

    w.init();
    w.add("test.txt test2.txt test_dir");

    w.run(&["ls-files", "--debug"]).success().stdout(format!("test.txt
{}
test2.txt
{}
test_dir/test_in_dir.txt
{}
", get_expected_debug_output(&w, "test.txt"),
get_expected_debug_output(&w, "test2.txt"),
get_expected_debug_output(&w, "test_dir/test_in_dir.txt")));
}

#[test]
fn should_rename_file_in_index_and_working_directory() {
    let mut w = World::new();
    w.create_test_file("test.txt", b"test");

    w.init();
    w.add("test.txt");

    w.run(&["mv", "test.txt", "renamed_test.txt"]).success().stdout("");

    let ls_files_output = w.ls_files();
    assert_eq!(ls_files_output, "renamed_test.txt");

    w.assert_missing("test.txt");
    w.assert_exists("renamed_test.txt");
}

#[test]
fn should_move_file_into_directory() {
    let mut w = World::new();
    w.create_test_file("test.txt", b"test");
    w.create_test_dir("test_dir");

    w.init();
    w.add("test.txt");

    w.run(&["mv", "test.txt", "test_dir"]).success().stdout("");

    let ls_files_output = w.ls_files();
    assert_eq!(ls_files_output, "test_dir/test.txt");

    w.assert_missing("test.txt");
    w.assert_exists("test_dir/test.txt");
}

#[test]
fn should_rename_directory() {
    let mut w = World::new();
    w.create_test_dir("test_dir");
    w.create_test_file("test_dir/test.txt", b"test");

    w.init();
    w.add("test_dir/test.txt");

    w.run(&["mv", "test_dir", "renamed_test_dir"]).success().stdout("");

    let ls_files_output = w.ls_files();
    assert_eq!(ls_files_output, "renamed_test_dir/test.txt");

    w.assert_exists("renamed_test_dir/test.txt");
}

#[test]
fn should_move_directory_into_directory() {
    let mut w = World::new();
    w.create_test_dir("test_dir");
    w.create_test_file("test_dir/test.txt", b"test");
    w.create_test_dir("another_dir");

    w.init();
    w.add("test_dir/test.txt");

    w.run(&["mv", "test_dir", "another_dir"]).success().stdout("");

    let ls_files_output = w.ls_files();
    assert_eq!(ls_files_output, "another_dir/test_dir/test.txt");

    w.assert_missing("test_dir");
    w.assert_exists("another_dir/test_dir/test.txt");
}

#[test]
fn should_move_multiple_inputs_into_directory() {
    let mut w = World::new();
    w.create_test_dir("test_dir");
    w.create_test_file("test_dir/test.txt", b"test");
    w.create_test_file("test2.txt", b"test2");
    w.create_test_file("test3.txt", b"test3");
    w.create_test_dir("another_dir");

    w.init();
    w.add("test_dir/test.txt");
    w.add("test2.txt");
    w.add("test3.txt");

    w.run(&["mv", "test_dir", "test2.txt", "test3.txt", "another_dir"]).success().stdout("");

    let ls_files_output = w.ls_files();
    assert_eq!(ls_files_output, "another_dir/test2.txt
another_dir/test3.txt
another_dir/test_dir/test.txt");

    w.assert_missing("test_dir");
    w.assert_missing("test2.txt");
    w.assert_missing("test3.txt");
    w.assert_exists("another_dir/test_dir/test.txt");
    w.assert_exists("another_dir/test2.txt");
    w.assert_exists("another_dir/test3.txt");
}

#[test]
fn should_fail_to_overwrite_file_without_force_flag() {
    let mut w = World::new();
    w.create_test_file("test.txt", b"test");
    w.create_test_file("renamed_test.txt", b"test");

    w.init();
    w.add("test.txt");

    w.run(&["mv", "test.txt", "renamed_test.txt"]).failure().stderr("cannot overwrite, source=\"test.txt\", destination=\"renamed_test.txt\"");
}

#[test]
fn should_overwrite_file_with_force_flag() {
    let mut w = World::new();
    w.create_test_file("test.txt", b"test");
    w.create_test_file("renamed_test.txt", b"other_test");

    w.init();
    w.add("test.txt");

    w.run(&["mv", "-f", "test.txt", "renamed_test.txt"]).success().stdout("");

    w.assert_missing("test.txt");
    w.assert_exists("renamed_test.txt");
    w.assert_contents("renamed_test.txt", "test");
}

#[test]
fn should_not_change_anything_with_dry_run_flag() {
    let mut w = World::new();
    w.create_test_file("test.txt", b"test");

    w.init();
    w.add("test.txt");

    w.run(&["mv", "--dry-run", "test.txt", "renamed_test.txt"]).success().stdout("Checking rename of \"test.txt\" to \"renamed_test.txt\"
Renaming \"test.txt\" to \"renamed_test.txt\"
");

    let ls_files_output = w.ls_files();
    assert_eq!(ls_files_output, "test.txt");

    w.assert_exists("test.txt");
    w.assert_missing("renamed_test.txt");
}

#[test]
fn should_include_details_with_verbose_flag() {
    let mut w = World::new();
    w.create_test_file("test.txt", b"test");

    w.init();
    w.add("test.txt");

    w.run(&["mv", "--verbose", "test.txt", "renamed_test.txt"]).success().stdout("Renaming \"test.txt\" to \"renamed_test.txt\"
");

    let ls_files_output = w.ls_files();
    assert_eq!(ls_files_output, "renamed_test.txt");

    w.assert_missing("test.txt");
    w.assert_exists("renamed_test.txt");
}

#[test]
fn should_fail_on_first_error_without_skip_flag() {
    let mut w = World::new();
    w.create_test_file("test.txt", b"test");
    w.create_test_dir("test_dir");

    w.init();
    w.add("test.txt");

    // The first file does not exist.
    w.run(&["mv", "test2.txt", "test.txt", "test_dir"]).failure().stderr("bad source, source=\"test2.txt\", destination=\"test_dir\"");

    let ls_files_output = w.ls_files();
    assert_eq!(ls_files_output, "test.txt");

    w.assert_exists("test.txt");
    w.assert_missing("test_dir/test.txt");
}

#[test]
fn should_skip_errors_with_skip_flag() {
    let mut w = World::new();
    w.create_test_file("test.txt", b"test");
    w.create_test_dir("test_dir");

    w.init();
    w.add("test.txt");

    // The first file does not exist.
    w.run(&["mv", "-k", "test2.txt", "test.txt", "test_dir"]).success().stdout("");

    let ls_files_output = w.ls_files();
    assert_eq!(ls_files_output, "test_dir/test.txt");

    w.assert_missing("test.txt");
    w.assert_exists("test_dir/test.txt");
}

#[test]
fn should_fail_moving_dir_into_self() {
    let mut w = World::new();
    w.create_test_dir("test_dir");
    w.create_test_file("test_dir/test.txt", b"test");

    w.init();
    w.add("test_dir/test.txt");

    w.run(&["mv", "test_dir", "test_dir"]).failure().stderr("can not move directory into itself, source=\"test_dir\", destination=\"test_dir\"");

    let ls_files_output = w.ls_files();
    assert_eq!(ls_files_output, "test_dir/test.txt");

    w.assert_exists("test_dir/test.txt");
}

#[test]
fn should_fail_moving_dir_over_file() {
    let mut w = World::new();
    w.create_test_dir("test_dir");
    w.create_test_file("test_dir/test.txt", b"test");
    w.create_test_file("other_file.txt", b"test");

    w.init();
    w.add("test_dir/test.txt");

    w.run(&["mv", "test_dir", "other_file.txt"]).failure().stderr("destination already exists, source=\"test_dir\", destination=\"other_file.txt\"");

    let ls_files_output = w.ls_files();
    assert_eq!(ls_files_output, "test_dir/test.txt");

    w.assert_exists("test_dir/test.txt");
}

#[test]
fn should_fail_moving_dir_with_no_tracked_files() {
    let mut w = World::new();
    w.create_test_dir("test_dir");
    w.create_test_file("test_dir/test.txt", b"test");

    w.init();

    w.run(&["mv", "test_dir", "renamed_dir"]).failure().stderr("source directory is empty, source=\"test_dir\", destination=\"renamed_dir\"");

    let ls_files_output = w.ls_files();
    assert_eq!(ls_files_output, "");

    w.assert_exists("test_dir/test.txt");
}

#[test]
fn should_fail_moving_file_to_missing_dir() {
    let mut w = World::new();
    w.create_test_file("test.txt", b"test");

    w.init();
    w.add("test.txt");

    w.run(&["mv", "test.txt", "missing_dir/"]).failure().stderr("destination directory does not exist, source=\"test.txt\", destination=\"missing_dir/\"");

    let ls_files_output = w.ls_files();
    assert_eq!(ls_files_output, "test.txt");

    w.assert_exists("test.txt");
}

#[test]
fn should_fail_moving_untracked_file() {
    let mut w = World::new();
    w.create_test_file("test.txt", b"test");

    w.init();

    w.run(&["mv", "test.txt", "test2.txt"]).failure().stderr("not under version control, source=\"test.txt\", destination=\"test2.txt\"");

    let ls_files_output = w.ls_files();
    assert_eq!(ls_files_output, "");

    w.assert_exists("test.txt");
}

#[test]
fn should_rename_file_in_index_but_removed_from_working_directory() {
    let mut w = World::new();
    w.create_test_file("test.txt", b"test");

    w.init();
    w.add("test.txt");

    w.remove_file(&w.child("test.txt")).unwrap();

    w.run(&["mv", "test.txt", "renamed_test.txt"]).success().stdout("");

    let ls_files_output = w.ls_files();
    assert_eq!(ls_files_output, "renamed_test.txt");

    w.assert_missing("test.txt");
    w.assert_missing("renamed_test.txt");
}

#[test]
fn should_fail_to_overwrite_file_in_index_without_force_flag() {
    let mut w = World::new();
    w.create_test_file("test.txt", b"test");
    w.create_test_file("test2.txt", b"test");

    w.init();
    w.add("test.txt");
    w.add("test2.txt");

    w.remove_file(&w.child("test.txt")).unwrap();

    w.run(&["mv", "test.txt", "test2.txt"]).failure().stderr("destination exists, source=\"test.txt\", destination=\"test2.txt\"");

    let ls_files_output = w.ls_files();
    assert_eq!(ls_files_output, "test.txt
test2.txt");

    w.assert_missing("test.txt");
    w.assert_exists("test2.txt");
}

#[test]
fn should_overwrite_file_in_index_with_force_flag() {
    let mut w = World::new();
    w.create_test_file("test.txt", b"test");
    w.create_test_file("test2.txt", b"test");

    w.init();
    w.add("test.txt");
    w.add("test2.txt");

    w.remove_file(&w.child("test.txt")).unwrap();

    w.run(&["mv", "-f", "test.txt", "test2.txt"]).success().stdout("");

    let ls_files_output = w.ls_files();
    assert_eq!(ls_files_output, "test2.txt");

    w.assert_missing("test.txt");
    w.assert_exists("test2.txt");
}

#[test]
fn should_fail_to_move_missing_file() {
    let mut w = World::new();

    w.init();

    w.run(&["mv", "test.txt", "test2.txt"]).failure().stderr("bad source, source=\"test.txt\", destination=\"test2.txt\"");

    let ls_files_output = w.ls_files();
    assert_eq!(ls_files_output, "");
}

#[test]
fn should_move_file_up_a_folder() {
    let mut w = World::new();
    w.create_test_dir("test_dir");
    w.create_test_file("test_dir/test.txt", b"test");

    w.init();
    w.add("test_dir/test.txt");

    w.run_in("test_dir", &["mv", "test.txt", ".."]).success();

    let ls_files_output = w.ls_files();
    assert_eq!(ls_files_output, "test.txt");

    w.assert_exists("test.txt");
    w.assert_missing("test_dir/test.txt");
}

#[test]
fn should_move_file_around_folders() {
    let mut w = World::new();
    w.create_test_dir("test_dir");
    w.create_test_dir("test_dir2");
    w.create_test_file("test_dir/test.txt", b"test");

    w.init();
    w.add("test_dir/test.txt");

    w.run_in("test_dir", &["mv", "test.txt", "../test_dir2"]).success();

    let ls_files_output = w.ls_files();
    assert_eq!(ls_files_output, "test_dir2/test.txt");

    w.assert_exists("test_dir2/test.txt");
    w.assert_missing("test_dir/test.txt");
}

#[test]
fn should_fail_to_mv_file_to_outside_repo() {
    let mut w = World::new();

    w.init_in_dir("my_proj");
    w.create_test_file("my_proj/test.txt", b"test");

    w.run_in("my_proj", &["mv", "test.txt", ".."]).failure().stderr("path \"..\" is outside of repo");
}

#[test]
fn should_restore_file_from_index() {
    let mut w = World::new();
    let test_file = "test.txt";
    w.create_test_file(test_file, b"original contents");

    w.init();
    w.add("test.txt");

    w.append(test_file, b"updated file");

    w.run(&["restore", "test.txt"]).success();

    w.assert_contents("test.txt", "original contents");
}

#[test]
fn should_restore_directory_from_index() {
    let mut w = World::new();
    w.create_test_dir("test_dir");
    let test_file1 = "test_dir/test.txt";
    w.create_test_file(test_file1, b"original contents");
    let test_file2 = "test_dir/test2.txt";
    w.create_test_file(test_file2, b"original contents 2");

    w.init();
    w.add("test_dir");

    w.append(test_file1, b"updated file 1");
    w.append(test_file2, b"updated file 2");

    w.run(&["restore", "test_dir"]).success();

    w.assert_contents("test_dir/test.txt", "original contents");
    w.assert_contents("test_dir/test2.txt", "original contents 2");
}

#[test]
fn should_fail_to_restore_file_outside_repo() {
    let mut w = World::new();

    w.init_in_dir("my_proj");
    w.create_test_file("test.txt", b"test");

    w.run_in("my_proj", &["restore", "../test.txt"]).failure().stderr("path \"../test.txt\" is outside of repo");
}

#[test]
fn should_restore_file_from_upper_directory() {
    let mut w = World::new();
    w.create_test_dir("test_dir");
    let test_file = "test.txt";
    w.create_test_file(test_file, b"original contents");

    w.init();
    w.add("test.txt");

    w.append(test_file, b"updated file 1");

    w.run_in("test_dir", &["restore", "../test.txt"]).success();

    w.assert_contents("test.txt", "original contents");
}

#[test]
fn should_rm_files_from_index_and_working_directory() {
    let mut w = World::new();
    w.create_test_file("test.txt", b"test");
    w.create_test_file("test2.txt", b"test2");

    w.init();
    w.add("test.txt");
    w.add("test2.txt");

    w.run(&["rm", "test.txt", "test2.txt"]).success().stdout("rm 'test.txt'
rm 'test2.txt'
");

    // Use ls-files to check the files are removed from the index.
    let ls_files_output = w.ls_files();
    assert_eq!(ls_files_output, "");

    w.assert_missing("test.txt");
    w.assert_missing("test2.txt");
}

#[test]
fn should_rm_files_only_from_index_with_cached_flag() {
    let mut w = World::new();
    w.create_test_file("test.txt", b"test");
    w.create_test_file("test2.txt", b"test2");

    w.init();
    w.add("test.txt");
    w.add("test2.txt");

    w.run(&["rm", "--cached", "test.txt", "test2.txt"]).success().stdout("rm 'test.txt'
rm 'test2.txt'
");

    // Use ls-files to check the files are removed from the index.
    let ls_files_output = w.ls_files();
    assert_eq!(ls_files_output, "");

    w.assert_exists("test.txt");
    w.assert_exists("test2.txt");
}

#[test]
fn should_produce_no_output_with_quiet_flag() {
    let mut w = World::new();
    w.create_test_file("test.txt", b"test");
    w.create_test_file("test2.txt", b"test2");

    w.init();
    w.add("test.txt");
    w.add("test2.txt");

    w.run(&["rm", "--quiet", "test.txt", "test2.txt"]).success().stdout("");

    // Use ls-files to check the files are removed from the index.
    let ls_files_output = w.ls_files();
    assert_eq!(ls_files_output, "");

    w.assert_missing("test.txt");
    w.assert_missing("test2.txt");
}

#[test]
fn should_just_write_output_with_dry_run_flag() {
    let mut w = World::new();
    w.create_test_file("test.txt", b"test");
    w.create_test_file("test2.txt", b"test2");

    w.init();
    w.add("test.txt");
    w.add("test2.txt");

    w.run(&["rm", "--dry-run", "test.txt", "test2.txt"]).success().stdout("rm 'test.txt'
rm 'test2.txt'
");

    // Use ls-files to check the files are not removed from the index.
    let ls_files_output = w.ls_files();
    assert_eq!(ls_files_output, "test.txt
test2.txt");

    w.assert_exists("test.txt");
    w.assert_exists("test2.txt");
}

#[test]
fn should_fail_if_no_matches_for_input() {
    let mut w = World::new();
    w.create_test_file("test.txt", b"test");
    w.create_test_file("test2.txt", b"test2");

    w.init();
    w.add("test.txt");
    w.add("test2.txt");

    w.run(&["rm", "test3.txt"]).failure().code(1).stderr("No files matched for rm");
}

#[test]
fn should_succeed_if_no_matches_with_ignore_unmatch_flag() {
    let mut w = World::new();
    w.create_test_file("test.txt", b"test");
    w.create_test_file("test2.txt", b"test2");

    w.init();
    w.add("test.txt");
    w.add("test2.txt");

    w.run(&["rm", "--ignore-unmatch", "test3.txt"]).success();
}

#[test]
fn should_switch_to_branch() {
    let mut w = World::new();
    let test_file = "test.txt";
    w.create_test_file(test_file, b"test");
    w.create_test_dir("test_dir");
    let nested_test_file = "test_dir/test_in_dir.txt";
    w.create_test_file(nested_test_file, b"test_in_dir");

    w.init();
    w.write_config(
        b"
[user]
name = \"Test User\"
email = \"test@user.com\"",
    );

    w.add("test.txt test_dir");
    w.commit("Test commit");

    // Create branch.
    w.branch("my-new-branch");

    // Switch to new branch
    w.run(&["switch", "my-new-branch"]).success();

    w.assert_ref_file("HEAD", "ref: refs/heads/my-new-branch");

    // Update test files and commit.
    w.append(test_file, b"updated test");
    w.append(nested_test_file, b"updated nested test");
    w.add("test.txt test_dir");
    w.commit("Test commit on new branch");

    // Switch back to main branch.
    w.run(&["switch", "main"]).success();

    w.assert_ref_file("HEAD", "ref: refs/heads/main");
    let file_contents = w.read_text(&w.child("test.txt"));
    assert_eq!(file_contents, "test");
    let nested_file_contents = w.read_text(&w.child("test_dir/test_in_dir.txt"));
    assert_eq!(nested_file_contents, "test_in_dir");
}

#[test]
fn should_create_read_update_and_delete_symbolic_ref() {
    let mut w = World::new();
    w.create_test_file("test.txt", b"test");
    w.init();
    w.write_config(
        b"
[user]
name = \"Test User\"
email = \"test@user.com\"",
    );

    w.add("test.txt");
    let tree_obj_id = w.write_tree();
    let commit_obj_id = w.commit_tree(&tree_obj_id, "Test commit");
    w.update_ref("refs/heads/main", &commit_obj_id);

    // Create symbolic ref.
    w.run(&["symbolic-ref", "HEAD", "refs/heads/main"]).success();

    w.assert_ref_file("HEAD", "ref: refs/heads/main");

    // Update symbolic ref.
    w.run(&["symbolic-ref", "HEAD", "refs/heads/test"]).success();

    w.assert_ref_file("HEAD", "ref: refs/heads/test");

    // Read symbolic ref.
    w.run(&["symbolic-ref", "HEAD"]).success().stdout("refs/heads/test");

    // Delete symbolic ref.
    w.run(&["symbolic-ref", "--delete", "HEAD"]).success();

    w.assert_no_ref_file("HEAD");
}

#[test]
fn should_print_message_for_missing_ref_file() {
    let mut w = World::new();
    w.create_test_file("test.txt", b"test");
    w.init();

    w.run(&["symbolic-ref", "MISSING"]).success().stdout("no symbolic-ref 'MISSING'\n");
}

#[test]
fn should_print_short_ref() {
    let mut w = World::new();
    w.create_test_file("test.txt", b"test");
    w.init();

    w.run(&["symbolic-ref", "--short", "HEAD"]).success().stdout("main\n");
}

#[test]
fn should_create_read_update_and_delete_lightweight_tag() {
    let mut w = World::new();
    w.create_test_file("test.txt", b"test");
    w.init();
    w.write_config(
        b"
[user]
name = \"Test User\"
email = \"test@user.com\"",
    );

    w.add("test.txt");
    let tree_obj_id = w.write_tree();
    let commit_obj_id = w.commit_tree(&tree_obj_id, "Test commit");

    // Create lightweight tag.
    w.run(&["tag", "v1.0", &tree_obj_id]).success();

    w.assert_ref_file("refs/tags/v1.0", &tree_obj_id);

    // Update tag fails without force flag.
    w.run(&["tag", "v1.0", &commit_obj_id]).failure().stderr("cannot overwrite existing tag v1.0");

    // No change to tag file.
    w.assert_ref_file("refs/tags/v1.0", &tree_obj_id);

    // Update tag works with force flag.
    w.run(&["tag", "-f", "v1.0", &commit_obj_id]).success();

    // Tag file updated.
    w.assert_ref_file("refs/tags/v1.0", &commit_obj_id);

    // List tags.
    w.run(&["tag"]).success().stdout("v1.0\n");

    // Delete tag.
    w.run(&["tag", "--delete", "v1.0"]).success();

    // Tag file deleted.
    w.assert_no_ref_file("refs/tags/v1.0");

    // List tags.
    w.run(&["tag"]).success().stdout("");
}

#[test]
fn should_create_read_update_and_delete_annotated_tag() {
    let mut w = World::new();
    w.create_test_file("test.txt", b"test");
    w.init();
    w.write_config(
        b"
[user]
name = \"Test User\"
email = \"test@user.com\"",
    );

    w.add("test.txt");
    let tree_obj_id = w.write_tree();
    let commit_obj_id = w.commit_tree(&tree_obj_id, "Test commit");

    // Create annotated tag.
    w.run(&["tag", "v1.0", &tree_obj_id, "-m", "Test tag"]).success();

    let tag_obj_id = w.assert_ref_file_read("refs/tags/v1.0");
    let cat_file_contents = w.cat_file("-p", &tag_obj_id);
    let file_content_lines: Vec<&str> = cat_file_contents.split("\n").collect();

    let line1 = file_content_lines[0];
    let line2 = file_content_lines[1];
    let line3 = file_content_lines[2];
    let line4 = file_content_lines[3];
    let line5 = file_content_lines[4];
    let line6 = file_content_lines[5];

    assert_eq!(line1, &format!("object {tree_obj_id}"));
    assert_eq!(line2, "type tree");
    assert_eq!(line3, "tag v1.0");
    assert!(line4.starts_with("tagger Test User <test@user.com>"));
    assert_eq!(line5, "");
    assert_eq!(line6, "Test tag");

    // Update tag fails without force flag.
    w.run(&["tag", "v1.0", &commit_obj_id, "-m", "Test tag"]).failure().stderr("cannot overwrite existing tag v1.0");

    // No change to tag file.
    w.assert_ref_file("refs/tags/v1.0", &tag_obj_id);
    let cat_file_contents = w.cat_file("-p", &tag_obj_id);
    let file_content_lines: Vec<&str> = cat_file_contents.split("\n").collect();

    let line1 = file_content_lines[0];
    let line2 = file_content_lines[1];
    let line3 = file_content_lines[2];
    let line4 = file_content_lines[3];
    let line5 = file_content_lines[4];
    let line6 = file_content_lines[5];

    assert_eq!(line1, &format!("object {tree_obj_id}"));
    assert_eq!(line2, "type tree");
    assert_eq!(line3, "tag v1.0");
    assert!(line4.starts_with("tagger Test User <test@user.com>"));
    assert_eq!(line5, "");
    assert_eq!(line6, "Test tag");

    // Update tag works with force flag.
    w.run(&["tag", "-f", "v1.0", &commit_obj_id, "-m", "Updated test tag"]).success();

    // Tag object updated.
    let tag_obj_id = w.assert_ref_file_read("refs/tags/v1.0");
    let cat_file_contents = w.cat_file("-p", &tag_obj_id);
    let file_content_lines: Vec<&str> = cat_file_contents.split("\n").collect();

    let line1 = file_content_lines[0];
    let line2 = file_content_lines[1];
    let line3 = file_content_lines[2];
    let line4 = file_content_lines[3];
    let line5 = file_content_lines[4];
    let line6 = file_content_lines[5];

    assert_eq!(line1, &format!("object {commit_obj_id}"));
    assert_eq!(line2, "type commit");
    assert_eq!(line3, "tag v1.0");
    assert!(line4.starts_with("tagger Test User <test@user.com>"));
    assert_eq!(line5, "");
    assert_eq!(line6, "Updated test tag");

    // List tags.
    w.run(&["tag"]).success().stdout("v1.0\n");

    // Delete tag.
    w.run(&["tag", "--delete", "v1.0"]).success();

    // Tag file deleted.
    w.assert_no_ref_file("refs/tags/v1.0");

    // List tags.
    w.run(&["tag"]).success().stdout("");
}

#[test]
fn should_create_tag_for_head_if_no_sha_provided() {
    let mut w = World::new();
    w.create_test_file("test.txt", b"test");
    w.init();
    w.write_config(
        b"
[user]
name = \"Test User\"
email = \"test@user.com\"",
    );

    w.add("test.txt");
    let tree_obj_id = w.write_tree();
    let commit_obj_id = w.commit_tree(&tree_obj_id, "Test commit");
    w.update_ref("refs/heads/main", &commit_obj_id);
    w.symbolic_ref("HEAD", "refs/heads/main");

    // Create tag from HEAD.
    w.run(&["tag", "v1.0"]).success();

    w.assert_ref_file("refs/tags/v1.0", &commit_obj_id);
}

#[test]
fn should_create_and_update_ref() {
    let mut w = World::new();
    w.create_test_file("test.txt", b"test");
    w.init();
    w.write_config(
        b"
[user]
name = \"Test User\"
email = \"test@user.com\"",
    );

    w.add("test.txt");
    let tree_obj_id = w.write_tree();
    let commit_obj_id = w.commit_tree(&tree_obj_id, "Test commit");

    // Create initial ref.
    w.run(&["update-ref", "refs/heads/master", &commit_obj_id]).success();

    w.assert_ref_file("refs/heads/master", &commit_obj_id);

    // Update initial ref.
    w.run(&["update-ref", "refs/heads/master", &tree_obj_id]).success();

    w.assert_ref_file("refs/heads/master", &tree_obj_id);
}

#[test]
fn should_create_and_update_ref_with_old_value() {
    let mut w = World::new();
    w.create_test_file("test.txt", b"test");
    w.init();
    w.write_config(
        b"
[user]
name = \"Test User\"
email = \"test@user.com\"",
    );

    w.add("test.txt");
    let tree_obj_id = w.write_tree();
    let commit_obj_id = w.commit_tree(&tree_obj_id, "Test commit");

    // Create initial ref (old_value as empty string).
    w.run(&["update-ref", "refs/heads/master", &commit_obj_id, ""]).success();

    w.assert_ref_file("refs/heads/master", &commit_obj_id);

    // Update initial ref (old_value as commit id).
    w.run(&["update-ref", "refs/heads/master", &tree_obj_id, &commit_obj_id]).success();

    w.assert_ref_file("refs/heads/master", &tree_obj_id);
}

#[test]
fn should_fail_to_update_with_incorrect_old_value() {
    let mut w = World::new();
    w.create_test_file("test.txt", b"test");
    w.init();
    w.write_config(
        b"
[user]
name = \"Test User\"
email = \"test@user.com\"",
    );

    w.add("test.txt");
    let tree_obj_id = w.write_tree();
    let commit_obj_id = w.commit_tree(&tree_obj_id, "Test commit");

    // Create initial ref (old_value as non-empty string).
    w.run(&["update-ref", "refs/heads/master", &commit_obj_id, "non-empty"]).failure();

    // Ref file shouldn't be created.
    w.assert_no_ref_file("refs/heads/master");

    // Create initial ref.
    w.run(&["update-ref", "refs/heads/master", &commit_obj_id, ""]).success();

    w.assert_ref_file("refs/heads/master", &commit_obj_id);

    // Update initial ref (old_value doesn't match).
    w.run(&["update-ref", "refs/heads/master", &tree_obj_id, "non-matching-old-value"]).failure();

    // File should have same contents.
    w.assert_ref_file("refs/heads/master", &commit_obj_id);
}

#[test]
fn should_write_tree_object_to_repo() {
    let mut w = World::new();
    w.create_test_file("test.txt", b"test");
    w.create_test_file("test2.txt", b"test2");
    w.create_test_dir("test_dir");
    w.create_test_file("test_dir/test_in_dir.txt", b"test_in_dir");

    w.init();
    w.add("test.txt test2.txt test_dir");

    w.run(&["write-tree"]).success().stdout("03f9b0b16745d6529b86f7e7cf12bb0a254b6b8e\n");

    let cat_file_type =
        w.cat_file("-t", "03f9b0b16745d6529b86f7e7cf12bb0a254b6b8e");

    assert_eq!(cat_file_type, "tree");

    let cat_file_content =
        w.cat_file("-p", "03f9b0b16745d6529b86f7e7cf12bb0a254b6b8e");

    assert_eq!(
        cat_file_content,
        "040000 tree c7c1cd98552375307d7d3ac561793842c3a47abd\ttest_dir
100644 blob 30d74d258442c7c65512eafab474568dd706c430\ttest.txt
100644 blob d606037cb232bfda7788a8322492312d55b2ae9d\ttest2.txt"
    );

    let cat_sub_tree_type =
        w.cat_file("-t", "c7c1cd98552375307d7d3ac561793842c3a47abd");

    assert_eq!(cat_sub_tree_type, "tree");

    let cat_sub_tree_content =
        w.cat_file("-p", "c7c1cd98552375307d7d3ac561793842c3a47abd");

    assert_eq!(
        cat_sub_tree_content,
        "100644 blob 27961cd8c28d3fd780672e10e8c7c25d6eee10ee\ttest_in_dir.txt"
    );
}
