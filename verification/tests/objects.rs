use rust_git::error::GitErrorKind;
use rust_git::error::RustGitError;
use rust_git::object::blob::GitBlobObject;
use rust_git::object::commit::GitCommitObject;
use rust_git::object::id::GitObjectId;
use rust_git::object::identity::GitIdentity;
use rust_git::object::identity::GitIdentityType;
use rust_git::object::raw::GitObjectContents;
use rust_git::object::raw::GitObjectHeader;
use rust_git::object::raw::GitObjectRaw;
use rust_git::object::raw::GitObjectType;
use rust_git::object::tag::GitTagObject;
use rust_git::object::tree::GitTreeEntry;
use rust_git::object::tree::GitTreeEntryType;
use rust_git::object::tree::GitTreeObject;
use rust_git::object::GitObject;

fn unknown_kind(message: &str) -> RustGitError {
    RustGitError::with_kind(GitErrorKind::UnknownKind, message)
}

fn corrupt(message: &str) -> RustGitError {
    RustGitError::with_kind(GitErrorKind::Corrupt, message)
}

#[test]
fn object_should_parse_valid_git_object_type() {
    assert_eq!(GitObjectType::from_str("blob"), Ok(GitObjectType::Blob));
    assert_eq!(GitObjectType::from_str("commit"), Ok(GitObjectType::Commit));
    assert_eq!(GitObjectType::from_str("tree"), Ok(GitObjectType::Tree));
    assert_eq!(GitObjectType::from_str("tag"), Ok(GitObjectType::Tag));
}

#[test]
fn object_should_fail_to_parse_invalid_git_object_type() {
    assert_eq!(GitObjectType::from_str(""), Err(unknown_kind("'' is not a valid object type")));
    assert_eq!(
        GitObjectType::from_str("invalid"),
        Err(unknown_kind("'invalid' is not a valid object type"))
    );
}

#[test]
fn object_should_parse_valid_git_object_header() {
    assert_eq!(
        GitObjectHeader::from_bytes(b"blob 20"),
        Ok(GitObjectHeader { obj_type: GitObjectType::Blob, size: 20 })
    );
}

#[test]
fn object_should_fail_to_parse_invalid_git_object_header() {
    assert_eq!(
        GitObjectHeader::from_bytes(b"blob not-a-number"),
        Err(corrupt("ParseIntError { kind: InvalidDigit }"))
    );
    assert_eq!(
        GitObjectHeader::from_bytes(b"invalid 20"),
        Err(corrupt("'invalid' is not a valid object type"))
    );
    assert_eq!(GitObjectHeader::from_bytes(b"blob20"), Err(corrupt("Missing space in object header")));
    assert_eq!(GitObjectHeader::from_bytes(b"blob"), Err(corrupt("Missing space in object header")));
    assert_eq!(GitObjectHeader::from_bytes(b"20"), Err(corrupt("Missing space in object header")));
    assert_eq!(GitObjectHeader::from_bytes(b""), Err(corrupt("Missing space in object header")));
}

#[test]
fn object_should_parse_valid_git_object_contents() {
    assert_eq!(
        GitObjectContents::from_bytes(b"blob 4\0test"),
        Ok(GitObjectContents {
            header: GitObjectHeader { obj_type: GitObjectType::Blob, size: 4 },
            content: b"test".to_vec()
        })
    );
}

#[test]
fn object_should_fail_to_parse_invalid_git_object_contents() {
    assert_eq!(
        GitObjectContents::from_bytes(b"blob 5\0test"),
        Err(RustGitError::with_kind(
            GitErrorKind::LengthMismatch,
            "Header size 5 didn't match content length 4"
        ))
    );
    assert_eq!(
        GitObjectContents::from_bytes(b"blob 4 test"),
        Err(corrupt("Missing '\\0' in object file"))
    );
    assert_eq!(GitObjectContents::from_bytes(b""), Err(corrupt("Missing '\\0' in object file")));
}

#[test]
fn object_should_create_new_blob_object() {
    let obj_result = GitObjectRaw::new(GitObjectType::Blob, b"test".to_vec());

    assert_eq!(
        obj_result,
        Ok(GitObjectRaw {
            id: GitObjectId::new("30d74d258442c7c65512eafab474568dd706c430"),
            object: GitObjectContents {
                header: GitObjectHeader { obj_type: GitObjectType::Blob, size: 4 },
                content: b"test".to_vec()
            },
        })
    );
}

#[test]
fn raw_should_parse_valid_git_object_type() {
    assert_eq!(GitObjectType::from_bytes(b"blob"), Some(GitObjectType::Blob));
    assert_eq!(GitObjectType::from_bytes(b"commit"), Some(GitObjectType::Commit));
    assert_eq!(GitObjectType::from_bytes(b"tree"), Some(GitObjectType::Tree));
    assert_eq!(GitObjectType::from_bytes(b"tag"), Some(GitObjectType::Tag));
}

#[test]
fn raw_should_fail_to_parse_invalid_git_object_type() {
    assert_eq!(GitObjectType::from_bytes(b""), None);
    assert_eq!(GitObjectType::from_bytes(b"invalid"), None);
    assert_eq!(
        GitObjectType::from_str("").unwrap_err().message(),
        "'' is not a valid object type"
    );
    assert_eq!(
        GitObjectType::from_str("invalid").unwrap_err().message(),
        "'invalid' is not a valid object type"
    );
}

#[test]
fn raw_should_parse_valid_git_object_header() {
    let header = GitObjectHeader::from_bytes(b"blob 20").unwrap();
    assert_eq!(header, GitObjectHeader { obj_type: GitObjectType::Blob, size: 20 });
    assert_eq!(header.to_bytes(), b"blob 20\0".to_vec());
    assert_eq!(header.words(), b"blob 20".to_vec());
}

#[test]
fn raw_should_fail_to_parse_invalid_git_object_header() {
    assert_eq!(
        GitObjectHeader::from_bytes(b"blob not-a-number").unwrap_err().message(),
        "ParseIntError { kind: InvalidDigit }"
    );
    assert_eq!(
        GitObjectHeader::from_bytes(b"invalid 20").unwrap_err().message(),
        "'invalid' is not a valid object type"
    );
    for words in [&b"blob20"[..], b"blob", b"20", b""] {
        assert_eq!(
            GitObjectHeader::from_bytes(words).unwrap_err().message(),
            "Missing space in object header"
        );
    }
    assert_eq!(
        GitObjectHeader::from_bytes(b"blob ").unwrap_err().message(),
        "ParseIntError { kind: Empty }"
    );
    assert_eq!(
        GitObjectHeader::from_bytes(b"blob 99999999999999999999999").unwrap_err().message(),
        "ParseIntError { kind: PosOverflow }"
    );
}

#[test]
fn raw_should_parse_valid_git_object_contents() {
    let contents = GitObjectContents::from_bytes(b"blob 4\0test").unwrap();
    assert_eq!(contents.header.size, 4);
    assert_eq!(contents.content, b"test".to_vec());
    assert_eq!(contents.to_bytes(), b"blob 4\0test".to_vec());
    // the payload may itself hold zero bytes
    let binary = GitObjectContents::from_bytes(b"blob 3\0\0\xff\0").unwrap();
    assert_eq!(binary.content, vec![0u8, 0xff, 0]);
}

#[test]
fn raw_should_fail_to_parse_invalid_git_object_contents() {
    assert_eq!(
        GitObjectContents::from_bytes(b"blob 5\0test").unwrap_err().kind,
        GitErrorKind::LengthMismatch
    );
    assert_eq!(
        GitObjectContents::from_bytes(b"blob 4 test").unwrap_err().kind,
        GitErrorKind::Corrupt
    );
    assert_eq!(GitObjectContents::from_bytes(b"").unwrap_err().kind, GitErrorKind::Corrupt);
    assert_eq!(
        GitObjectContents::from_bytes(b"blub 4\0test").unwrap_err().kind,
        GitErrorKind::Corrupt
    );
}

#[test]
fn raw_should_create_new_blob_object() {
    let obj = GitObjectRaw::new(GitObjectType::Blob, b"test".to_vec()).unwrap();
    assert_eq!(obj.id.to_text(), "30d74d258442c7c65512eafab474568dd706c430");
    assert!(obj.id.check_valid());
    assert_eq!(obj.object.header, GitObjectHeader { obj_type: GitObjectType::Blob, size: 4 });
    assert_eq!(obj, GitObjectRaw::build(GitObjectType::Blob, b"test".to_vec()));
    assert_eq!(
        GitObjectRaw::get_object_id(&obj.object.header, b"test"),
        GitObjectId::new("30d74d258442c7c65512eafab474568dd706c430")
    );
}

#[test]
fn blob_should_roundtrip() {
    let blob_obj = GitBlobObject { contents: b"my test file contents".to_vec() };

    let roundtrip_obj = GitBlobObject::from_bytes(&blob_obj.to_bytes());
    assert_eq!(Ok(blob_obj), roundtrip_obj);
}

fn test_commit() -> GitCommitObject {
    GitCommitObject {
        tree_id: GitObjectId::new("test-obj-id"),
        parents: vec![GitObjectId::new("parent-id-1"), GitObjectId::new("parent-id-2")],
        message: b"my commit message".to_vec(),
        author: GitIdentity {
            identity_type: GitIdentityType::Author,
            name: b"Test Author Name".to_vec(),
            email: b"test_author@email.com".to_vec(),
            timestamp: 12345,
        },
        committer: GitIdentity {
            identity_type: GitIdentityType::Committer,
            name: b"Test Committer Name".to_vec(),
            email: b"test_committer@email.com".to_vec(),
            timestamp: 23456,
        },
    }
}

#[test]
fn commit_should_roundtrip() {
    let commit_obj = test_commit();

    let roundtrip_obj = GitCommitObject::from_bytes(&commit_obj.to_bytes());
    assert_eq!(Ok(commit_obj), roundtrip_obj);
}

fn test_tag() -> GitTagObject {
    GitTagObject {
        tag_name: b"v1.0".to_vec(),
        object_id: GitObjectId::new("test-obj-id"),
        object_type: GitObjectType::Blob,
        tagger: GitIdentity {
            identity_type: GitIdentityType::Tagger,
            name: b"Test Name".to_vec(),
            email: b"test@email.com".to_vec(),
            timestamp: 12345,
        },
        message: b"my tag message".to_vec(),
    }
}

#[test]
fn tag_should_roundtrip() {
    let tag_obj = test_tag();

    let roundtrip_obj = GitTagObject::from_bytes(&tag_obj.to_bytes());
    assert_eq!(Ok(tag_obj), roundtrip_obj);
}

fn test_tree() -> GitTreeObject {
    GitTreeObject {
        entries: vec![
            GitTreeEntry {
                mode: b"00400".to_vec(),
                entry_type: GitTreeEntryType::Tree,
                obj_id: GitObjectId::new("tree-obj-id"),
                name: b"test_dir".to_vec(),
            },
            GitTreeEntry {
                mode: b"123456".to_vec(),
                entry_type: GitTreeEntryType::Blob,
                obj_id: GitObjectId::new("blob-obj-id"),
                name: b"test.txt".to_vec(),
            },
        ],
    }
}

#[test]
fn tree_should_roundtrip() {
    let tree_obj = test_tree();

    let roundtrip_obj = GitTreeObject::from_bytes(&tree_obj.to_bytes());
    assert_eq!(Ok(tree_obj), roundtrip_obj);
}

#[test]
fn the_text_of_a_commit_is_its_lines_and_its_message() {
    assert_eq!(
        String::from_utf8(test_commit().to_bytes()).unwrap(),
        "tree test-obj-id\nparent parent-id-1\nparent parent-id-2\nauthor Test Author Name <test_author@email.com> 12345\ncommitter Test Committer Name <test_committer@email.com> 23456\n\nmy commit message"
    );
    let root = GitCommitObject { parents: vec![], ..test_commit() };
    assert!(root.to_bytes().starts_with(b"tree test-obj-id\nauthor "));
    assert_eq!(GitCommitObject::from_bytes(&root.to_bytes()), Ok(root));
}

#[test]
fn the_text_of_a_tag_and_of_a_tree() {
    assert_eq!(
        String::from_utf8(test_tag().to_bytes()).unwrap(),
        "object test-obj-id\ntype blob\ntag v1.0\ntagger Test Name <test@email.com> 12345\n\nmy tag message"
    );
    assert_eq!(
        String::from_utf8(test_tree().to_bytes()).unwrap(),
        "00400 tree tree-obj-id\ttest_dir\n123456 blob blob-obj-id\ttest.txt"
    );
    let empty = GitTreeObject { entries: vec![] };
    assert_eq!(empty.to_bytes(), Vec::<u8>::new());
    assert_eq!(GitTreeObject::from_bytes(b""), Ok(empty));
    // a line feed ends a line: one at the end adds no entry
    assert_eq!(
        GitTreeObject::from_bytes(b"00400 tree tree-obj-id\ttest_dir\n123456 blob blob-obj-id\ttest.txt\n"),
        Ok(test_tree())
    );
}

#[test]
fn a_message_is_free_form() {
    for message in [&b""[..], b"\n", b"one\n\ntwo\n", b"tree x\nparent y", b"\r\n\0\xff"] {
        let commit = GitCommitObject { message: message.to_vec(), ..test_commit() };
        assert_eq!(GitCommitObject::from_bytes(&commit.to_bytes()), Ok(commit));
        let tag = GitTagObject { message: message.to_vec(), ..test_tag() };
        assert_eq!(GitTagObject::from_bytes(&tag.to_bytes()), Ok(tag));
    }
}

#[test]
fn commits_that_lack_a_field_are_refused() {
    let kind = |text: &[u8]| GitCommitObject::from_bytes(text).unwrap_err().kind;
    assert_eq!(kind(b""), GitErrorKind::MissingField);
    assert_eq!(kind(b"parent x\n"), GitErrorKind::MissingField);
    assert_eq!(kind(b"tree x"), GitErrorKind::MissingField);
    assert_eq!(kind(b"tree x\nparent y\n"), GitErrorKind::MissingField);
    assert_eq!(kind(b"tree x\nauthor A <a> 1"), GitErrorKind::MissingField);
    assert_eq!(kind(b"tree x\ncommitter A <a> 1\ncommitter A <a> 1\n\n"), GitErrorKind::MissingField);
    assert_eq!(kind(b"tree x\nauthor A <a> 1\nauthor A <a> 1\n\n"), GitErrorKind::MissingField);
    assert_eq!(kind(b"tree x\nwriter A <a> 1\ncommitter A <a> 1\n\n"), GitErrorKind::UnknownKind);
    assert_eq!(kind(b"tree x\nauthor A <a> soon\ncommitter A <a> 1\n\n"), GitErrorKind::BadTimestamp);
    assert_eq!(kind(b"tree x\nauthor A <a> 1\ncommitter A <a> \n\n"), GitErrorKind::BadTimestamp);
    assert_eq!(
        GitCommitObject::from_bytes(b"").unwrap_err().message(),
        "invalid commit object, empty"
    );
    assert_eq!(
        GitCommitObject::from_bytes(b"x").unwrap_err().message(),
        "invalid commit object, missing tree"
    );
}

#[test]
fn tags_and_trees_that_are_malformed_are_refused() {
    let kind = |text: &[u8]| GitTagObject::from_bytes(text).unwrap_err().kind;
    assert_eq!(kind(b""), GitErrorKind::MissingField);
    assert_eq!(kind(b"tree x\n"), GitErrorKind::MissingField);
    assert_eq!(kind(b"object x"), GitErrorKind::MissingField);
    assert_eq!(kind(b"object x\ntag v\n"), GitErrorKind::MissingField);
    assert_eq!(kind(b"object x\ntype blub\ntag v\n"), GitErrorKind::UnknownKind);
    assert_eq!(kind(b"object x\ntype blob\n"), GitErrorKind::MissingField);
    assert_eq!(kind(b"object x\ntype blob\ntag v\n"), GitErrorKind::MissingField);
    assert_eq!(kind(b"object x\ntype blob\ntag v\ntagger T <t> never\n\n"), GitErrorKind::BadTimestamp);
    assert_eq!(
        GitTreeObject::from_bytes(b"100644 link id\tname").unwrap_err(),
        unknown_kind("invalid tree entry type 'link'")
    );
    assert_eq!(GitTreeObject::from_bytes(b"\n").unwrap_err().kind, GitErrorKind::UnknownKind);
}

#[test]
fn an_identity_line_is_read_part_by_part() {
    let identity = GitIdentity::from_bytes(b"tagger Jo Doe <jo@x.org> +0017").unwrap();
    assert_eq!(identity.identity_type, GitIdentityType::Tagger);
    assert_eq!(identity.name, b"Jo Doe".to_vec());
    assert_eq!(identity.email, b"jo@x.org".to_vec());
    assert_eq!(identity.timestamp, 17);
    let max = GitIdentity { timestamp: u128::MAX, ..identity.clone() };
    let mut line = Vec::new();
    max.write_line(GitIdentityType::Author, &mut line);
    assert_eq!(
        String::from_utf8(line.clone()).unwrap(),
        "author Jo Doe <jo@x.org> 340282366920938463463374607431768211455"
    );
    assert_eq!(GitIdentity::from_bytes(&line).unwrap().timestamp, u128::MAX);
    line.push(b'0');
    assert_eq!(GitIdentity::from_bytes(&line).unwrap_err().kind, GitErrorKind::BadTimestamp);
    assert_eq!(
        GitIdentityType::from_str("owner"),
        Err(unknown_kind("invalid identity type 'owner'"))
    );
    assert_eq!(GitIdentityType::from_str("committer"), Ok(GitIdentityType::Committer));
}

#[test]
fn typed_objects_are_read_by_the_kind_of_the_header() {
    let commit = test_commit();
    let raw = commit.to_raw().unwrap();
    assert_eq!(raw.object.header.obj_type, GitObjectType::Commit);
    assert_eq!(GitObject::try_from(raw.clone()), Ok(GitObject::Commit(commit.clone())));
    assert_eq!(GitObjectRaw::try_from(GitObject::Commit(commit)), Ok(raw.clone()));
    // the same payload under another kind
    let as_tag = GitObjectRaw::new(GitObjectType::Tag, raw.object.content.clone()).unwrap();
    assert_eq!(GitObject::try_from(as_tag).unwrap_err().kind, GitErrorKind::TypeParseError);
    let as_blob = GitObjectRaw::new(GitObjectType::Blob, raw.object.content.clone()).unwrap();
    assert_eq!(
        GitObject::try_from(as_blob),
        Ok(GitObject::Blob(GitBlobObject { contents: raw.object.content }))
    );
    for object in [
        GitObject::Tree(test_tree()),
        GitObject::Tag(test_tag()),
        GitObject::Blob(GitBlobObject { contents: vec![1, 2, 3] }),
    ] {
        assert_eq!(GitObject::try_from(object.to_raw().unwrap()), Ok(object));
    }
}

#[test]
fn ids_are_determined_by_kind_and_contents() {
    let a = GitObjectRaw::new(GitObjectType::Blob, b"test2".to_vec()).unwrap();
    let b = GitObjectRaw::new(GitObjectType::Blob, b"test2".to_vec()).unwrap();
    assert_eq!(a.id, b.id);
    assert_eq!(a.id.to_text(), "d606037cb232bfda7788a8322492312d55b2ae9d");
    let as_commit = GitObjectRaw::new(GitObjectType::Commit, b"test2".to_vec()).unwrap();
    assert_ne!(a.id, as_commit.id);
    assert_eq!(test_commit().to_raw().unwrap().id, test_commit().to_raw().unwrap().id);
}

#[test]
fn an_id_is_forty_hex_digits_or_twenty_bytes() {
    let id = GitObjectId::new("30d74d258442c7c65512eafab474568dd706c430");
    assert!(id.check_valid());
    assert!(!GitObjectId::new("30D74D258442C7C65512EAFAB474568DD706C430").check_valid());
    assert!(!GitObjectId::new("30d7").check_valid());
    assert!(!GitObjectId::new("test-obj-id").check_valid());
    let (folder, file) = id.folder_and_file_name();
    assert_eq!(folder, b"30".to_vec());
    assert_eq!(file, b"d74d258442c7c65512eafab474568dd706c430".to_vec());
    let raw = GitObjectId::serialize(&id);
    assert_eq!(raw.len(), 20);
    assert_eq!(raw[0], 0x30);
    assert_eq!(raw[19], 0x30);
    assert_eq!(GitObjectId::deserialize(&raw), Ok(id.clone()));
    assert_eq!(
        GitObjectId::serialize(&GitObjectId::new("30D74D258442C7C65512EAFAB474568DD706C430")),
        raw
    );
    assert_eq!(GitObjectId::deserialize(&raw[..19]).unwrap_err().kind, GitErrorKind::Corrupt);
    assert!(id.same_as(&id.duplicate()));
    assert_eq!(id.as_bytes(), GitObjectId::from_bytes(id.as_bytes().to_vec()).as_bytes());
}
