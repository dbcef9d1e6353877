use rust_git::error::GitErrorKind;
use rust_git::error::RustGitError;
use rust_git::index::entry::FileStat;
use rust_git::index::entry::GitIndexEntry;
use rust_git::index::fields::as_u16_be;
use rust_git::index::fields::as_u32_be;
use rust_git::index::fields::GitIndexFlags;
use rust_git::index::fields::GitIndexHeader;
use rust_git::index::fields::GitIndexMode;
use rust_git::index::fields::GitIndexStageFlag;
use rust_git::index::fields::GitIndexTimestamp;
use rust_git::index::fields::GitIndexVersion;
use rust_git::index::GitIndex;
use rust_git::object::id::GitObjectId;

fn get_test_index_entry() -> GitIndexEntry {
    GitIndexEntry {
        last_metadata_update: GitIndexTimestamp { seconds: 50, nanoseconds: 150 },
        last_data_update: GitIndexTimestamp { seconds: 100, nanoseconds: 200 },
        dev: 1,
        ino: 2,
        mode: GitIndexMode::RegularFile0644,
        uid: 3,
        gid: 4,
        file_size: 5,
        name: GitObjectId::new("9daeafb9864cf43055ae93beb0afd6c7d144bfa4"),
        flags: GitIndexFlags {
            assume_valid: false,
            extended: false,
            stage: GitIndexStageFlag::RegularFileNoConflict,
            name_length: 8,
        },
        path_name: b"test.txt".to_vec(),
    }
}

fn corrupt(message: &str) -> RustGitError {
    RustGitError::with_kind(GitErrorKind::Corrupt, message)
}

fn two_entry_index() -> GitIndex {
    GitIndex {
        header: GitIndexHeader { version: GitIndexVersion::V2, num_entries: 2 },
        entries: vec![
            get_test_index_entry(),
            GitIndexEntry {
                name: GitObjectId::new("180cf8328022becee9aaa2577a8f84ea2b9f3827"),
                flags: GitIndexFlags {
                    assume_valid: false,
                    extended: false,
                    stage: GitIndexStageFlag::RegularFileNoConflict,
                    name_length: 9,
                },
                path_name: b"test2.txt".to_vec(),
                ..get_test_index_entry()
            },
        ],
    }
}

#[test]
fn should_add_entries_in_sorted_order() {
    let mut index = GitIndex::new();
    let entry1 = GitIndexEntry { path_name: b"test.txt".to_vec(), ..get_test_index_entry() };
    let entry2 = GitIndexEntry { path_name: b"fest.txt".to_vec(), ..get_test_index_entry() };
    let entry3 = GitIndexEntry { path_name: b"best.txt".to_vec(), ..get_test_index_entry() };

    index.add(entry1);
    index.add(entry2);
    index.add(entry3);

    assert_eq!(index.entries[0].path_name, b"best.txt".to_vec());
    assert_eq!(index.entries[1].path_name, b"fest.txt".to_vec());
    assert_eq!(index.entries[2].path_name, b"test.txt".to_vec());
    assert_eq!(index.header.num_entries, 3);
    assert!(index.is_sorted());
}

#[test]
fn should_roundtrip_empty() {
    let test_index = GitIndex {
        header: GitIndexHeader { version: GitIndexVersion::V2, num_entries: 0 },
        entries: vec![],
    };

    let result = GitIndex::deserialize(&GitIndex::serialize(&test_index));
    assert_eq!(result, Ok(test_index));
}

#[test]
fn index_should_roundtrip() {
    // the whole index
    let test_index = two_entry_index();
    let result = GitIndex::deserialize(&GitIndex::serialize(&test_index));
    assert_eq!(result, Ok(test_index));

    // one entry
    let git_index_entry = get_test_index_entry();
    let result = GitIndexEntry::deserialize(&GitIndexEntry::serialize(&git_index_entry));
    assert_eq!(result, Ok((git_index_entry, 72)));

    // the flags
    let git_index_flags = GitIndexFlags {
        assume_valid: false,
        extended: false,
        stage: GitIndexStageFlag::RegularFileNoConflict,
        name_length: 5,
    };
    let result = GitIndexFlags::deserialize(&GitIndexFlags::serialize(&git_index_flags));
    assert_eq!(result, Ok(git_index_flags));

    // the modes
    assert_eq!(
        GitIndexMode::deserialize(&GitIndexMode::serialize(&GitIndexMode::RegularFile0755)),
        Ok(GitIndexMode::RegularFile0755)
    );
    assert_eq!(
        GitIndexMode::deserialize(&GitIndexMode::serialize(&GitIndexMode::RegularFile0644)),
        Ok(GitIndexMode::RegularFile0644)
    );
    assert_eq!(
        GitIndexMode::deserialize(&GitIndexMode::serialize(&GitIndexMode::SymbolicLink)),
        Ok(GitIndexMode::SymbolicLink)
    );
    assert_eq!(
        GitIndexMode::deserialize(&GitIndexMode::serialize(&GitIndexMode::GitLink)),
        Ok(GitIndexMode::GitLink)
    );

    // a timestamp
    let git_index_timestamp = GitIndexTimestamp { seconds: 50, nanoseconds: 100 };
    let result =
        GitIndexTimestamp::deserialize(&GitIndexTimestamp::serialize(&git_index_timestamp));
    assert_eq!(result, Ok(git_index_timestamp));

    // the header
    let git_index_header = GitIndexHeader { version: GitIndexVersion::V2, num_entries: 2 };
    let result = GitIndexHeader::deserialize(&GitIndexHeader::serialize(&git_index_header));
    assert_eq!(result, Ok(git_index_header));

    // the version
    let git_index_version = GitIndexVersion::V2;
    let result = GitIndexVersion::deserialize(&GitIndexVersion::serialize(&git_index_version));
    assert_eq!(result, Ok(git_index_version));
}

#[test]
fn should_fail_for_invalid_checksum() {
    let test_index = GitIndex {
        header: GitIndexHeader { version: GitIndexVersion::V2, num_entries: 0 },
        entries: vec![],
    };

    let mut serialized_bytes = GitIndex::serialize(&test_index);
    let num_bytes = serialized_bytes.len();
    let real_checksum = hex::encode(&serialized_bytes[num_bytes - 20..]);
    serialized_bytes[num_bytes - 1] = 0;
    let invalid_checksum = hex::encode(&serialized_bytes[num_bytes - 20..]);

    let result = GitIndex::deserialize(&serialized_bytes);

    assert_eq!(
        result,
        Err(RustGitError::with_kind(
            GitErrorKind::ChecksumMismatch,
            &format!(
                "Index checksum {invalid_checksum} doesn't match computed hash {real_checksum}"
            )
        ))
    );
}

#[test]
fn should_roundtrip_long_name() {
    let test_index_entry = get_test_index_entry();
    let git_index_entry = GitIndexEntry {
        flags: GitIndexFlags { name_length: 0xFFF, ..test_index_entry.flags },
        path_name: vec![b'A'; 0xFFF1],
        ..test_index_entry
    };
    let result = GitIndexEntry::deserialize(&GitIndexEntry::serialize(&git_index_entry));
    assert_eq!(result, Ok((git_index_entry, 65584)));
}

fn assert_incorrect_bytes_err<T>(
    expected_bytes: usize,
    deser_f: fn(&[u8]) -> Result<T, RustGitError>,
) {
    let too_many_bytes: Vec<u8> = vec![b'0'; expected_bytes + 1];
    let too_few_bytes: Vec<u8> = vec![b'0'; expected_bytes - 1];
    assert!(deser_f(&too_few_bytes).is_err());
    assert!(deser_f(&too_many_bytes).is_err());
}

#[test]
fn index_should_fail_for_incorrect_number_of_bytes() {
    assert_incorrect_bytes_err(2, GitIndexFlags::deserialize);
    assert_incorrect_bytes_err(4, GitIndexMode::deserialize);
    assert_incorrect_bytes_err(8, GitIndexTimestamp::deserialize);
    assert_incorrect_bytes_err(12, GitIndexHeader::deserialize);
    assert_incorrect_bytes_err(4, GitIndexVersion::deserialize);
}

#[test]
fn should_fail_for_invalid_mode() {
    let bytes: &[u8] = &[0, 0, 0, 0];
    let result = GitIndexMode::deserialize(bytes);
    assert_eq!(result, Err(corrupt("invalid mode '[0, 0, 0, 0]' in index entry")));
}

#[test]
fn should_fail_for_missing_signature() {
    let bytes: &[u8] = b"LIRC00000000"; // should be DIRC
    let result = GitIndexHeader::deserialize(bytes);
    assert_eq!(result, Err(corrupt("missing header signature in index file")));
}

#[test]
fn should_fail_for_invalid_version() {
    let result = GitIndexVersion::deserialize(&3u32.to_be_bytes());
    assert_eq!(
        result,
        Err(RustGitError::with_kind(
            GitErrorKind::UnsupportedVersion,
            "unsupported index version 3"
        ))
    );
}

#[test]
fn big_endian_numbers_are_read_most_significant_byte_first() {
    assert_eq!(as_u32_be(&[0x12, 0x34, 0x56, 0x78]), 0x12345678);
    assert_eq!(as_u32_be(&[0xff, 0xff, 0xff, 0xff]), u32::MAX);
    assert_eq!(as_u16_be(&[0x0f, 0xff]), 0x0fff);
    assert_eq!(GitIndexTimestamp::serialize(&GitIndexTimestamp { seconds: 1, nanoseconds: 258 }), [
        0, 0, 0, 1, 0, 0, 1, 2
    ]);
}

#[test]
fn header_bytes_are_signature_version_count() {
    let header = GitIndexHeader { version: GitIndexVersion::V2, num_entries: 0x01020304 };
    assert_eq!(GitIndexHeader::serialize(&header), *b"DIRC\x00\x00\x00\x02\x01\x02\x03\x04");
}

#[test]
fn flags_pack_into_sixteen_bits() {
    let flags = GitIndexFlags {
        assume_valid: true,
        extended: true,
        stage: GitIndexStageFlag::Ours,
        name_length: 0x123,
    };
    assert_eq!(GitIndexFlags::serialize(&flags), [0b1110_0001, 0x23]);
    assert_eq!(GitIndexFlags::deserialize(&[0b1110_0001, 0x23]), Ok(flags));
    for stage in [
        GitIndexStageFlag::RegularFileNoConflict,
        GitIndexStageFlag::Base,
        GitIndexStageFlag::Ours,
        GitIndexStageFlag::Theirs,
    ] {
        let flags = GitIndexFlags { assume_valid: false, extended: false, stage, name_length: 7 };
        assert_eq!(GitIndexFlags::deserialize(&GitIndexFlags::serialize(&flags)), Ok(flags));
    }
}

#[test]
fn padding_brings_an_entry_to_a_multiple_of_eight() {
    // 62 + 2 = 64 is a multiple of eight already: eight zero bytes follow
    let entry = GitIndexEntry {
        path_name: b"ab".to_vec(),
        flags: GitIndexFlags { name_length: 2, ..get_test_index_entry().flags },
        ..get_test_index_entry()
    };
    let bytes = GitIndexEntry::serialize(&entry);
    assert_eq!(bytes.len(), 72);
    assert_eq!(&bytes[62..64], b"ab");
    assert_eq!(&bytes[64..], &[0u8; 8]);
    // 62 + 1 = 63: one zero byte follows
    let entry = GitIndexEntry {
        path_name: b"a".to_vec(),
        flags: GitIndexFlags { name_length: 1, ..get_test_index_entry().flags },
        ..get_test_index_entry()
    };
    assert_eq!(GitIndexEntry::serialize(&entry).len(), 64);
}

#[test]
fn entry_bytes_hold_the_fields_in_order() {
    let bytes = GitIndexEntry::serialize(&get_test_index_entry());
    assert_eq!(&bytes[0..8], &[0, 0, 0, 50, 0, 0, 0, 150]);
    assert_eq!(&bytes[8..16], &[0, 0, 0, 100, 0, 0, 0, 200]);
    assert_eq!(&bytes[16..24], &[0, 0, 0, 1, 0, 0, 0, 2]);
    assert_eq!(&bytes[24..28], &[0, 0, 0x81, 0xa4]);
    assert_eq!(&bytes[28..40], &[0, 0, 0, 3, 0, 0, 0, 4, 0, 0, 0, 5]);
    assert_eq!(hex::encode(&bytes[40..60]), "9daeafb9864cf43055ae93beb0afd6c7d144bfa4");
    assert_eq!(&bytes[60..62], &[0, 8]);
    assert_eq!(&bytes[62..70], b"test.txt");
}

#[test]
fn truncated_entries_and_files_are_corrupt() {
    let bytes = GitIndexEntry::serialize(&get_test_index_entry());
    assert_eq!(GitIndexEntry::deserialize(&bytes[..61]).unwrap_err().kind, GitErrorKind::Corrupt);
    assert_eq!(GitIndexEntry::deserialize(&bytes[..71]).unwrap_err().kind, GitErrorKind::Corrupt);
    assert_eq!(GitIndex::deserialize(b"DIRC").unwrap_err().kind, GitErrorKind::Corrupt);
    let file = GitIndex::serialize(&two_entry_index());
    let mut cut = file[..file.len() - 28].to_vec();
    cut.extend_from_slice(&file[file.len() - 20..]);
    assert_eq!(GitIndex::deserialize(&cut).unwrap_err().kind, GitErrorKind::Corrupt);
}

#[test]
fn a_short_name_is_read_by_its_length() {
    // a zero byte within a name whose length is recorded does not end it
    let entry = GitIndexEntry {
        path_name: b"a\0b".to_vec(),
        flags: GitIndexFlags { name_length: 3, ..get_test_index_entry().flags },
        ..get_test_index_entry()
    };
    assert_eq!(GitIndexEntry::deserialize(&GitIndexEntry::serialize(&entry)), Ok((entry, 72)));
    // a length that is recorded wrongly is not read back
    let entry = GitIndexEntry {
        flags: GitIndexFlags { name_length: 4, ..get_test_index_entry().flags },
        ..get_test_index_entry()
    };
    let (read, taken) = GitIndexEntry::deserialize(&GitIndexEntry::serialize(&entry)).unwrap();
    assert_eq!(read.path_name, b"test".to_vec());
    assert_eq!(taken, 72);
}

#[test]
fn a_name_that_is_not_utf8_is_corrupt() {
    let mut bytes = GitIndexEntry::serialize(&get_test_index_entry());
    bytes[62] = 0xff;
    assert_eq!(GitIndexEntry::deserialize(&bytes).unwrap_err().kind, GitErrorKind::Corrupt);
}

#[test]
fn every_byte_of_the_checksum_is_guarded() {
    let file = GitIndex::serialize(&two_entry_index());
    for i in file.len() - 20..file.len() {
        let mut damaged = file.clone();
        damaged[i] ^= 0x01;
        assert_eq!(
            GitIndex::deserialize(&damaged).unwrap_err().kind,
            GitErrorKind::ChecksumMismatch
        );
    }
}

#[test]
fn an_absent_index_file_is_an_empty_index() {
    let index = GitIndex::open(None).unwrap();
    assert_eq!(index, GitIndex::new());
    assert_eq!(index.header.version, GitIndexVersion::V2);
    let file = GitIndex::serialize(&two_entry_index());
    assert_eq!(GitIndex::open(Some(&file)), Ok(two_entry_index()));
    let unsorted = GitIndex {
        header: GitIndexHeader { version: GitIndexVersion::V2, num_entries: 2 },
        entries: vec![two_entry_index().entries[1].clone(), two_entry_index().entries[0].clone()],
    };
    let unsorted_file = GitIndex::serialize(&unsorted);
    assert_eq!(GitIndex::deserialize(&unsorted_file), Ok(unsorted));
    let refused = GitIndex::open(Some(&unsorted_file)).unwrap_err();
    assert_eq!(refused.kind, GitErrorKind::Corrupt);
    assert_eq!(refused.message(), "index entries are not sorted");
    assert_eq!(GitIndex::open(Some(b"DIRC")).unwrap_err().kind, GitErrorKind::Corrupt);
    assert!(two_entry_index().check_wf() && two_entry_index().check_encodable());
    assert_eq!(GitIndex::default(), GitIndex::new());
    assert_eq!(two_entry_index().write(), file);
}

#[test]
fn adding_an_entry_with_a_known_key_replaces_it() {
    let mut index = GitIndex::new();
    index.add(get_test_index_entry());
    index.add(GitIndexEntry { file_size: 99, ..get_test_index_entry() });
    assert_eq!(index.entries.len(), 1);
    assert_eq!(index.header.num_entries, 1);
    assert_eq!(index.entries[0].file_size, 99);
    // another stage of the same path is another key, and comes after
    let theirs = GitIndexEntry {
        flags: GitIndexFlags { stage: GitIndexStageFlag::Theirs, ..get_test_index_entry().flags },
        ..get_test_index_entry()
    };
    index.add(theirs);
    let base = GitIndexEntry {
        flags: GitIndexFlags { stage: GitIndexStageFlag::Base, ..get_test_index_entry().flags },
        ..get_test_index_entry()
    };
    index.add(base);
    let stages: Vec<GitIndexStageFlag> = index.entries.iter().map(|e| e.flags.stage).collect();
    assert_eq!(
        stages,
        vec![
            GitIndexStageFlag::RegularFileNoConflict,
            GitIndexStageFlag::Base,
            GitIndexStageFlag::Theirs
        ]
    );
    assert!(index.is_sorted());
}

#[test]
fn a_proper_prefix_comes_first() {
    let mut index = GitIndex::new();
    for path in ["b", "a/b", "a", "ab", "a.txt"] {
        index.add(GitIndexEntry { path_name: path.as_bytes().to_vec(), ..get_test_index_entry() });
    }
    let paths: Vec<&[u8]> = index.entries.iter().map(|e| e.path_name.as_slice()).collect();
    let expected: Vec<&[u8]> = vec![b"a", b"a.txt", b"a/b", b"ab", b"b"];
    assert_eq!(paths, expected);
    assert_eq!(index.search(b"a/b", 0), (true, 2));
    assert_eq!(index.search(b"a/a", 0), (false, 2));
    assert_eq!(index.search(b"zzz", 0), (false, 5));
}

#[test]
fn find_range_remove_and_rename() {
    let mut index = GitIndex::new();
    for path in ["dir/one", "dir/two", "dir2/x", "file", "dir"] {
        index.add(GitIndexEntry { path_name: path.as_bytes().to_vec(), ..get_test_index_entry() });
    }
    assert_eq!(index.entry_by_path(b"file").map(|(i, e)| (i, e.path_name.clone())), Some((4, b"file".to_vec())));
    assert!(index.entry_by_path(b"missing").is_none());

    let under: Vec<Vec<u8>> =
        index.entry_range_by_path(b"dir").iter().map(|e| e.path_name.clone()).collect();
    assert_eq!(under, vec![b"dir".to_vec(), b"dir/one".to_vec(), b"dir/two".to_vec()]);
    assert_eq!(index.entry_range_by_path(b"").len(), 5);
    assert_eq!(index.entry_range_by_path(b"di").len(), 0);
    assert_eq!(index.iter_entries().len(), 5);
    assert_eq!(index.iter_entries_range(1, 3).len(), 2);

    index.rename_entry_by_path(b"dir/one", b"zed");
    let paths: Vec<Vec<u8>> = index.entries.iter().map(|e| e.path_name.clone()).collect();
    assert_eq!(
        paths,
        vec![b"dir".to_vec(), b"dir/two".to_vec(), b"dir2/x".to_vec(), b"file".to_vec(), b"zed".to_vec()]
    );
    assert_eq!(index.entries[4].flags.name_length, 3);
    assert!(index.is_sorted());
    index.rename_entry_by_path(b"missing", b"other");
    assert_eq!(index.entries.len(), 5);

    let removed = index.remove_entry_at(1);
    assert_eq!(removed.path_name, b"dir/two".to_vec());
    assert_eq!(index.header.num_entries, 4);

    let dropped = index.filter_entries(|e| e.path_name.starts_with(b"d"));
    assert_eq!(dropped, vec![b"file".to_vec(), b"zed".to_vec()]);
    assert_eq!(index.header.num_entries, 2);
    assert!(index.is_sorted());
}

#[test]
fn an_unsorted_index_is_told_apart() {
    let index = GitIndex {
        header: GitIndexHeader { version: GitIndexVersion::V2, num_entries: 2 },
        entries: vec![
            GitIndexEntry { path_name: b"b".to_vec(), ..get_test_index_entry() },
            GitIndexEntry { path_name: b"a".to_vec(), ..get_test_index_entry() },
        ],
    };
    assert!(!index.is_sorted());
    let twice = GitIndex {
        header: GitIndexHeader { version: GitIndexVersion::V2, num_entries: 2 },
        entries: vec![get_test_index_entry(), get_test_index_entry()],
    };
    assert!(!twice.is_sorted());
}

#[test]
fn a_new_entry_takes_its_state_from_the_file() {
    let stat = FileStat {
        ctime: 0x1_0000_0007,
        ctime_nsec: 8,
        mtime: 9,
        mtime_nsec: 10,
        dev: 11,
        ino: 0xffff_ffff_ffff_fffe,
        uid: 13,
        gid: 14,
        size: 15,
        mode: 0o100755,
        is_symlink: false,
        is_dir: false,
    };
    let id = GitObjectId::new("30d74d258442c7c65512eafab474568dd706c430");
    let entry = GitIndexEntry::new(b"a/b.txt", &stat, id.clone());
    assert_eq!(entry.last_metadata_update, GitIndexTimestamp { seconds: 7, nanoseconds: 8 });
    assert_eq!(entry.last_data_update, GitIndexTimestamp { seconds: 9, nanoseconds: 10 });
    assert_eq!((entry.dev, entry.ino, entry.uid, entry.gid, entry.file_size), (11, 0xffff_fffe, 13, 14, 15));
    assert_eq!(entry.mode, GitIndexMode::RegularFile0755);
    assert_eq!(entry.name, id);
    assert_eq!(entry.path_name, b"a/b.txt".to_vec());
    assert_eq!(
        entry.flags,
        GitIndexFlags {
            assume_valid: false,
            extended: false,
            stage: GitIndexStageFlag::RegularFileNoConflict,
            name_length: 7
        }
    );
    let plain = GitIndexEntry::new(b"x", &FileStat { mode: 0o100644, ..stat }, id.clone());
    assert_eq!(plain.mode, GitIndexMode::RegularFile0644);
    let link = GitIndexEntry::new(b"x", &FileStat { is_symlink: true, ..stat }, id.clone());
    assert_eq!(link.mode, GitIndexMode::SymbolicLink);
    let dir = GitIndexEntry::new(b"x", &FileStat { is_dir: true, ..stat }, id.clone());
    assert_eq!(dir.mode, GitIndexMode::GitLink);
    // a long name is recorded as 0xFFF
    let long = GitIndexEntry::new(&vec![b'n'; 5000], &stat, id.clone());
    assert_eq!(long.flags.name_length, 0xfff);
    assert_eq!(long.clone().with_updated_name(b"short").flags.name_length, 5);
    assert_eq!(GitIndexEntry::deserialize(&GitIndexEntry::serialize(&long)), Ok((long, 62 + 5000 + 2)));
}
