use rpi_imgpatcher::rpi_image::fat_file::{
    append_bytes, create_dir_r, dir_components, dir_exists, parent_dir, read_file, split_path, write_bytes,
    write_file, FatWorkspace, WorkspaceFile,
};
use rpi_imgpatcher::rpi_image::Error;
use std::io::{Cursor, Seek, SeekFrom};

/// A workspace holding a freshly formatted FAT volume, standing in for the
/// boot partition of a disk image.
fn open_fat_workspace() -> FatWorkspace {
    let mut tmp = tempfile::NamedTempFile::new().expect("should create temp FAT workspace");
    tmp.as_file().set_len(8 * 1024 * 1024).expect("should size FAT workspace");
    fatfs::format_volume(&mut tmp, fatfs::FormatVolumeOptions::new()).expect("should format FAT workspace");
    tmp.seek(SeekFrom::Start(0)).expect("should rewind FAT workspace");
    FatWorkspace::mount(WorkspaceFile { file: tmp }).expect("should mount FAT workspace")
}

fn chars(s: &str) -> Vec<char> {
    s.chars().collect()
}

#[test]
fn create_dir_r_is_idempotent_on_existing_path() {
    let mut fat = open_fat_workspace();

    create_dir_r(&mut fat, "boot/deep/a").expect("first create_dir_r call should succeed");
    create_dir_r(&mut fat, "boot/deep/a").expect("second create_dir_r call should also succeed");

    assert!(dir_exists(&fat, "boot/deep/a"), "created directory should exist");
}

#[test]
fn create_dir_r_supports_partially_existing_path() {
    let mut fat = open_fat_workspace();

    create_dir_r(&mut fat, "boot/partial").expect("should create first segment");
    create_dir_r(&mut fat, "boot/partial/more/depth").expect("should extend when parent already exists");

    assert!(dir_exists(&fat, "boot/partial/more/depth"), "extended path should exist");
}

#[test]
fn write_bytes_creates_missing_subdirs_when_parent_exists() {
    let mut fat = open_fat_workspace();

    write_bytes(&mut fat, "boot/existing.txt", b"first").expect("should write into existing parent directory");
    write_bytes(&mut fat, "boot/nested/deep/new.txt", b"second")
        .expect("should create nested directories under existing parent");

    let bytes = read_file(&fat, "boot/nested/deep/new.txt").expect("should read back file written in nested path");
    assert_eq!(bytes, b"second");
}

#[test]
fn create_dir_r_with_no_names_does_nothing() {
    let mut fat = open_fat_workspace();
    create_dir_r(&mut fat, "").unwrap();
    create_dir_r(&mut fat, "///").unwrap();
}

#[test]
fn read_after_write_gives_the_written_bytes() {
    let mut fat = open_fat_workspace();
    assert_eq!(write_bytes(&mut fat, "config.txt", b"long old contents").unwrap(), 17);
    assert_eq!(write_bytes(&mut fat, "config.txt", b"new").unwrap(), 3);
    assert_eq!(read_file(&fat, "config.txt").unwrap(), b"new");
}

#[test]
fn append_adds_at_the_end_or_creates() {
    let mut fat = open_fat_workspace();
    assert_eq!(append_bytes(&mut fat, "dir/log.txt", b"one").unwrap(), 3);
    assert_eq!(read_file(&fat, "dir/log.txt").unwrap(), b"one");
    assert_eq!(append_bytes(&mut fat, "dir/log.txt", b" two").unwrap(), 4);
    assert_eq!(read_file(&fat, "dir/log.txt").unwrap(), b"one two");
}

#[test]
fn write_file_copies_a_stream() {
    let mut fat = open_fat_workspace();
    let mut src = Cursor::new(b"from the host".to_vec());
    assert_eq!(write_file(&mut fat, "a/b/host.txt", &mut src).unwrap(), 13);
    assert_eq!(read_file(&fat, "a/b/host.txt").unwrap(), b"from the host");
}

#[test]
fn reading_a_missing_file_is_an_io_error() {
    let fat = open_fat_workspace();
    assert!(matches!(read_file(&fat, "nope.txt"), Err(Error::Io(_))));
}

#[test]
fn split_path_cuts_at_the_first_slash() {
    let (name, rest) = split_path(&chars("/boot/firmware/config.txt/"));
    assert_eq!(name, chars("boot"));
    assert_eq!(rest, Some(chars("firmware/config.txt")));
    let (name, rest) = split_path(&chars("single"));
    assert_eq!(name, chars("single"));
    assert_eq!(rest, None);
}

#[test]
fn parent_dir_is_text_before_last_slash() {
    assert_eq!(parent_dir("boot/nested/new.txt"), Some("boot/nested".to_owned()));
    assert_eq!(parent_dir("/top.txt"), Some(String::new()));
    assert_eq!(parent_dir("plain.txt"), None);
}

#[test]
fn dir_components_skip_empty_names() {
    assert_eq!(dir_components("//a//b/c/"), vec!["a".to_owned(), "b".to_owned(), "c".to_owned()]);
    assert!(dir_components("/").is_empty());
    assert!(dir_components("").is_empty());
}

#[test]
fn writing_a_file_creates_its_parent_directories() {
    let mut fat = open_fat_workspace();
    write_bytes(&mut fat, "x/y/z.txt", b"z").unwrap();
    assert!(dir_exists(&fat, "x"), "first directory should exist");
    assert!(dir_exists(&fat, "x/y"), "second directory should exist");
    append_bytes(&mut fat, "/p/q.txt", b"q").unwrap();
    assert!(dir_exists(&fat, "p"), "appending should create the directory too");
}

#[test]
fn write_file_replaces_a_longer_file() {
    let mut fat = open_fat_workspace();
    write_bytes(&mut fat, "boot/config.txt", b"a much longer old content").unwrap();
    let mut src = Cursor::new(b"short".to_vec());
    assert_eq!(write_file(&mut fat, "boot/config.txt", &mut src).unwrap(), 5);
    assert_eq!(read_file(&fat, "boot/config.txt").unwrap(), b"short");
}

#[test]
fn writes_to_other_paths_keep_a_file() {
    let mut fat = open_fat_workspace();
    write_bytes(&mut fat, "keep.txt", b"kept").unwrap();
    write_bytes(&mut fat, "other.txt", b"other").unwrap();
    append_bytes(&mut fat, "dir/more.txt", b"more").unwrap();
    let mut src = Cursor::new(b"host".to_vec());
    write_file(&mut fat, "dir/host.txt", &mut src).unwrap();
    assert_eq!(read_file(&fat, "keep.txt").unwrap(), b"kept");
    assert_eq!(read_file(&fat, "other.txt").unwrap(), b"other");
}

#[test]
fn mount_reads_the_volume_from_its_start() {
    let mut tmp = tempfile::NamedTempFile::new().expect("should create temp FAT workspace");
    tmp.as_file().set_len(8 * 1024 * 1024).expect("should size FAT workspace");
    fatfs::format_volume(&mut tmp, fatfs::FormatVolumeOptions::new()).expect("should format FAT workspace");
    tmp.seek(SeekFrom::Start(4096)).expect("should move away from the start");
    let mut fat = FatWorkspace::mount(WorkspaceFile { file: tmp }).expect("should mount from the start");
    write_bytes(&mut fat, "x.txt", b"ok").expect("should write");
    assert_eq!(read_file(&fat, "x.txt").unwrap(), b"ok".to_vec());
}

#[test]
fn append_through_a_new_directory_and_dot_dot_reaches_the_old_file() {
    let mut fat = open_fat_workspace();
    write_bytes(&mut fat, "x.txt", b"old").expect("should write");
    append_bytes(&mut fat, "a/../x.txt", b"+new").expect("should append");
    assert_eq!(read_file(&fat, "x.txt").unwrap(), b"old+new".to_vec());
    assert!(dir_exists(&fat, "a"));
}
