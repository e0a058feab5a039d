use rpi_imgpatcher::patcher::instruction::{
    add_file_bytes, append_cmdline, append_file_bytes, command_display, exec_result, shell_result, update_cmdline,
    CommandOutcome, Step,
};
use rpi_imgpatcher::patcher::{Instruction, PatchContext, PatchError};
use rpi_imgpatcher::rpi_image::fat_file::{read_file, write_bytes, FatWorkspace, WorkspaceFile};
use std::io::{Seek, SeekFrom};

fn open_fat_workspace() -> FatWorkspace {
    let mut tmp = tempfile::NamedTempFile::new().unwrap();
    tmp.as_file().set_len(8 * 1024 * 1024).unwrap();
    fatfs::format_volume(&mut tmp, fatfs::FormatVolumeOptions::new()).unwrap();
    tmp.seek(SeekFrom::Start(0)).unwrap();
    FatWorkspace::mount(WorkspaceFile { file: tmp }).unwrap()
}

#[test]
fn append_cmdline_normalizes_trailing_whitespace() {
    let out = append_cmdline(b"console=serial0,115200 \n".to_vec(), "quiet");
    assert_eq!(out, b"console=serial0,115200 quiet");
}

#[test]
fn append_cmdline_on_empty_file() {
    assert_eq!(append_cmdline(Vec::new(), "quiet"), b"quiet");
    assert_eq!(append_cmdline(b" \t\r\n".to_vec(), "quiet"), b"quiet");
}

#[test]
fn test_execute_append_cmdline() {
    let mut fat = open_fat_workspace();

    write_bytes(&mut fat, "cmdline.txt", b"console=serial0,115200").unwrap();
    update_cmdline(&mut fat, "quiet").unwrap();
    let buf = read_file(&fat, "cmdline.txt").unwrap();
    assert_eq!(buf, b"console=serial0,115200 quiet");

    // Test with trailing space/newline
    write_bytes(&mut fat, "cmdline.txt", b"console=serial0,115200 \n").unwrap();
    update_cmdline(&mut fat, "quiet").unwrap();
    let buf = read_file(&fat, "cmdline.txt").unwrap();
    assert_eq!(buf, b"console=serial0,115200 quiet");

    // Test with empty cmdline.txt
    write_bytes(&mut fat, "cmdline.txt", b"").unwrap();
    update_cmdline(&mut fat, "quiet").unwrap();
    let buf = read_file(&fat, "cmdline.txt").unwrap();
    assert_eq!(buf, b"quiet");
}

#[test]
fn update_cmdline_without_file_fails_to_read() {
    let mut fat = open_fat_workspace();
    assert!(matches!(update_cmdline(&mut fat, "quiet"), Err(PatchError::CannotReadCmdlineTxt)));
}

#[test]
fn test_execute_add_file() {
    let mut fat = open_fat_workspace();
    add_file_bytes(&mut fat, &"test_host.txt".to_owned(), b"hello host\n").unwrap();
    assert_eq!(read_file(&fat, "test_host.txt").unwrap(), b"hello host\n");
}

#[test]
fn append_file_bytes_appends() {
    let mut fat = open_fat_workspace();
    append_file_bytes(&mut fat, &"boot/a.txt".to_owned(), b"x").unwrap();
    append_file_bytes(&mut fat, &"boot/a.txt".to_owned(), b"y").unwrap();
    assert_eq!(read_file(&fat, "boot/a.txt").unwrap(), b"xy");
}

#[test]
fn shell_result_follows_exit_status() {
    let cmd = "exit 0".to_owned();
    assert!(shell_result(&cmd, CommandOutcome::Exited(0)).is_ok());
    let cmd = "exit 1".to_owned();
    assert!(matches!(
        shell_result(&cmd, CommandOutcome::Exited(1)),
        Err(PatchError::ShellFailed(1, c)) if c == "exit 1"
    ));
}

#[test]
fn exec_result_follows_exit_status() {
    let display = command_display(&"true".to_owned(), &vec![]);
    assert!(exec_result(&display, CommandOutcome::Exited(0)).is_ok());
    let display = command_display(&"false".to_owned(), &vec![]);
    assert!(matches!(
        exec_result(&display, CommandOutcome::Exited(1)),
        Err(PatchError::ExecFailed(1, c)) if c == "false"
    ));
}

#[test]
fn commands_without_status_fail_with_minus_one() {
    let cmd = "x".to_owned();
    assert!(matches!(shell_result(&cmd, CommandOutcome::Signalled), Err(PatchError::ShellFailed(-1, _))));
    assert!(matches!(exec_result(&cmd, CommandOutcome::NotStarted), Err(PatchError::ExecFailed(-1, _))));
}

#[test]
fn command_display_joins_with_spaces() {
    let d = command_display(&"cp".to_owned(), &vec!["file a.txt".to_owned(), "b".to_owned()]);
    assert_eq!(d, "cp file a.txt b");
}

#[test]
fn plan_refuses_image_work_before_from() {
    let add = Instruction::AddFile { fat_path: "boot/x".to_owned(), host_file: "x".to_owned() };
    assert!(matches!(add.plan(false), Err(PatchError::CannotAddFileBeforeFromInstruction(p)) if p == "boot/x"));
    assert!(matches!(add.plan(true), Ok(Step::WriteFile { .. })));
    let save = Instruction::Save { output_image: "o.img".to_owned() };
    assert!(matches!(save.plan(false), Err(PatchError::CannotSaveBeforeFromInstruction(_))));
    let cmd = Instruction::AppendCmdline { append_conf: "quiet".to_owned() };
    assert!(matches!(cmd.plan(false), Err(PatchError::CannotAppendToCmdlineBeforeFromInstruction)));
    let app = Instruction::AppendFile { fat_path: "f".to_owned(), host_file: "h".to_owned() };
    assert!(matches!(app.plan(false), Err(PatchError::CannotAppendFileBeforeFromInstruction(_))));
}

#[test]
fn plan_refuses_a_second_from() {
    let from = Instruction::From { source_image: "a.img".to_owned() };
    assert!(matches!(from.plan(false), Ok(Step::OpenImage { source_image }) if source_image == "a.img"));
    assert!(matches!(from.plan(true), Err(PatchError::MultipleFromInstructions)));
}

#[test]
fn plan_of_host_commands_needs_no_image() {
    let exec = Instruction::Exec { program: "cp".to_owned(), args: vec!["a".to_owned(), "b".to_owned()] };
    assert!(matches!(exec.plan(false), Ok(Step::RunExec { display, .. }) if display == "cp a b"));
    let shell = Instruction::Shell { command: "true".to_owned() };
    assert!(matches!(shell.plan(false), Ok(Step::RunShell { command }) if command == "true"));
}

#[test]
fn patch_context_starts_without_image() {
    let ctx: PatchContext<u8> = PatchContext::new();
    assert!(!ctx.has_image());
    let ctx = PatchContext { rpi_image: Some(1u8) };
    assert!(ctx.has_image());
}
