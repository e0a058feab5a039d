use rpi_imgpatcher::patcher::PatchError;
use rpi_imgpatcher::rpi_image::{Error, FfiError};

#[test]
fn ffi_codes_are_fixed() {
    assert_eq!(Error::NullPointer.ffi().code(), 1);
    assert_eq!(Error::CopyMismatch.ffi().code(), 2);
    assert_eq!(Error::InvalidImage.ffi().code(), 3);
    assert_eq!(Error::InvalidArgument.ffi().code(), 4);
    assert_eq!(Error::InvalidState.ffi().code(), 5);
    let io = std::io::Error::new(std::io::ErrorKind::Other, "boom");
    assert_eq!(Error::Io(io).ffi(), FfiError::Io);
    assert_eq!(FfiError::Io.code(), 6);
    assert_eq!(FfiError::Mbr.code(), 7);
    assert_eq!(FfiError::TempFile.code(), 8);
}

#[test]
fn io_errors_convert() {
    let io = std::io::Error::new(std::io::ErrorKind::NotFound, "missing");
    let e: Error = io.into();
    assert!(matches!(e, Error::Io(_)));
}

#[test]
fn image_error_messages() {
    assert_eq!(Error::InvalidImage.message(), "Invalid image");
    assert_eq!(Error::CopyMismatch.message(), "Copy mismatch");
}

#[test]
fn patch_error_messages() {
    assert_eq!(PatchError::EmptyPatcherfile.message(), "Patcherfile is empty");
    assert_eq!(PatchError::UnknownInstruction("COPY".to_owned()).message(), "Unknown instruction: COPY");
    assert_eq!(PatchError::MissingArgument("FROM".to_owned()).message(), "Instruction FROM is missing an argument");
    assert_eq!(PatchError::ShellFailed(2, "false".to_owned()).message(), "Shell command failed (2): `false`");
    assert_eq!(PatchError::ExecFailed(-1, "nope x".to_owned()).message(), "EXEC command failed (-1): `nope x`");
    assert_eq!(
        PatchError::InvalidArguments("ADD".to_owned(), vec!["a".to_owned(), "b \"c\"".to_owned()]).message(),
        "Instruction ADD has invalid arguments: [\"a\", \"b \\\"c\\\"\"]"
    );
    assert_eq!(
        PatchError::CannotSaveBeforeFromInstruction("out.img".to_owned()).message(),
        "Cannot use SAVE before FROM instruction: \"out.img\""
    );
    assert_eq!(
        PatchError::CannotAddFileBeforeFromInstruction("boot/x".to_owned()).message(),
        "Cannot use ADD FILE before FROM instruction: boot/x"
    );
    assert_eq!(PatchError::CannotReadCmdlineTxt.message(), "Cannot read `cmdline.txt`");
    assert_eq!(PatchError::CannotAppendtoCmdlineTxt.message(), "Error writing `cmdline.txt`");
}

#[test]
fn wrapped_error_messages_carry_the_inner_text() {
    let io = std::io::Error::new(std::io::ErrorKind::Other, "boom");
    assert_eq!(Error::Io(io).message(), "I/O Error (boom)");
    let io = std::io::Error::new(std::io::ErrorKind::Other, "kept");
    assert_eq!(Error::TempFile(io).message(), "Tempfile Error (kept)");
    let mut zeros = std::io::Cursor::new(vec![0u8; 1024]);
    let err = rpi_imgpatcher::rpi_image::FatPartitionLayout::new(&mut zeros).unwrap_err();
    let text = err.message();
    assert!(text.starts_with("MBR Error ("));
    assert!(text.ends_with(")"));
    assert!(text.len() > "MBR Error ()".len());
}

#[test]
fn debug_texts_name_the_variant() {
    assert_eq!(Error::InvalidState.debug_text(), "InvalidState");
    assert_eq!(Error::NullPointer.debug_text(), format!("{:?}", Error::NullPointer));
    let io = std::io::Error::new(std::io::ErrorKind::Other, "boom");
    let expected = format!("{:?}", Error::Io(std::io::Error::new(std::io::ErrorKind::Other, "boom")));
    assert_eq!(Error::Io(io).debug_text(), expected);
}

#[test]
fn patch_errors_with_image_errors() {
    let e = PatchError::CouldNotWriteToFat("boot/a".to_owned(), Error::InvalidState);
    assert_eq!(e.message(), "Could not write file to FAT: boot/a (InvalidState)");
    let e = PatchError::CouldNotSaveImage("o.img".to_owned(), Error::CopyMismatch);
    assert_eq!(e.message(), "Could not save image: \"o.img\" (CopyMismatch)");
    let e = PatchError::CouldNotInitializeSourceImage("a.img".to_owned(), Error::InvalidImage);
    assert_eq!(e.message(), "Could not initialize source image: \"a.img\" (InvalidImage)");
    let io = std::io::Error::new(std::io::ErrorKind::NotFound, "gone");
    let e = PatchError::CannotReadHostFile("h.txt".to_owned(), io);
    assert_eq!(e.message(), "Cannot read host file \"h.txt\": gone");
}
