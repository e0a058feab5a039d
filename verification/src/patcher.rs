//! The Patcherfile language: its instructions, its errors, and the session
//! that executing them goes through.
pub mod instruction;
pub mod parser;

pub use instruction::Instruction;

use crate::rpi_image::{Error, FfiError};
use crate::text::{chars_of, decimal_text, i32_text, push_str_chars, string_of};
use vstd::prelude::*;

verus! {

/// The state a sequence of instructions runs in: the image that `FROM`
/// opened, if any.
pub struct PatchContext<I> {
    pub rpi_image: Option<I>,
}

impl<I> PatchContext<I> {
    /// A session in which no image has been opened yet.
    pub fn new() -> (r: Self)
        ensures
            r.rpi_image is None,
    {
        PatchContext { rpi_image: None }
    }

    /// Whether `FROM` has opened an image in this session.
    pub fn has_image(&self) -> (r: bool)
        ensures
            r == self.rpi_image is Some,
    {
        self.rpi_image.is_some()
    }
}

/// Why parsing or executing a Patcherfile failed.
#[derive(Debug)]
pub enum PatchError {
    EmptyPatcherfile,
    UnknownInstruction(String),
    MissingArgument(String),
    InvalidArguments(String, Vec<String>),
    MissingFromInstruction,
    MissingSaveInstruction,
    MultipleFromInstructions,
    MultipleSaveInstructions,
    SaveMustBeLastInstruction,
    CouldNotInitializeSourceImage(String, Error),
    ShellFailed(i32, String),
    ExecFailed(i32, String),
    CannotAddFileBeforeFromInstruction(String),
    CannotAppendFileBeforeFromInstruction(String),
    CannotAppendToCmdlineBeforeFromInstruction,
    CannotReadCmdlineTxt,
    CannotAppendtoCmdlineTxt,
    CannotReadHostFile(String, std::io::Error),
    CouldNotWriteToFat(String, Error),
    CannotSaveBeforeFromInstruction(String),
    CouldNotSaveImage(String, Error),
}

/// A [`PatchError`] as plain values: texts as characters, image errors by
/// their kind; the I/O error of `CannotReadHostFile` is left out.
pub enum PatchErrorModel {
    EmptyPatcherfile,
    UnknownInstruction(Seq<char>),
    MissingArgument(Seq<char>),
    InvalidArguments(Seq<char>, Seq<Seq<char>>),
    MissingFromInstruction,
    MissingSaveInstruction,
    MultipleFromInstructions,
    MultipleSaveInstructions,
    SaveMustBeLastInstruction,
    CouldNotInitializeSourceImage(Seq<char>, FfiError),
    ShellFailed(i32, Seq<char>),
    ExecFailed(i32, Seq<char>),
    CannotAddFileBeforeFromInstruction(Seq<char>),
    CannotAppendFileBeforeFromInstruction(Seq<char>),
    CannotAppendToCmdlineBeforeFromInstruction,
    CannotReadCmdlineTxt,
    CannotAppendtoCmdlineTxt,
    CannotReadHostFile(Seq<char>),
    CouldNotWriteToFat(Seq<char>, FfiError),
    CannotSaveBeforeFromInstruction(Seq<char>),
    CouldNotSaveImage(Seq<char>, FfiError),
}

/// The characters of each string, in order.
pub open spec fn strings_view(v: Seq<String>) -> Seq<Seq<char>> {
    v.map_values(|s: String| s@)
}

impl View for PatchError {
    type V = PatchErrorModel;

    open spec fn view(&self) -> PatchErrorModel {
        match self {
            PatchError::EmptyPatcherfile => PatchErrorModel::EmptyPatcherfile,
            PatchError::UnknownInstruction(s) => PatchErrorModel::UnknownInstruction(s@),
            PatchError::MissingArgument(s) => PatchErrorModel::MissingArgument(s@),
            PatchError::InvalidArguments(s, a) => PatchErrorModel::InvalidArguments(
                s@,
                strings_view(a@),
            ),
            PatchError::MissingFromInstruction => PatchErrorModel::MissingFromInstruction,
            PatchError::MissingSaveInstruction => PatchErrorModel::MissingSaveInstruction,
            PatchError::MultipleFromInstructions => PatchErrorModel::MultipleFromInstructions,
            PatchError::MultipleSaveInstructions => PatchErrorModel::MultipleSaveInstructions,
            PatchError::SaveMustBeLastInstruction => PatchErrorModel::SaveMustBeLastInstruction,
            PatchError::CouldNotInitializeSourceImage(p, e) =>
                PatchErrorModel::CouldNotInitializeSourceImage(p@, e.kind()),
            PatchError::ShellFailed(c, s) => PatchErrorModel::ShellFailed(*c, s@),
            PatchError::ExecFailed(c, s) => PatchErrorModel::ExecFailed(*c, s@),
            PatchError::CannotAddFileBeforeFromInstruction(p) =>
                PatchErrorModel::CannotAddFileBeforeFromInstruction(p@),
            PatchError::CannotAppendFileBeforeFromInstruction(p) =>
                PatchErrorModel::CannotAppendFileBeforeFromInstruction(p@),
            PatchError::CannotAppendToCmdlineBeforeFromInstruction =>
                PatchErrorModel::CannotAppendToCmdlineBeforeFromInstruction,
            PatchError::CannotReadCmdlineTxt => PatchErrorModel::CannotReadCmdlineTxt,
            PatchError::CannotAppendtoCmdlineTxt => PatchErrorModel::CannotAppendtoCmdlineTxt,
            PatchError::CannotReadHostFile(p, _) => PatchErrorModel::CannotReadHostFile(p@),
            PatchError::CouldNotWriteToFat(p, e) => PatchErrorModel::CouldNotWriteToFat(
                p@,
                e.kind(),
            ),
            PatchError::CannotSaveBeforeFromInstruction(p) =>
                PatchErrorModel::CannotSaveBeforeFromInstruction(p@),
            PatchError::CouldNotSaveImage(p, e) => PatchErrorModel::CouldNotSaveImage(
                p@,
                e.kind(),
            ),
        }
    }
}

/// How `{:?}` renders a host path given by its characters.
pub uninterp spec fn debug_path_text(p: Seq<char>) -> Seq<char>;

/// How `{:?}` renders a list of strings.
pub uninterp spec fn debug_list_text(v: Seq<Seq<char>>) -> Seq<char>;

/// Renders a host path as `{:?}` does (`<std::path::Path as Debug>::fmt`).
/// The contract claims that the text depends on the path's characters alone.
#[verifier::external_body]
fn debug_path(p: &String) -> (r: String)
    ensures
        r@ == debug_path_text(p@),
{
    format!("{:?}", std::path::Path::new(p.as_str()))
}

/// Renders a list of strings as `{:?}` does (`<Vec<String> as Debug>::fmt`).
/// The contract claims that the text depends on the strings' characters alone.
#[verifier::external_body]
fn debug_list(v: &Vec<String>) -> (r: String)
    ensures
        r@ == debug_list_text(strings_view(v@)),
{
    format!("{:?}", v)
}

/// The message of an error (what `{}` shows). `detail` stands for the text of
/// the inner error, where the variant carries one.
pub open spec fn message_of(m: PatchErrorModel, detail: Seq<char>) -> Seq<char> {
    match m {
        PatchErrorModel::EmptyPatcherfile => "Patcherfile is empty"@,
        PatchErrorModel::UnknownInstruction(i) => "Unknown instruction: "@ + i,
        PatchErrorModel::MissingArgument(i) => "Instruction "@ + i + " is missing an argument"@,
        PatchErrorModel::InvalidArguments(i, a) => "Instruction "@ + i
            + " has invalid arguments: "@ + debug_list_text(a),
        PatchErrorModel::MissingFromInstruction => "Missing FROM instruction"@,
        PatchErrorModel::MissingSaveInstruction => "Missing SAVE instruction"@,
        PatchErrorModel::CouldNotInitializeSourceImage(p, _) =>
            "Could not initialize source image: "@ + debug_path_text(p) + " ("@ + detail
                + ")"@,
        PatchErrorModel::MultipleFromInstructions => "Multiple FROM instructions"@,
        PatchErrorModel::MultipleSaveInstructions => "Multiple SAVE instructions"@,
        PatchErrorModel::SaveMustBeLastInstruction =>
            "SAVE instruction must be the last instruction"@,
        PatchErrorModel::ShellFailed(c, s) => "Shell command failed ("@ + decimal_text(c as int)
            + "): `"@ + s + "`"@,
        PatchErrorModel::ExecFailed(c, s) => "EXEC command failed ("@ + decimal_text(c as int)
            + "): `"@ + s + "`"@,
        PatchErrorModel::CannotAddFileBeforeFromInstruction(p) =>
            "Cannot use ADD FILE before FROM instruction: "@ + p,
        PatchErrorModel::CannotAppendFileBeforeFromInstruction(p) =>
            "Cannot use APPEND FILE before FROM instruction: "@ + p,
        PatchErrorModel::CannotAppendToCmdlineBeforeFromInstruction =>
            "Cannot APPEND CMDLINE before FROM instruction"@,
        PatchErrorModel::CannotReadCmdlineTxt => "Cannot read `cmdline.txt`"@,
        PatchErrorModel::CannotAppendtoCmdlineTxt => "Error writing `cmdline.txt`"@,
        PatchErrorModel::CannotReadHostFile(p) => "Cannot read host file "@ + debug_path_text(p)
            + ": "@ + detail,
        PatchErrorModel::CouldNotWriteToFat(p, _) => "Could not write file to FAT: "@ + p + " ("@
            + detail + ")"@,
        PatchErrorModel::CannotSaveBeforeFromInstruction(p) =>
            "Cannot use SAVE before FROM instruction: "@ + debug_path_text(p),
        PatchErrorModel::CouldNotSaveImage(p, _) => "Could not save image: "@ + debug_path_text(p)
            + " ("@ + detail + ")"@,
    }
}

/// Whether `d` can be the `{:?}` text of an image error: exact for errors
/// without an inner error, the variant's name and parentheses otherwise.
pub open spec fn image_error_detail(e: &Error, d: Seq<char>) -> bool {
    if e.has_inner() {
        exists|t: Seq<char>| d == crate::rpi_image::error::variant_name(e.kind()) + "("@ + t + ")"@
    } else {
        d == crate::rpi_image::error::variant_name(e.kind())
    }
}

impl PatchError {
    /// Whether `d` can stand for the inner error's text in the message.
    pub open spec fn detail_fits(&self, d: Seq<char>) -> bool {
        match self {
            PatchError::CouldNotInitializeSourceImage(_, e) => image_error_detail(e, d),
            PatchError::CouldNotWriteToFat(_, e) => image_error_detail(e, d),
            PatchError::CouldNotSaveImage(_, e) => image_error_detail(e, d),
            PatchError::CannotReadHostFile(_, _) => true,
            _ => d.len() == 0,
        }
    }

    /// The human-readable message of the error (what `{}` shows).
    pub fn message(&self) -> (r: String)
        ensures
            exists|d: Seq<char>| self.detail_fits(d) && r@ == message_of(self@, d),
    {
        let mut v: Vec<char>;
        let ghost mut dd: Seq<char> = seq![];
        match self {
            PatchError::EmptyPatcherfile => {
                v = chars_of("Patcherfile is empty");
            },
            PatchError::UnknownInstruction(i) => {
                v = chars_of("Unknown instruction: ");
                push_str_chars(&mut v, i.as_str());
            },
            PatchError::MissingArgument(i) => {
                v = chars_of("Instruction ");
                push_str_chars(&mut v, i.as_str());
                push_str_chars(&mut v, " is missing an argument");
            },
            PatchError::InvalidArguments(i, a) => {
                v = chars_of("Instruction ");
                push_str_chars(&mut v, i.as_str());
                push_str_chars(&mut v, " has invalid arguments: ");
                let l = debug_list(a);
                push_str_chars(&mut v, l.as_str());
            },
            PatchError::MissingFromInstruction => {
                v = chars_of("Missing FROM instruction");
            },
            PatchError::MissingSaveInstruction => {
                v = chars_of("Missing SAVE instruction");
            },
            PatchError::CouldNotInitializeSourceImage(p, e) => {
                v = chars_of("Could not initialize source image: ");
                let dp = debug_path(p);
                push_str_chars(&mut v, dp.as_str());
                push_str_chars(&mut v, " (");
                let d = e.debug_text();
                push_str_chars(&mut v, d.as_str());
                push_str_chars(&mut v, ")");
                proof { dd = d@; }
            },
            PatchError::MultipleFromInstructions => {
                v = chars_of("Multiple FROM instructions");
            },
            PatchError::MultipleSaveInstructions => {
                v = chars_of("Multiple SAVE instructions");
            },
            PatchError::SaveMustBeLastInstruction => {
                v = chars_of("SAVE instruction must be the last instruction");
            },
            PatchError::ShellFailed(c, s) => {
                v = chars_of("Shell command failed (");
                let n = i32_text(*c);
                crate::text::append_chars(&mut v, n.as_slice());
                push_str_chars(&mut v, "): `");
                push_str_chars(&mut v, s.as_str());
                push_str_chars(&mut v, "`");
            },
            PatchError::ExecFailed(c, s) => {
                v = chars_of("EXEC command failed (");
                let n = i32_text(*c);
                crate::text::append_chars(&mut v, n.as_slice());
                push_str_chars(&mut v, "): `");
                push_str_chars(&mut v, s.as_str());
                push_str_chars(&mut v, "`");
            },
            PatchError::CannotAddFileBeforeFromInstruction(p) => {
                v = chars_of("Cannot use ADD FILE before FROM instruction: ");
                push_str_chars(&mut v, p.as_str());
            },
            PatchError::CannotAppendFileBeforeFromInstruction(p) => {
                v = chars_of("Cannot use APPEND FILE before FROM instruction: ");
                push_str_chars(&mut v, p.as_str());
            },
            PatchError::CannotAppendToCmdlineBeforeFromInstruction => {
                v = chars_of("Cannot APPEND CMDLINE before FROM instruction");
            },
            PatchError::CannotReadCmdlineTxt => {
                v = chars_of("Cannot read `cmdline.txt`");
            },
            PatchError::CannotAppendtoCmdlineTxt => {
                v = chars_of("Error writing `cmdline.txt`");
            },
            PatchError::CannotReadHostFile(p, e) => {
                v = chars_of("Cannot read host file ");
                let dp = debug_path(p);
                push_str_chars(&mut v, dp.as_str());
                push_str_chars(&mut v, ": ");
                let d = crate::rpi_image::error::io_error_display(e);
                push_str_chars(&mut v, d.as_str());
                proof { dd = d@; }
            },
            PatchError::CouldNotWriteToFat(p, e) => {
                v = chars_of("Could not write file to FAT: ");
                push_str_chars(&mut v, p.as_str());
                push_str_chars(&mut v, " (");
                let d = e.debug_text();
                push_str_chars(&mut v, d.as_str());
                push_str_chars(&mut v, ")");
                proof { dd = d@; }
            },
            PatchError::CannotSaveBeforeFromInstruction(p) => {
                v = chars_of("Cannot use SAVE before FROM instruction: ");
                let dp = debug_path(p);
                push_str_chars(&mut v, dp.as_str());
            },
            PatchError::CouldNotSaveImage(p, e) => {
                v = chars_of("Could not save image: ");
                let dp = debug_path(p);
                push_str_chars(&mut v, dp.as_str());
                push_str_chars(&mut v, " (");
                let d = e.debug_text();
                push_str_chars(&mut v, d.as_str());
                push_str_chars(&mut v, ")");
                proof { dd = d@; }
            },
        }
        assert(self.detail_fits(dd) && v@ == message_of(self@, dd));
        string_of(v.as_slice())
    }
}

} // verus!
