//! Errors of the image layer and their numeric codes at the C boundary.
use crate::text::{append_chars, chars_of, string_of};
use mbrman::Error as MbrmanError;
use vstd::prelude::*;

verus! {

#[verifier::external_type_specification]
#[verifier::external_body]
pub struct ExIoError(std::io::Error);

#[verifier::external_type_specification]
#[verifier::external_body]
pub struct ExMbrError(MbrmanError);


/// What went wrong while reading, patching or writing an image.
#[derive(Debug)]
pub enum Error {
    NullPointer,
    CopyMismatch,
    InvalidImage,
    InvalidArgument,
    InvalidState,
    Io(std::io::Error),
    Mbr(MbrmanError),
    /// A temporary file could not be kept under its final name; holds the
    /// I/O error of the `PersistError` that `NamedTempFile::persist`
    /// reported (its `error` field).
    TempFile(std::io::Error),
}

/// The kind of an [`Error`], as the C interface reports it.
#[derive(Debug, Clone, Copy, PartialEq, Eq, Structural)]
pub enum FfiError {
    NullPointer,
    CopyMismatch,
    InvalidImage,
    InvalidArgument,
    InvalidState,
    Io,
    Mbr,
    TempFile,
}

impl FfiError {
    /// The number that stands for this kind at the C boundary.
    pub open spec fn spec_code(self) -> u32 {
        match self {
            FfiError::NullPointer => 1,
            FfiError::CopyMismatch => 2,
            FfiError::InvalidImage => 3,
            FfiError::InvalidArgument => 4,
            FfiError::InvalidState => 5,
            FfiError::Io => 6,
            FfiError::Mbr => 7,
            FfiError::TempFile => 8,
        }
    }

    /// The number that stands for this kind at the C boundary (1 to 8).
    pub fn code(&self) -> (r: u32)
        ensures
            r == self.spec_code(),
            1 <= r <= 8,
    {
        match self {
            FfiError::NullPointer => 1,
            FfiError::CopyMismatch => 2,
            FfiError::InvalidImage => 3,
            FfiError::InvalidArgument => 4,
            FfiError::InvalidState => 5,
            FfiError::Io => 6,
            FfiError::Mbr => 7,
            FfiError::TempFile => 8,
        }
    }
}

/// Distinct kinds have distinct codes.
pub proof fn lemma_codes_distinct(a: FfiError, b: FfiError)
    ensures
        a.spec_code() == b.spec_code() <==> a == b,
{
}

/// The message of an error that carries no inner error.
pub open spec fn plain_message(k: FfiError) -> Seq<char> {
    match k {
        FfiError::NullPointer => "Null pointer"@,
        FfiError::CopyMismatch => "Copy mismatch"@,
        FfiError::InvalidImage => "Invalid image"@,
        FfiError::InvalidArgument => "Invalid Argument"@,
        FfiError::InvalidState => "Invalid State"@,
        FfiError::Io => "I/O Error"@,
        FfiError::Mbr => "MBR Error"@,
        FfiError::TempFile => "Tempfile Error"@,
    }
}

/// The name under which `{:?}` shows a kind.
pub open spec fn variant_name(k: FfiError) -> Seq<char> {
    match k {
        FfiError::NullPointer => "NullPointer"@,
        FfiError::CopyMismatch => "CopyMismatch"@,
        FfiError::InvalidImage => "InvalidImage"@,
        FfiError::InvalidArgument => "InvalidArgument"@,
        FfiError::InvalidState => "InvalidState"@,
        FfiError::Io => "Io"@,
        FfiError::Mbr => "Mbr"@,
        FfiError::TempFile => "TempFile"@,
    }
}

/// Renders an I/O error as `{}` does (`<std::io::Error as Display>::fmt`).
/// Nothing is claimed of the text: it comes from the operating system.
#[verifier::external_body]
pub(crate) fn io_error_display(e: &std::io::Error) -> String {
    format!("{}", e)
}

/// Renders an I/O error as `{:?}` does (`<std::io::Error as Debug>::fmt`).
/// Nothing is claimed of the text: it comes from the operating system.
#[verifier::external_body]
fn io_error_debug(e: &std::io::Error) -> String {
    format!("{:?}", e)
}

/// Renders an MBR error as `{}` does (`<MbrmanError as Display>::fmt`).
/// Nothing is claimed of the text.
#[verifier::external_body]
fn mbr_error_display(e: &MbrmanError) -> String {
    format!("{}", e)
}

/// Renders an MBR error as `{:?}` does (`<MbrmanError as Debug>::fmt`).
/// Nothing is claimed of the text.
#[verifier::external_body]
fn mbr_error_debug(e: &MbrmanError) -> String {
    format!("{:?}", e)
}

fn wrap_text(head: &str, inner: &String, tail: &str) -> (r: String)
    ensures
        r@ == head@ + inner@ + tail@,
{
    let mut v = chars_of(head);
    let i = chars_of(inner.as_str());
    append_chars(&mut v, i.as_slice());
    let t = chars_of(tail);
    append_chars(&mut v, t.as_slice());
    string_of(v.as_slice())
}

impl Error {
    /// The kind of this error.
    pub open spec fn kind(&self) -> FfiError {
        match self {
            Error::NullPointer => FfiError::NullPointer,
            Error::CopyMismatch => FfiError::CopyMismatch,
            Error::InvalidImage => FfiError::InvalidImage,
            Error::InvalidArgument => FfiError::InvalidArgument,
            Error::InvalidState => FfiError::InvalidState,
            Error::Io(_) => FfiError::Io,
            Error::Mbr(_) => FfiError::Mbr,
            Error::TempFile(_) => FfiError::TempFile,
        }
    }

    /// Whether the error carries an inner error of another library.
    pub open spec fn has_inner(&self) -> bool {
        self is Io || self is Mbr || self is TempFile
    }

    /// The kind of this error, as the C interface reports it.
    pub fn ffi(&self) -> (r: FfiError)
        ensures
            r == self.kind(),
    {
        match self {
            Error::NullPointer => FfiError::NullPointer,
            Error::CopyMismatch => FfiError::CopyMismatch,
            Error::InvalidImage => FfiError::InvalidImage,
            Error::InvalidArgument => FfiError::InvalidArgument,
            Error::InvalidState => FfiError::InvalidState,
            Error::Io(_) => FfiError::Io,
            Error::Mbr(_) => FfiError::Mbr,
            Error::TempFile(_) => FfiError::TempFile,
        }
    }

    /// The human-readable message of the error (what `{}` shows): a fixed
    /// sentence, followed for wrapped errors by the inner error's own text in
    /// parentheses.
    pub fn message(&self) -> (r: String)
        ensures
            !self.has_inner() ==> r@ == plain_message(self.kind()),
            self.has_inner() ==> exists|t: Seq<char>|
                r@ == plain_message(self.kind()) + " ("@ + t + ")"@,
    {
        match self {
            Error::NullPointer => string_of(chars_of("Null pointer").as_slice()),
            Error::CopyMismatch => string_of(chars_of("Copy mismatch").as_slice()),
            Error::InvalidImage => string_of(chars_of("Invalid image").as_slice()),
            Error::InvalidArgument => string_of(chars_of("Invalid Argument").as_slice()),
            Error::InvalidState => string_of(chars_of("Invalid State").as_slice()),
            Error::Io(e) => {
                let t = io_error_display(e);
                let r = wrap_text("I/O Error (", &t, ")");
                proof {
                    reveal_strlit("I/O Error (");
                    reveal_strlit("I/O Error");
                    reveal_strlit(" (");
                    assert("I/O Error ("@ =~= "I/O Error"@ + " ("@);
                    assert(r@ == plain_message(FfiError::Io) + " ("@ + t@ + ")"@);
                }
                r
            },
            Error::Mbr(e) => {
                let t = mbr_error_display(e);
                let r = wrap_text("MBR Error (", &t, ")");
                proof {
                    reveal_strlit("MBR Error (");
                    reveal_strlit("MBR Error");
                    reveal_strlit(" (");
                    assert("MBR Error ("@ =~= "MBR Error"@ + " ("@);
                    assert(r@ == plain_message(FfiError::Mbr) + " ("@ + t@ + ")"@);
                }
                r
            },
            Error::TempFile(e) => {
                let t = io_error_display(e);
                let r = wrap_text("Tempfile Error (", &t, ")");
                proof {
                    reveal_strlit("Tempfile Error (");
                    reveal_strlit("Tempfile Error");
                    reveal_strlit(" (");
                    assert("Tempfile Error ("@ =~= "Tempfile Error"@ + " ("@);
                    assert(r@ == plain_message(FfiError::TempFile) + " ("@ + t@ + ")"@);
                }
                r
            },
        }
    }

    /// How `{:?}` shows the error: the variant's name, followed for wrapped
    /// errors by the inner error's `{:?}` text in parentheses.
    pub fn debug_text(&self) -> (r: String)
        ensures
            !self.has_inner() ==> r@ == variant_name(self.kind()),
            self.has_inner() ==> exists|t: Seq<char>|
                r@ == variant_name(self.kind()) + "("@ + t + ")"@,
    {
        match self {
            Error::NullPointer => string_of(chars_of("NullPointer").as_slice()),
            Error::CopyMismatch => string_of(chars_of("CopyMismatch").as_slice()),
            Error::InvalidImage => string_of(chars_of("InvalidImage").as_slice()),
            Error::InvalidArgument => string_of(chars_of("InvalidArgument").as_slice()),
            Error::InvalidState => string_of(chars_of("InvalidState").as_slice()),
            Error::Io(e) => {
                let t = io_error_debug(e);
                let r = wrap_text("Io(", &t, ")");
                proof {
                    reveal_strlit("Io(");
                    reveal_strlit("Io");
                    reveal_strlit("(");
                    assert("Io("@ =~= "Io"@ + "("@);
                    assert(r@ == variant_name(FfiError::Io) + "("@ + t@ + ")"@);
                }
                r
            },
            Error::Mbr(e) => {
                let t = mbr_error_debug(e);
                let r = wrap_text("Mbr(", &t, ")");
                proof {
                    reveal_strlit("Mbr(");
                    reveal_strlit("Mbr");
                    reveal_strlit("(");
                    assert("Mbr("@ =~= "Mbr"@ + "("@);
                    assert(r@ == variant_name(FfiError::Mbr) + "("@ + t@ + ")"@);
                }
                r
            },
            Error::TempFile(e) => {
                let t = io_error_debug(e);
                let r = wrap_text("TempFile(", &t, ")");
                proof {
                    reveal_strlit("TempFile(");
                    reveal_strlit("TempFile");
                    reveal_strlit("(");
                    assert("TempFile("@ =~= "TempFile"@ + "("@);
                    assert(r@ == variant_name(FfiError::TempFile) + "("@ + t@ + ")"@);
                }
                r
            },
        }
    }
}

impl From<MbrmanError> for Error {
    fn from(err: MbrmanError) -> (r: Self) {
        Error::Mbr(err)
    }
}

impl vstd::std_specs::convert::FromSpecImpl<MbrmanError> for Error {
    open spec fn obeys_from_spec() -> bool {
        true
    }

    open spec fn from_spec(v: MbrmanError) -> Self {
        Error::Mbr(v)
    }
}

impl From<std::io::Error> for Error {
    fn from(err: std::io::Error) -> (r: Self) {
        Error::Io(err)
    }
}

impl vstd::std_specs::convert::FromSpecImpl<std::io::Error> for Error {
    open spec fn obeys_from_spec() -> bool {
        true
    }

    open spec fn from_spec(v: std::io::Error) -> Self {
        Error::Io(v)
    }
}

} // verus!
