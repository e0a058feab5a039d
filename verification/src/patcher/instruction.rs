//! The instructions of a Patcherfile, and what executing one asks for.
use crate::patcher::{strings_view, PatchError, PatchErrorModel};
use crate::rpi_image::fat_file::{
    append_bytes, contents_at, dots_free, has_parent_dirs, keeps_others, names_new_file, prior_of, read_file,
    workspace_file_at, workspace_sound, write_bytes, FatWorkspace,
};
use crate::patcher::parser::{count_from, patcherfile_model};
use crate::rpi_image::FfiError;
use crate::text::{chars_of, push_str_chars, string_of};
use vstd::prelude::*;

verus! {

/// One line of a Patcherfile. Host paths are kept as text.
#[derive(Debug)]
pub enum Instruction {
    From { source_image: String },
    Shell { command: String },
    Exec { program: String, args: Vec<String> },
    AddFile { fat_path: String, host_file: String },
    AppendFile { fat_path: String, host_file: String },
    AppendCmdline { append_conf: String },
    Save { output_image: String },
}

/// An [`Instruction`] as plain values.
pub enum InstructionModel {
    From { source_image: Seq<char> },
    Shell { command: Seq<char> },
    Exec { program: Seq<char>, args: Seq<Seq<char>> },
    AddFile { fat_path: Seq<char>, host_file: Seq<char> },
    AppendFile { fat_path: Seq<char>, host_file: Seq<char> },
    AppendCmdline { append_conf: Seq<char> },
    Save { output_image: Seq<char> },
}

impl View for Instruction {
    type V = InstructionModel;

    open spec fn view(&self) -> InstructionModel {
        match self {
            Instruction::From { source_image } => InstructionModel::From {
                source_image: source_image@,
            },
            Instruction::Shell { command } => InstructionModel::Shell { command: command@ },
            Instruction::Exec { program, args } => InstructionModel::Exec {
                program: program@,
                args: strings_view(args@),
            },
            Instruction::AddFile { fat_path, host_file } => InstructionModel::AddFile {
                fat_path: fat_path@,
                host_file: host_file@,
            },
            Instruction::AppendFile { fat_path, host_file } => InstructionModel::AppendFile {
                fat_path: fat_path@,
                host_file: host_file@,
            },
            Instruction::AppendCmdline { append_conf } => InstructionModel::AppendCmdline {
                append_conf: append_conf@,
            },
            Instruction::Save { output_image } => InstructionModel::Save {
                output_image: output_image@,
            },
        }
    }
}

/// The outside work that executing an instruction asks for, once the
/// session's state has allowed it.
pub enum Step {
    /// Open the source image and start the session with it.
    OpenImage { source_image: String },
    /// Run `command` with `/bin/bash -o pipefail -c`.
    RunShell { command: String },
    /// Run `program` with `args`; `display` is the command line shown in errors.
    RunExec { program: String, args: Vec<String>, display: String },
    /// Create or replace `fat_path` with the contents of `host_file`.
    WriteFile { fat_path: String, host_file: String },
    /// Append the contents of `host_file` to `fat_path`.
    AppendFile { fat_path: String, host_file: String },
    /// Rewrite `cmdline.txt` with `append_conf` appended (see [`append_cmdline`]).
    UpdateCmdline { append_conf: String },
    /// Write the patched image to `output_image`.
    SaveImage { output_image: String },
}

/// A [`Step`] as plain values.
pub enum StepModel {
    OpenImage { source_image: Seq<char> },
    RunShell { command: Seq<char> },
    RunExec { program: Seq<char>, args: Seq<Seq<char>>, display: Seq<char> },
    WriteFile { fat_path: Seq<char>, host_file: Seq<char> },
    AppendFile { fat_path: Seq<char>, host_file: Seq<char> },
    UpdateCmdline { append_conf: Seq<char> },
    SaveImage { output_image: Seq<char> },
}

impl View for Step {
    type V = StepModel;

    open spec fn view(&self) -> StepModel {
        match self {
            Step::OpenImage { source_image } => StepModel::OpenImage { source_image: source_image@ },
            Step::RunShell { command } => StepModel::RunShell { command: command@ },
            Step::RunExec { program, args, display } => StepModel::RunExec {
                program: program@,
                args: strings_view(args@),
                display: display@,
            },
            Step::WriteFile { fat_path, host_file } => StepModel::WriteFile {
                fat_path: fat_path@,
                host_file: host_file@,
            },
            Step::AppendFile { fat_path, host_file } => StepModel::AppendFile {
                fat_path: fat_path@,
                host_file: host_file@,
            },
            Step::UpdateCmdline { append_conf } => StepModel::UpdateCmdline {
                append_conf: append_conf@,
            },
            Step::SaveImage { output_image } => StepModel::SaveImage { output_image: output_image@ },
        }
    }
}

/// `words` joined with single spaces.
pub open spec fn join_words(words: Seq<Seq<char>>) -> Seq<char>
    decreases words.len(),
{
    if words.len() == 0 {
        seq![]
    } else if words.len() == 1 {
        words[0]
    } else {
        join_words(words.drop_last()) + seq![' '] + words.last()
    }
}

/// The command line that error messages show for `EXEC`: the program and its
/// arguments joined with single spaces.
pub fn command_display(program: &String, args: &Vec<String>) -> (r: String)
    ensures
        r@ == join_words(seq![program@] + strings_view(args@)),
{
    let ghost words = seq![program@] + strings_view(args@);
    let mut v = chars_of(program.as_str());
    let mut k: usize = 0;
    assert(words.take(1) =~= seq![program@]);
    while k < args.len()
        invariant
            k <= args@.len(),
            words == seq![program@] + strings_view(args@),
            v@ == join_words(words.take(k + 1)),
        decreases args@.len() - k,
    {
        v.push(' ');
        push_str_chars(&mut v, args[k].as_str());
        k = k + 1;
        assert(words.take(k + 1).drop_last() =~= words.take(k as int));
        assert(words.take(k + 1).last() == args@[k - 1]@);
    }
    assert(words.take(args@.len() as int + 1) =~= words);
    string_of(v.as_slice())
}

/// What executing `instr` asks for, given whether the session has opened an
/// image, or why it cannot run.
pub open spec fn plan_model(instr: InstructionModel, has_image: bool) -> Result<StepModel, PatchErrorModel> {
    match instr {
        InstructionModel::From { source_image } => if has_image {
            Err(PatchErrorModel::MultipleFromInstructions)
        } else {
            Ok(StepModel::OpenImage { source_image })
        },
        InstructionModel::Shell { command } => Ok(StepModel::RunShell { command }),
        InstructionModel::Exec { program, args } => Ok(StepModel::RunExec {
            program,
            args,
            display: join_words(seq![program] + args),
        }),
        InstructionModel::AddFile { fat_path, host_file } => if has_image {
            Ok(StepModel::WriteFile { fat_path, host_file })
        } else {
            Err(PatchErrorModel::CannotAddFileBeforeFromInstruction(fat_path))
        },
        InstructionModel::AppendFile { fat_path, host_file } => if has_image {
            Ok(StepModel::AppendFile { fat_path, host_file })
        } else {
            Err(PatchErrorModel::CannotAppendFileBeforeFromInstruction(fat_path))
        },
        InstructionModel::AppendCmdline { append_conf } => if has_image {
            Ok(StepModel::UpdateCmdline { append_conf })
        } else {
            Err(PatchErrorModel::CannotAppendToCmdlineBeforeFromInstruction)
        },
        InstructionModel::Save { output_image } => if has_image {
            Ok(StepModel::SaveImage { output_image })
        } else {
            Err(PatchErrorModel::CannotSaveBeforeFromInstruction(output_image))
        },
    }
}

fn clone_strings(v: &Vec<String>) -> (r: Vec<String>)
    ensures
        strings_view(r@) == strings_view(v@),
{
    let mut r: Vec<String> = Vec::new();
    let mut k: usize = 0;
    while k < v.len()
        invariant
            k <= v@.len(),
            strings_view(r@) == strings_view(v@).take(k as int),
        decreases v@.len() - k,
    {
        let ghost before = strings_view(r@);
        r.push(v[k].clone());
        assert(strings_view(r@) =~= before.push(v@[k as int]@));
        k = k + 1;
        assert(strings_view(r@) =~= strings_view(v@).take(k as int));
    }
    assert(strings_view(v@).take(v@.len() as int) =~= strings_view(v@));
    r
}

impl Instruction {
    /// Decides whether the instruction can run in a session that has (or has
    /// not) opened an image, and what outside work it then asks for. `FROM`
    /// is refused once an image is open; `ADD FILE`, `APPEND FILE`,
    /// `APPEND CMDLINE` and `SAVE` are refused before one is.
    pub fn plan(&self, has_image: bool) -> (r: Result<Step, PatchError>)
        ensures
            match r {
                Ok(s) => plan_model(self@, has_image) == Ok::<StepModel, PatchErrorModel>(s@),
                Err(e) => plan_model(self@, has_image) == Err::<StepModel, PatchErrorModel>(e@),
            },
    {
        match self {
            Instruction::From { source_image } => if has_image {
                Err(PatchError::MultipleFromInstructions)
            } else {
                Ok(Step::OpenImage { source_image: source_image.clone() })
            },
            Instruction::Shell { command } => Ok(Step::RunShell { command: command.clone() }),
            Instruction::Exec { program, args } => {
                let display = command_display(program, args);
                Ok(Step::RunExec { program: program.clone(), args: clone_strings(args), display })
            },
            Instruction::AddFile { fat_path, host_file } => if has_image {
                Ok(Step::WriteFile { fat_path: fat_path.clone(), host_file: host_file.clone() })
            } else {
                Err(PatchError::CannotAddFileBeforeFromInstruction(fat_path.clone()))
            },
            Instruction::AppendFile { fat_path, host_file } => if has_image {
                Ok(Step::AppendFile { fat_path: fat_path.clone(), host_file: host_file.clone() })
            } else {
                Err(PatchError::CannotAppendFileBeforeFromInstruction(fat_path.clone()))
            },
            Instruction::AppendCmdline { append_conf } => if has_image {
                Ok(Step::UpdateCmdline { append_conf: append_conf.clone() })
            } else {
                Err(PatchError::CannotAppendToCmdlineBeforeFromInstruction)
            },
            Instruction::Save { output_image } => if has_image {
                Ok(Step::SaveImage { output_image: output_image.clone() })
            } else {
                Err(PatchError::CannotSaveBeforeFromInstruction(output_image.clone()))
            },
        }
    }
}

/// Each instruction asks for the outside work of its own kind, with its own
/// operands: `FROM` opens its source image, and only while no image is
/// open; `SHELL` and `EXEC` run their commands whether or not one is; once
/// an image is open, `ADD FILE` writes (creates or replaces) its FAT file
/// from its host file, `APPEND FILE` appends its host file to its FAT file,
/// `APPEND CMDLINE` updates `cmdline.txt`, and `SAVE` saves the image to its
/// output; before an image is open those four are refused.
pub proof fn lemma_plan_steps(i: InstructionModel, has_image: bool)
    ensures
        match i {
            InstructionModel::From { source_image } => (!has_image ==> plan_model(i, has_image) == Ok::<
                StepModel,
                PatchErrorModel,
            >(StepModel::OpenImage { source_image })) && (has_image ==> plan_model(i, has_image) is Err),
            InstructionModel::Shell { command } => plan_model(i, has_image) == Ok::<StepModel, PatchErrorModel>(
                StepModel::RunShell { command },
            ),
            InstructionModel::Exec { program, args } => plan_model(i, has_image) matches Ok(
                StepModel::RunExec { program: p, args: a, display: _ },
            ) && p == program && a == args,
            InstructionModel::AddFile { fat_path, host_file } => (has_image ==> plan_model(i, has_image) == Ok::<
                StepModel,
                PatchErrorModel,
            >(StepModel::WriteFile { fat_path, host_file })) && (!has_image ==> plan_model(i, has_image) is Err),
            InstructionModel::AppendFile { fat_path, host_file } => (has_image ==> plan_model(i, has_image)
                == Ok::<StepModel, PatchErrorModel>(StepModel::AppendFile { fat_path, host_file })) && (!has_image
                ==> plan_model(i, has_image) is Err),
            InstructionModel::AppendCmdline { append_conf } => (has_image ==> plan_model(i, has_image) == Ok::<
                StepModel,
                PatchErrorModel,
            >(StepModel::UpdateCmdline { append_conf })) && (!has_image ==> plan_model(i, has_image) is Err),
            InstructionModel::Save { output_image } => (has_image ==> plan_model(i, has_image) == Ok::<
                StepModel,
                PatchErrorModel,
            >(StepModel::SaveImage { output_image })) && (!has_image ==> plan_model(i, has_image) is Err),
        },
{
}

/// How a host command ended, as plain values.
#[derive(Debug, Clone, Copy, PartialEq, Eq, Structural)]
pub enum CommandOutcome {
    /// The command could not be started.
    NotStarted,
    /// The command exited with this status code.
    Exited(i32),
    /// The command was ended by a signal and has no status code.
    Signalled,
}

/// The status code that a failed command is reported with, or `None` when the
/// command succeeded (exited with status 0).
pub open spec fn failure_code(o: CommandOutcome) -> Option<i32> {
    match o {
        CommandOutcome::Exited(c) => if c == 0 { None } else { Some(c) },
        _ => Some(-1i32),
    }
}

/// The result of a `SHELL` instruction whose command ended as `outcome`:
/// success for exit status 0, otherwise `ShellFailed` with the status code
/// (-1 when there is none).
pub fn shell_result(command: &String, outcome: CommandOutcome) -> (r: Result<(), PatchError>)
    ensures
        match failure_code(outcome) {
            None => r is Ok,
            Some(c) => r is Err && r->Err_0@ == PatchErrorModel::ShellFailed(c, command@),
        },
{
    match outcome {
        CommandOutcome::Exited(c) => if c == 0 {
            Ok(())
        } else {
            Err(PatchError::ShellFailed(c, command.clone()))
        },
        _ => Err(PatchError::ShellFailed(-1, command.clone())),
    }
}

/// The result of an `EXEC` instruction whose command ended as `outcome`:
/// success for exit status 0, otherwise `ExecFailed` with the status code
/// (-1 when there is none) and the displayed command line.
pub fn exec_result(display: &String, outcome: CommandOutcome) -> (r: Result<(), PatchError>)
    ensures
        match failure_code(outcome) {
            None => r is Ok,
            Some(c) => r is Err && r->Err_0@ == PatchErrorModel::ExecFailed(c, display@),
        },
{
    match outcome {
        CommandOutcome::Exited(c) => if c == 0 {
            Ok(())
        } else {
            Err(PatchError::ExecFailed(c, display.clone()))
        },
        _ => Err(PatchError::ExecFailed(-1, display.clone())),
    }
}

/// The ASCII whitespace bytes, as `u8::is_ascii_whitespace` defines them:
/// space, tab, line feed, form feed and carriage return.
pub open spec fn is_ascii_ws(b: u8) -> bool {
    b == 0x20u8 || b == 0x09u8 || b == 0x0Au8 || b == 0x0Cu8 || b == 0x0Du8
}

/// `s` without its trailing ASCII whitespace.
pub open spec fn trim_ascii_end(s: Seq<u8>) -> Seq<u8>
    decreases s.len(),
{
    if s.len() > 0 && is_ascii_ws(s.last()) {
        trim_ascii_end(s.drop_last())
    } else {
        s
    }
}

/// The new contents of `cmdline.txt`: the old contents without trailing
/// whitespace, a space if anything is left, then the appended text.
pub open spec fn cmdline_appended(old: Seq<u8>, conf: Seq<u8>) -> Seq<u8> {
    let t = trim_ascii_end(old);
    if t.len() > 0 {
        t.push(0x20u8) + conf
    } else {
        conf
    }
}

fn is_ascii_whitespace(b: u8) -> (r: bool)
    ensures
        r == is_ascii_ws(b),
{
    b == 0x20u8 || b == 0x09u8 || b == 0x0Au8 || b == 0x0Cu8 || b == 0x0Du8
}

/// Appends `append_conf` to the contents of `cmdline.txt`: trailing
/// whitespace is removed, a single space separates the old contents from the
/// new text, and an empty file gets the new text alone.
pub fn append_cmdline(buf: Vec<u8>, append_conf: &str) -> (r: Vec<u8>)
    ensures
        r@ == cmdline_appended(buf@, vstd::utf8::encode_utf8(append_conf@)),
{
    let mut buf = buf;
    let ghost orig = buf@;
    while buf.len() > 0 && is_ascii_whitespace(buf[buf.len() - 1])
        invariant
            trim_ascii_end(orig) == trim_ascii_end(buf@),
        decreases buf@.len(),
    {
        assert(buf@.drop_last() == buf@.subrange(0, buf@.len() - 1));
        buf.pop();
    }
    assert(trim_ascii_end(buf@) == buf@);
    if buf.len() > 0 {
        buf.push(0x20u8);
    }
    let conf = append_conf.as_bytes();
    let ghost before = buf@;
    let mut k: usize = 0;
    while k < conf.len()
        invariant
            k <= conf@.len(),
            buf@ == before + conf@.take(k as int),
        decreases conf@.len() - k,
    {
        buf.push(conf[k]);
        k = k + 1;
        assert(buf@ =~= before + conf@.take(k as int));
    }
    assert(conf@.take(conf@.len() as int) =~= conf@);
    buf
}

/// Trailing whitespace in `cmdline.txt` makes no difference to the result of
/// appending to it.
pub proof fn lemma_cmdline_ignores_trailing_whitespace(old: Seq<u8>, ws: Seq<u8>, conf: Seq<u8>)
    requires
        forall|i: int| 0 <= i < ws.len() ==> is_ascii_ws(#[trigger] ws[i]),
    ensures
        cmdline_appended(old + ws, conf) == cmdline_appended(old, conf),
    decreases ws.len(),
{
    if ws.len() > 0 {
        let shorter = ws.drop_last();
        assert((old + ws).drop_last() =~= old + shorter);
        assert((old + ws).last() == ws[ws.len() - 1]);
        lemma_cmdline_ignores_trailing_whitespace(old, shorter, conf);
    } else {
        assert(old + ws =~= old);
    }
}

/// The previous contents of `cmdline.txt` stay at the start, without their
/// trailing whitespace, and the appended text ends the new contents.
pub proof fn lemma_cmdline_keeps_prefix_and_ends_with_text(old: Seq<u8>, conf: Seq<u8>)
    ensures
        cmdline_appended(old, conf).take(trim_ascii_end(old).len() as int) == trim_ascii_end(old),
        cmdline_appended(old, conf).skip(cmdline_appended(old, conf).len() - conf.len()) == conf,
{
    let t = trim_ascii_end(old);
    let r = cmdline_appended(old, conf);
    if t.len() > 0 {
        assert(r.take(t.len() as int) =~= t);
        assert(r.skip(r.len() - conf.len()) =~= conf);
    } else {
        assert(r.take(0) =~= t) by {
            assert(t.len() == 0);
        };
        assert(r.skip(r.len() - conf.len()) =~= conf);
    }
}

/// The file that `APPEND CMDLINE` rewrites, at the root of the boot
/// partition.
pub open spec fn cmdline_path() -> Seq<char> {
    seq!['c', 'm', 'd', 'l', 'i', 'n', 'e', '.', 't', 'x', 't']
}

/// Carries out `APPEND CMDLINE` on an open image: reads `cmdline.txt`, adds
/// `append_conf` as [`append_cmdline`] does, and writes the file back. A file
/// that cannot be read is `CannotReadCmdlineTxt` (and nothing changes); one
/// that cannot be written is `CannotAppendtoCmdlineTxt`. On a well-formed
/// volume no other file changes.
pub fn update_cmdline(fat: &mut FatWorkspace, append_conf: &str) -> (r: Result<(), PatchError>)
    ensures
        workspace_sound(*old(fat)) ==> workspace_sound(*final(fat)) && keeps_others(
            *old(fat),
            *final(fat),
            workspace_file_at(*final(fat), cmdline_path()),
        ),
        r is Ok ==> contents_at(*old(fat), cmdline_path()) is Some,
        workspace_sound(*old(fat)) && r is Ok ==> (contents_at(*old(fat), cmdline_path()) matches Some(o)
            && contents_at(*final(fat), cmdline_path()) == Some(
            cmdline_appended(o, vstd::utf8::encode_utf8(append_conf@)),
        )),
        r matches Err(e) ==> (e@ == PatchErrorModel::CannotReadCmdlineTxt && *final(fat) == *old(fat))
            || e@ == PatchErrorModel::CannotAppendtoCmdlineTxt,
{
    let name = "cmdline.txt";
    proof {
        reveal_strlit("cmdline.txt");
    }
    assert(name@ == cmdline_path());
    let buf = match read_file(fat, name) {
        Ok(b) => b,
        Err(_) => {
            return Err(PatchError::CannotReadCmdlineTxt);
        },
    };
    let new_buf = append_cmdline(buf, append_conf);
    match write_bytes(fat, name, new_buf.as_slice()) {
        Ok(_) => Ok(()),
        Err(_) => Err(PatchError::CannotAppendtoCmdlineTxt),
    }
}

/// Carries out `ADD FILE` on an open image once the host file has been read:
/// `fat_path` is created or replaced, with the directories that lead to it
/// where needed. A failed write is `CouldNotWriteToFat` with the path and
/// the image error. On a well-formed volume the file then holds `bytes` and
/// no other file changes.
pub fn add_file_bytes(fat: &mut FatWorkspace, fat_path: &String, bytes: &[u8]) -> (r: Result<(), PatchError>)
    ensures
        workspace_sound(*old(fat)) ==> workspace_sound(*final(fat)) && keeps_others(
            *old(fat),
            *final(fat),
            workspace_file_at(*final(fat), fat_path@),
        ),
        workspace_sound(*old(fat)) && r is Ok ==> contents_at(*final(fat), fat_path@) == Some(bytes@),
        workspace_sound(*old(fat)) && r is Ok ==> has_parent_dirs(*final(fat), fat_path@),
        r matches Err(e) ==> e@ == PatchErrorModel::CouldNotWriteToFat(fat_path@, FfiError::Io),
{
    match write_bytes(fat, fat_path.as_str(), bytes) {
        Ok(_) => Ok(()),
        Err(e) => Err(PatchError::CouldNotWriteToFat(fat_path.clone(), e)),
    }
}

/// Carries out `APPEND FILE` on an open image once the host file has been
/// read: `bytes` are added at the end of `fat_path`, which is created, with
/// the directories that lead to it, where it does not exist. A failed write
/// is `CouldNotWriteToFat` with the path and the image error. On a
/// well-formed volume the file then holds what it held before (nothing,
/// where it is new) followed by `bytes`, and no other file changes; where
/// the path named no file and has no `.` or `..` piece, the file is new.
pub fn append_file_bytes(fat: &mut FatWorkspace, fat_path: &String, bytes: &[u8]) -> (r: Result<
    (),
    PatchError,
>)
    ensures
        workspace_sound(*old(fat)) ==> workspace_sound(*final(fat)) && keeps_others(
            *old(fat),
            *final(fat),
            workspace_file_at(*final(fat), fat_path@),
        ),
        workspace_sound(*old(fat)) && r is Ok ==> contents_at(*final(fat), fat_path@) == Some(
            prior_of(*old(fat), *final(fat), fat_path@) + bytes@,
        ),
        workspace_sound(*old(fat)) && r is Ok && contents_at(*old(fat), fat_path@) is None && dots_free(
            fat_path@,
        ) ==> names_new_file(*old(fat), *final(fat), fat_path@),
        workspace_sound(*old(fat)) && r is Ok ==> has_parent_dirs(*final(fat), fat_path@),
        r matches Err(e) ==> e@ == PatchErrorModel::CouldNotWriteToFat(fat_path@, FfiError::Io),
{
    match append_bytes(fat, fat_path.as_str(), bytes) {
        Ok(_) => Ok(()),
        Err(e) => Err(PatchError::CouldNotWriteToFat(fat_path.clone(), e)),
    }
}

/// Whether an instruction works on the open image, and so needs a `FROM`
/// before it.
pub open spec fn needs_image(i: InstructionModel) -> bool {
    ||| i is AddFile
    ||| i is AppendFile
    ||| i is AppendCmdline
    ||| i is Save
}

/// Whether every instruction of `v`, planned in order in a session that has
/// (or has not) opened an image, is allowed; `FROM` opens the image.
pub open spec fn plans_ok(v: Seq<InstructionModel>, has_image: bool) -> bool
    decreases v.len(),
{
    if v.len() == 0 {
        true
    } else {
        plan_model(v[0], has_image) is Ok && plans_ok(v.drop_first(), has_image || v[0] is From)
    }
}

/// Whether a `FROM` comes before position `j` of `v`.
pub open spec fn from_before(v: Seq<InstructionModel>, j: int) -> bool {
    exists|k: int| 0 <= k < j && (#[trigger] v[k]) is From
}

proof fn lemma_count_from_first(v: Seq<InstructionModel>)
    requires
        v.len() > 0,
    ensures
        count_from(v) == count_from(v.drop_first()) + if v[0] is From { 1nat } else { 0nat },
    decreases v.len(),
{
    if v.len() > 1 {
        lemma_count_from_first(v.drop_last());
        assert(v.drop_last().drop_first() =~= v.drop_first().drop_last());
        assert(v.drop_first().last() == v.last());
    } else {
        assert(v.drop_first() =~= Seq::<InstructionModel>::empty());
        assert(v.drop_last() =~= Seq::<InstructionModel>::empty());
    }
}

proof fn lemma_plans_ok(v: Seq<InstructionModel>, h: bool)
    requires
        count_from(v) <= 1,
        h ==> count_from(v) == 0,
    ensures
        plans_ok(v, h) <==> forall|j: int|
            0 <= j < v.len() && needs_image(#[trigger] v[j]) ==> h || from_before(v, j),
    decreases v.len(),
{
    if v.len() > 0 {
        let x = v[0];
        let rest = v.drop_first();
        let h2 = h || x is From;
        lemma_count_from_first(v);
        lemma_plans_ok(rest, h2);
        let rhs = forall|j: int| 0 <= j < v.len() && needs_image(#[trigger] v[j]) ==> h || from_before(v, j);
        let rhs2 = forall|j: int|
            0 <= j < rest.len() && needs_image(#[trigger] rest[j]) ==> h2 || from_before(rest, j);
        assert(plan_model(x, h) is Ok <==> (needs_image(x) ==> h));
        if rhs {
            assert forall|j: int| 0 <= j < rest.len() && needs_image(#[trigger] rest[j]) implies h2
                || from_before(rest, j) by {
                assert(rest[j] == v[j + 1]);
                if !h && from_before(v, j + 1) && !(x is From) {
                    let k = choose|k: int| 0 <= k < j + 1 && (#[trigger] v[k]) is From;
                    assert(k > 0);
                    assert(rest[k - 1] == v[k]);
                    assert(from_before(rest, j));
                }
            }
        }
        if (needs_image(x) ==> h) && rhs2 {
            assert forall|j: int| 0 <= j < v.len() && needs_image(#[trigger] v[j]) implies h || from_before(
                v,
                j,
            ) by {
                if j > 0 {
                    assert(v[j] == rest[j - 1]);
                    if x is From {
                        assert(v[0] is From);
                    } else if !h {
                        let k = choose|k: int| 0 <= k < j - 1 && (#[trigger] rest[k]) is From;
                        assert(v[k + 1] == rest[k]);
                    }
                }
            }
        }
    }
}

/// In a Patcherfile that parses, the instructions that work on the image
/// (`ADD FILE`, `APPEND FILE`, `APPEND CMDLINE`, `SAVE`) are all allowed
/// exactly when a `FROM` comes before each of them; its one `FROM` is never
/// refused, and its `SAVE`, being last, always has the `FROM` before it.
pub proof fn lemma_accepted_plans(text: Seq<char>, env: Seq<(Seq<char>, Seq<char>)>)
    requires
        patcherfile_model(text, env) is Ok,
    ensures
        match patcherfile_model(text, env) {
            Ok(v) => {
                &&& plans_ok(v, false) <==> forall|j: int|
                    0 <= j < v.len() && needs_image(#[trigger] v[j]) ==> from_before(v, j)
                &&& from_before(v, v.len() - 1)
            },
            Err(_) => false,
        },
{
    match patcherfile_model(text, env) {
        Ok(v) => {
            lemma_plans_ok(v, false);
            if !from_before(v, v.len() - 1) {
                lemma_no_from_means_count_zero(v.drop_last());
                assert(!(v.last() is From));
            }
        },
        Err(_) => {},
    }
}

proof fn lemma_no_from_means_count_zero(v: Seq<InstructionModel>)
    requires
        forall|k: int| 0 <= k < v.len() ==> !(#[trigger] v[k] is From),
    ensures
        count_from(v) == 0,
    decreases v.len(),
{
    if v.len() > 0 {
        assert(v.last() == v[v.len() - 1]);
        assert forall|k: int| 0 <= k < v.drop_last().len() implies !(#[trigger] v.drop_last()[k] is From) by {
            assert(v.drop_last()[k] == v[k]);
        }
        lemma_no_from_means_count_zero(v.drop_last());
    }
}

} // verus!
