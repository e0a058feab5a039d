//! The order in which a source image is read. A source image may be
//! compressed, so it is read once, front to back: first the partition table,
//! then the boot partition, then the rest. Each step on it is allowed in one
//! state only and moves the reader forward.
use crate::rpi_image::Error;
use crate::text::{chars_eq, chars_of};
use vstd::prelude::*;

verus! {

/// How far a source image has been read.
#[derive(Debug, Clone, Copy, PartialEq, Eq, Structural)]
pub enum SourceImageState {
    /// Opened, nothing read.
    Created,
    /// The first sector (the partition table) has been read.
    MbrHeaderRead,
    /// Everything before the boot partition has been read.
    MbrRead,
    /// Everything up to the end of the boot partition has been read.
    FatRead,
    /// Read to its end.
    Consumed,
}

/// A step that reads from a source image.
#[derive(Debug, Clone, Copy, PartialEq, Eq, Structural)]
pub enum SourceStep {
    /// Read the partition table to find the boot partition.
    LayoutFat,
    /// Copy the boot partition out into a workspace file.
    ExtractFat,
    /// Copy everything before the boot partition into an output image.
    CopyMbr,
    /// Pass over the boot partition.
    SkipFat,
    /// Copy everything after the boot partition into an output image.
    CopyTail,
    /// Compare everything before the boot partition with another stream.
    VerifyMbr,
    /// Compare everything after the boot partition with another stream.
    VerifyTail,
}

/// The state in which a step is allowed.
pub open spec fn step_from(step: SourceStep) -> SourceImageState {
    match step {
        SourceStep::LayoutFat => SourceImageState::Created,
        SourceStep::ExtractFat => SourceImageState::MbrHeaderRead,
        SourceStep::CopyMbr => SourceImageState::Created,
        SourceStep::SkipFat => SourceImageState::MbrRead,
        SourceStep::CopyTail => SourceImageState::FatRead,
        SourceStep::VerifyMbr => SourceImageState::Created,
        SourceStep::VerifyTail => SourceImageState::FatRead,
    }
}

/// The state a successful step leaves the reader in.
pub open spec fn step_to(step: SourceStep) -> SourceImageState {
    match step {
        SourceStep::LayoutFat => SourceImageState::MbrHeaderRead,
        SourceStep::ExtractFat => SourceImageState::FatRead,
        SourceStep::CopyMbr => SourceImageState::MbrRead,
        SourceStep::SkipFat => SourceImageState::FatRead,
        SourceStep::CopyTail => SourceImageState::Consumed,
        SourceStep::VerifyMbr => SourceImageState::MbrRead,
        SourceStep::VerifyTail => SourceImageState::Consumed,
    }
}

/// How far into the image a state is: states further on have larger ranks.
pub open spec fn progress(state: SourceImageState) -> int {
    match state {
        SourceImageState::Created => 0,
        SourceImageState::MbrHeaderRead => 1,
        SourceImageState::MbrRead => 2,
        SourceImageState::FatRead => 3,
        SourceImageState::Consumed => 4,
    }
}

/// The state after a sequence of steps from `state`, or `None` where one of
/// them is not allowed.
pub open spec fn run_steps(state: SourceImageState, steps: Seq<SourceStep>) -> Option<SourceImageState>
    decreases steps.len(),
{
    if steps.len() == 0 {
        Some(state)
    } else if step_from(steps[0]) == state {
        run_steps(step_to(steps[0]), steps.drop_first())
    } else {
        None
    }
}

impl SourceImageState {
    /// Whether `step` may be taken now: `Ok` in the one state that allows it,
    /// `InvalidState` in every other.
    pub fn check_step(&self, step: SourceStep) -> (r: Result<(), Error>)
        ensures
            r is Ok <==> *self == step_from(step),
            r matches Err(e) ==> e is InvalidState,
    {
        let allowed = match step {
            SourceStep::LayoutFat => SourceImageState::Created,
            SourceStep::ExtractFat => SourceImageState::MbrHeaderRead,
            SourceStep::CopyMbr => SourceImageState::Created,
            SourceStep::SkipFat => SourceImageState::MbrRead,
            SourceStep::CopyTail => SourceImageState::FatRead,
            SourceStep::VerifyMbr => SourceImageState::Created,
            SourceStep::VerifyTail => SourceImageState::FatRead,
        };
        if *self == allowed {
            Ok(())
        } else {
            Err(Error::InvalidState)
        }
    }

    /// The state after `step` has succeeded.
    pub fn after(step: SourceStep) -> (r: SourceImageState)
        ensures
            r == step_to(step),
    {
        match step {
            SourceStep::LayoutFat => SourceImageState::MbrHeaderRead,
            SourceStep::ExtractFat => SourceImageState::FatRead,
            SourceStep::CopyMbr => SourceImageState::MbrRead,
            SourceStep::SkipFat => SourceImageState::FatRead,
            SourceStep::CopyTail => SourceImageState::Consumed,
            SourceStep::VerifyMbr => SourceImageState::MbrRead,
            SourceStep::VerifyTail => SourceImageState::Consumed,
        }
    }
}

/// Every allowed step moves the reader forward, so no part of a source image
/// is read twice.
pub proof fn lemma_steps_move_forward(step: SourceStep)
    ensures
        progress(step_to(step)) > progress(step_from(step)),
{
}

/// A source image read to its end allows no further step.
pub proof fn lemma_consumed_is_final(step: SourceStep)
    ensures
        step_from(step) != SourceImageState::Consumed,
{
}

/// Any sequence of allowed steps ends further on than it started, and the
/// more steps, the further: a run of `n` steps advances by at least `n`.
pub proof fn lemma_runs_move_forward(state: SourceImageState, steps: Seq<SourceStep>)
    requires
        run_steps(state, steps) is Some,
    ensures
        progress(run_steps(state, steps)->0) >= progress(state) + steps.len(),
    decreases steps.len(),
{
    if steps.len() > 0 {
        lemma_runs_move_forward(step_to(steps[0]), steps.drop_first());
    }
}

/// The extension of a host path as `std::path::Path::extension` finds it:
/// the text after the last dot of the file name, where there is one.
pub uninterp spec fn path_extension(path: Seq<char>) -> Option<Seq<char>>;

/// Calls `Path::extension` on `path`. The contract claims that the result
/// depends on the text of the path alone.
#[verifier::external_body]
fn extension_of(path: &str) -> (r: Option<String>)
    ensures
        match r {
            Some(e) => path_extension(path@) == Some(e@),
            None => path_extension(path@) is None,
        },
{
    match std::path::Path::new(path).extension() {
        Some(e) => e.to_str().map(String::from),
        None => None,
    }
}

/// How a source image is stored.
#[derive(Debug, Clone, Copy, PartialEq, Eq, Structural)]
pub enum SourceFormat {
    /// A raw disk image.
    Plain,
    /// A disk image compressed with xz, read through a decoder.
    Xz,
}

/// The extension that marks a compressed source image.
pub open spec fn xz_extension() -> Seq<char> {
    seq!['x', 'z']
}

/// How the source image at `path` is stored: compressed when its extension
/// is `xz`, raw otherwise.
pub fn source_format(path: &str) -> (r: SourceFormat)
    ensures
        r == (if path_extension(path@) == Some(xz_extension()) {
            SourceFormat::Xz
        } else {
            SourceFormat::Plain
        }),
{
    match extension_of(path) {
        Some(e) => {
            let xz = "xz";
            proof {
                reveal_strlit("xz");
            }
            let a = chars_of(e.as_str());
            let b = chars_of(xz);
            assert(xz@ =~= xz_extension());
            if chars_eq(a.as_slice(), b.as_slice()) {
                SourceFormat::Xz
            } else {
                SourceFormat::Plain
            }
        },
        None => SourceFormat::Plain,
    }
}

/// How many bytes of a decompressed source lie between its partition table
/// sector (the first 512 bytes, read already) and the boot partition, which
/// starts `base` bytes in. A partition that would start inside that sector
/// cannot be reached any more: `CopyMismatch`.
pub fn gap_after_table(base: u64) -> (r: Result<u64, Error>)
    ensures
        base >= 512 ==> (r matches Ok(n) && n == base - 512),
        base < 512 ==> (r matches Err(e) && e is CopyMismatch),
{
    if base < 512 {
        Err(Error::CopyMismatch)
    } else {
        Ok(base - 512)
    }
}

} // verus!
