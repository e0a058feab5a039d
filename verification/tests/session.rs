use rpi_imgpatcher::rpi_image::save::{tail_length, SaveStrategy};
use rpi_imgpatcher::ffi::c_message_text;
use rpi_imgpatcher::rpi_image::source_image::{gap_after_table, source_format, SourceFormat, SourceImageState, SourceStep};
use rpi_imgpatcher::rpi_image::Error;

#[test]
fn saving_reads_the_source_in_one_pass() {
    let mut state = SourceImageState::Created;
    for step in [SourceStep::CopyMbr, SourceStep::SkipFat, SourceStep::CopyTail] {
        state.check_step(step).unwrap();
        state = SourceImageState::after(step);
    }
    assert_eq!(state, SourceImageState::Consumed);
}

#[test]
fn opening_reads_table_then_partition() {
    let mut state = SourceImageState::Created;
    for step in [SourceStep::LayoutFat, SourceStep::ExtractFat] {
        state.check_step(step).unwrap();
        state = SourceImageState::after(step);
    }
    assert_eq!(state, SourceImageState::FatRead);
}

#[test]
fn steps_out_of_order_are_invalid_state() {
    assert!(matches!(SourceImageState::Created.check_step(SourceStep::SkipFat), Err(Error::InvalidState)));
    assert!(matches!(SourceImageState::MbrRead.check_step(SourceStep::CopyMbr), Err(Error::InvalidState)));
    for step in [
        SourceStep::LayoutFat,
        SourceStep::ExtractFat,
        SourceStep::CopyMbr,
        SourceStep::SkipFat,
        SourceStep::CopyTail,
        SourceStep::VerifyMbr,
        SourceStep::VerifyTail,
    ] {
        assert!(matches!(SourceImageState::Consumed.check_step(step), Err(Error::InvalidState)));
    }
}

#[test]
fn tail_length_is_what_follows_the_partition() {
    assert_eq!(tail_length(1000, 100, 300), 600);
    assert_eq!(tail_length(400, 100, 300), 0);
}

#[test]
fn save_strategies() {
    let s = SaveStrategy::ToFile("out.img".to_owned());
    assert!(matches!(s, SaveStrategy::ToFile(p) if p == "out.img"));
    assert!(matches!(SaveStrategy::Overwrite, SaveStrategy::Overwrite));
}

#[test]
fn source_format_follows_the_extension() {
    assert_eq!(source_format("images/base.img.xz"), SourceFormat::Xz);
    assert_eq!(source_format("base.img"), SourceFormat::Plain);
    assert_eq!(source_format("base"), SourceFormat::Plain);
    assert_eq!(source_format("archive.XZ"), SourceFormat::Plain);
    assert_eq!(source_format(".xz"), SourceFormat::Plain);
}

#[test]
fn c_message_text_replaces_nul() {
    assert_eq!(c_message_text("a\0b\0"), "a b ");
    assert_eq!(c_message_text("plain"), "plain");
}

#[test]
fn gap_after_the_partition_table() {
    assert!(matches!(gap_after_table(512), Ok(0)));
    assert!(matches!(gap_after_table(8192), Ok(7680)));
    assert!(matches!(gap_after_table(100), Err(Error::CopyMismatch)));
}

#[test]
fn white_space_is_what_std_says() {
    for u in 0..=0x10FFFFu32 {
        if let Some(c) = char::from_u32(u) {
            assert_eq!(rpi_imgpatcher::text::is_whitespace(c), c.is_whitespace(), "U+{:04X}", u);
        }
    }
}
