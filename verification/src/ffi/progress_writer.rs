//! The counting writer that the C interface hands its progress callbacks to.
pub use crate::rpi_image::progress_writer::ProgressWriter;
