//! The boot (FAT) partition of a disk image: where it lies, and the rules for
//! reading a source image and copying it into a patched one.
pub mod error;
pub use error::{Error, FfiError};
pub mod layout;
pub use layout::FatPartitionLayout;
pub mod fat_file;
pub mod image_io;
pub mod source_image;
pub mod progress_reader;
pub mod progress_writer;
pub mod save;
pub use save::SaveStrategy;
