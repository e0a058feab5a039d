//! Patching of Raspberry Pi OS images: the Patcherfile language, the
//! boot-partition layout, and the bookkeeping around copying an image.
pub mod ffi;
pub mod text;
pub mod rpi_image;
pub mod patcher;
