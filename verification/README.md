# rpi-imgpatcher

Customises Raspberry Pi OS images by patching their boot (FAT) partition,
driven by a small recipe file, the Patcherfile (see the `FROM`, `SHELL`,
`EXEC`, `ADD FILE`, `APPEND FILE`, `APPEND CMDLINE` and `SAVE` instructions).

## Layout

- `src/` is the verified library (Verus):
  - `patcher/parser.rs`: the Patcherfile language, with its model
    (`patcherfile_model`) and the laws of the format (comments and blank lines
    are ignored, quoting, variable expansion, one `FROM` and one `SAVE`).
  - `patcher/instruction.rs`: what each instruction may do in a session and
    what outside work it asks for; the rewrite of `cmdline.txt`.
  - `patcher.rs`: the session state and the error messages.
  - `rpi_image/layout.rs`: finding the boot partition among the primary
    entries of the MBR table.
  - `rpi_image/fat_file.rs`: files and directories in the FAT working copy;
    on a well-formed volume a read gives back what was written.
  - `rpi_image/image_io.rs`: exact copies and the comparison of two streams.
  - `rpi_image/source_image.rs`: the one-pass order in which a source image is
    read.
  - `rpi_image/progress_*.rs`: counting readers and writers.
- `app/` is the command-line program and the C interface: file and process
  I/O, the image session, and `extern "C"` functions.
- `tests/` exercises the library.
