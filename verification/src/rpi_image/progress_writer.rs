//! A writer that counts the bytes that pass through it and reports the
//! running total after every write.
use crate::rpi_image::image_io::write_all_of;
use crate::rpi_image::progress_reader::{counted, notify_progress};
use vstd::prelude::*;

verus! {

/// Writes `buf`, or a part of it, with `Write::write`. The contract claims
/// what the documentation of `write` promises: no more than `buf.len()` bytes
/// are reported written. How many depends on the writer and is not stated.
#[verifier::external_body]
fn write_some<W: std::io::Write>(dst: &mut W, buf: &[u8]) -> (r: std::io::Result<usize>)
    ensures
        r matches Ok(n) ==> n <= buf@.len(),
{
    dst.write(buf)
}

/// Flushes `dst` with `Write::flush`; nothing is claimed of the outcome.
#[verifier::external_body]
fn flush_writer<W: std::io::Write>(dst: &mut W) -> std::io::Result<()> {
    dst.flush()
}

/// Wraps a writer; `written` is the number of bytes written through it so
/// far.
pub struct ProgressWriter<W, F> {
    inner: W,
    /// Bytes written through this writer so far.
    pub written: u64,
    on_progress: F,
    /// The totals handed to `on_progress` so far, in order.
    reported: Ghost<Seq<u64>>,
}

impl<W: std::io::Write, F: FnMut(u64)> ProgressWriter<W, F> {
    /// Bytes written through this writer so far.
    pub closed spec fn total(&self) -> u64 {
        self.written
    }

    /// The wrapped writer.
    pub closed spec fn writer(&self) -> W {
        self.inner
    }

    /// The totals handed to the progress callback so far, in order.
    pub closed spec fn reported(&self) -> Seq<u64> {
        self.reported@
    }

    /// A writer over `inner` that has counted and reported nothing yet.
    pub fn new(inner: W, on_progress: F) -> (r: Self)
        ensures
            r.total() == 0,
            r.reported() == Seq::<u64>::empty(),
            r.writer() == inner,
    {
        ProgressWriter { inner, written: 0, on_progress, reported: Ghost(Seq::empty()) }
    }

    /// Hands the running total to the progress callback.
    fn report(&mut self)
        ensures
            final(self).total() == old(self).total(),
            final(self).reported() == old(self).reported().push(old(self).total()),
    {
        let total = self.written;
        notify_progress(&mut self.on_progress, total);
        self.reported = Ghost(self.reported@.push(total));
    }

    /// Gives the wrapped writer back.
    pub fn inner(self) -> (r: W)
        ensures
            r == self.writer(),
    {
        self.inner
    }

    /// Counts `n` more bytes; the count stops at `u64::MAX`.
    fn count(&mut self, n: usize)
        ensures
            final(self).total() == counted(old(self).total(), n as int),
            final(self).reported() == old(self).reported(),
    {
        self.written = self.written.saturating_add(n as u64);
    }
}

impl<W: std::io::Write, F: FnMut(u64)> std::io::Write for ProgressWriter<W, F> {
    /// Writes through the inner writer, adds the number of bytes it took to
    /// `written` and hands the new total to the callback, once. A failed
    /// write counts and reports nothing.
    fn write(&mut self, buf: &[u8]) -> (r: std::io::Result<usize>)
        ensures
            r matches Ok(n) ==> n <= buf@.len() && final(self).total() == counted(old(self).total(), n as int)
                && final(self).reported() == old(self).reported().push(final(self).total()),
            r is Err ==> final(self).total() == old(self).total() && final(self).reported() == old(
                self,
            ).reported(),
    {
        match write_some(&mut self.inner, buf) {
            Ok(n) => {
                self.count(n);
                self.report();
                Ok(n)
            },
            Err(e) => Err(e),
        }
    }

    /// Flushes the inner writer; nothing is counted or reported.
    fn flush(&mut self) -> (r: std::io::Result<()>)
        ensures
            final(self).total() == old(self).total(),
            final(self).reported() == old(self).reported(),
    {
        flush_writer(&mut self.inner)
    }

    /// Writes all of `buf` through the inner writer; when that succeeds, adds
    /// its length to `written` and hands the new total to the callback, once.
    /// A failed write counts and reports nothing.
    fn write_all(&mut self, buf: &[u8]) -> (r: std::io::Result<()>)
        ensures
            r is Ok ==> final(self).total() == counted(old(self).total(), buf@.len() as int)
                && final(self).reported() == old(self).reported().push(final(self).total()),
            r is Err ==> final(self).total() == old(self).total() && final(self).reported() == old(
                self,
            ).reported(),
    {
        match write_all_of(&mut self.inner, buf) {
            Ok(()) => {
                self.count(buf.len());
                self.report();
                Ok(())
            },
            Err(e) => Err(e),
        }
    }
}

} // verus!
