//! A reader that counts the bytes that pass through it and reports the
//! running total after every read that yields bytes.
use crate::rpi_image::image_io::read_into;
use vstd::prelude::*;

verus! {

/// Calls the progress callback `f` with the running total. Nothing is claimed
/// of it: the callback is the caller's own code.
#[verifier::external_body]
pub(crate) fn notify_progress<F: FnMut(u64)>(f: &mut F, total: u64) {
    f(total)
}

/// A running byte count after `n` more bytes; it stops at `u64::MAX`.
pub open spec fn counted(total: u64, n: int) -> u64 {
    if total + n <= u64::MAX {
        (total + n) as u64
    } else {
        u64::MAX
    }
}

/// Wraps a reader; `read` is the number of bytes read through it so far.
pub struct ProgressReader<R, F> {
    inner: R,
    /// Bytes read through this reader so far.
    pub read: u64,
    on_progress: F,
    /// The totals handed to `on_progress` so far, in order.
    reported: Ghost<Seq<u64>>,
}

impl<R: std::io::Read, F: FnMut(u64)> ProgressReader<R, F> {
    /// Bytes read through this reader so far.
    pub closed spec fn total(&self) -> u64 {
        self.read
    }

    /// The totals handed to the progress callback so far, in order.
    pub closed spec fn reported(&self) -> Seq<u64> {
        self.reported@
    }

    /// A reader over `inner` that has counted and reported nothing yet.
    pub fn new(inner: R, on_progress: F) -> (r: Self)
        ensures
            r.total() == 0,
            r.reported() == Seq::<u64>::empty(),
    {
        ProgressReader { inner, read: 0, on_progress, reported: Ghost(Seq::empty()) }
    }

    /// Hands the running total to the progress callback.
    fn report(&mut self)
        ensures
            final(self).total() == old(self).total(),
            final(self).reported() == old(self).reported().push(old(self).total()),
    {
        let total = self.read;
        notify_progress(&mut self.on_progress, total);
        self.reported = Ghost(self.reported@.push(total));
    }

    /// Counts `n` more bytes; the count stops at `u64::MAX`.
    fn count(&mut self, n: usize)
        ensures
            final(self).total() == counted(old(self).total(), n as int),
            final(self).reported() == old(self).reported(),
    {
        self.read = self.read.saturating_add(n as u64);
    }
}

impl<R: std::io::Read, F: FnMut(u64)> std::io::Read for ProgressReader<R, F> {
    /// Reads from the inner reader; when bytes came, adds their number to
    /// `read` and hands the new total to the callback, once. A read that
    /// yields nothing, or fails, counts and reports nothing.
    fn read(&mut self, buf: &mut [u8]) -> (r: std::io::Result<usize>)
        ensures
            r matches Ok(n) ==> n <= old(buf)@.len(),
            r matches Ok(n) ==> (n > 0 ==> final(self).total() == counted(old(self).total(), n as int)
                && final(self).reported() == old(self).reported().push(final(self).total())),
            r matches Ok(n) ==> (n == 0 ==> final(self).total() == old(self).total() && final(self).reported()
                == old(self).reported()),
            r is Err ==> final(self).total() == old(self).total() && final(self).reported() == old(
                self,
            ).reported(),
    {
        match read_into(&mut self.inner, buf) {
            Ok(n) => {
                if n > 0 {
                    self.count(n);
                    self.report();
                }
                Ok(n)
            },
            Err(e) => Err(e),
        }
    }
}

} // verus!
