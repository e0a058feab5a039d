//! Copying and comparing byte streams while an image is rebuilt or checked.
use crate::rpi_image::Error;
use vstd::prelude::*;

verus! {

/// Copies everything `src` yields into `dst` with `std::io::copy`. Nothing is
/// claimed of the result: it depends on the streams.
#[verifier::external_body]
pub(crate) fn io_copy<R: std::io::Read, W: std::io::Write>(src: &mut R, dst: &mut W) -> std::io::Result<u64> {
    std::io::copy(src, dst)
}

/// Writes all of `buf` into `dst` with `Write::write_all`. Nothing is
/// claimed of the outcome: it depends on the writer.
#[verifier::external_body]
pub(crate) fn write_all_of<W: std::io::Write>(dst: &mut W, buf: &[u8]) -> std::io::Result<()> {
    dst.write_all(buf)
}

/// Reads once from `src` into `buf` with `Read::read`. The contract claims
/// what the documentation of `read` promises: the buffer keeps its length and
/// no more than its length is reported read. Which bytes come, and how many,
/// depends on the stream and is not stated.
#[verifier::external_body]
pub(crate) fn read_into<R: std::io::Read>(src: &mut R, buf: &mut [u8]) -> (r: std::io::Result<usize>)
    ensures
        final(buf)@.len() == old(buf)@.len(),
        r matches Ok(n) ==> n <= old(buf)@.len(),
{
    src.read(buf)
}

/// Reads once from `src`, at most `max` bytes, and returns what was read.
fn read_chunk<R: std::io::Read>(src: &mut R, max: usize) -> (r: std::io::Result<Vec<u8>>)
    ensures
        r matches Ok(v) ==> v@.len() <= max,
{
    let mut buf: Vec<u8> = vec![0u8; max];
    match read_into(src, buf.as_mut_slice()) {
        Ok(n) => {
            buf.truncate(n);
            Ok(buf)
        },
        Err(e) => Err(e),
    }
}

/// Whether an I/O error is of the kind `ErrorKind::Interrupted`, read with
/// `std::io::Error::kind`; nothing is claimed of it.
#[verifier::external_body]
fn is_interrupted(e: &std::io::Error) -> bool {
    e.kind() == std::io::ErrorKind::Interrupted
}

/// The size of the chunks in which the left stream is read.
pub const COMPARE_BUFFER_SIZE: usize = 65536;

/// Copies the rest of `src` into `dst`, returning the number of bytes copied.
pub fn copy_exact<R: std::io::Read, W: std::io::Write>(src: &mut R, dst: &mut W) -> (r: Result<u64, Error>)
    ensures
        r matches Err(e) ==> e is Io,
{
    match io_copy(src, dst) {
        Ok(n) => Ok(n),
        Err(e) => Err(Error::Io(e)),
    }
}

/// Whether a copy that was to move `length` bytes and moved `copied` did its
/// job: `Ok(length)` when the counts agree, `CopyMismatch` otherwise.
pub fn check_copied_len(copied: u64, length: u64) -> (r: Result<u64, Error>)
    ensures
        copied == length ==> (r matches Ok(n) && n == length),
        copied != length ==> (r matches Err(e) && e is CopyMismatch),
{
    if copied != length {
        Err(Error::CopyMismatch)
    } else {
        Ok(copied)
    }
}

/// The size of the chunks in which `copy_exact_n` copies.
pub const COPY_BUFFER_SIZE: usize = 4194304;

/// How many bytes `copy_exact_n` asks for next, having copied `copied` of
/// `length`: what is left, but at most `COPY_BUFFER_SIZE`. A read never asks
/// for bytes past `length`.
pub fn copy_chunk_len(copied: u64, length: u64) -> (r: usize)
    requires
        copied < length,
    ensures
        r as int == if length - copied < COPY_BUFFER_SIZE as int {
            length - copied
        } else {
            COPY_BUFFER_SIZE as int
        },
        0 < r <= length - copied,
{
    let left = length - copied;
    if left < COPY_BUFFER_SIZE as u64 {
        left as usize
    } else {
        COPY_BUFFER_SIZE
    }
}

/// Copies exactly `length` bytes of `src` into `dst`, chunk by chunk, each
/// read asking for [`copy_chunk_len`] bytes, so that nothing past `length`
/// is asked for. A read that is interrupted (`ErrorKind::Interrupted`) is
/// tried again; after `u64::MAX` interrupted reads the last error is given
/// up as an `Io` error. A source that ends early is a `CopyMismatch`; a
/// failed read or write is an `Io` error. Copying nothing touches neither
/// stream and succeeds.
pub fn copy_exact_n<R: std::io::Read, W: std::io::Write>(src: &mut R, dst: &mut W, length: u64) -> (r:
    Result<u64, Error>)
    ensures
        r matches Ok(n) ==> n == length,
        length == 0 ==> (r matches Ok(n) && n == 0),
        r matches Err(e) ==> e is Io || e is CopyMismatch,
{
    let mut total: u64 = 0;
    let mut retries_left: u64 = u64::MAX;
    while total < length
        invariant
            total <= length,
        decreases length - total, retries_left,
    {
        let want = copy_chunk_len(total, length);
        let chunk = match read_chunk(src, want) {
            Ok(c) => c,
            Err(e) => {
                if is_interrupted(&e) && retries_left > 0 {
                    retries_left = retries_left - 1;
                    continue;
                }
                return Err(Error::Io(e));
            },
        };
        if chunk.len() == 0 {
            break;
        }
        match write_all_of(dst, chunk.as_slice()) {
            Ok(()) => {},
            Err(e) => {
                return Err(Error::Io(e));
            },
        }
        total = total + chunk.len() as u64;
    }
    check_copied_len(total, length)
}

/// What the comparison of two streams asks for next.
#[derive(Debug, Clone, Copy, PartialEq, Eq, Structural)]
pub enum CompareAction {
    /// Read a chunk of the left stream and pass it to `lhs_read`.
    ReadLhs,
    /// Read at most `wanted` bytes of the right stream and pass them to
    /// `rhs_read`; an interrupted read is tried again.
    ReadRhs { wanted: usize },
    /// The left stream has ended: read at most one byte of the right stream
    /// and pass it to `probe_read`.
    ProbeRhs,
    /// The comparison is over: whether the streams are equal.
    Done(bool),
}

/// The comparison of two byte streams, chunk by chunk: for each chunk of the
/// left stream, as many bytes of the right stream are read and compared.
pub struct CompareState {
    /// The last chunk of the left stream, not yet compared.
    pending: Vec<u8>,
    /// The bytes of the right stream read against `pending` so far.
    got: Vec<u8>,
    /// What was asked for last.
    next: CompareAction,
    /// Everything read of the left stream.
    lhs_seen: Ghost<Seq<u8>>,
    /// Everything read of the right stream.
    rhs_seen: Ghost<Seq<u8>>,
    /// Whether the left stream was found to end.
    lhs_ended: Ghost<bool>,
    /// Whether the right stream was found to end.
    rhs_ended: Ghost<bool>,
}

/// Whether what was read of two streams shows that they differ: a byte that
/// differs, or one stream ending before the other.
pub open spec fn shown_different(lhs: Seq<u8>, lhs_ended: bool, rhs: Seq<u8>, rhs_ended: bool) -> bool {
    ||| exists|i: int| 0 <= i < lhs.len() && i < rhs.len() && lhs[i] != rhs[i]
    ||| lhs_ended && rhs.len() > lhs.len()
    ||| rhs_ended && lhs.len() > rhs.len()
}

/// Whether two byte strings of one length are equal; where they are not, a
/// position at which they differ exists.
fn bytes_equal(a: &Vec<u8>, b: &Vec<u8>) -> (r: bool)
    requires
        a@.len() == b@.len(),
    ensures
        r == (a@ == b@),
        !r ==> exists|j: int| 0 <= j < a@.len() && a@[j] != b@[j],
{
    let n = a.len();
    let mut i: usize = 0;
    while i < n
        invariant
            n == a@.len(),
            n == b@.len(),
            i <= n,
            forall|j: int| 0 <= j < i ==> a@[j] == b@[j],
        decreases n - i,
    {
        if a[i] != b[i] {
            return false;
        }
        i = i + 1;
    }
    assert(a@ =~= b@);
    true
}

impl CompareState {
    /// What the comparison asks for next.
    pub closed spec fn action(&self) -> CompareAction {
        self.next
    }

    /// Everything read of the left stream.
    pub closed spec fn lhs_seen(&self) -> Seq<u8> {
        self.lhs_seen@
    }

    /// Everything read of the right stream.
    pub closed spec fn rhs_seen(&self) -> Seq<u8> {
        self.rhs_seen@
    }

    /// Whether the left stream was found to end.
    pub closed spec fn lhs_ended(&self) -> bool {
        self.lhs_ended@
    }

    /// Whether the right stream was found to end.
    pub closed spec fn rhs_ended(&self) -> bool {
        self.rhs_ended@
    }

    /// The bookkeeping that holds between two steps.
    pub closed spec fn wf(&self) -> bool {
        match self.next {
            CompareAction::ReadLhs => {
                &&& self.lhs_seen@ == self.rhs_seen@
                &&& !self.lhs_ended@ && !self.rhs_ended@
            },
            CompareAction::ReadRhs { wanted } => {
                &&& self.got@.len() < self.pending@.len()
                &&& wanted == self.pending@.len() - self.got@.len()
                &&& self.lhs_seen@.len() >= self.pending@.len()
                &&& self.lhs_seen@ == self.lhs_seen@.take(self.lhs_seen@.len() - self.pending@.len())
                    + self.pending@
                &&& self.rhs_seen@ == self.lhs_seen@.take(self.lhs_seen@.len() - self.pending@.len())
                    + self.got@
                &&& !self.lhs_ended@ && !self.rhs_ended@
            },
            CompareAction::ProbeRhs => {
                &&& self.lhs_seen@ == self.rhs_seen@
                &&& self.lhs_ended@ && !self.rhs_ended@
            },
            CompareAction::Done(equal) => {
                &&& equal ==> (self.lhs_ended@ && self.rhs_ended@ && self.lhs_seen@ == self.rhs_seen@)
                &&& !equal ==> shown_different(
                    self.lhs_seen@,
                    self.lhs_ended@,
                    self.rhs_seen@,
                    self.rhs_ended@,
                )
            },
        }
    }

    /// A comparison that has read nothing yet and first asks for a chunk of
    /// the left stream.
    pub fn new() -> (r: Self)
        ensures
            r.wf(),
            r.action() == CompareAction::ReadLhs,
            r.lhs_seen() == Seq::<u8>::empty(),
            r.rhs_seen() == Seq::<u8>::empty(),
            !r.lhs_ended() && !r.rhs_ended(),
    {
        CompareState {
            pending: Vec::new(),
            got: Vec::new(),
            next: CompareAction::ReadLhs,
            lhs_seen: Ghost(Seq::empty()),
            rhs_seen: Ghost(Seq::empty()),
            lhs_ended: Ghost(false),
            rhs_ended: Ghost(false),
        }
    }

    /// Takes a chunk of the left stream; an empty chunk means that it has
    /// ended. Asks for as many bytes of the right stream, or for one probing
    /// byte once the left stream has ended.
    pub fn lhs_read(&mut self, data: &[u8]) -> (r: CompareAction)
        requires
            old(self).wf(),
            old(self).action() == CompareAction::ReadLhs,
        ensures
            final(self).wf(),
            r == final(self).action(),
            final(self).lhs_seen() == old(self).lhs_seen() + data@,
            final(self).rhs_seen() == old(self).rhs_seen(),
            final(self).lhs_ended() == (data@.len() == 0),
            !final(self).rhs_ended(),
            data@.len() == 0 ==> r == CompareAction::ProbeRhs,
            data@.len() > 0 ==> r == (CompareAction::ReadRhs { wanted: data@.len() as usize }),
    {
        if data.len() == 0 {
            self.next = CompareAction::ProbeRhs;
            self.lhs_ended = Ghost(true);
            assert(self.lhs_seen@ + data@ =~= self.lhs_seen@);
            return CompareAction::ProbeRhs;
        }
        let ghost base = self.lhs_seen@;
        let mut p: Vec<u8> = Vec::new();
        let mut k: usize = 0;
        while k < data.len()
            invariant
                k <= data@.len(),
                p@ == data@.take(k as int),
            decreases data@.len() - k,
        {
            p.push(data[k]);
            k = k + 1;
            assert(p@ =~= data@.take(k as int));
        }
        assert(data@.take(data@.len() as int) =~= data@);
        self.pending = p;
        self.got = Vec::new();
        self.lhs_seen = Ghost(base + data@);
        let wanted = data.len();
        self.next = CompareAction::ReadRhs { wanted };
        assert(self.lhs_seen@.take(self.lhs_seen@.len() - self.pending@.len()) =~= base);
        assert(self.rhs_seen@ =~= base + self.got@);
        CompareAction::ReadRhs { wanted }
    }

    /// Takes bytes of the right stream read against the pending chunk; an
    /// empty read means that the right stream has ended before it, so the
    /// streams differ. Once the chunk is matched in length, the two are
    /// compared: equal chunks ask for the next chunk of the left stream,
    /// different ones end the comparison.
    pub fn rhs_read(&mut self, data: &[u8]) -> (r: CompareAction)
        requires
            old(self).wf(),
            (old(self).action() matches CompareAction::ReadRhs { wanted } && data@.len() <= wanted),
        ensures
            final(self).wf(),
            r == final(self).action(),
            final(self).lhs_seen() == old(self).lhs_seen(),
            final(self).rhs_seen() == old(self).rhs_seen() + data@,
            final(self).lhs_ended() == old(self).lhs_ended(),
            final(self).rhs_ended() == (data@.len() == 0),
            data@.len() == 0 ==> r == CompareAction::Done(false),
    {
        let ghost base = self.lhs_seen@.take(self.lhs_seen@.len() - self.pending@.len());
        if data.len() == 0 {
            self.rhs_ended = Ghost(true);
            self.next = CompareAction::Done(false);
            assert(self.rhs_seen@ + data@ =~= self.rhs_seen@);
            assert(self.lhs_seen@.len() > self.rhs_seen@.len());
            return CompareAction::Done(false);
        }
        let ghost got_before = self.got@;
        let mut g: Vec<u8> = Vec::new();
        std::mem::swap(&mut g, &mut self.got);
        let mut k: usize = 0;
        while k < data.len()
            invariant
                k <= data@.len(),
                g@ == got_before + data@.take(k as int),
            decreases data@.len() - k,
        {
            g.push(data[k]);
            k = k + 1;
            assert(g@ =~= got_before + data@.take(k as int));
        }
        assert(data@.take(data@.len() as int) =~= data@);
        self.got = g;
        self.rhs_seen = Ghost(self.rhs_seen@ + data@);
        assert(self.rhs_seen@ =~= base + self.got@);
        if self.got.len() < self.pending.len() {
            let wanted = self.pending.len() - self.got.len();
            self.next = CompareAction::ReadRhs { wanted };
            return CompareAction::ReadRhs { wanted };
        }
        if !bytes_equal(&self.pending, &self.got) {
            self.next = CompareAction::Done(false);
            proof {
                let j = choose|j: int| 0 <= j < self.pending@.len() && self.pending@[j] != self.got@[j];
                let bl = base.len() as int;
                assert(self.lhs_seen@[bl + j] == self.pending@[j]);
                assert(self.rhs_seen@[bl + j] == self.got@[j]);
            }
            return CompareAction::Done(false);
        }
        assert(self.pending@ =~= self.got@);
        self.pending = Vec::new();
        self.got = Vec::new();
        self.next = CompareAction::ReadLhs;
        CompareAction::ReadLhs
    }

    /// Takes the probing read of the right stream (at most one byte) once the
    /// left stream has ended: the streams are equal exactly when the right
    /// stream has ended too.
    pub fn probe_read(&mut self, data: &[u8]) -> (r: CompareAction)
        requires
            old(self).wf(),
            old(self).action() == CompareAction::ProbeRhs,
            data@.len() <= 1,
        ensures
            final(self).wf(),
            r == final(self).action(),
            r == CompareAction::Done(data@.len() == 0),
            final(self).lhs_seen() == old(self).lhs_seen(),
            final(self).lhs_ended() == old(self).lhs_ended(),
            final(self).rhs_seen() == old(self).rhs_seen() + data@,
            final(self).rhs_ended() == (data@.len() == 0),
    {
        self.rhs_seen = Ghost(self.rhs_seen@ + data@);
        if data.len() == 0 {
            assert(self.rhs_seen@ =~= self.lhs_seen@);
            self.rhs_ended = Ghost(true);
            self.next = CompareAction::Done(true);
            CompareAction::Done(true)
        } else {
            self.next = CompareAction::Done(false);
            CompareAction::Done(false)
        }
    }

    /// What the comparison asks for next.
    pub fn next_action(&self) -> (r: CompareAction)
        ensures
            r == self.action(),
    {
        self.next
    }
}

/// Whether what was read of a stream agrees with the stream `full`: it is a
/// prefix of it, and all of it when the stream was found to end.
pub open spec fn faithful(seen: Seq<u8>, ended: bool, full: Seq<u8>) -> bool {
    &&& seen.len() <= full.len()
    &&& seen == full.take(seen.len() as int)
    &&& ended ==> seen == full
}

/// When the reads a comparison was given agree with two streams, its verdict
/// is whether the streams are equal.
pub proof fn lemma_compare_verdict(st: CompareState, lhs: Seq<u8>, rhs: Seq<u8>, equal: bool)
    requires
        st.wf(),
        st.action() == CompareAction::Done(equal),
        faithful(st.lhs_seen(), st.lhs_ended(), lhs),
        faithful(st.rhs_seen(), st.rhs_ended(), rhs),
    ensures
        equal <==> lhs == rhs,
{
    let a = st.lhs_seen();
    let b = st.rhs_seen();
    if !equal {
        if lhs == rhs {
            if exists|i: int| 0 <= i < a.len() && i < b.len() && a[i] != b[i] {
                let i = choose|i: int| 0 <= i < a.len() && i < b.len() && a[i] != b[i];
                assert(a[i] == lhs[i]);
                assert(b[i] == rhs[i]);
            } else if st.lhs_ended() && b.len() > a.len() {
                assert(a == lhs);
            } else {
                assert(b == rhs);
            }
        }
    }
}

/// The verdict does not depend on which stream is read first: a comparison
/// of `a` against `b` and one of `b` against `a`, each given reads that
/// agree with its streams, reach the same verdict.
pub proof fn lemma_compare_symmetric(
    ab: CompareState,
    ba: CompareState,
    a: Seq<u8>,
    b: Seq<u8>,
    verdict_ab: bool,
    verdict_ba: bool,
)
    requires
        ab.wf(),
        ab.action() == CompareAction::Done(verdict_ab),
        faithful(ab.lhs_seen(), ab.lhs_ended(), a),
        faithful(ab.rhs_seen(), ab.rhs_ended(), b),
        ba.wf(),
        ba.action() == CompareAction::Done(verdict_ba),
        faithful(ba.lhs_seen(), ba.lhs_ended(), b),
        faithful(ba.rhs_seen(), ba.rhs_ended(), a),
    ensures
        verdict_ab == verdict_ba,
{
    lemma_compare_verdict(ab, a, b, verdict_ab);
    lemma_compare_verdict(ba, b, a, verdict_ba);
}

/// Whether two streams yield the same bytes. The left stream is read in
/// chunks; for each chunk as many bytes of the right stream are read, trying
/// again where a read of the right stream is interrupted, and compared. Once
/// the left stream ends, one more read tells whether the right one has ended
/// too. The steps are those of [`CompareState`], whose verdict
/// [`lemma_compare_verdict`] shows right. A comparison that would take more
/// than `u64::MAX` reads is given up with `InvalidState`.
pub fn compare<R1: std::io::Read, R2: std::io::Read>(lhs: &mut R1, rhs: &mut R2) -> (r: Result<bool, Error>)
    ensures
        r matches Err(e) ==> (e is Io || e is InvalidState),
{
    let mut st = CompareState::new();
    let mut reads_left: u64 = u64::MAX;
    loop
        invariant
            st.wf(),
        decreases reads_left,
    {
        match st.next_action() {
            CompareAction::Done(equal) => {
                return Ok(equal);
            },
            _ => {},
        }
        if reads_left == 0 {
            return Err(Error::InvalidState);
        }
        reads_left = reads_left - 1;
        match st.next_action() {
            CompareAction::ReadLhs => {
                match read_chunk(lhs, COMPARE_BUFFER_SIZE) {
                    Ok(chunk) => {
                        st.lhs_read(chunk.as_slice());
                    },
                    Err(e) => {
                        return Err(Error::Io(e));
                    },
                }
            },
            CompareAction::ReadRhs { wanted } => {
                match read_chunk(rhs, wanted) {
                    Ok(chunk) => {
                        st.rhs_read(chunk.as_slice());
                    },
                    Err(e) => {
                        if !is_interrupted(&e) {
                            return Err(Error::Io(e));
                        }
                    },
                }
            },
            CompareAction::ProbeRhs => {
                match read_chunk(rhs, 1) {
                    Ok(chunk) => {
                        st.probe_read(chunk.as_slice());
                    },
                    Err(e) => {
                        return Err(Error::Io(e));
                    },
                }
            },
            CompareAction::Done(equal) => {
                return Ok(equal);
            },
        }
    }
}

} // verus!
