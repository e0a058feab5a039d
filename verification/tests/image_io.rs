use rpi_imgpatcher::rpi_image::image_io::{
    check_copied_len, compare, copy_chunk_len, copy_exact, copy_exact_n, CompareAction, CompareState,
};
use rpi_imgpatcher::rpi_image::Error;
use std::io::{Cursor, Read};

#[test]
fn test_compare_different_lengths() {
    let mut lhs = Cursor::new(vec![1, 2, 3]);
    let mut rhs = Cursor::new(vec![1, 2, 3, 4]);
    assert!(!compare(&mut lhs, &mut rhs).unwrap());

    let mut lhs = Cursor::new(vec![1, 2, 3, 4]);
    let mut rhs = Cursor::new(vec![1, 2, 3]);
    assert!(!compare(&mut lhs, &mut rhs).unwrap());

    let mut lhs = Cursor::new(vec![1, 2, 3]);
    let mut rhs = Cursor::new(vec![1, 2, 3]);
    assert!(compare(&mut lhs, &mut rhs).unwrap());
}

#[test]
fn compare_finds_a_differing_byte() {
    let mut lhs = Cursor::new(vec![1u8, 2, 3, 4]);
    let mut rhs = Cursor::new(vec![1u8, 2, 9, 4]);
    assert!(!compare(&mut lhs, &mut rhs).unwrap());
}

#[test]
fn compare_empty_streams_are_equal() {
    let mut lhs = Cursor::new(Vec::<u8>::new());
    let mut rhs = Cursor::new(Vec::<u8>::new());
    assert!(compare(&mut lhs, &mut rhs).unwrap());
}

#[test]
fn compare_large_streams_across_chunks() {
    let data: Vec<u8> = (0..200_000u32).map(|i| (i % 251) as u8).collect();
    let mut other = data.clone();
    assert!(compare(&mut Cursor::new(data.clone()), &mut Cursor::new(other.clone())).unwrap());
    other[150_000] ^= 1;
    assert!(!compare(&mut Cursor::new(data), &mut Cursor::new(other)).unwrap());
}

/// A reader that hands out one byte per read, so that the right stream is
/// read in several pieces per chunk of the left.
struct Trickle(Vec<u8>, usize);

impl Read for Trickle {
    fn read(&mut self, buf: &mut [u8]) -> std::io::Result<usize> {
        if self.1 >= self.0.len() || buf.is_empty() {
            return Ok(0);
        }
        buf[0] = self.0[self.1];
        self.1 += 1;
        Ok(1)
    }
}

#[test]
fn compare_reads_the_right_stream_in_pieces() {
    let mut lhs = Cursor::new(b"hello world".to_vec());
    let mut rhs = Trickle(b"hello world".to_vec(), 0);
    assert!(compare(&mut lhs, &mut rhs).unwrap());
    let mut lhs = Cursor::new(b"hello world".to_vec());
    let mut rhs = Trickle(b"hello".to_vec(), 0);
    assert!(!compare(&mut lhs, &mut rhs).unwrap());
}

#[test]
fn compare_state_steps() {
    let mut st = CompareState::new();
    assert_eq!(st.next_action(), CompareAction::ReadLhs);
    assert_eq!(st.lhs_read(&[1, 2, 3]), CompareAction::ReadRhs { wanted: 3 });
    assert_eq!(st.rhs_read(&[1]), CompareAction::ReadRhs { wanted: 2 });
    assert_eq!(st.rhs_read(&[2, 3]), CompareAction::ReadLhs);
    assert_eq!(st.lhs_read(&[]), CompareAction::ProbeRhs);
    assert_eq!(st.probe_read(&[]), CompareAction::Done(true));
}

#[test]
fn compare_state_right_stream_ends_early() {
    let mut st = CompareState::new();
    st.lhs_read(&[7, 8]);
    assert_eq!(st.rhs_read(&[]), CompareAction::Done(false));
}

#[test]
fn compare_state_right_stream_longer() {
    let mut st = CompareState::new();
    st.lhs_read(&[]);
    assert_eq!(st.probe_read(&[5]), CompareAction::Done(false));
}

#[test]
fn copy_exact_copies_everything() {
    let mut src = Cursor::new(b"abcdef".to_vec());
    let mut dst = Vec::new();
    assert_eq!(copy_exact(&mut src, &mut dst).unwrap(), 6);
    assert_eq!(dst, b"abcdef");
}

#[test]
fn copy_exact_n_copies_exactly_n() {
    let mut src = Cursor::new(b"abcdef".to_vec());
    let mut dst = Vec::new();
    assert_eq!(copy_exact_n(&mut src, &mut dst, 4).unwrap(), 4);
    assert_eq!(dst, b"abcd");
    let mut rest = Vec::new();
    src.read_to_end(&mut rest).unwrap();
    assert_eq!(rest, b"ef");
}

#[test]
fn copy_exact_n_zero_copies_nothing() {
    let mut src = Cursor::new(b"abc".to_vec());
    let mut dst = Vec::new();
    assert_eq!(copy_exact_n(&mut src, &mut dst, 0).unwrap(), 0);
    assert!(dst.is_empty());
}

#[test]
fn copy_exact_n_short_source_is_a_mismatch() {
    let mut src = Cursor::new(b"abc".to_vec());
    let mut dst = Vec::new();
    assert!(matches!(copy_exact_n(&mut src, &mut dst, 10), Err(Error::CopyMismatch)));
    assert_eq!(dst, b"abc");
}

#[test]
fn copied_length_check() {
    assert!(matches!(check_copied_len(5, 5), Ok(5)));
    assert!(matches!(check_copied_len(4, 5), Err(Error::CopyMismatch)));
}

/// A reader that is interrupted once before each successful read.
struct Stuttering {
    inner: std::io::Cursor<Vec<u8>>,
    interrupt_next: bool,
}

impl std::io::Read for Stuttering {
    fn read(&mut self, buf: &mut [u8]) -> std::io::Result<usize> {
        if self.interrupt_next {
            self.interrupt_next = false;
            return Err(std::io::Error::new(std::io::ErrorKind::Interrupted, "again"));
        }
        self.interrupt_next = true;
        std::io::Read::read(&mut self.inner, buf)
    }
}

#[test]
fn copy_exact_n_retries_interrupted_reads() {
    let mut src = Stuttering { inner: std::io::Cursor::new(vec![7u8; 10]), interrupt_next: true };
    let mut dst: Vec<u8> = Vec::new();
    assert_eq!(copy_exact_n(&mut src, &mut dst, 10).unwrap(), 10);
    assert_eq!(dst, vec![7u8; 10]);
}

#[test]
fn copy_exact_n_leaves_the_rest_of_the_source() {
    let mut src = std::io::Cursor::new(vec![1u8, 2, 3, 4, 5]);
    let mut dst: Vec<u8> = Vec::new();
    assert_eq!(copy_exact_n(&mut src, &mut dst, 3).unwrap(), 3);
    assert_eq!(dst, vec![1, 2, 3]);
    assert_eq!(src.position(), 3);
}

#[test]
fn copy_chunks_never_pass_the_length() {
    assert_eq!(copy_chunk_len(0, 10), 10);
    assert_eq!(copy_chunk_len(7, 10), 3);
    assert_eq!(copy_chunk_len(0, 1 << 40), 4194304);
    assert_eq!(copy_chunk_len((1 << 40) - 5, 1 << 40), 5);
}
