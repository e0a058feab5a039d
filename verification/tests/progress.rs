use rpi_imgpatcher::rpi_image::progress_reader::ProgressReader;
use rpi_imgpatcher::rpi_image::progress_writer::ProgressWriter;
use std::cell::Cell;
use std::io::{Read, Write};
use std::rc::Rc;

#[test]
fn test_progress_reader() {
    let data = b"hello world";
    let mut reader = ProgressReader::new(&data[..], |read| {
        assert!(read <= data.len() as u64);
    });

    let mut buf = [0u8; 5];
    let n = reader.read(&mut buf).unwrap();
    assert_eq!(n, 5);
    assert_eq!(reader.read, 5);

    let n = reader.read(&mut buf).unwrap();
    assert_eq!(n, 5);
    assert_eq!(reader.read, 10);

    let n = reader.read(&mut buf).unwrap();
    assert_eq!(n, 1);
    assert_eq!(reader.read, 11);

    let n = reader.read(&mut buf).unwrap();
    assert_eq!(n, 0);
    assert_eq!(reader.read, 11);
}

#[test]
fn test_progress_reader_callback() {
    let data = b"abc";
    let total_read = Rc::new(Cell::new(0u64));
    let total_read_cb = total_read.clone();

    let mut reader = ProgressReader::new(&data[..], move |read| {
        total_read_cb.set(read);
    });

    let mut buf = [0u8; 1];
    reader.read(&mut buf).unwrap();
    assert_eq!(total_read.get(), 1);
    reader.read(&mut buf).unwrap();
    assert_eq!(total_read.get(), 2);
    reader.read(&mut buf).unwrap();
    assert_eq!(total_read.get(), 3);
    reader.read(&mut buf).unwrap();
    assert_eq!(total_read.get(), 3);
}

#[test]
fn test_progress_writer() {
    let mut dest = Vec::new();
    let total_written = Rc::new(Cell::new(0u64));
    let total_written_cb = total_written.clone();

    {
        let mut writer = ProgressWriter::new(&mut dest, move |written| {
            total_written_cb.set(written);
        });

        writer.write_all(b"hello").unwrap();
        assert_eq!(total_written.get(), 5);

        writer.write_all(b" ").unwrap();
        assert_eq!(total_written.get(), 6);

        writer.write_all(b"world").unwrap();
        assert_eq!(total_written.get(), 11);
    }

    assert_eq!(dest, b"hello world");
    assert_eq!(total_written.get(), 11);
}

#[test]
fn progress_writer_write_counts_and_reports() {
    let mut reports = Vec::new();
    {
        let mut writer = ProgressWriter::new(Vec::new(), |w| reports.push(w));
        assert_eq!(writer.write(b"abc").unwrap(), 3);
        assert_eq!(writer.written, 3);
        writer.flush().unwrap();
        assert_eq!(writer.written, 3);
        assert_eq!(writer.write(b"").unwrap(), 0);
        let inner = writer.inner();
        assert_eq!(inner, b"abc");
    }
    assert_eq!(reports, vec![3, 3]);
}

#[test]
fn ffi_progress_writer_gives_back_its_writer() {
    let writer = rpi_imgpatcher::ffi::progress_writer::ProgressWriter::new(Vec::<u8>::new(), |_| {});
    let mut writer = writer;
    writer.write_all(b"xyz").unwrap();
    assert_eq!(writer.written, 3);
    assert_eq!(writer.inner(), b"xyz");
}

#[test]
fn progress_reader_does_not_report_empty_reads() {
    let mut count = 0;
    {
        let mut reader = ProgressReader::new(&b""[..], |_| count += 1);
        let mut buf = [0u8; 4];
        assert_eq!(reader.read(&mut buf).unwrap(), 0);
        assert_eq!(reader.read, 0);
    }
    assert_eq!(count, 0);
}

#[test]
fn callbacks_receive_each_running_total() {
    let seen = Rc::new(std::cell::RefCell::new(Vec::new()));
    let log = seen.clone();
    let mut reader = ProgressReader::new(&b"hello world"[..], move |t| log.borrow_mut().push(t));
    let mut buf = [0u8; 4];
    while reader.read(&mut buf).unwrap() > 0 {}
    assert_eq!(*seen.borrow(), vec![4, 8, 11]);

    let seen = Rc::new(std::cell::RefCell::new(Vec::new()));
    let log = seen.clone();
    let mut writer = ProgressWriter::new(Vec::new(), move |t| log.borrow_mut().push(t));
    writer.write_all(b"ab").unwrap();
    writer.write(b"cde").unwrap();
    writer.flush().unwrap();
    assert_eq!(*seen.borrow(), vec![2, 5]);
}
