use bucket_streamer::avio::{AvioError, MemoryReader, Whence};

#[test]
fn test_read_advances_the_cursor() {
    let bytes = b"0123456789ABCDEF";
    let mut reader = MemoryReader::new(bytes);
    assert_eq!(reader.size(), 16);
    assert_eq!(reader.position(), 0);
    assert_eq!(reader.read(4), b"0123");
    assert_eq!(reader.position(), 4);
    assert_eq!(reader.read(6), b"456789");
    assert_eq!(reader.read(100), b"ABCDEF");
    assert_eq!(reader.position(), 16);
}

#[test]
fn test_read_past_the_end_gives_nothing() {
    let bytes = b"abc";
    let mut reader = MemoryReader::new(bytes);
    assert_eq!(reader.read(3), b"abc");
    assert_eq!(reader.read(1), b"");
    assert_eq!(reader.position(), 3);
    assert_eq!(reader.seek(10, Whence::Start), Ok(10));
    assert_eq!(reader.read(5), b"");
    assert_eq!(reader.position(), 10);
    assert_eq!(reader.read(0), b"");
}

#[test]
fn test_seek_from_start_cursor_and_end() {
    let bytes = b"0123456789";
    let mut reader = MemoryReader::new(bytes);
    assert_eq!(reader.seek(7, Whence::Start), Ok(7));
    assert_eq!(reader.read(2), b"78");
    assert_eq!(reader.seek(-4, Whence::Current), Ok(5));
    assert_eq!(reader.read(1), b"5");
    assert_eq!(reader.seek(-3, Whence::End), Ok(7));
    assert_eq!(reader.read(10), b"789");
    assert_eq!(reader.seek(0, Whence::End), Ok(10));
    assert_eq!(reader.seek(5, Whence::End), Ok(15));
    assert_eq!(reader.position(), 15);
}

#[test]
fn test_seek_size_query_leaves_the_cursor() {
    let bytes = b"0123456789";
    let mut reader = MemoryReader::new(bytes);
    reader.read(3);
    assert_eq!(reader.seek(0, Whence::Size), Ok(10));
    assert_eq!(reader.seek(-99, Whence::Size), Ok(10));
    assert_eq!(reader.position(), 3);
}

#[test]
fn test_seek_before_the_start_is_refused() {
    let bytes = b"0123456789";
    let mut reader = MemoryReader::new(bytes);
    reader.read(4);
    assert_eq!(reader.seek(-1, Whence::Start), Err(AvioError::InvalidSeek));
    assert_eq!(reader.seek(-5, Whence::Current), Err(AvioError::InvalidSeek));
    assert_eq!(reader.seek(-11, Whence::End), Err(AvioError::InvalidSeek));
    assert_eq!(reader.position(), 4);
    assert_eq!(reader.seek(i64::MAX, Whence::Current), Err(AvioError::InvalidSeek));
    assert_eq!(reader.seek(i64::MAX, Whence::Start), Ok(i64::MAX as u64));
    assert_eq!(reader.seek(i64::MIN, Whence::Current), Err(AvioError::InvalidSeek));
}

#[test]
fn test_avio_error_messages() {
    assert_eq!(AvioError::AllocationFailed.message(), "failed to allocate input context");
    assert_eq!(
        AvioError::OpenFailed("Invalid data".to_string()).message(),
        "failed to open input: Invalid data"
    );
    assert_eq!(AvioError::InvalidSeek.message(), "invalid seek");
}
