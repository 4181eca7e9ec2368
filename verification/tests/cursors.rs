use positioned_io::{Cursor, IoError, SeekFrom, SizeCursor, Slice, WriteAt};

#[test]
fn cursor_read_advances_position() {
    // Sequential reads at a starting position of ten: reading four bytes
    // moves the position to fourteen, and a relative seek of four more
    // lands on eighteen.
    let data: Vec<u8> = (0..20).collect();
    let mut curs = Cursor::new_pos(&data, 10);
    let mut buf = [0u8; 4];
    assert_eq!(curs.read(&mut buf).unwrap(), 4);
    assert_eq!(buf, [10, 11, 12, 13]);
    assert_eq!(curs.position(), 14);
    assert_eq!(curs.seek(SeekFrom::Current(4)).unwrap(), 18);
    assert_eq!(curs.position(), 18);
}

#[test]
fn cursor_matches_positioned_calls() {
    // A sequence of sequential writes and reads leaves the backend exactly
    // as the positioned calls at the tracked positions would.
    let mut via_cursor: Vec<u8> = vec![0; 4];
    {
        let mut curs = Cursor::new(&mut via_cursor);
        curs.write(&[1, 2]).unwrap();
        curs.write(&[3, 4, 5]).unwrap();
        assert_eq!(curs.position(), 5);
        let mut buf = [0u8; 2];
        curs.seek(SeekFrom::Start(1)).unwrap();
        curs.read(&mut buf).unwrap();
        assert_eq!(buf, [2, 3]);
        assert_eq!(curs.position(), 3);
    }

    let mut direct: Vec<u8> = vec![0; 4];
    direct.write_at(0, &[1, 2]).unwrap();
    direct.write_at(2, &[3, 4, 5]).unwrap();
    assert_eq!(via_cursor, direct);
}

#[test]
fn cursor_seek_rules() {
    let data: Vec<u8> = vec![1, 2, 3];
    let mut curs = Cursor::new_pos(&data, 10);
    // Start always lands, even past the end.
    assert_eq!(curs.seek(SeekFrom::Start(100)).unwrap(), 100);
    // A negative result is rejected and the position stays.
    assert_eq!(curs.seek(SeekFrom::Current(-101)), Err(IoError::InvalidInput));
    assert_eq!(curs.position(), 100);
    // A plain cursor cannot seek from the end.
    assert_eq!(curs.seek(SeekFrom::End(0)), Err(IoError::InvalidInput));
}

#[test]
fn cursor_reads_nothing_past_the_end() {
    let data: Vec<u8> = vec![1, 2, 3];
    let mut curs = Cursor::new_pos(&data, 5);
    let mut buf = [9u8; 2];
    assert_eq!(curs.read(&mut buf).unwrap(), 0);
    assert_eq!(curs.position(), 5);
    assert_eq!(buf, [9, 9]);
}

#[test]
fn cursor_accessors() {
    let data: Vec<u8> = vec![1, 2, 3];
    let mut curs = Cursor::new(data);
    assert_eq!(curs.get_ref()[0], 1);
    curs.get_mut().push(4);
    curs.set_position(3);
    assert_eq!(curs.position(), 3);
    let data = curs.into_inner();
    assert_eq!(data, vec![1, 2, 3, 4]);
}

#[test]
fn size_cursor_seeks_from_end() {
    let data: Vec<u8> = (0..10).collect();
    let mut curs = SizeCursor::new_pos(&data, 3);
    assert_eq!(curs.seek(SeekFrom::End(-4)).unwrap(), 6);
    let mut buf = [0u8; 2];
    assert_eq!(curs.read(&mut buf).unwrap(), 2);
    assert_eq!(buf, [6, 7]);
    assert_eq!(curs.position(), 8);
    // Seeking past the end is allowed; before the start is not.
    assert_eq!(curs.seek(SeekFrom::End(5)).unwrap(), 15);
    assert_eq!(curs.seek(SeekFrom::End(-11)), Err(IoError::InvalidInput));
}

#[test]
fn size_cursor_fails_distinguishably_without_a_size() {
    // An unbounded slice reports no size, so seeking from the end cannot
    // work and says so.
    let data: Vec<u8> = vec![1, 2, 3];
    let sizeless = Slice::new(&data, 0, None);
    let mut curs = SizeCursor::new(sizeless);
    assert_eq!(curs.seek(SeekFrom::End(-1)), Err(IoError::InvalidData));
    // The other seek variants still work.
    assert_eq!(curs.seek(SeekFrom::Start(2)).unwrap(), 2);
    assert_eq!(curs.seek(SeekFrom::Current(-1)).unwrap(), 1);
}

#[test]
fn size_cursor_writes_and_accessors() {
    let mut v: Vec<u8> = vec![0; 3];
    {
        let mut curs = SizeCursor::new_pos(&mut v, 1);
        assert_eq!(curs.write(&[8, 9]).unwrap(), 2);
        assert_eq!(curs.position(), 3);
        curs.set_position(0);
        assert_eq!(curs.as_cursor().position(), 0);
        curs.as_cursor_mut().set_position(2);
        assert_eq!(curs.position(), 2);
        assert_eq!(curs.get_ref().len(), 3);
        curs.get_mut().push(7);
        curs.flush().unwrap();
    }
    assert_eq!(v, vec![0, 8, 9, 7]);

    let data: Vec<u8> = vec![1, 2];
    let curs = SizeCursor::new(&data);
    let inner = curs.into_cursor();
    assert_eq!(inner.position(), 0);
    let curs = SizeCursor::new(&data);
    assert_eq!(*curs.into_inner(), vec![1, 2]);
}

#[test]
fn cursor_seek_extremes() {
    let data: Vec<u8> = vec![0];
    let mut curs = Cursor::new_pos(&data, u64::MAX);
    // Forward past the address range is rejected.
    assert_eq!(curs.seek(SeekFrom::Current(1)), Err(IoError::InvalidInput));
    assert_eq!(curs.position(), u64::MAX);
    // The largest negative delta is handled exactly.
    curs.set_position(1u64 << 63);
    assert_eq!(curs.seek(SeekFrom::Current(i64::MIN)).unwrap(), 0);
    assert_eq!(curs.seek(SeekFrom::Current(-1)), Err(IoError::InvalidInput));
}
