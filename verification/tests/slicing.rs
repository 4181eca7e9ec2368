use positioned_io::{IoError, ReadAt, Size, Slice, WriteAt};

#[test]
fn test_slice() {
    let mut v = vec![0, 1, 2, 3, 4, 5];
    {
        // Read too much, limited by size.
        let mut buf = [9; 4];
        let slice = Slice::new(&mut v, 2, Some(3));
        let bytes = slice.read_at(2, &mut buf).unwrap();
        assert_eq!(bytes, 1);
        assert_eq!(buf, [4, 9, 9, 9]);

        // Read too much, limited by buf
        let mut buf = [9; 2];
        let bytes = slice.read_at(1, &mut buf).unwrap();
        assert_eq!(bytes, 2);
        assert_eq!(buf, [3, 4]);
    }

    {
        // Read too much, limited by original vec.
        let slice = Slice::new(&mut v, 2, Some(5));
        let mut buf = [9; 6];
        let bytes = slice.read_at(2, &mut buf).unwrap();
        assert_eq!(bytes, 2);
        assert_eq!(buf, [4, 5, 9, 9, 9, 9]);
    }

    {
        // Read too much of unsized slice.
        let slice = Slice::new(&mut v, 2, None);
        let mut buf = [9; 6];
        let bytes = slice.read_at(2, &mut buf).unwrap();
        assert_eq!(bytes, 2);
        assert_eq!(buf, [4, 5, 9, 9, 9, 9]);
    }

    // Interleaved read/write to same slice.
    let mut v = vec![0, 1, 2, 3, 4, 5];
    {
        let mut slice = Slice::new(&mut v, 2, Some(3));
        let mut buf = [9; 3];
        {
            let bytes = slice.write_at(2, &buf).unwrap();
            assert_eq!(bytes, 1);
        }
        {
            let bytes = slice.read_at(1, &mut buf).unwrap();
            assert_eq!(bytes, 2);
        }
        assert_eq!(buf, [3, 9, 9]);
        {
            let bytes = slice.write_at(0, &buf[..1]).unwrap();
            assert_eq!(bytes, 1);
        }
    }
    assert_eq!(v, vec![0, 1, 3, 3, 9, 5]);

    // Write past end.
    let mut v = vec![0, 1, 2, 3];
    let buf = [9; 6];
    // Limited by size.
    {
        let mut slice = Slice::new(&mut v, 2, Some(5));
        let bytes = slice.write_at(1, &buf).unwrap();
        assert_eq!(bytes, 4);
    }
    assert_eq!(v, vec![0, 1, 2, 9, 9, 9, 9]);
    // No size.
    {
        let mut slice = Slice::new(&mut v, 2, None);
        let bytes = slice.write_at(1, &buf).unwrap();
        assert_eq!(bytes, 6);
    }
    assert_eq!(v, vec![0, 1, 2, 9, 9, 9, 9, 9, 9]);

    // Automatic-size constructor.
    let mut v = vec![0, 1, 2, 3];
    {
        let mut slice = Slice::new_to_end(&mut v, 1).unwrap();
        assert_eq!(slice.size().unwrap().unwrap(), 3);
        let bytes = slice.write_at(0, &buf).unwrap();
        assert_eq!(bytes, 3);
    }
    assert_eq!(v, vec![0, 9, 9, 9]);

    // Slice of slice.
    let mut v = vec![0, 1, 2, 3, 4, 5];
    {
        let mut slice1 = Slice::new(&mut v, 1, Some(4));
        let mut slice2 = Slice::new(&mut slice1, 1, Some(2));
        let bytes = slice2.write_at(0, &buf).unwrap();
        assert_eq!(bytes, 2);
    }
    assert_eq!(v, vec![0, 1, 9, 9, 4, 5]);
}

#[test]
fn bounded_slice_scenario() {
    // A window of four bytes starting at offset four: reading four bytes
    // at window position two returns the two that remain and leaves the
    // caller's tail untouched.
    let a = [0u8, 1, 2, 3, 4, 5, 6, 7, 8, 9];
    let slice = Slice::new(&a[..], 4, Some(4));
    let mut buf = [0u8; 4];
    let bytes = slice.read_at(2, &mut buf).unwrap();
    assert_eq!(bytes, 2);
    assert_eq!(buf, [6, 7, 0, 0]);
}

#[test]
fn unbounded_slice_passes_reads_through() {
    let a = [0u8, 1, 2, 3, 4, 5];
    let slice = Slice::new(&a[..], 2, None);
    let mut buf = [9u8; 3];
    assert_eq!(slice.read_at(1, &mut buf).unwrap(), 3);
    assert_eq!(buf, [3, 4, 5]);
}

#[test]
fn unbounded_slice_write_extends_backend() {
    let mut v = vec![0, 1, 2, 3, 4, 5];
    {
        let mut slice = Slice::new(&mut v, 2, None);
        slice.write_all_at(3, &[9, 9, 9]).unwrap();
    }
    // The write goes right past the end.
    assert_eq!(v, vec![0, 1, 2, 3, 4, 9, 9, 9]);
}

#[test]
fn slice_reports_configured_size() {
    let v: Vec<u8> = vec![1, 2, 3, 4];
    let bounded = Slice::new(&v, 1, Some(2));
    assert_eq!(bounded.size().unwrap(), Some(2));
    let unbounded = Slice::new(&v, 1, None);
    assert_eq!(unbounded.size().unwrap(), None);
}

#[test]
fn new_to_end_needs_a_known_size() {
    let v: Vec<u8> = vec![1, 2, 3, 4];
    // A sizeless backend: an unbounded slice reports None.
    let sizeless = Slice::new(&v, 0, None);
    match Slice::new_to_end(sizeless, 1) {
        Err(IoError::InvalidData) => {},
        _ => panic!("expected an unknown-size error"),
    }
}

#[test]
fn slice_reads_nothing_past_its_cap() {
    let a = [1u8, 2, 3, 4, 5, 6];
    let slice = Slice::new(&a[..], 1, Some(3));
    let mut buf = [7u8; 4];
    assert_eq!(slice.read_at(3, &mut buf).unwrap(), 0);
    assert_eq!(slice.read_at(100, &mut buf).unwrap(), 0);
    assert_eq!(buf, [7, 7, 7, 7]);
}

#[test]
fn bounded_slice_writes_clamp_like_reads() {
    // Writing is bounded identically to reading: a window over a fixed
    // backend takes only what is left under its cap, and nothing at or
    // past it.
    let mut a = [0u8; 6];
    {
        let mut sl = Slice::new(a.as_mut(), 1, Some(4));
        assert_eq!(sl.write_at(3, &[7, 7, 7]).unwrap(), 1);
        assert_eq!(sl.write_at(4, &[7]).unwrap(), 0);
    }
    assert_eq!(a, [0, 0, 0, 0, 7, 0]);

    // The backend's own end clamps too when it comes first.
    let mut b = [0u8; 4];
    {
        let mut sl = Slice::new(b.as_mut(), 2, Some(5));
        assert_eq!(sl.write_at(1, &[9, 9, 9, 9]).unwrap(), 1);
    }
    assert_eq!(b, [0, 0, 0, 9]);
}
