use positioned_io::{IoError, ReadAt, Size, WriteAt};

#[test]
fn test_vector() {
    // Write past the end.
    let mut v = vec![0, 1, 2, 3];
    let buf = [4, 5, 6, 7];
    (&mut v).write_all_at(2, &buf).unwrap();
    assert_eq!(vec![0, 1, 4, 5, 6, 7], v);
}

#[test]
fn vec_write_all_at_scenario() {
    // A growable buffer takes the whole write, extending as needed.
    let mut v: Vec<u8> = vec![0, 1, 2, 3];
    v.write_all_at(2, &[4, 5, 6, 7]).unwrap();
    assert_eq!(v, vec![0, 1, 4, 5, 6, 7]);
}

#[test]
fn vec_auto_extension_zero_fills_gap() {
    let mut v: Vec<u8> = vec![1, 2];
    v.write_all_at(5, &[7, 8]).unwrap();
    assert_eq!(v, vec![1, 2, 0, 0, 0, 7, 8]);
}

#[test]
fn vec_read_clamps_at_end() {
    let v: Vec<u8> = vec![10, 11, 12, 13];
    let mut buf = [9u8; 3];
    assert_eq!(v.read_at(2, &mut buf).unwrap(), 2);
    assert_eq!(buf, [12, 13, 9]);
    assert_eq!(v.read_at(4, &mut buf).unwrap(), 0);
    assert_eq!(v.read_at(100, &mut buf).unwrap(), 0);
}

#[test]
fn vec_exact_fill_round_trip() {
    let mut v: Vec<u8> = vec![0; 4];
    v.write_all_at(3, &[5, 6, 7, 8, 9]).unwrap();
    let mut back = [0u8; 5];
    v.read_exact_at(3, &mut back).unwrap();
    assert_eq!(back, [5, 6, 7, 8, 9]);
}

#[test]
fn read_exact_at_reports_end_of_data() {
    let v: Vec<u8> = vec![1, 2, 3, 4];
    let mut buf = [0u8; 4];
    assert_eq!(v.read_exact_at(2, &mut buf), Err(IoError::UnexpectedEof));
    // An empty buffer succeeds anywhere.
    let mut empty = [0u8; 0];
    assert_eq!(v.read_exact_at(100, &mut empty), Ok(()));
}

#[test]
fn fixed_slice_read_and_write() {
    let a = [0u8, 1, 2, 3];
    let mut buf = [9u8; 3];
    assert_eq!(a.as_ref().read_at(1, &mut buf).unwrap(), 3);
    assert_eq!(buf, [1, 2, 3]);

    let mut b = [0u8, 1, 2, 3];
    assert_eq!(b.as_mut().write_at(2, &[7, 8, 9]).unwrap(), 2);
    assert_eq!(b, [0, 1, 7, 8]);
    // At or past the end nothing is written.
    assert_eq!(b.as_mut().write_at(4, &[5]).unwrap(), 0);
    assert_eq!(b, [0, 1, 7, 8]);
}

#[test]
fn fixed_slice_write_all_stops_at_capacity() {
    // Running out of room on a fixed-capacity backend is not an error:
    // the write silently stops.
    let mut b = [0u8, 1, 2, 3];
    b.as_mut().write_all_at(2, &[9, 9, 9, 9]).unwrap();
    assert_eq!(b, [0, 1, 9, 9]);
}

#[test]
fn sizes_of_memory_backends() {
    let v: Vec<u8> = vec![1, 2, 3];
    assert_eq!(v.size().unwrap(), Some(3));
    let a = [0u8; 7];
    assert_eq!(a.as_ref().size().unwrap(), Some(7));
    let mut b = [0u8; 2];
    assert_eq!(b.as_mut().size().unwrap(), Some(2));
}

#[test]
fn flush_is_a_no_op_in_memory() {
    let mut v: Vec<u8> = vec![1, 2, 3];
    v.flush().unwrap();
    assert_eq!(v, vec![1, 2, 3]);
}

#[test]
fn forwarding_through_refs_and_box() {
    let v: Vec<u8> = vec![1, 2, 3, 4];
    let r = &v;
    let mut buf = [0u8; 2];
    assert_eq!(r.read_at(1, &mut buf).unwrap(), 2);
    assert_eq!(buf, [2, 3]);
    assert_eq!(r.size().unwrap(), Some(4));

    let mut w: Vec<u8> = vec![1, 2, 3, 4];
    {
        let m = &mut w;
        m.write_at(0, &[9]).unwrap();
    }
    assert_eq!(w, vec![9, 2, 3, 4]);

    let mut boxed: Box<Vec<u8>> = Box::new(vec![5, 6, 7]);
    assert_eq!(boxed.read_at(0, &mut buf).unwrap(), 2);
    assert_eq!(buf, [5, 6]);
    boxed.write_at(0, &[1]).unwrap();
    assert_eq!(*boxed, vec![1, 6, 7]);
    assert_eq!(boxed.size().unwrap(), Some(3));
}

#[test]
fn shared_handle_readers() {
    // One backend, several read-only holders.
    let shared = std::sync::Arc::new(vec![1u8, 2, 3, 4]);
    let a = shared.clone();
    let b = shared.clone();
    let mut buf = [0u8; 2];
    assert_eq!(a.read_at(0, &mut buf).unwrap(), 2);
    assert_eq!(buf, [1, 2]);
    assert_eq!(b.read_at(2, &mut buf).unwrap(), 2);
    assert_eq!(buf, [3, 4]);
    assert_eq!(a.size().unwrap(), Some(4));
}
