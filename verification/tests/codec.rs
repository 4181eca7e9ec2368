use positioned_io::{
    BigEndian, ByteIo, IoError, LittleEndian, ReadBytesAtExt, WriteBytesAtExt,
};

#[test]
fn read_signed_big_endian() {
    let buf = [0u8, 5, 254, 212, 0, 3];
    let n = buf.as_ref().read_i16_at::<BigEndian>(2).unwrap();
    assert_eq!(n, -300);
}

#[test]
fn write_unsigned_big_endian() {
    let mut buf = [0u8; 6];
    buf.as_mut().write_u16_at::<BigEndian>(2, 300).unwrap();
    assert_eq!(buf, [0, 0, 1, 44, 0, 0]);
}

#[test]
fn fixed_width_round_trips() {
    let mut v: Vec<u8> = vec![0; 32];
    v.write_u16_at::<LittleEndian>(0, 0xBEEF).unwrap();
    assert_eq!(v.read_u16_at::<LittleEndian>(0).unwrap(), 0xBEEF);
    v.write_u32_at::<BigEndian>(4, 0xDEADBEEF).unwrap();
    assert_eq!(v.read_u32_at::<BigEndian>(4).unwrap(), 0xDEADBEEF);
    v.write_u64_at::<LittleEndian>(8, 0x0123456789ABCDEF).unwrap();
    assert_eq!(v.read_u64_at::<LittleEndian>(8).unwrap(), 0x0123456789ABCDEF);
    v.write_i32_at::<BigEndian>(16, -123456).unwrap();
    assert_eq!(v.read_i32_at::<BigEndian>(16).unwrap(), -123456);
    v.write_i64_at::<LittleEndian>(20, i64::MIN).unwrap();
    assert_eq!(v.read_i64_at::<LittleEndian>(20).unwrap(), i64::MIN);
    v.write_i16_at::<BigEndian>(28, -2).unwrap();
    assert_eq!(v.read_i16_at::<BigEndian>(28).unwrap(), -2);
    v.write_u8_at(30, 0x7F).unwrap();
    assert_eq!(v.read_u8_at(30).unwrap(), 0x7F);
    v.write_i8_at(31, -5).unwrap();
    assert_eq!(v.read_i8_at(31).unwrap(), -5);
}

#[test]
fn explicit_byte_layouts() {
    let mut v: Vec<u8> = vec![0; 4];
    v.write_u32_at::<BigEndian>(0, 0x01020304).unwrap();
    assert_eq!(v, vec![1, 2, 3, 4]);
    v.write_u32_at::<LittleEndian>(0, 0x01020304).unwrap();
    assert_eq!(v, vec![4, 3, 2, 1]);
}

#[test]
fn variable_width_integers() {
    let mut v: Vec<u8> = vec![0; 8];
    v.write_uint_at::<BigEndian>(0, 0x010203, 3).unwrap();
    assert_eq!(&v[..3], &[1, 2, 3]);
    assert_eq!(v.read_uint_at::<BigEndian>(0, 3).unwrap(), 0x010203);
    assert_eq!(v.read_uint_at::<LittleEndian>(0, 3).unwrap(), 0x030201);

    v.write_int_at::<LittleEndian>(3, -2, 3).unwrap();
    assert_eq!(&v[3..6], &[254, 255, 255]);
    assert_eq!(v.read_int_at::<LittleEndian>(3, 3).unwrap(), -2);
    // The same bytes read unsigned show the two's complement form.
    assert_eq!(v.read_uint_at::<LittleEndian>(3, 3).unwrap(), 0xFFFFFE);
}

#[test]
fn codec_reads_fail_at_end_of_data() {
    let v: Vec<u8> = vec![1, 2, 3];
    assert_eq!(v.read_u32_at::<BigEndian>(0), Err(IoError::UnexpectedEof));
    assert_eq!(v.read_u16_at::<LittleEndian>(2), Err(IoError::UnexpectedEof));
    assert_eq!(v.read_u8_at(3), Err(IoError::UnexpectedEof));
}

#[test]
fn byte_io_fixes_the_byte_order() {
    let mut buf: Vec<u8> = vec![0; 8];
    {
        let mut io: ByteIo<_, BigEndian> = ByteIo::new(&mut buf);
        io.write_u16_at(0, 300).unwrap();
        io.write_u32_at(2, 1_000_000).unwrap();
        io.write_i16_at(6, -1).unwrap();
    }
    assert_eq!(buf, vec![1, 44, 0, 15, 66, 64, 255, 255]);

    let io: ByteIo<_, BigEndian> = ByteIo::new(&buf);
    assert_eq!(io.read_u16_at(0).unwrap(), 300);
    assert_eq!(io.read_u32_at(2).unwrap(), 1_000_000);
    assert_eq!(io.read_i16_at(6).unwrap(), -1);
    assert_eq!(io.read_uint_at(0, 2).unwrap(), 300);
    assert_eq!(io.read_int_at(6, 2).unwrap(), -1);
    assert_eq!(io.read_u8_at(1).unwrap(), 44);
    assert_eq!(io.read_i8_at(7).unwrap(), -1);
    assert_eq!(io.read_u64_at(0).unwrap(), 0x012C000F4240FFFF);
    assert_eq!(io.read_i64_at(0).unwrap(), 0x012C000F4240FFFFi64);
    assert_eq!(io.read_i32_at(4).unwrap(), 0x4240FFFF);
}

#[test]
fn byte_io_unwraps_to_its_backend() {
    let v: Vec<u8> = vec![1, 2, 3];
    let io: ByteIo<_, LittleEndian> = ByteIo::new(v);
    let v = io.into_inner();
    assert_eq!(v, vec![1, 2, 3]);
}
