use allsorts::binary::{
    get_i16_be, get_i32_be, get_i8, get_u16_be, get_u32_be, get_u8, F2Dot14, Fixed, ReadArray,
    ReadCtxt, ReadFrom, ReadScope, WriteBuffer,
};
use allsorts::error::ParseError;

#[test]
fn typed_reads_advance_by_their_size() {
    let data = [0x01, 0xFF, 0x12, 0x34, 0xFF, 0xFE, 0x01, 0x02, 0x03, 0x04, 0x80, 0x00, 0x00, 0x00];
    let mut ctxt = ReadScope::new(&data).ctxt();
    assert_eq!(ctxt.read_u8(), Ok(1));
    assert_eq!(ctxt.offset(), 1);
    assert_eq!(ctxt.read_i8(), Ok(-1));
    assert_eq!(ctxt.read_u16be(), Ok(0x1234));
    assert_eq!(ctxt.read_i16be(), Ok(-2));
    assert_eq!(ctxt.offset(), 6);
    assert_eq!(ctxt.read_u32be(), Ok(0x0102_0304));
    assert_eq!(ctxt.read_i32be(), Ok(i32::MIN));
    assert_eq!(ctxt.offset(), 14);
    assert!(!ctxt.bytes_available());
    assert_eq!(ctxt.remaining(), 0);
}

#[test]
fn failed_reads_leave_the_cursor() {
    let data = [0xAA, 0xBB, 0xCC];
    let mut ctxt = ReadScope::new(&data).ctxt();
    assert_eq!(ctxt.read_u32be(), Err(ParseError::BadEof));
    assert_eq!(ctxt.read_i32be(), Err(ParseError::BadEof));
    assert_eq!(ctxt.read_slice(4).err(), Some(ParseError::BadEof));
    assert_eq!(ctxt.read_array::<u16>(2).err(), Some(ParseError::BadEof));
    assert_eq!(ctxt.read_array::<u32>(usize::MAX).err(), Some(ParseError::BadEof));
    assert_eq!(ctxt.skip(4), Err(ParseError::BadEof));
    assert_eq!(ctxt.offset(), 0);
    assert_eq!(ctxt.read_u16be(), Ok(0xAABB));
    assert_eq!(ctxt.read_u16be(), Err(ParseError::BadEof));
    assert_eq!(ctxt.read_i16be(), Err(ParseError::BadEof));
    assert_eq!(ctxt.offset(), 2);
    assert!(ctxt.bytes_available());
    assert_eq!(ctxt.skip(1), Ok(()));
    assert_eq!(ctxt.read_u8(), Err(ParseError::BadEof));
    assert_eq!(ctxt.read_i8(), Err(ParseError::BadEof));
    assert_eq!(ctxt.read_slice(0).unwrap(), &[] as &[u8]);
}

#[test]
fn fixed_point_reads() {
    let data = [0x40, 0x00, 0xC0, 0x00, 0x00, 0x01, 0x80, 0x00];
    let mut ctxt = ReadScope::new(&data).ctxt();
    assert_eq!(ctxt.read::<F2Dot14>(), Ok(F2Dot14(0x4000)));
    assert_eq!(ctxt.read::<F2Dot14>(), Ok(F2Dot14(-0x4000)));
    assert_eq!(ctxt.read::<Fixed>(), Ok(Fixed(0x0001_8000)));
    assert_eq!(ctxt.read::<u8>(), Err(ParseError::BadEof));
    assert_eq!(Fixed::from_raw(-5).raw_value(), -5);
    assert_eq!(F2Dot14::from_raw(7).raw_value(), 7);
    assert_eq!(<u32 as ReadFrom>::byte_size(), 4);
    assert_eq!(<i8 as ReadFrom>::read_at(&[0, 0x80], 1), -128);
}

#[test]
fn slices_and_arrays() {
    let data = [0x00, 0x01, 0x00, 0x02, 0xFF, 0xFF, 0x09];
    let mut ctxt = ReadScope::new(&data).ctxt();
    let array = ctxt.read_array::<u16>(3).unwrap();
    assert_eq!(ctxt.offset(), 6);
    assert_eq!(array.len(), 3);
    assert!(!array.is_empty());
    assert_eq!(array.to_vec(), vec![1, 2, 0xFFFF]);
    assert_eq!(array.get_item(1), 2);
    assert_eq!(array.read_item(2), Ok(0xFFFF));
    assert_eq!(array.read_item(3), Err(ParseError::BadIndex));
    let copy = array;
    assert_eq!(copy.clone().to_vec(), array.to_vec());
    assert_eq!(ctxt.read_slice(1).unwrap(), &[0x09]);

    let signed: ReadArray<'_, i16> = ReadArray::new(&data[..6]).unwrap();
    assert_eq!(signed.to_vec(), vec![1, 2, -1]);
    assert_eq!(ReadArray::<'_, i16>::new(&data).err(), Some(ParseError::BadValue));
    assert!(ReadArray::<'_, i32>::empty().is_empty());
    let empty = ctxt.read_array::<u32>(0).unwrap();
    assert_eq!(empty.len(), 0);
}

#[test]
fn scopes() {
    let data = [1, 2, 3, 4, 5];
    let scope = ReadScope::new(&data);
    assert_eq!(scope.data(), &data);
    assert_eq!(scope.offset(2).data(), &[3, 4, 5]);
    assert_eq!(scope.offset(5).data(), &[] as &[u8]);
    assert_eq!(scope.offset(6).data(), &[] as &[u8]);
    assert_eq!(scope.offset_length(1, 3).unwrap().data(), &[2, 3, 4]);
    assert_eq!(scope.offset_length(1, 4).unwrap().data(), &[2, 3, 4, 5]);
    assert_eq!(scope.offset_length(1, 5).err(), Some(ParseError::BadEof));
    assert_eq!(scope.offset_length(6, 0).err(), Some(ParseError::BadEof));
    assert_eq!(scope.offset_length(usize::MAX, 2).err(), Some(ParseError::BadEof));

    // A sub-scope has a cursor of its own.
    let mut ctxt = scope.ctxt();
    ctxt.read_u16be().unwrap();
    let rest = ctxt.scope();
    assert_eq!(rest.data(), &[3, 4, 5]);
    let mut inner = rest.offset(1).ctxt();
    assert_eq!(inner.read_u8(), Ok(4));
    assert_eq!(ctxt.offset(), 2);
    assert_eq!(ctxt.read_u8(), Ok(3));
}

#[test]
fn checks() {
    let ctxt: ReadCtxt<'_> = ReadScope::new(&[]).ctxt();
    assert_eq!(ctxt.check(true), Ok(()));
    assert_eq!(ctxt.check(false), Err(ParseError::BadValue));
    assert_eq!(ctxt.check_version(true), Ok(()));
    assert_eq!(ctxt.check_version(false), Err(ParseError::BadVersion));
}

#[test]
fn big_endian_getters() {
    let data = [0x80, 0x01, 0xFF, 0xFF, 0xFF, 0xFE];
    assert_eq!(get_u8(&data, 0), 0x80);
    assert_eq!(get_i8(&data, 0), -128);
    assert_eq!(get_u16_be(&data, 0), 0x8001);
    assert_eq!(get_i16_be(&data, 0), -32767);
    assert_eq!(get_u32_be(&data, 2), 0xFFFF_FFFE);
    assert_eq!(get_i32_be(&data, 2), -2);
    assert_eq!(get_i32_be(&data, 0), i32::from_be_bytes([0x80, 0x01, 0xFF, 0xFF]));
}

#[test]
fn writes_are_big_endian() {
    let mut out = WriteBuffer::new();
    out.write_u8(0xAB);
    out.write_u16be(0x0102);
    out.write_i16be(-2);
    out.write_u32be(0xDEAD_BEEF);
    out.write_i32be(i32::MIN);
    out.write_i32be(-1);
    out.write_bytes(&[9, 8]);
    assert_eq!(out.bytes_written(), 19);
    assert_eq!(
        out.bytes(),
        &[
            0xAB, 0x01, 0x02, 0xFF, 0xFE, 0xDE, 0xAD, 0xBE, 0xEF, 0x80, 0x00, 0x00, 0x00, 0xFF, 0xFF,
            0xFF, 0xFF, 0x09, 0x08
        ]
    );
}

#[test]
fn what_is_written_reads_back() {
    for v in [0u16, 1, 0x00FF, 0x0100, 0x7FFF, 0x8000, 0xFFFF] {
        let mut out = WriteBuffer::new();
        out.write_u16be(v);
        out.write_i16be(v as i16);
        let bytes = out.into_inner();
        assert_eq!(bytes[..2], v.to_be_bytes());
        let mut ctxt = ReadScope::new(&bytes).ctxt();
        assert_eq!(ctxt.read_u16be(), Ok(v));
        assert_eq!(ctxt.read_i16be(), Ok(v as i16));
    }
    for v in [0u32, 1, 0xFF, 0x100, 0xFFFF, 0x1_0000, 0x7FFF_FFFF, 0x8000_0000, 0xFFFF_FFFF, 0x0102_0304] {
        let mut out = WriteBuffer::new();
        out.write_u32be(v);
        out.write_i32be(v as i32);
        let bytes = out.into_inner();
        assert_eq!(bytes[..4], v.to_be_bytes());
        let mut ctxt = ReadScope::new(&bytes).ctxt();
        assert_eq!(ctxt.read_u32be(), Ok(v));
        assert_eq!(ctxt.read_i32be(), Ok(v as i32));
    }
}
