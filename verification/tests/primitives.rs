use gimli::endianity::BigEndian;
use gimli::endianity::EndianBuf;
use gimli::endianity::LittleEndian;
use gimli::parser::parse_address;
use gimli::parser::parse_i16;
use gimli::parser::parse_i32;
use gimli::parser::parse_i64;
use gimli::parser::parse_i8;
use gimli::parser::parse_length_uleb_value;
use gimli::parser::parse_null_terminated_string;
use gimli::parser::parse_u16;
use gimli::parser::parse_u32;
use gimli::parser::parse_u64;
use gimli::parser::parse_u8;
use gimli::parser::parse_word;
use gimli::parser::take;
use gimli::parser::Error;
use gimli::parser::Format;

#[test]
fn test_parse_u8_and_i8() {
    let buf = [0xf0, 0x02];
    let (rest, v) = parse_u8(&buf).unwrap();
    assert_eq!(v, 0xf0);
    assert_eq!(rest, &[0x02]);

    let (rest, v) = parse_i8(&buf).unwrap();
    assert_eq!(v, -16);
    assert_eq!(rest, &[0x02]);

    assert_eq!(parse_u8(&[]), Err(Error::UnexpectedEof));
    assert_eq!(parse_i8(&[]), Err(Error::UnexpectedEof));
}

#[test]
fn test_parse_u16_both_orders() {
    let buf = [0x12, 0x34, 0x99];
    let (rest, v) = parse_u16(EndianBuf::<LittleEndian>::new(&buf)).unwrap();
    assert_eq!(v, 0x3412);
    assert_eq!(rest.len(), 1);

    let (_, v) = parse_u16(EndianBuf::<BigEndian>::new(&buf)).unwrap();
    assert_eq!(v, 0x1234);
}

#[test]
fn test_parse_u32_and_u64() {
    let buf = [0x01, 0x02, 0x03, 0x04, 0x05, 0x06, 0x07, 0x08];
    let (_, v) = parse_u32(EndianBuf::<LittleEndian>::new(&buf)).unwrap();
    assert_eq!(v, 0x04030201);
    let (_, v) = parse_u32(EndianBuf::<BigEndian>::new(&buf)).unwrap();
    assert_eq!(v, 0x01020304);
    let (_, v) = parse_u64(EndianBuf::<LittleEndian>::new(&buf)).unwrap();
    assert_eq!(v, 0x0807060504030201);
    let (_, v) = parse_u64(EndianBuf::<BigEndian>::new(&buf)).unwrap();
    assert_eq!(v, 0x0102030405060708);
}

#[test]
fn test_parse_signed_fixed_widths() {
    let buf = [0xff, 0xff, 0xff, 0xff, 0xff, 0xff, 0xff, 0x7f];
    let (_, v) = parse_i16(EndianBuf::<LittleEndian>::new(&buf)).unwrap();
    assert_eq!(v, -1);
    let (_, v) = parse_i32(EndianBuf::<LittleEndian>::new(&buf)).unwrap();
    assert_eq!(v, -1);
    let (_, v) = parse_i64(EndianBuf::<LittleEndian>::new(&buf)).unwrap();
    assert_eq!(v, i64::MAX);

    let buf = [0x80, 0x00];
    let (_, v) = parse_i16(EndianBuf::<BigEndian>::new(&buf)).unwrap();
    assert_eq!(v, i16::MIN);
}

#[test]
fn test_parse_fixed_width_eof() {
    // Any buffer shorter than the requested width fails with end-of-input.
    let buf = [0x01, 0x02, 0x03, 0x04, 0x05, 0x06, 0x07];
    assert!(matches!(
        parse_u16(EndianBuf::<LittleEndian>::new(&buf[..1])),
        Err(Error::UnexpectedEof)
    ));
    assert!(matches!(
        parse_i16(EndianBuf::<LittleEndian>::new(&buf[..1])),
        Err(Error::UnexpectedEof)
    ));
    assert!(matches!(
        parse_u32(EndianBuf::<LittleEndian>::new(&buf[..3])),
        Err(Error::UnexpectedEof)
    ));
    assert!(matches!(
        parse_i32(EndianBuf::<LittleEndian>::new(&buf[..3])),
        Err(Error::UnexpectedEof)
    ));
    assert!(matches!(
        parse_u64(EndianBuf::<LittleEndian>::new(&buf)),
        Err(Error::UnexpectedEof)
    ));
    assert!(matches!(
        parse_i64(EndianBuf::<LittleEndian>::new(&buf)),
        Err(Error::UnexpectedEof)
    ));
}

#[test]
fn test_parse_address_sizes() {
    let buf = [0x01, 0x02, 0x03, 0x04, 0x05, 0x06, 0x07, 0x08];
    let input = EndianBuf::<LittleEndian>::new(&buf);
    let (_, v) = parse_address(input, 1).unwrap();
    assert_eq!(v, 0x01);
    let (_, v) = parse_address(input, 2).unwrap();
    assert_eq!(v, 0x0201);
    let (_, v) = parse_address(input, 4).unwrap();
    assert_eq!(v, 0x04030201);
    let (_, v) = parse_address(input, 8).unwrap();
    assert_eq!(v, 0x0807060504030201);

    assert_eq!(
        parse_address(input, 3),
        Err(Error::UnsupportedAddressSize(3))
    );
    assert_eq!(
        parse_address(EndianBuf::<LittleEndian>::new(&buf[..3]), 4),
        Err(Error::UnexpectedEof)
    );
}

#[test]
fn test_parse_null_terminated_string_ok() {
    let buf = [b'h', b'i', 0, b'x', b'y'];
    let (rest, s) = parse_null_terminated_string(&buf).unwrap();
    assert_eq!(s, b"hi");
    assert_eq!(rest, &[b'x', b'y']);
}

#[test]
fn test_parse_null_terminated_string_no_terminator() {
    let buf = [b'h', b'i'];
    assert_eq!(
        parse_null_terminated_string(&buf),
        Err(Error::UnexpectedEof)
    );
}

#[test]
fn test_parse_null_terminated_string_empty() {
    let buf = [0u8, 7];
    let (rest, s) = parse_null_terminated_string(&buf).unwrap();
    assert_eq!(s, b"");
    assert_eq!(rest, &[7]);
}

#[test]
fn test_take_ok_and_eof() {
    let buf = [1, 2, 3, 4, 5];
    let input = EndianBuf::<LittleEndian>::new(&buf);
    let (rest, taken) = take(2, input).unwrap();
    assert_eq!(taken, EndianBuf::new(&[1, 2]));
    assert_eq!(rest, EndianBuf::new(&[3, 4, 5]));

    assert!(matches!(take(6, input), Err(Error::UnexpectedEof)));
}

#[test]
fn test_parse_length_uleb_value_ok() {
    let buf = [0x03, 0xaa, 0xbb, 0xcc, 0xdd];
    let input = EndianBuf::<LittleEndian>::new(&buf);
    let (rest, block) = parse_length_uleb_value(input).unwrap();
    assert_eq!(block, EndianBuf::new(&[0xaa, 0xbb, 0xcc]));
    assert_eq!(rest, EndianBuf::new(&[0xdd]));
}

#[test]
fn test_parse_length_uleb_value_eof() {
    let buf = [0x03, 0xaa];
    let input = EndianBuf::<LittleEndian>::new(&buf);
    assert!(matches!(
        parse_length_uleb_value(input),
        Err(Error::UnexpectedEof)
    ));
}

#[test]
fn test_repeated_decode_consumes_whole_buffer() {
    // A buffer that is an exact concatenation of known values is consumed
    // completely by re-parsing each returned remainder in turn, and no
    // already-consumed byte is ever read again.
    let buf = [
        0x2a, // u8
        0x34, 0x12, // u16 le
        0x78, 0x56, 0x34, 0x12, // u32 le
        0xe5, 0x8e, 0x26, // uleb128 of 624485
        b'o', b'k', 0, // null-terminated string
        0x11, 0x22, // a final u16, little-endian
    ];
    let input = EndianBuf::<LittleEndian>::new(&buf);

    let (rest, v) = parse_u8(input.into_slice()).unwrap();
    assert_eq!(v, 0x2a);
    let rest = EndianBuf::<LittleEndian>::new(rest);
    let (rest, v) = parse_u16(rest).unwrap();
    assert_eq!(v, 0x1234);
    let (rest, v) = parse_u32(rest).unwrap();
    assert_eq!(v, 0x12345678);
    let (rest, v) = gimli::parser::parse_unsigned_lebe(rest).unwrap();
    assert_eq!(v, 624485);
    let (rest, s) = parse_null_terminated_string(rest.into_slice()).unwrap();
    assert_eq!(s, b"ok");
    let rest = EndianBuf::<LittleEndian>::new(rest);
    let (rest, v) = parse_u16(rest).unwrap();
    assert_eq!(v, 0x2211);
    assert_eq!(rest.len(), 0);
}

#[test]
fn test_parse_word_formats() {
    let buf = [0x01, 0x02, 0x03, 0x04, 0x05, 0x06, 0x07, 0x08, 0x09];
    let input = EndianBuf::<LittleEndian>::new(&buf);
    let (rest, v) = parse_word(input, Format::Dwarf32).unwrap();
    assert_eq!(v, 0x04030201);
    assert_eq!(rest.len(), 5);
    let (rest, v) = parse_word(input, Format::Dwarf64).unwrap();
    assert_eq!(v, 0x0807060504030201);
    assert_eq!(rest.len(), 1);
}
