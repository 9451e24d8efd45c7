use gimli::endianity::EndianBuf;
use gimli::endianity::LittleEndian;
use gimli::parser::parse_initial_length;
use gimli::parser::Error;
use gimli::parser::Format;

#[test]
fn test_parse_initial_length_32_ok() {
    // A 32-bit unit length of 0x78563412, little-endian.
    let buf = [0x12, 0x34, 0x56, 0x78];

    match parse_initial_length(EndianBuf::<LittleEndian>::new(&buf)) {
        Ok((rest, (length, format))) => {
            assert_eq!(rest.len(), 0);
            assert_eq!(format, Format::Dwarf32);
            assert_eq!(0x78563412, length);
        }
        otherwise => panic!("Unexpected result: {:?}", otherwise),
    }
}

#[test]
fn test_parse_initial_length_64_ok() {
    let buf = [
        // The 64-bit escape marker.
        0xff, 0xff, 0xff, 0xff,
        // The actual length, 0xffdebc9a78563412 little-endian.
        0x12, 0x34, 0x56, 0x78, 0x9a, 0xbc, 0xde, 0xff,
    ];

    match parse_initial_length(EndianBuf::<LittleEndian>::new(&buf)) {
        Ok((rest, (length, format))) => {
            assert_eq!(rest.len(), 0);
            assert_eq!(format, Format::Dwarf64);
            assert_eq!(0xffdebc9a78563412, length);
        }
        otherwise => panic!("Unexpected result: {:?}", otherwise),
    }
}

#[test]
fn test_parse_initial_length_unknown_reserved_value() {
    let buf = [0xfe, 0xff, 0xff, 0xff];

    match parse_initial_length(EndianBuf::<LittleEndian>::new(&buf)) {
        Err(Error::UnknownReservedLength) => assert!(true),
        otherwise => panic!("Unexpected result: {:?}", otherwise),
    };
}

#[test]
fn test_parse_initial_length_incomplete() {
    let buf = [0xff, 0xff, 0xff]; // Need at least 4 bytes.

    match parse_initial_length(EndianBuf::<LittleEndian>::new(&buf)) {
        Err(Error::UnexpectedEof) => assert!(true),
        otherwise => panic!("Unexpected result: {:?}", otherwise),
    };
}

#[test]
fn test_parse_initial_length_64_incomplete() {
    let buf = [
        // The 64-bit escape marker.
        0xff, 0xff, 0xff, 0xff,
        // The actual length is not long enough.
        0x12, 0x34, 0x56, 0x78,
    ];

    match parse_initial_length(EndianBuf::<LittleEndian>::new(&buf)) {
        Err(Error::UnexpectedEof) => assert!(true),
        otherwise => panic!("Unexpected result: {:?}", otherwise),
    };
}
