use gimli::endianity::EndianBuf;
use gimli::endianity::LittleEndian;
use gimli::parser::parse_address_size;
use gimli::parser::parse_offset;
use gimli::parser::u64_to_offset;
use gimli::parser::u64_to_u8;
use gimli::parser::Error;
use gimli::parser::Format;

#[test]
fn test_parse_offset_32() {
    let buf = [0x67, 0x45, 0x23, 0x01];

    match parse_offset(EndianBuf::<LittleEndian>::new(&buf), Format::Dwarf32) {
        Ok((rest, val)) => {
            assert_eq!(rest.len(), 0);
            assert_eq!(val, 0x01234567);
        }
        otherwise => panic!("Unexpected result: {:?}", otherwise),
    };
}

#[test]
fn test_parse_offset_64_small() {
    let buf = [0x67, 0x45, 0x23, 0x01, 0x00, 0x00, 0x00, 0x00];

    match parse_offset(EndianBuf::<LittleEndian>::new(&buf), Format::Dwarf64) {
        Ok((rest, val)) => {
            assert_eq!(rest.len(), 0);
            assert_eq!(val, 0x01234567);
        }
        otherwise => panic!("Unexpected result: {:?}", otherwise),
    };
}

#[test]
fn test_parse_offset_64_large() {
    let buf = [0xef, 0xcd, 0xab, 0x89, 0x67, 0x45, 0x23, 0x01];

    match parse_offset(EndianBuf::<LittleEndian>::new(&buf), Format::Dwarf64) {
        Ok((rest, val)) => {
            assert_eq!(rest.len(), 0);
            assert_eq!(val, 0x0123456789abcdef);
        }
        otherwise => panic!("Unexpected result: {:?}", otherwise),
    };
}

#[test]
fn test_parse_offset_eof() {
    let buf = [0x67, 0x45, 0x23];

    match parse_offset(EndianBuf::<LittleEndian>::new(&buf), Format::Dwarf32) {
        Err(Error::UnexpectedEof) => assert!(true),
        otherwise => panic!("Unexpected result: {:?}", otherwise),
    };
}

#[test]
fn test_parse_address_size_ok() {
    let buf = [0x04];

    match parse_address_size(EndianBuf::<LittleEndian>::new(&buf)) {
        Ok((_, val)) => assert_eq!(val, 4),
        otherwise => panic!("Unexpected result: {:?}", otherwise),
    };
}

#[test]
fn test_u64_to_offset_ok() {
    assert_eq!(u64_to_offset(0), Ok(0));
    assert_eq!(u64_to_offset(0x0123456789abcdef), Ok(0x0123456789abcdef));
}

#[test]
fn test_u64_to_u8_ok_and_too_large() {
    assert_eq!(u64_to_u8(0), Ok(0));
    assert_eq!(u64_to_u8(0xff), Ok(0xff));
    assert_eq!(u64_to_u8(0x100), Err(Error::CannotFitInU8));
    assert_eq!(u64_to_u8(u64::MAX), Err(Error::CannotFitInU8));
}
