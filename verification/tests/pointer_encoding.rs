use gimli::constants::DwEhPe;
use gimli::constants::DW_EH_PE_pcrel;
use gimli::constants::DW_EH_PE_sdata8;
use gimli::constants::DW_EH_PE_uleb128;
use gimli::endianity::EndianBuf;
use gimli::endianity::LittleEndian;
use gimli::parser::parse_pointer_encoding;
use gimli::parser::Error;

#[test]
fn test_parse_pointer_encoding_ok() {
    let expected = DwEhPe(DW_EH_PE_uleb128 | DW_EH_PE_pcrel);
    let input = [expected.0, 1, 2, 3, 4];
    let input = EndianBuf::<LittleEndian>::new(&input);
    assert_eq!(
        Ok((EndianBuf::new(&[1, 2, 3, 4]), expected)),
        parse_pointer_encoding(input)
    );
}

#[test]
fn test_parse_pointer_encoding_bad_encoding() {
    let expected = DwEhPe((DW_EH_PE_sdata8 + 1) | DW_EH_PE_pcrel);
    let input = [expected.0, 1, 2, 3, 4];
    let input = EndianBuf::<LittleEndian>::new(&input);
    assert_eq!(
        Err(Error::UnknownPointerEncoding),
        parse_pointer_encoding(input)
    );
}

#[test]
fn test_parse_pointer_encoding_all_bytes() {
    // The allow-list of the descriptor byte: every combination of a listed
    // value format and a listed application is accepted, with or without
    // the indirection bit; every other byte is rejected; 0xff is the omit
    // sentinel and is accepted.
    let formats = [0x00u8, 0x01, 0x02, 0x03, 0x04, 0x09, 0x0a, 0x0b, 0x0c];
    let applications = [0x00u8, 0x10, 0x20, 0x30, 0x40, 0x50];

    for byte in 0..=255u8 {
        let valid = byte == 0xff
            || (formats.contains(&(byte & 0x0f)) && applications.contains(&(byte & 0x70)));
        let input = [byte, 9, 9];
        let input = EndianBuf::<LittleEndian>::new(&input);
        let result = parse_pointer_encoding(input);
        if valid {
            assert_eq!(result, Ok((EndianBuf::new(&[9, 9]), DwEhPe(byte))));
        } else {
            assert_eq!(result, Err(Error::UnknownPointerEncoding));
        }
    }
}

#[test]
fn test_parse_pointer_encoding_eof() {
    let input: [u8; 0] = [];
    let input = EndianBuf::<LittleEndian>::new(&input);
    assert_eq!(Err(Error::UnexpectedEof), parse_pointer_encoding(input));
}
