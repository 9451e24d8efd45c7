use gimli::cfi::BaseAddresses;
use gimli::constants::DwEhPe;
use gimli::constants::DW_EH_PE_absptr;
use gimli::constants::DW_EH_PE_aligned;
use gimli::constants::DW_EH_PE_datarel;
use gimli::constants::DW_EH_PE_funcrel;
use gimli::constants::DW_EH_PE_indirect;
use gimli::constants::DW_EH_PE_omit;
use gimli::constants::DW_EH_PE_pcrel;
use gimli::constants::DW_EH_PE_sdata2;
use gimli::constants::DW_EH_PE_sdata4;
use gimli::constants::DW_EH_PE_sdata8;
use gimli::constants::DW_EH_PE_sleb128;
use gimli::constants::DW_EH_PE_textrel;
use gimli::constants::DW_EH_PE_udata2;
use gimli::constants::DW_EH_PE_udata4;
use gimli::constants::DW_EH_PE_udata8;
use gimli::constants::DW_EH_PE_uleb128;
use gimli::endianity::EndianBuf;
use gimli::endianity::LittleEndian;
use gimli::parser::parse_encoded_pointer;
use gimli::parser::Error;
use gimli::parser::Pointer;

fn write_uleb(mut value: u64, out: &mut Vec<u8>) {
    loop {
        let mut byte = (value & 0x7f) as u8;
        value >>= 7;
        if value != 0 {
            byte |= 0x80;
        }
        out.push(byte);
        if value == 0 {
            return;
        }
    }
}

fn write_sleb(mut value: i64, out: &mut Vec<u8>) {
    loop {
        let mut byte = (value & 0x7f) as u8;
        value >>= 7;
        let done = (value == 0 && byte & 0x40 == 0) || (value == -1 && byte & 0x40 != 0);
        if !done {
            byte |= 0x80;
        }
        out.push(byte);
        if done {
            return;
        }
    }
}

#[test]
fn test_parse_encoded_pointer_absptr() {
    let encoding = DwEhPe(DW_EH_PE_absptr);
    let bases = BaseAddresses::default();
    let address_size = 4;
    let expected_rest = [1, 2, 3, 4];

    let input = [0x0d, 0xf0, 0x0d, 0xf0, 1, 2, 3, 4];
    let input = EndianBuf::<LittleEndian>::new(&input);

    assert_eq!(
        parse_encoded_pointer(encoding, &bases, address_size, input, input),
        Ok((EndianBuf::new(&expected_rest), Pointer::Direct(0xf00df00d)))
    );
}

#[test]
fn test_parse_encoded_pointer_pcrel() {
    let encoding = DwEhPe(DW_EH_PE_pcrel);

    let bases = BaseAddresses::default().set_cfi(0x100);

    let address_size = 4;
    let expected_rest = [1, 2, 3, 4];

    let mut section = vec![0; 0x10];
    section.extend_from_slice(&[0x01, 0x00, 0x00, 0x00]);
    section.extend_from_slice(&expected_rest);
    let input = EndianBuf::<LittleEndian>::new(&section);

    assert_eq!(
        parse_encoded_pointer(encoding, &bases, address_size, input, input.range_from(0x10)),
        Ok((EndianBuf::new(&expected_rest), Pointer::Direct(0x111)))
    );
}

#[test]
fn test_parse_encoded_pointer_pcrel_undefined() {
    let encoding = DwEhPe(DW_EH_PE_pcrel);
    let bases = BaseAddresses::default();
    let address_size = 4;

    let input = [0x01, 0x00, 0x00, 0x00];
    let input = EndianBuf::<LittleEndian>::new(&input);

    assert_eq!(
        parse_encoded_pointer(encoding, &bases, address_size, input, input),
        Err(Error::CfiRelativePointerButCfiBaseIsUndefined)
    );
}

#[test]
fn test_parse_encoded_pointer_textrel() {
    let encoding = DwEhPe(DW_EH_PE_textrel);

    let bases = BaseAddresses::default().set_text(0x10);

    let address_size = 4;
    let expected_rest = [1, 2, 3, 4];

    let input = [0x01, 0x00, 0x00, 0x00, 1, 2, 3, 4];
    let input = EndianBuf::<LittleEndian>::new(&input);

    assert_eq!(
        parse_encoded_pointer(encoding, &bases, address_size, input, input),
        Ok((EndianBuf::new(&expected_rest), Pointer::Direct(0x11)))
    );
}

#[test]
fn test_parse_encoded_pointer_textrel_undefined() {
    let encoding = DwEhPe(DW_EH_PE_textrel);
    let bases = BaseAddresses::default();
    let address_size = 4;

    let input = [0x01, 0x00, 0x00, 0x00];
    let input = EndianBuf::<LittleEndian>::new(&input);

    assert_eq!(
        parse_encoded_pointer(encoding, &bases, address_size, input, input),
        Err(Error::TextRelativePointerButTextBaseIsUndefined)
    );
}

#[test]
fn test_parse_encoded_pointer_datarel() {
    let encoding = DwEhPe(DW_EH_PE_datarel);

    let bases = BaseAddresses::default().set_data(0x10);

    let address_size = 4;
    let expected_rest = [1, 2, 3, 4];

    let input = [0x01, 0x00, 0x00, 0x00, 1, 2, 3, 4];
    let input = EndianBuf::<LittleEndian>::new(&input);

    assert_eq!(
        parse_encoded_pointer(encoding, &bases, address_size, input, input),
        Ok((EndianBuf::new(&expected_rest), Pointer::Direct(0x11)))
    );
}

#[test]
fn test_parse_encoded_pointer_datarel_undefined() {
    let encoding = DwEhPe(DW_EH_PE_datarel);
    let bases = BaseAddresses::default();
    let address_size = 4;

    let input = [0x01, 0x00, 0x00, 0x00];
    let input = EndianBuf::<LittleEndian>::new(&input);

    assert_eq!(
        parse_encoded_pointer(encoding, &bases, address_size, input, input),
        Err(Error::DataRelativePointerButDataBaseIsUndefined)
    );
}

#[test]
fn test_parse_encoded_pointer_funcrel() {
    let encoding = DwEhPe(DW_EH_PE_funcrel);

    let mut bases = BaseAddresses::default();
    bases.func = Some(0x10);

    let address_size = 4;
    let expected_rest = [1, 2, 3, 4];

    let input = [0x01, 0x00, 0x00, 0x00, 1, 2, 3, 4];
    let input = EndianBuf::<LittleEndian>::new(&input);

    assert_eq!(
        parse_encoded_pointer(encoding, &bases, address_size, input, input),
        Ok((EndianBuf::new(&expected_rest), Pointer::Direct(0x11)))
    );
}

#[test]
fn test_parse_encoded_pointer_funcrel_undefined() {
    let encoding = DwEhPe(DW_EH_PE_funcrel);
    let bases = BaseAddresses::default();
    let address_size = 4;

    let input = [0x01, 0x00, 0x00, 0x00];
    let input = EndianBuf::<LittleEndian>::new(&input);

    assert_eq!(
        parse_encoded_pointer(encoding, &bases, address_size, input, input),
        Err(Error::FuncRelativePointerInBadContext)
    );
}

#[test]
fn test_parse_encoded_pointer_uleb128() {
    let encoding = DwEhPe(DW_EH_PE_absptr | DW_EH_PE_uleb128);
    let bases = BaseAddresses::default();
    let address_size = 4;
    let expected_rest = [1, 2, 3, 4];

    let mut input = Vec::new();
    write_uleb(0x123456, &mut input);
    input.extend_from_slice(&expected_rest);
    let input = EndianBuf::<LittleEndian>::new(&input);

    assert_eq!(
        parse_encoded_pointer(encoding, &bases, address_size, input, input),
        Ok((EndianBuf::new(&expected_rest), Pointer::Direct(0x123456)))
    );
}

#[test]
fn test_parse_encoded_pointer_udata2() {
    let encoding = DwEhPe(DW_EH_PE_absptr | DW_EH_PE_udata2);
    let bases = BaseAddresses::default();
    let address_size = 4;
    let expected_rest = [1, 2, 3, 4];

    let input = [0x34, 0x12, 1, 2, 3, 4];
    let input = EndianBuf::<LittleEndian>::new(&input);

    assert_eq!(
        parse_encoded_pointer(encoding, &bases, address_size, input, input),
        Ok((EndianBuf::new(&expected_rest), Pointer::Direct(0x1234)))
    );
}

#[test]
fn test_parse_encoded_pointer_udata4() {
    let encoding = DwEhPe(DW_EH_PE_absptr | DW_EH_PE_udata4);
    let bases = BaseAddresses::default();
    let address_size = 4;
    let expected_rest = [1, 2, 3, 4];

    let input = [0x78, 0x56, 0x34, 0x12, 1, 2, 3, 4];
    let input = EndianBuf::<LittleEndian>::new(&input);

    assert_eq!(
        parse_encoded_pointer(encoding, &bases, address_size, input, input),
        Ok((EndianBuf::new(&expected_rest), Pointer::Direct(0x12345678)))
    );
}

#[test]
fn test_parse_encoded_pointer_udata8() {
    let encoding = DwEhPe(DW_EH_PE_absptr | DW_EH_PE_udata8);
    let bases = BaseAddresses::default();
    let address_size = 4;
    let expected_rest = [1, 2, 3, 4];

    let input = [0x78, 0x56, 0x34, 0x12, 0x78, 0x56, 0x34, 0x12, 1, 2, 3, 4];
    let input = EndianBuf::<LittleEndian>::new(&input);

    assert_eq!(
        parse_encoded_pointer(encoding, &bases, address_size, input, input),
        Ok((EndianBuf::new(&expected_rest), Pointer::Direct(0x1234567812345678)))
    );
}

#[test]
fn test_parse_encoded_pointer_sleb128() {
    let encoding = DwEhPe(DW_EH_PE_textrel | DW_EH_PE_sleb128);
    let bases = BaseAddresses::default().set_text(0x11111111);
    let address_size = 4;
    let expected_rest = [1, 2, 3, 4];

    let mut input = Vec::new();
    write_sleb(-0x1111, &mut input);
    input.extend_from_slice(&expected_rest);
    let input = EndianBuf::<LittleEndian>::new(&input);

    assert_eq!(
        parse_encoded_pointer(encoding, &bases, address_size, input, input),
        Ok((EndianBuf::new(&expected_rest), Pointer::Direct(0x11110000)))
    );
}

#[test]
fn test_parse_encoded_pointer_sdata2() {
    let encoding = DwEhPe(DW_EH_PE_absptr | DW_EH_PE_sdata2);
    let bases = BaseAddresses::default();
    let address_size = 4;
    let expected_rest = [1, 2, 3, 4];
    let expected = 0x111 as i16;

    let input = [0x11, 0x01, 1, 2, 3, 4];
    let input = EndianBuf::<LittleEndian>::new(&input);

    assert_eq!(
        parse_encoded_pointer(encoding, &bases, address_size, input, input),
        Ok((EndianBuf::new(&expected_rest), Pointer::Direct(expected as u64)))
    );
}

#[test]
fn test_parse_encoded_pointer_sdata4() {
    let encoding = DwEhPe(DW_EH_PE_absptr | DW_EH_PE_sdata4);
    let bases = BaseAddresses::default();
    let address_size = 4;
    let expected_rest = [1, 2, 3, 4];
    let expected = 0x1111111 as i32;

    let input = [0x11, 0x11, 0x11, 0x01, 1, 2, 3, 4];
    let input = EndianBuf::<LittleEndian>::new(&input);

    assert_eq!(
        parse_encoded_pointer(encoding, &bases, address_size, input, input),
        Ok((EndianBuf::new(&expected_rest), Pointer::Direct(expected as u64)))
    );
}

#[test]
fn test_parse_encoded_pointer_sdata8() {
    let encoding = DwEhPe(DW_EH_PE_absptr | DW_EH_PE_sdata8);
    let bases = BaseAddresses::default();
    let address_size = 4;
    let expected_rest = [1, 2, 3, 4];
    let expected = -0x11111112222222 as i64;

    let mut input = (expected as u64).to_le_bytes().to_vec();
    input.extend_from_slice(&expected_rest);
    let input = EndianBuf::<LittleEndian>::new(&input);

    assert_eq!(
        parse_encoded_pointer(encoding, &bases, address_size, input, input),
        Ok((EndianBuf::new(&expected_rest), Pointer::Direct(expected as u64)))
    );
}

#[test]
fn test_parse_encoded_pointer_omit() {
    let encoding = DwEhPe(DW_EH_PE_omit);
    let bases = BaseAddresses::default();
    let address_size = 4;

    let input = [0x01, 0x00, 0x00, 0x00];
    let input = EndianBuf::<LittleEndian>::new(&input);

    assert_eq!(
        parse_encoded_pointer(encoding, &bases, address_size, input, input),
        Ok((input, Pointer::default()))
    );
}

#[test]
fn test_parse_encoded_pointer_bad_encoding() {
    let encoding = DwEhPe(DW_EH_PE_sdata8 + 1);
    let bases = BaseAddresses::default();
    let address_size = 4;

    let input = [0x01, 0x00, 0x00, 0x00];
    let input = EndianBuf::<LittleEndian>::new(&input);

    assert_eq!(
        parse_encoded_pointer(encoding, &bases, address_size, input, input),
        Err(Error::UnknownPointerEncoding)
    );
}

#[test]
fn test_parse_encoded_pointer_aligned() {
    // The aligned application is recognized but deliberately unsupported.

    let encoding = DwEhPe(DW_EH_PE_aligned);
    let bases = BaseAddresses::default();
    let address_size = 4;

    let input = [0x01, 0x00, 0x00, 0x00];
    let input = EndianBuf::<LittleEndian>::new(&input);

    assert_eq!(
        parse_encoded_pointer(encoding, &bases, address_size, input, input),
        Err(Error::UnsupportedPointerEncoding)
    );
}

#[test]
fn test_parse_encoded_pointer_indirect() {
    let rest = [1, 2, 3, 4];

    let encoding = DwEhPe(DW_EH_PE_indirect);
    let bases = BaseAddresses::default();
    let address_size = 4;

    let input = [0x78, 0x56, 0x34, 0x12, 1, 2, 3, 4];
    let input = EndianBuf::<LittleEndian>::new(&input);

    assert_eq!(
        parse_encoded_pointer(encoding, &bases, address_size, input, input),
        Ok((EndianBuf::new(&rest), Pointer::Indirect(0x12345678)))
    );
}
