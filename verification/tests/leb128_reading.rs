use gimli::parser::parse_signed_leb;
use gimli::parser::parse_unsigned_leb;
use gimli::parser::Error;

fn write_uleb(mut value: u64, out: &mut Vec<u8>) {
    loop {
        let mut byte = (value & 0x7f) as u8;
        value >>= 7;
        if value != 0 {
            byte |= 0x80;
        }
        out.push(byte);
        if value == 0 {
            return;
        }
    }
}

fn write_sleb(mut value: i64, out: &mut Vec<u8>) {
    loop {
        let mut byte = (value & 0x7f) as u8;
        value >>= 7;
        let done = (value == 0 && byte & 0x40 == 0) || (value == -1 && byte & 0x40 != 0);
        if !done {
            byte |= 0x80;
        }
        out.push(byte);
        if done {
            return;
        }
    }
}

#[test]
fn test_parse_unsigned_leb_round_trip() {
    let values = [
        0u64,
        1,
        0x7f,
        0x80,
        0x3fff,
        0x4000,
        0x123456,
        0xffff_ffff,
        0x7fff_ffff_ffff_ffff,
        0x8000_0000_0000_0000,
        u64::MAX,
    ];
    for &v in values.iter() {
        let mut buf = Vec::new();
        write_uleb(v, &mut buf);
        buf.extend_from_slice(&[0xaa, 0xbb]);
        let (rest, decoded) = parse_unsigned_leb(&buf).expect("must decode");
        assert_eq!(decoded, v);
        assert_eq!(rest, &[0xaa, 0xbb]);
    }
}

#[test]
fn test_parse_signed_leb_round_trip() {
    let values = [
        0i64,
        1,
        -1,
        63,
        64,
        -64,
        -65,
        0x1111,
        -0x1111,
        i64::MAX,
        i64::MIN,
        i64::MIN + 1,
    ];
    for &v in values.iter() {
        let mut buf = Vec::new();
        write_sleb(v, &mut buf);
        buf.extend_from_slice(&[0xcc]);
        let (rest, decoded) = parse_signed_leb(&buf).expect("must decode");
        assert_eq!(decoded, v);
        assert_eq!(rest, &[0xcc]);
    }
}

#[test]
fn test_parse_unsigned_leb_truncated_is_eof() {
    // A truncated continuation sequence fails with end-of-input, not with
    // the malformed-LEB128 kind.
    let mut buf = Vec::new();
    write_uleb(u64::MAX, &mut buf);
    for n in 0..buf.len() {
        assert_eq!(parse_unsigned_leb(&buf[..n]), Err(Error::UnexpectedEof));
    }
    assert_eq!(parse_unsigned_leb(&[0x80, 0x80]), Err(Error::UnexpectedEof));
}

#[test]
fn test_parse_signed_leb_truncated_is_eof() {
    let mut buf = Vec::new();
    write_sleb(i64::MIN, &mut buf);
    for n in 0..buf.len() {
        assert_eq!(parse_signed_leb(&buf[..n]), Err(Error::UnexpectedEof));
    }
}

#[test]
fn test_parse_unsigned_leb_overflow() {
    // Eleven meaningful digits cannot fit in a u64.
    let buf = [0x80, 0x80, 0x80, 0x80, 0x80, 0x80, 0x80, 0x80, 0x80, 0x80, 0x01];
    assert_eq!(parse_unsigned_leb(&buf), Err(Error::BadUnsignedLeb128));
    // A tenth digit above 1 would contribute beyond bit 63.
    let buf = [0x80, 0x80, 0x80, 0x80, 0x80, 0x80, 0x80, 0x80, 0x80, 0x02];
    assert_eq!(parse_unsigned_leb(&buf), Err(Error::BadUnsignedLeb128));
}

#[test]
fn test_parse_signed_leb_overflow() {
    let buf = [0x80, 0x80, 0x80, 0x80, 0x80, 0x80, 0x80, 0x80, 0x80, 0x80, 0x00];
    assert_eq!(parse_signed_leb(&buf), Err(Error::BadSignedLeb128));
    // A tenth digit other than 0x00 or 0x7f cannot fit in an i64.
    let buf = [0x80, 0x80, 0x80, 0x80, 0x80, 0x80, 0x80, 0x80, 0x80, 0x01];
    assert_eq!(parse_signed_leb(&buf), Err(Error::BadSignedLeb128));
}

#[test]
fn test_parse_unsigned_leb_non_canonical() {
    // Trailing zero digits are redundant but accepted.
    let buf = [0x80, 0x00];
    assert_eq!(parse_unsigned_leb(&buf), Ok((&[][..], 0)));
}
