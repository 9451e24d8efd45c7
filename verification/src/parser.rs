//! Functions for parsing DWARF debugging information.
//!
//! Every decoder takes a cursor over the remaining input and, on success,
//! returns a fresh cursor over the untouched remainder together with the
//! decoded value; on failure it returns one error kind from the closed
//! taxonomy below and leaves the caller's cursor untouched.

use vstd::prelude::*;
use vstd::slice::slice_subrange;

use crate::cfi::BaseAddresses;
use crate::constants::DwEhPe;
use crate::constants::DwCfa;
use crate::constants::DwLne;
use crate::constants::DwLns;
use crate::constants::DwOp;
use crate::constants::DW_EH_PE_omit;
use crate::endianity::word_value;
use crate::endianity::signed_word_value;
use crate::endianity::word_bytes;
use crate::endianity::lemma_word_bytes_value;
use crate::endianity::pow256;
use crate::endianity::lemma_word_value_bound;
use crate::endianity::lemma_pow256_monotonic;
use crate::endianity::lemma_pow256_eight;
use crate::endianity::read_word;
use crate::endianity::Endianity;
use crate::endianity::EndianBuf;
use crate::leb128;

verus! {

/// An error that occurred when parsing.
#[derive(Debug, Clone, Copy, PartialEq, Eq, Structural)]
pub enum Error {
    /// Found a CFI relative pointer, but the CFI base is undefined.
    CfiRelativePointerButCfiBaseIsUndefined,
    /// Found a `.text` relative pointer, but the `.text` base is undefined.
    TextRelativePointerButTextBaseIsUndefined,
    /// Found a `.data` relative pointer, but the `.data` base is undefined.
    DataRelativePointerButDataBaseIsUndefined,
    /// Found a function relative pointer in a context that does not have a
    /// function base.
    FuncRelativePointerInBadContext,
    /// An error parsing an unsigned LEB128 value.
    BadUnsignedLeb128,
    /// An error parsing a signed LEB128 value.
    BadSignedLeb128,
    /// An abbreviation declared that its tag is zero, but zero is reserved
    /// for null records.
    AbbreviationTagZero,
    /// An attribute specification declared that its form is zero, but zero
    /// is reserved for null records.
    AttributeFormZero,
    /// The abbreviation's has-children byte was not one of
    /// `DW_CHILDREN_{yes,no}`.
    BadHasChildren,
    /// The specified length is impossible.
    BadLength,
    /// Found an unknown `DW_FORM_*` type.
    UnknownForm,
    /// Expected a zero, found something else.
    ExpectedZero,
    /// Found an abbreviation code that has already been used.
    DuplicateAbbreviationCode,
    /// Found a duplicate arange.
    DuplicateArange,
    /// Found an unknown reserved length value.
    UnknownReservedLength,
    /// Found an unknown DWARF version.
    UnknownVersion,
    /// The unit header's claimed length is too short to even hold the
    /// header itself.
    UnitHeaderLengthTooShort,
    /// Found a record with an unknown abbreviation code.
    UnknownAbbreviation,
    /// Hit the end of input before it was expected.
    UnexpectedEof,
    /// Read a null entry before it was expected.
    UnexpectedNull,
    /// Found an unknown standard opcode.
    UnknownStandardOpcode(DwLns),
    /// Found an unknown extended opcode.
    UnknownExtendedOpcode(DwLne),
    /// The specified address size is not supported.
    UnsupportedAddressSize(u8),
    /// The specified field size is not supported.
    UnsupportedFieldSize(u8),
    /// The minimum instruction length must not be zero.
    MinimumInstructionLengthZero,
    /// The maximum operations per instruction must not be zero.
    MaximumOperationsPerInstructionZero,
    /// The line range must not be zero.
    LineRangeZero,
    /// The opcode base must not be zero.
    OpcodeBaseZero,
    /// Found an invalid UTF-8 string.
    BadUtf8,
    /// Expected to find the CIE ID, but found something else.
    NotCieId,
    /// Expected to find a pointer to a CIE, but found the CIE ID instead.
    NotCiePointer,
    /// Invalid branch target for a DW_OP_bra or DW_OP_skip.
    BadBranchTarget(usize),
    /// DW_OP_push_object_address used but no address passed in.
    InvalidPushObjectAddress,
    /// Not enough items on the stack when evaluating an expression.
    NotEnoughStackItems,
    /// Too many iterations to compute the expression.
    TooManyIterations,
    /// An unrecognized operation was found while parsing a DWARF expression.
    InvalidExpression(DwOp),
    /// The expression had a piece followed by an expression terminator
    /// without a piece.
    InvalidPiece,
    /// An expression-terminating operation was followed by something other
    /// than the end of the expression or a piece operation.
    InvalidExpressionTerminator(usize),
    /// Division or modulus by zero when evaluating an expression.
    DivisionByZero,
    /// An expression operation used mismatching types.
    TypeMismatch,
    /// An expression operation required an integral type but saw a floating
    /// point type.
    IntegralTypeRequired,
    /// An unknown DW_CFA_* instruction.
    UnknownCallFrameInstruction(DwCfa),
    /// The end of an address range was before the beginning.
    InvalidAddressRange,
    /// The end offset of a loc list entry was before the beginning.
    InvalidLocationAddressRange,
    /// Encountered a call frame instruction in a context in which it is not
    /// valid.
    CfiInstructionInInvalidContext,
    /// When evaluating call frame instructions, found a
    /// `DW_CFA_restore_state` stack pop instruction, but the stack was
    /// empty, and had nothing to pop.
    PopWithEmptyStack,
    /// Do not have unwind info for the given address.
    NoUnwindInfoForAddress,
    /// An offset value was larger than the maximum supported value.
    UnsupportedOffset,
    /// The given pointer encoding is either unknown or invalid.
    UnknownPointerEncoding,
    /// Did not find an entry at the given offset.
    NoEntryAtGivenOffset,
    /// The given offset is out of bounds.
    OffsetOutOfBounds,
    /// Found an unknown CFI augmentation.
    UnknownAugmentation,
    /// We do not support the given pointer encoding yet.
    UnsupportedPointerEncoding,
    /// We tried to convert some number into a `u8`, but it was too large.
    CannotFitInU8,
    /// The CFI program defined more register rules than we have storage
    /// for.
    TooManyRegisterRules,
    /// Attempted to push onto the CFI stack, but it was already at full
    /// capacity.
    CfiStackFull,
}

/// The result of a parse.
pub type Result<T> = core::result::Result<T, Error>;

/// Whether the format of a compilation unit is 32- or 64-bit.
#[derive(Debug, Clone, Copy, PartialEq, Eq, Structural)]
pub enum Format {
    /// 64-bit DWARF
    Dwarf64,
    /// 32-bit DWARF
    Dwarf32,
}

/// An offset into the `.debug_macinfo` section.
#[derive(Debug, Clone, Copy, PartialEq, Eq, Hash)]
pub struct DebugMacinfoOffset(pub usize);

/// Parse a `u8` from the input.
pub fn parse_u8(input: &[u8]) -> (r: Result<(&[u8], u8)>)
    ensures
        input@.len() == 0 ==> (r matches Err(e) && e == Error::UnexpectedEof),
        input@.len() > 0 ==> (r matches Ok(p) && p.0@ == input@.skip(1) && p.1 == input@[0]),
{
    if input.len() == 0 {
        Err(Error::UnexpectedEof)
    } else {
        Ok((slice_subrange(input, 1, input.len()), input[0]))
    }
}

/// Parse a `i8` from the input: the first byte, reinterpreted as a two's
/// complement signed byte.
pub fn parse_i8(input: &[u8]) -> (r: Result<(&[u8], i8)>)
    ensures
        input@.len() == 0 ==> (r matches Err(e) && e == Error::UnexpectedEof),
        input@.len() > 0 ==> (r matches Ok(p) && p.0@ == input@.skip(1) && p.1 as int == (
        if input@[0] < 0x80 {
            input@[0] as int
        } else {
            input@[0] - 0x100
        })),
{
    if input.len() == 0 {
        Err(Error::UnexpectedEof)
    } else {
        let b = input[0];
        let v: i8 = if b < 0x80 {
            b as i8
        } else if b == 0x80 {
            i8::MIN
        } else {
            -((0x100u16 - b as u16) as i8)
        };
        Ok((slice_subrange(input, 1, input.len()), v))
    }
}

} // verus!

verus! {

/// `256^2`, `256^4` and `256^8` as concrete bounds.
proof fn lemma_pow256_values()
    ensures
        pow256(1) == 0x100,
        pow256(2) == 0x1_0000,
        pow256(4) == 0x1_0000_0000,
        pow256(8) == 0x1_0000_0000_0000_0000,
{
    reveal_with_fuel(pow256, 9);
}

/// Parse a `u16` from the input.
pub fn parse_u16<Endian: Endianity>(input: EndianBuf<Endian>) -> (r: Result<
    (EndianBuf<Endian>, u16),
>)
    ensures
        input@.len() < 2 ==> (r matches Err(e) && e == Error::UnexpectedEof),
        input@.len() >= 2 ==> (r matches Ok(p) && p.0@ == input@.skip(2) && p.1 == word_value(
            input@.take(2),
            Endian::spec_big(),
        )),
{
    if input.len() < 2 {
        Err(Error::UnexpectedEof)
    } else {
        proof {
            lemma_pow256_values();
            lemma_word_value_bound(input@.take(2), Endian::spec_big());
        }
        let w = read_word::<Endian>(input.into_slice(), 2);
        Ok((input.range_from(2), w as u16))
    }
}

/// Parse a `i16` from the input: two bytes in the cursor's byte order,
/// reinterpreted as a two's complement signed integer.
pub fn parse_i16<Endian: Endianity>(input: EndianBuf<Endian>) -> (r: Result<
    (EndianBuf<Endian>, i16),
>)
    ensures
        input@.len() < 2 ==> (r matches Err(e) && e == Error::UnexpectedEof),
        input@.len() >= 2 ==> (r matches Ok(p) && p.0@ == input@.skip(2) && p.1 as int
            == signed_word_value(input@.take(2), Endian::spec_big())),
{
    if input.len() < 2 {
        Err(Error::UnexpectedEof)
    } else {
        proof {
            lemma_pow256_values();
            lemma_word_value_bound(input@.take(2), Endian::spec_big());
        }
        let w = read_word::<Endian>(input.into_slice(), 2);
        let v: i16 = if w < 0x8000 {
            w as i16
        } else {
            let mag: u64 = 0x1_0000 - w;
            if mag == 0x8000 {
                i16::MIN
            } else {
                -(mag as i16)
            }
        };
        Ok((input.range_from(2), v))
    }
}

/// Parse a `u32` from the input.
pub fn parse_u32<Endian: Endianity>(input: EndianBuf<Endian>) -> (r: Result<
    (EndianBuf<Endian>, u32),
>)
    ensures
        input@.len() < 4 ==> (r matches Err(e) && e == Error::UnexpectedEof),
        input@.len() >= 4 ==> (r matches Ok(p) && p.0@ == input@.skip(4) && p.1 == word_value(
            input@.take(4),
            Endian::spec_big(),
        )),
{
    if input.len() < 4 {
        Err(Error::UnexpectedEof)
    } else {
        proof {
            lemma_pow256_values();
            lemma_word_value_bound(input@.take(4), Endian::spec_big());
        }
        let w = read_word::<Endian>(input.into_slice(), 4);
        Ok((input.range_from(4), w as u32))
    }
}

/// Parse a `i32` from the input: four bytes in the cursor's byte order,
/// reinterpreted as a two's complement signed integer.
pub fn parse_i32<Endian: Endianity>(input: EndianBuf<Endian>) -> (r: Result<
    (EndianBuf<Endian>, i32),
>)
    ensures
        input@.len() < 4 ==> (r matches Err(e) && e == Error::UnexpectedEof),
        input@.len() >= 4 ==> (r matches Ok(p) && p.0@ == input@.skip(4) && p.1 as int
            == signed_word_value(input@.take(4), Endian::spec_big())),
{
    if input.len() < 4 {
        Err(Error::UnexpectedEof)
    } else {
        proof {
            lemma_pow256_values();
            lemma_word_value_bound(input@.take(4), Endian::spec_big());
        }
        let w = read_word::<Endian>(input.into_slice(), 4);
        let v: i32 = if w < 0x8000_0000 {
            w as i32
        } else {
            let mag: u64 = 0x1_0000_0000 - w;
            if mag == 0x8000_0000 {
                i32::MIN
            } else {
                -(mag as i32)
            }
        };
        Ok((input.range_from(4), v))
    }
}

/// Parse a `u64` from the input.
pub fn parse_u64<Endian: Endianity>(input: EndianBuf<Endian>) -> (r: Result<
    (EndianBuf<Endian>, u64),
>)
    ensures
        input@.len() < 8 ==> (r matches Err(e) && e == Error::UnexpectedEof),
        input@.len() >= 8 ==> (r matches Ok(p) && p.0@ == input@.skip(8) && p.1 == word_value(
            input@.take(8),
            Endian::spec_big(),
        )),
{
    if input.len() < 8 {
        Err(Error::UnexpectedEof)
    } else {
        let w = read_word::<Endian>(input.into_slice(), 8);
        Ok((input.range_from(8), w))
    }
}

/// Parse a `i64` from the input: eight bytes in the cursor's byte order,
/// reinterpreted as a two's complement signed integer.
pub fn parse_i64<Endian: Endianity>(input: EndianBuf<Endian>) -> (r: Result<
    (EndianBuf<Endian>, i64),
>)
    ensures
        input@.len() < 8 ==> (r matches Err(e) && e == Error::UnexpectedEof),
        input@.len() >= 8 ==> (r matches Ok(p) && p.0@ == input@.skip(8) && p.1 as int
            == signed_word_value(input@.take(8), Endian::spec_big())),
{
    if input.len() < 8 {
        Err(Error::UnexpectedEof)
    } else {
        proof {
            lemma_pow256_values();
            lemma_word_value_bound(input@.take(8), Endian::spec_big());
        }
        let w = read_word::<Endian>(input.into_slice(), 8);
        let v: i64 = if w < 0x8000_0000_0000_0000 {
            w as i64
        } else {
            let mag: u64 = (u64::MAX - w) + 1;
            if mag == 0x8000_0000_0000_0000 {
                i64::MIN
            } else {
                -(mag as i64)
            }
        };
        Ok((input.range_from(8), v))
    }
}

/// Parse a `u32` from the input and return it as a `u64`.
pub fn parse_u32_as_u64<Endian: Endianity>(input: EndianBuf<Endian>) -> (r: Result<
    (EndianBuf<Endian>, u64),
>)
    ensures
        input@.len() < 4 ==> (r matches Err(e) && e == Error::UnexpectedEof),
        input@.len() >= 4 ==> (r matches Ok(p) && p.0@ == input@.skip(4) && p.1 == word_value(
            input@.take(4),
            Endian::spec_big(),
        )),
{
    if input.len() < 4 {
        Err(Error::UnexpectedEof)
    } else {
        let w = read_word::<Endian>(input.into_slice(), 4);
        Ok((input.range_from(4), w))
    }
}

} // verus!

verus! {

/// How a failure of the unsigned LEB128 reader is reported: truncation as
/// end-of-input, overflow as a bad unsigned LEB128 value.
pub open spec fn map_unsigned_leb_error(e: leb128::ReadError) -> Error {
    match e {
        leb128::ReadError::UnexpectedEof => Error::UnexpectedEof,
        leb128::ReadError::Overflow => Error::BadUnsignedLeb128,
    }
}

/// How a failure of the signed LEB128 reader is reported: truncation as
/// end-of-input, overflow as a bad signed LEB128 value.
pub open spec fn map_signed_leb_error(e: leb128::ReadError) -> Error {
    match e {
        leb128::ReadError::UnexpectedEof => Error::UnexpectedEof,
        leb128::ReadError::Overflow => Error::BadSignedLeb128,
    }
}

/// Parse an unsigned LEB128 encoded integer.
pub fn parse_unsigned_leb(input: &[u8]) -> (r: Result<(&[u8], u64)>)
    ensures
        match leb128::spec_read_unsigned(input@) {
            Ok(vn) => r matches Ok(p) && p.1 == vn.0 && p.0@ == input@.skip(vn.1),
            Err(e) => r matches Err(pe) && pe == map_unsigned_leb_error(e),
        },
{
    match leb128::read_unsigned(input) {
        Ok((rest, val)) => Ok((rest, val)),
        Err(leb128::ReadError::UnexpectedEof) => Err(Error::UnexpectedEof),
        Err(leb128::ReadError::Overflow) => Err(Error::BadUnsignedLeb128),
    }
}

/// Parse a signed LEB128 encoded integer.
pub fn parse_signed_leb(input: &[u8]) -> (r: Result<(&[u8], i64)>)
    ensures
        match leb128::spec_read_signed(input@) {
            Ok(vn) => r matches Ok(p) && p.1 == vn.0 && p.0@ == input@.skip(vn.1),
            Err(e) => r matches Err(pe) && pe == map_signed_leb_error(e),
        },
{
    match leb128::read_signed(input) {
        Ok((rest, val)) => Ok((rest, val)),
        Err(leb128::ReadError::UnexpectedEof) => Err(Error::UnexpectedEof),
        Err(leb128::ReadError::Overflow) => Err(Error::BadSignedLeb128),
    }
}

/// Like `parse_u8` but takes and returns an `EndianBuf` for convenience.
pub fn parse_u8e<Endian: Endianity>(bytes: EndianBuf<Endian>) -> (r: Result<
    (EndianBuf<Endian>, u8),
>)
    ensures
        bytes@.len() == 0 ==> (r matches Err(e) && e == Error::UnexpectedEof),
        bytes@.len() > 0 ==> (r matches Ok(p) && p.0@ == bytes@.skip(1) && p.1 == bytes@[0]),
{
    match parse_u8(bytes.into_slice()) {
        Ok((rest, value)) => Ok((EndianBuf::new(rest), value)),
        Err(e) => Err(e),
    }
}

/// Like `parse_i8` but takes and returns an `EndianBuf` for convenience.
pub fn parse_i8e<Endian: Endianity>(bytes: EndianBuf<Endian>) -> (r: Result<
    (EndianBuf<Endian>, i8),
>)
    ensures
        bytes@.len() == 0 ==> (r matches Err(e) && e == Error::UnexpectedEof),
        bytes@.len() > 0 ==> (r matches Ok(p) && p.0@ == bytes@.skip(1) && p.1 as int == (
        if bytes@[0] < 0x80 {
            bytes@[0] as int
        } else {
            bytes@[0] - 0x100
        })),
{
    match parse_i8(bytes.into_slice()) {
        Ok((rest, value)) => Ok((EndianBuf::new(rest), value)),
        Err(e) => Err(e),
    }
}

/// Like `parse_unsigned_leb` but takes and returns an `EndianBuf` for
/// convenience.
pub fn parse_unsigned_lebe<Endian: Endianity>(bytes: EndianBuf<Endian>) -> (r: Result<
    (EndianBuf<Endian>, u64),
>)
    ensures
        match leb128::spec_read_unsigned(bytes@) {
            Ok(vn) => r matches Ok(p) && p.1 == vn.0 && p.0@ == bytes@.skip(vn.1),
            Err(e) => r matches Err(pe) && pe == map_unsigned_leb_error(e),
        },
{
    match parse_unsigned_leb(bytes.into_slice()) {
        Ok((rest, value)) => Ok((EndianBuf::new(rest), value)),
        Err(e) => Err(e),
    }
}

/// Like `parse_signed_leb` but takes and returns an `EndianBuf` for
/// convenience.
pub fn parse_signed_lebe<Endian: Endianity>(bytes: EndianBuf<Endian>) -> (r: Result<
    (EndianBuf<Endian>, i64),
>)
    ensures
        match leb128::spec_read_signed(bytes@) {
            Ok(vn) => r matches Ok(p) && p.1 == vn.0 && p.0@ == bytes@.skip(vn.1),
            Err(e) => r matches Err(pe) && pe == map_signed_leb_error(e),
        },
{
    match parse_signed_leb(bytes.into_slice()) {
        Ok((rest, value)) => Ok((EndianBuf::new(rest), value)),
        Err(e) => Err(e),
    }
}

/// Convert a `u64` to a `u8` and return it.
pub fn u64_to_u8(x: u64) -> (r: Result<u8>)
    ensures
        x <= u8::MAX ==> r == Ok::<u8, Error>(x as u8),
        x > u8::MAX ==> r == Err::<u8, Error>(Error::CannotFitInU8),
{
    if x <= u8::MAX as u64 {
        Ok(x as u8)
    } else {
        Err(Error::CannotFitInU8)
    }
}

/// Convert a `u64` to a `usize` and return it.
pub fn u64_to_offset(offset64: u64) -> (r: Result<usize>)
    ensures
        offset64 <= usize::MAX ==> r == Ok::<usize, Error>(offset64 as usize),
        offset64 > usize::MAX ==> r == Err::<usize, Error>(Error::UnsupportedOffset),
{
    if offset64 <= usize::MAX as u64 {
        Ok(offset64 as usize)
    } else {
        Err(Error::UnsupportedOffset)
    }
}

/// Like `parse_unsigned_leb` but narrows the value to a `u8`, and takes
/// and returns an `EndianBuf` for convenience.
pub fn parse_unsigned_leb_as_u8e<Endian: Endianity>(bytes: EndianBuf<Endian>) -> (r: Result<
    (EndianBuf<Endian>, u8),
>)
    ensures
        match leb128::spec_read_unsigned(bytes@) {
            Ok(vn) => (vn.0 <= u8::MAX ==> (r matches Ok(p) && p.1 == vn.0 && p.0@ == bytes@.skip(
                vn.1,
            ))) && (vn.0 > u8::MAX ==> (r matches Err(e) && e == Error::CannotFitInU8)),
            Err(e) => r matches Err(pe) && pe == map_unsigned_leb_error(e),
        },
{
    let (bytes, value) = match parse_unsigned_leb(bytes.into_slice()) {
        Ok(p) => p,
        Err(e) => {
            return Err(e);
        },
    };
    let value = match u64_to_u8(value) {
        Ok(v) => v,
        Err(e) => {
            return Err(e);
        },
    };
    Ok((EndianBuf::new(bytes), value))
}

/// Parse a `u64` from the input, and return it as a `usize`.
pub fn parse_u64_as_offset<Endian: Endianity>(input: EndianBuf<Endian>) -> (r: Result<
    (EndianBuf<Endian>, usize),
>)
    ensures
        input@.len() < 8 ==> (r matches Err(e) && e == Error::UnexpectedEof),
        input@.len() >= 8 ==> ({
            let w = word_value(input@.take(8), Endian::spec_big());
            &&& w <= usize::MAX ==> (r matches Ok(p) && p.0@ == input@.skip(8) && p.1 == w)
            &&& w > usize::MAX ==> (r matches Err(e) && e == Error::UnsupportedOffset)
        }),
{
    let (rest, offset) = match parse_u64(input) {
        Ok(p) => p,
        Err(e) => {
            return Err(e);
        },
    };
    let offset = match u64_to_offset(offset) {
        Ok(v) => v,
        Err(e) => {
            return Err(e);
        },
    };
    Ok((rest, offset))
}

/// Parse an unsigned LEB128 encoded integer from the input, and return it
/// as a `usize`.
pub fn parse_uleb_as_offset<Endian: Endianity>(input: EndianBuf<Endian>) -> (r: Result<
    (EndianBuf<Endian>, usize),
>)
    ensures
        match leb128::spec_read_unsigned(input@) {
            Ok(vn) => (vn.0 <= usize::MAX ==> (r matches Ok(p) && p.1 == vn.0 && p.0@
                == input@.skip(vn.1))) && (vn.0 > usize::MAX ==> (r matches Err(e) && e
                == Error::UnsupportedOffset)),
            Err(e) => r matches Err(pe) && pe == map_unsigned_leb_error(e),
        },
{
    let (rest, offset) = match parse_unsigned_lebe(input) {
        Ok(p) => p,
        Err(e) => {
            return Err(e);
        },
    };
    let offset = match u64_to_offset(offset) {
        Ok(v) => v,
        Err(e) => {
            return Err(e);
        },
    };
    Ok((rest, offset))
}

/// The number of bytes a word or offset occupies in the given format.
pub open spec fn format_word_size(format: Format) -> int {
    match format {
        Format::Dwarf32 => 4,
        Format::Dwarf64 => 8,
    }
}

/// Parse a word-sized integer according to the DWARF format, and return it
/// as a `u64`.
pub fn parse_word<Endian: Endianity>(input: EndianBuf<Endian>, format: Format) -> (r: Result<
    (EndianBuf<Endian>, u64),
>)
    ensures
        input@.len() < format_word_size(format) ==> (r matches Err(e) && e
            == Error::UnexpectedEof),
        input@.len() >= format_word_size(format) ==> (r matches Ok(p) && p.0@ == input@.skip(
            format_word_size(format),
        ) && p.1 == word_value(input@.take(format_word_size(format)), Endian::spec_big())),
{
    match format {
        Format::Dwarf32 => parse_u32_as_u64(input),
        Format::Dwarf64 => parse_u64(input),
    }
}

/// Parse a word-sized integer according to the DWARF format, and return it
/// as a `usize`.
pub fn parse_offset<Endian: Endianity>(input: EndianBuf<Endian>, format: Format) -> (r: Result<
    (EndianBuf<Endian>, usize),
>)
    ensures
        input@.len() < format_word_size(format) ==> (r matches Err(e) && e
            == Error::UnexpectedEof),
        input@.len() >= format_word_size(format) ==> ({
            let w = word_value(input@.take(format_word_size(format)), Endian::spec_big());
            &&& w <= usize::MAX ==> (r matches Ok(p) && p.0@ == input@.skip(
                format_word_size(format),
            ) && p.1 == w)
            &&& w > usize::MAX ==> (r matches Err(e) && e == Error::UnsupportedOffset)
        }),
{
    let (rest, offset) = match parse_word(input, format) {
        Ok(p) => p,
        Err(e) => {
            return Err(e);
        },
    };
    let offset = match u64_to_offset(offset) {
        Ok(v) => v,
        Err(e) => {
            return Err(e);
        },
    };
    Ok((rest, offset))
}

/// What parsing an address-sized integer from `s` yields: the address
/// widened to 64 bits and the number of bytes consumed, or the failure.
/// Only address sizes 1, 2, 4 and 8 are supported.
pub open spec fn spec_parse_address(s: Seq<u8>, address_size: u8, big: bool) -> Result<
    (u64, int),
> {
    if s.len() < address_size {
        Err(Error::UnexpectedEof)
    } else if address_size == 8 || address_size == 4 || address_size == 2 || address_size == 1 {
        Ok((word_value(s.take(address_size as int), big) as u64, address_size as int))
    } else {
        Err(Error::UnsupportedAddressSize(address_size))
    }
}

/// Parse an address-sized integer, and return it as a `u64`.
pub fn parse_address<Endian: Endianity>(input: EndianBuf<Endian>, address_size: u8) -> (r: Result<
    (EndianBuf<Endian>, u64),
>)
    ensures
        match spec_parse_address(input@, address_size, Endian::spec_big()) {
            Ok(vn) => r matches Ok(p) && p.1 == vn.0 && p.0@ == input@.skip(vn.1),
            Err(e) => r matches Err(pe) && pe == e,
        },
{
    if input.len() < address_size as usize {
        Err(Error::UnexpectedEof)
    } else if address_size == 8 || address_size == 4 || address_size == 2 || address_size == 1 {
        proof {
            lemma_pow256_eight();
            lemma_pow256_monotonic(address_size as nat, 8);
            lemma_word_value_bound(input@.take(address_size as int), Endian::spec_big());
        }
        let address = read_word::<Endian>(input.into_slice(), address_size as usize);
        Ok((input.range_from(address_size as usize), address))
    } else {
        Err(Error::UnsupportedAddressSize(address_size))
    }
}

/// Parse an address-sized integer, and return it as a `usize`.
pub fn parse_address_as_offset<Endian: Endianity>(input: EndianBuf<Endian>, address_size: u8) -> (r:
    Result<(EndianBuf<Endian>, usize)>)
    ensures
        match spec_parse_address(input@, address_size, Endian::spec_big()) {
            Ok(vn) => (vn.0 <= usize::MAX ==> (r matches Ok(p) && p.1 == vn.0 && p.0@
                == input@.skip(vn.1))) && (vn.0 > usize::MAX ==> (r matches Err(e) && e
                == Error::UnsupportedOffset)),
            Err(e) => r matches Err(pe) && pe == e,
        },
{
    let (rest, offset) = match parse_address(input, address_size) {
        Ok(p) => p,
        Err(e) => {
            return Err(e);
        },
    };
    let offset = match u64_to_offset(offset) {
        Ok(v) => v,
        Err(e) => {
            return Err(e);
        },
    };
    Ok((rest, offset))
}

/// Parse the size of addresses (in bytes) on the target architecture.
pub fn parse_address_size<Endian: Endianity>(input: EndianBuf<Endian>) -> (r: Result<
    (EndianBuf<Endian>, u8),
>)
    ensures
        input@.len() == 0 ==> (r matches Err(e) && e == Error::UnexpectedEof),
        input@.len() > 0 ==> (r matches Ok(p) && p.0@ == input@.skip(1) && p.1 == input@[0]),
{
    parse_u8e(input)
}

/// Take a slice of size `bytes` from the input.
pub fn take<Endian: Endianity>(bytes: usize, input: EndianBuf<Endian>) -> (r: Result<
    (EndianBuf<Endian>, EndianBuf<Endian>),
>)
    ensures
        input@.len() < bytes ==> (r matches Err(e) && e == Error::UnexpectedEof),
        input@.len() >= bytes ==> (r matches Ok(p) && p.0@ == input@.skip(bytes as int) && p.1@
            == input@.take(bytes as int)),
{
    if input.len() < bytes {
        Err(Error::UnexpectedEof)
    } else {
        Ok((input.range_from(bytes), input.range_to(bytes)))
    }
}

/// Parse a length as an unsigned LEB128 from the input, then take that
/// many bytes from the input.  These bytes are returned as the second
/// element of the result tuple.
pub fn parse_length_uleb_value<Endian: Endianity>(input: EndianBuf<Endian>) -> (r: Result<
    (EndianBuf<Endian>, EndianBuf<Endian>),
>)
    ensures
        match leb128::spec_read_unsigned(input@) {
            Ok(vn) => ({
                let rest = input@.skip(vn.1);
                let len = vn.0 as usize as int;
                &&& rest.len() < len ==> (r matches Err(e) && e == Error::UnexpectedEof)
                &&& rest.len() >= len ==> (r matches Ok(p) && p.0@ == rest.skip(len) && p.1@
                    == rest.take(len))
            }),
            Err(e) => r matches Err(pe) && pe == map_unsigned_leb_error(e),
        },
{
    let (rest, len) = match parse_unsigned_leb(input.into_slice()) {
        Ok(p) => p,
        Err(e) => {
            return Err(e);
        },
    };
    take(#[verifier::truncate] (len as usize), EndianBuf::new(rest))
}

} // verus!

verus! {

/// The index of the first zero byte of `s`, or `-1` when `s` holds none.
pub open spec fn first_null(s: Seq<u8>) -> int
    decreases s.len(),
{
    if s.len() == 0 {
        -1
    } else if s[0] == 0 {
        0
    } else {
        let r = first_null(s.skip(1));
        if r < 0 {
            -1
        } else {
            r + 1
        }
    }
}

/// When the bytes of `s` before `k` are all nonzero and the byte at `k` is
/// zero, `k` is the first null.
proof fn lemma_first_null_at(s: Seq<u8>, k: int)
    requires
        0 <= k < s.len(),
        s[k] == 0,
        forall|j: int| 0 <= j < k ==> s[j] != 0,
    ensures
        first_null(s) == k,
    decreases k,
{
    if k > 0 {
        assert forall|j: int| 0 <= j < k - 1 implies s.skip(1)[j] != 0 by {
            assert(s.skip(1)[j] == s[j + 1]);
        }
        assert(s.skip(1)[k - 1] == s[k]);
        lemma_first_null_at(s.skip(1), k - 1);
    }
}

/// When every byte of `s` is nonzero, there is no first null.
proof fn lemma_first_null_none(s: Seq<u8>)
    requires
        forall|j: int| 0 <= j < s.len() ==> s[j] != 0,
    ensures
        first_null(s) < 0,
    decreases s.len(),
{
    if s.len() > 0 {
        assert forall|j: int| 0 <= j < s.len() - 1 implies s.skip(1)[j] != 0 by {
            assert(s.skip(1)[j] == s[j + 1]);
        }
        lemma_first_null_none(s.skip(1));
    }
}

/// Parse a null-terminated sequence of bytes from the input: the string,
/// without its terminator, and the remainder after the terminator.  No
/// byte beyond the first zero is ever part of the string; when no zero
/// byte remains, the parse fails with end-of-input.
pub fn parse_null_terminated_string(input: &[u8]) -> (r: Result<(&[u8], &[u8])>)
    ensures
        first_null(input@) < 0 ==> (r matches Err(e) && e == Error::UnexpectedEof),
        first_null(input@) >= 0 ==> (r matches Ok(p) && p.0@ == input@.skip(first_null(input@) + 1)
            && p.1@ == input@.take(first_null(input@))),
{
    let mut i: usize = 0;
    loop
        invariant
            i <= input@.len(),
            forall|j: int| 0 <= j < i ==> input@[j] != 0,
        decreases input@.len() - i,
    {
        if i >= input.len() {
            proof {
                lemma_first_null_none(input@);
            }
            return Err(Error::UnexpectedEof);
        }
        if input[i] == 0 {
            proof {
                lemma_first_null_at(input@, i as int);
            }
            return Ok(
                (slice_subrange(input, i + 1, input.len()), slice_subrange(input, 0, i)),
            );
        }
        i = i + 1;
    }
}

/// The exclusive upper bound on unit lengths a 32-bit initial-length word
/// can state directly; the values from here up to the escape are reserved.
pub const MAX_DWARF_32_UNIT_LENGTH: u64 = 0xffff_fff0;

/// The escape value of the initial-length word announcing a 64-bit unit
/// length.
pub const DWARF_64_INITIAL_UNIT_LENGTH: u64 = 0xffff_ffff;

/// What parsing an initial length from `s` yields: the unit length, the
/// format it announces, and the number of bytes consumed; or the failure.
pub open spec fn spec_parse_initial_length(s: Seq<u8>, big: bool) -> Result<((u64, Format), int)> {
    if s.len() < 4 {
        Err(Error::UnexpectedEof)
    } else {
        let w = word_value(s.take(4), big);
        if w < MAX_DWARF_32_UNIT_LENGTH {
            Ok(((w as u64, Format::Dwarf32), 4))
        } else if w == DWARF_64_INITIAL_UNIT_LENGTH {
            if s.len() < 12 {
                Err(Error::UnexpectedEof)
            } else {
                Ok(((word_value(s.skip(4).take(8), big) as u64, Format::Dwarf64), 12))
            }
        } else {
            Err(Error::UnknownReservedLength)
        }
    }
}

/// Parse the compilation unit header's length: a 4-byte value that either
/// is the length itself (32-bit format), announces an 8-byte length
/// (64-bit format), or is reserved.
pub fn parse_initial_length<Endian: Endianity>(input: EndianBuf<Endian>) -> (r: Result<
    (EndianBuf<Endian>, (u64, Format)),
>)
    ensures
        match spec_parse_initial_length(input@, Endian::spec_big()) {
            Ok(vn) => r matches Ok(p) && p.1 == vn.0 && p.0@ == input@.skip(vn.1),
            Err(e) => r matches Err(pe) && pe == e,
        },
{
    let (rest, val) = match parse_u32_as_u64(input) {
        Ok(p) => p,
        Err(e) => {
            return Err(e);
        },
    };
    if val < MAX_DWARF_32_UNIT_LENGTH {
        Ok((rest, (val, Format::Dwarf32)))
    } else if val == DWARF_64_INITIAL_UNIT_LENGTH {
        let (rest, val) = match parse_u64(rest) {
            Ok(p) => p,
            Err(e) => {
                return Err(e);
            },
        };
        proof {
            assert(input@.skip(4).take(8) =~= input@.skip(4).take(8));
            assert(input@.skip(4).skip(8) =~= input@.skip(12));
        }
        Ok((rest, (val, Format::Dwarf64)))
    } else {
        Err(Error::UnknownReservedLength)
    }
}

} // verus!

verus! {

/// Parse a DW_EH_PE_* pointer encoding.
pub fn parse_pointer_encoding<Endian: Endianity>(input: EndianBuf<Endian>) -> (r: Result<
    (EndianBuf<Endian>, DwEhPe),
>)
    ensures
        input@.len() == 0 ==> (r matches Err(e) && e == Error::UnexpectedEof),
        input@.len() > 0 && DwEhPe(input@[0]).spec_is_valid_encoding() ==> (r matches Ok(p) && p.0@
            == input@.skip(1) && p.1 == DwEhPe(input@[0])),
        input@.len() > 0 && !DwEhPe(input@[0]).spec_is_valid_encoding() ==> (r matches Err(e) && e
            == Error::UnknownPointerEncoding),
{
    let (rest, eh_pe) = match parse_u8e(input) {
        Ok(p) => p,
        Err(e) => {
            return Err(e);
        },
    };
    let eh_pe = DwEhPe(eh_pe);
    if eh_pe.is_valid_encoding() {
        Ok((rest, eh_pe))
    } else {
        Err(Error::UnknownPointerEncoding)
    }
}

/// A decoded pointer.
#[derive(Debug, Clone, Copy, PartialEq, Eq, Structural)]
pub enum Pointer {
    /// This value is the decoded pointer value.
    Direct(u64),
    /// This value is *not* the pointer value, but points to the address of
    /// where the real pointer value lives.  In other words, deref this
    /// pointer to get the real pointer value.
    ///
    /// Chase this pointer at your own risk: do you trust the DWARF data it
    /// came from?
    Indirect(u64),
}

/// The pointer that wraps `address`: indirect when the descriptor's
/// indirection bit is set, direct otherwise.
pub open spec fn spec_pointer(encoding: DwEhPe, address: u64) -> Pointer {
    if encoding.spec_is_indirect() {
        Pointer::Indirect(address)
    } else {
        Pointer::Direct(address)
    }
}

impl Default for Pointer {
    /// The default pointer is `Direct(0)`.
    fn default() -> (r: Pointer)
        ensures
            r == Pointer::Direct(0u64),
    {
        Pointer::Direct(0)
    }
}

impl Pointer {
    /// Wrap `address` according to the descriptor's indirection bit.
    fn new(encoding: DwEhPe, address: u64) -> (r: Pointer)
        ensures
            r == spec_pointer(encoding, address),
    {
        if encoding.is_indirect() {
            Pointer::Indirect(address)
        } else {
            Pointer::Direct(address)
        }
    }

    /// The raw 64-bit value, whichever variant holds it.
    pub fn into_u64(self) -> (r: u64)
        ensures
            r == (match self {
                Pointer::Direct(p) => p,
                Pointer::Indirect(p) => p,
            }),
    {
        match self {
            Pointer::Direct(p) => p,
            Pointer::Indirect(p) => p,
        }
    }
}

/// 64-bit modular addition: the sum wrapped around at `2^64`.
pub open spec fn spec_wrapping_add(x: u64, y: u64) -> u64 {
    vstd::wrapping::u64_specs::wrapping_add(x, y)
}

/// What decoding the raw stored quantity of an encoded pointer from `s`
/// yields, according to the descriptor's value-format nibble: the quantity
/// (signed variants sign-extended into the 64-bit modular domain) and the
/// number of bytes consumed, or the failure.
pub open spec fn spec_parse_data(encoding: DwEhPe, address_size: u8, s: Seq<u8>, big: bool) -> Result<
    (u64, int),
>
    recommends
        encoding.spec_format_ok(),
{
    let f = encoding.spec_format();
    if f == 0x00 {
        spec_parse_address(s, address_size, big)
    } else if f == 0x01 {
        match leb128::spec_read_unsigned(s) {
            Ok(vn) => Ok(vn),
            Err(e) => Err(map_unsigned_leb_error(e)),
        }
    } else if f == 0x02 {
        if s.len() < 2 {
            Err(Error::UnexpectedEof)
        } else {
            Ok((word_value(s.take(2), big) as u64, 2))
        }
    } else if f == 0x03 {
        if s.len() < 4 {
            Err(Error::UnexpectedEof)
        } else {
            Ok((word_value(s.take(4), big) as u64, 4))
        }
    } else if f == 0x04 {
        if s.len() < 8 {
            Err(Error::UnexpectedEof)
        } else {
            Ok((word_value(s.take(8), big) as u64, 8))
        }
    } else if f == 0x09 {
        match leb128::spec_read_signed(s) {
            Ok(vn) => Ok((vn.0 as u64, vn.1)),
            Err(e) => Err(map_signed_leb_error(e)),
        }
    } else if f == 0x0a {
        if s.len() < 2 {
            Err(Error::UnexpectedEof)
        } else {
            Ok((signed_word_value(s.take(2), big) as u64, 2))
        }
    } else if f == 0x0b {
        if s.len() < 4 {
            Err(Error::UnexpectedEof)
        } else {
            Ok((signed_word_value(s.take(4), big) as u64, 4))
        }
    } else {
        if s.len() < 8 {
            Err(Error::UnexpectedEof)
        } else {
            Ok((signed_word_value(s.take(8), big) as u64, 8))
        }
    }
}

/// Decode the raw stored quantity of an encoded pointer according to the
/// descriptor's value-format nibble.  Signed variants are sign extended;
/// the resolver later combines them with bases by modular addition.
fn parse_data<Endian: Endianity>(encoding: DwEhPe, address_size: u8, input: EndianBuf<Endian>) -> (r:
    Result<(EndianBuf<Endian>, u64)>)
    requires
        encoding.spec_format_ok(),
    ensures
        match spec_parse_data(encoding, address_size, input@, Endian::spec_big()) {
            Ok(vn) => r matches Ok(p) && p.1 == vn.0 && p.0@ == input@.skip(vn.1),
            Err(e) => r matches Err(pe) && pe == e,
        },
{
    let format = encoding.format();
    if format.0 == 0x00 {
        match parse_address(input, address_size) {
            Ok((rest, a)) => Ok((rest, a)),
            Err(e) => Err(e),
        }
    } else if format.0 == 0x01 {
        match parse_unsigned_lebe(input) {
            Ok((rest, a)) => Ok((rest, a)),
            Err(e) => Err(e),
        }
    } else if format.0 == 0x02 {
        match parse_u16(input) {
            Ok((rest, a)) => Ok((rest, a as u64)),
            Err(e) => Err(e),
        }
    } else if format.0 == 0x03 {
        match parse_u32(input) {
            Ok((rest, a)) => Ok((rest, a as u64)),
            Err(e) => Err(e),
        }
    } else if format.0 == 0x04 {
        match parse_u64(input) {
            Ok((rest, a)) => Ok((rest, a)),
            Err(e) => Err(e),
        }
    } else if format.0 == 0x09 {
        match parse_signed_lebe(input) {
            Ok((rest, a)) => Ok((rest, #[verifier::truncate] (a as u64))),
            Err(e) => Err(e),
        }
    } else if format.0 == 0x0a {
        match parse_i16(input) {
            Ok((rest, a)) => Ok((rest, #[verifier::truncate] (a as u64))),
            Err(e) => Err(e),
        }
    } else if format.0 == 0x0b {
        match parse_i32(input) {
            Ok((rest, a)) => Ok((rest, #[verifier::truncate] (a as u64))),
            Err(e) => Err(e),
        }
    } else {
        match parse_i64(input) {
            Ok((rest, a)) => Ok((rest, #[verifier::truncate] (a as u64))),
            Err(e) => Err(e),
        }
    }
}

/// What resolving an encoded pointer yields: the pointer and the number of
/// input bytes consumed, or the failure.
///
/// An invalid descriptor is rejected before any byte is consumed; the
/// `omit` sentinel yields `Direct(0)` and consumes nothing; otherwise the
/// raw stored quantity is decoded per the value format and combined with
/// the base selected by the application, by 64-bit modular addition.  A
/// relative application whose base is absent is a hard failure, reported
/// before the stored bytes are touched; the `aligned` application is
/// recognized but unsupported.  For the program-counter-relative
/// application the quantity is further offset by the distance between the
/// cursor and the start of the enclosing section.
pub open spec fn spec_parse_encoded_pointer(
    encoding: DwEhPe,
    bases: BaseAddresses,
    address_size: u8,
    section: Seq<u8>,
    s: Seq<u8>,
    big: bool,
) -> Result<(Pointer, int)> {
    if !encoding.spec_is_valid_encoding() {
        Err(Error::UnknownPointerEncoding)
    } else if encoding.0 == DW_EH_PE_omit {
        Ok((Pointer::Direct(0), 0))
    } else {
        let a = encoding.spec_application();
        if a == 0x00 {
            match spec_parse_data(encoding, address_size, s, big) {
                Ok(vn) => Ok((spec_pointer(encoding, vn.0), vn.1)),
                Err(e) => Err(e),
            }
        } else if a == 0x10 {
            match bases.cfi {
                None => Err(Error::CfiRelativePointerButCfiBaseIsUndefined),
                Some(cfi) => match spec_parse_data(encoding, address_size, s, big) {
                    Ok(vn) => Ok(
                        (
                            spec_pointer(
                                encoding,
                                spec_wrapping_add(
                                    spec_wrapping_add(cfi, (section.len() - s.len()) as u64),
                                    vn.0,
                                ),
                            ),
                            vn.1,
                        ),
                    ),
                    Err(e) => Err(e),
                },
            }
        } else if a == 0x20 {
            match bases.text {
                None => Err(Error::TextRelativePointerButTextBaseIsUndefined),
                Some(text) => match spec_parse_data(encoding, address_size, s, big) {
                    Ok(vn) => Ok((spec_pointer(encoding, spec_wrapping_add(text, vn.0)), vn.1)),
                    Err(e) => Err(e),
                },
            }
        } else if a == 0x30 {
            match bases.data {
                None => Err(Error::DataRelativePointerButDataBaseIsUndefined),
                Some(data) => match spec_parse_data(encoding, address_size, s, big) {
                    Ok(vn) => Ok((spec_pointer(encoding, spec_wrapping_add(data, vn.0)), vn.1)),
                    Err(e) => Err(e),
                },
            }
        } else if a == 0x40 {
            match bases.func {
                None => Err(Error::FuncRelativePointerInBadContext),
                Some(func) => match spec_parse_data(encoding, address_size, s, big) {
                    Ok(vn) => Ok((spec_pointer(encoding, spec_wrapping_add(func, vn.0)), vn.1)),
                    Err(e) => Err(e),
                },
            }
        } else {
            Err(Error::UnsupportedPointerEncoding)
        }
    }
}

/// Resolve an encoded pointer: reject invalid descriptors, decode the raw
/// stored quantity, and combine it with the required base by modular
/// addition, or fail when that base is absent.
///
/// `section` must enclose `input` for the program-counter-relative
/// application: the stored quantity is relative to the position of the
/// encoded bytes, measured from the start of the section.
pub fn parse_encoded_pointer<'bases, 'input, Endian: Endianity>(
    encoding: DwEhPe,
    bases: &'bases BaseAddresses,
    address_size: u8,
    section: EndianBuf<'input, Endian>,
    input: EndianBuf<'input, Endian>,
) -> (r: Result<(EndianBuf<'input, Endian>, Pointer)>)
    requires
        (encoding.spec_is_valid_encoding() && encoding.0 != DW_EH_PE_omit
            && encoding.spec_application() == 0x10) ==> input@.len() <= section@.len(),
    ensures
        match spec_parse_encoded_pointer(
            encoding,
            *bases,
            address_size,
            section@,
            input@,
            Endian::spec_big(),
        ) {
            Ok(vn) => r matches Ok(p) && p.1 == vn.0 && p.0@ == input@.skip(vn.1),
            Err(e) => r matches Err(pe) && pe == e,
        },
{
    if !encoding.is_valid_encoding() {
        return Err(Error::UnknownPointerEncoding);
    }
    if encoding.0 == DW_EH_PE_omit {
        proof {
            assert(input@.skip(0) =~= input@);
        }
        return Ok((input, Pointer::Direct(0)));
    }
    let application = encoding.application();
    if application.0 == 0x00 {
        match parse_data(encoding, address_size, input) {
            Ok((rest, addr)) => Ok((rest, Pointer::new(encoding, addr))),
            Err(e) => Err(e),
        }
    } else if application.0 == 0x10 {
        match bases.cfi {
            Some(cfi) => {
                match parse_data(encoding, address_size, input) {
                    Ok((rest, offset)) => {
                        let offset_from_section = section.len() - input.len();
                        let p = cfi.wrapping_add(offset_from_section as u64).wrapping_add(offset);
                        Ok((rest, Pointer::new(encoding, p)))
                    },
                    Err(e) => Err(e),
                }
            },
            None => Err(Error::CfiRelativePointerButCfiBaseIsUndefined),
        }
    } else if application.0 == 0x20 {
        match bases.text {
            Some(text) => {
                match parse_data(encoding, address_size, input) {
                    Ok((rest, offset)) => Ok((rest, Pointer::new(encoding, text.wrapping_add(offset)))),
                    Err(e) => Err(e),
                }
            },
            None => Err(Error::TextRelativePointerButTextBaseIsUndefined),
        }
    } else if application.0 == 0x30 {
        match bases.data {
            Some(data) => {
                match parse_data(encoding, address_size, input) {
                    Ok((rest, offset)) => Ok((rest, Pointer::new(encoding, data.wrapping_add(offset)))),
                    Err(e) => Err(e),
                }
            },
            None => Err(Error::DataRelativePointerButDataBaseIsUndefined),
        }
    } else if application.0 == 0x40 {
        match bases.func {
            Some(func) => {
                match parse_data(encoding, address_size, input) {
                    Ok((rest, offset)) => Ok((rest, Pointer::new(encoding, func.wrapping_add(offset)))),
                    Err(e) => Err(e),
                }
            },
            None => Err(Error::FuncRelativePointerInBadContext),
        }
    } else {
        Err(Error::UnsupportedPointerEncoding)
    }
}

} // verus!

verus! {

impl Error {
    /// The short description of this error kind.
    pub open spec fn spec_description(self) -> &'static str {
        match self {
            Error::CfiRelativePointerButCfiBaseIsUndefined => "Found a CFI relative pointer, but the CFI base is undefined.",
            Error::TextRelativePointerButTextBaseIsUndefined => "Found a `.text` relative pointer, but the `.text` base is undefined.",
            Error::DataRelativePointerButDataBaseIsUndefined => "Found a `.data` relative pointer, but the `.data` base is undefined.",
            Error::FuncRelativePointerInBadContext => "Found a function relative pointer in a context that does not have a function base.",
            Error::BadUnsignedLeb128 => "An error parsing an unsigned LEB128 value",
            Error::BadSignedLeb128 => "An error parsing a signed LEB128 value",
            Error::AbbreviationTagZero => "An abbreviation declared that its tag is zero, but zero is reserved for null records",
            Error::AttributeFormZero => "An attribute specification declared that its form is zero, but zero is reserved for null records",
            Error::BadHasChildren => "The abbreviation's has-children byte was not one of `DW_CHILDREN_{yes,no}`",
            Error::BadLength => "The specified length is impossible",
            Error::UnknownForm => "Found an unknown `DW_FORM_*` type",
            Error::ExpectedZero => "Expected a zero, found something else",
            Error::DuplicateAbbreviationCode => "Found an abbreviation code that has already been used",
            Error::DuplicateArange => "Found a duplicate arange",
            Error::UnknownReservedLength => "Found an unknown reserved length value",
            Error::UnknownVersion => "Found an unknown DWARF version",
            Error::UnitHeaderLengthTooShort => "The unit header's claimed length is too short to even hold the header itself",
            Error::UnknownAbbreviation => "Found a record with an unknown abbreviation code",
            Error::UnexpectedEof => "Hit the end of input before it was expected",
            Error::UnexpectedNull => "Read a null entry before it was expected.",
            Error::UnknownStandardOpcode(_) => "Found an unknown standard opcode",
            Error::UnknownExtendedOpcode(_) => "Found an unknown extended opcode",
            Error::UnsupportedAddressSize(_) => "The specified address size is not supported",
            Error::UnsupportedFieldSize(_) => "The specified field size is not supported",
            Error::MinimumInstructionLengthZero => "The minimum instruction length must not be zero.",
            Error::MaximumOperationsPerInstructionZero => "The maximum operations per instruction must not be zero.",
            Error::LineRangeZero => "The line range must not be zero.",
            Error::OpcodeBaseZero => "The opcode base must not be zero.",
            Error::BadUtf8 => "Found an invalid UTF-8 string.",
            Error::NotCieId => "Expected to find the CIE ID, but found something else.",
            Error::NotCiePointer => "Expected to find a CIE pointer, but found the CIE ID instead.",
            Error::BadBranchTarget(_) => "Invalid branch target in DWARF expression",
            Error::InvalidPushObjectAddress => "DW_OP_push_object_address used but no object address given",
            Error::NotEnoughStackItems => "Not enough items on stack when evaluating expression",
            Error::TooManyIterations => "Too many iterations to evaluate DWARF expression",
            Error::InvalidExpression(_) => "Invalid opcode in DWARF expression",
            Error::InvalidPiece => "DWARF expression has piece followed by non-piece expression at end",
            Error::InvalidExpressionTerminator(_) => "Expected DW_OP_piece or DW_OP_bit_piece",
            Error::DivisionByZero => "Division or modulus by zero when evaluating expression",
            Error::TypeMismatch => "Type mismatch when evaluating expression",
            Error::IntegralTypeRequired => "Integral type expected when evaluating expression",
            Error::UnknownCallFrameInstruction(_) => "An unknown DW_CFA_* instructiion",
            Error::InvalidAddressRange => "The end of an address range must not be before the beginning.",
            Error::InvalidLocationAddressRange => "The end offset of a location list entry must not be before the beginning.",
            Error::CfiInstructionInInvalidContext => "Encountered a call frame instruction in a context in which it is not valid.",
            Error::PopWithEmptyStack => "When evaluating call frame instructions, found a `DW_CFA_restore_state` stack pop instruction, but the stack was empty, and had nothing to pop.",
            Error::NoUnwindInfoForAddress => "Do not have unwind info for the given address.",
            Error::UnsupportedOffset => "An offset value was larger than the maximum supported value.",
            Error::UnknownPointerEncoding => "The given pointer encoding is either unknown or invalid.",
            Error::NoEntryAtGivenOffset => "Did not find an entry at the given offset.",
            Error::OffsetOutOfBounds => "The given offset is out of bounds.",
            Error::UnknownAugmentation => "Found an unknown CFI augmentation.",
            Error::UnsupportedPointerEncoding => "We do not support the given pointer encoding yet.",
            Error::CannotFitInU8 => "We tried to convert some number into a `u8`, but it was too large.",
            Error::TooManyRegisterRules => "The CFI program defined more register rules than we have storage for.",
            Error::CfiStackFull => "Attempted to push onto the CFI stack, but it was already at full capacity.",
        }
    }

    /// A short description of the error, one fixed string per kind.
    pub fn description(&self) -> (r: &'static str)
        ensures
            r == self.spec_description(),
    {
        match *self {
            Error::CfiRelativePointerButCfiBaseIsUndefined => "Found a CFI relative pointer, but the CFI base is undefined.",
            Error::TextRelativePointerButTextBaseIsUndefined => "Found a `.text` relative pointer, but the `.text` base is undefined.",
            Error::DataRelativePointerButDataBaseIsUndefined => "Found a `.data` relative pointer, but the `.data` base is undefined.",
            Error::FuncRelativePointerInBadContext => "Found a function relative pointer in a context that does not have a function base.",
            Error::BadUnsignedLeb128 => "An error parsing an unsigned LEB128 value",
            Error::BadSignedLeb128 => "An error parsing a signed LEB128 value",
            Error::AbbreviationTagZero => "An abbreviation declared that its tag is zero, but zero is reserved for null records",
            Error::AttributeFormZero => "An attribute specification declared that its form is zero, but zero is reserved for null records",
            Error::BadHasChildren => "The abbreviation's has-children byte was not one of `DW_CHILDREN_{yes,no}`",
            Error::BadLength => "The specified length is impossible",
            Error::UnknownForm => "Found an unknown `DW_FORM_*` type",
            Error::ExpectedZero => "Expected a zero, found something else",
            Error::DuplicateAbbreviationCode => "Found an abbreviation code that has already been used",
            Error::DuplicateArange => "Found a duplicate arange",
            Error::UnknownReservedLength => "Found an unknown reserved length value",
            Error::UnknownVersion => "Found an unknown DWARF version",
            Error::UnitHeaderLengthTooShort => "The unit header's claimed length is too short to even hold the header itself",
            Error::UnknownAbbreviation => "Found a record with an unknown abbreviation code",
            Error::UnexpectedEof => "Hit the end of input before it was expected",
            Error::UnexpectedNull => "Read a null entry before it was expected.",
            Error::UnknownStandardOpcode(_) => "Found an unknown standard opcode",
            Error::UnknownExtendedOpcode(_) => "Found an unknown extended opcode",
            Error::UnsupportedAddressSize(_) => "The specified address size is not supported",
            Error::UnsupportedFieldSize(_) => "The specified field size is not supported",
            Error::MinimumInstructionLengthZero => "The minimum instruction length must not be zero.",
            Error::MaximumOperationsPerInstructionZero => "The maximum operations per instruction must not be zero.",
            Error::LineRangeZero => "The line range must not be zero.",
            Error::OpcodeBaseZero => "The opcode base must not be zero.",
            Error::BadUtf8 => "Found an invalid UTF-8 string.",
            Error::NotCieId => "Expected to find the CIE ID, but found something else.",
            Error::NotCiePointer => "Expected to find a CIE pointer, but found the CIE ID instead.",
            Error::BadBranchTarget(_) => "Invalid branch target in DWARF expression",
            Error::InvalidPushObjectAddress => "DW_OP_push_object_address used but no object address given",
            Error::NotEnoughStackItems => "Not enough items on stack when evaluating expression",
            Error::TooManyIterations => "Too many iterations to evaluate DWARF expression",
            Error::InvalidExpression(_) => "Invalid opcode in DWARF expression",
            Error::InvalidPiece => "DWARF expression has piece followed by non-piece expression at end",
            Error::InvalidExpressionTerminator(_) => "Expected DW_OP_piece or DW_OP_bit_piece",
            Error::DivisionByZero => "Division or modulus by zero when evaluating expression",
            Error::TypeMismatch => "Type mismatch when evaluating expression",
            Error::IntegralTypeRequired => "Integral type expected when evaluating expression",
            Error::UnknownCallFrameInstruction(_) => "An unknown DW_CFA_* instructiion",
            Error::InvalidAddressRange => "The end of an address range must not be before the beginning.",
            Error::InvalidLocationAddressRange => "The end offset of a location list entry must not be before the beginning.",
            Error::CfiInstructionInInvalidContext => "Encountered a call frame instruction in a context in which it is not valid.",
            Error::PopWithEmptyStack => "When evaluating call frame instructions, found a `DW_CFA_restore_state` stack pop instruction, but the stack was empty, and had nothing to pop.",
            Error::NoUnwindInfoForAddress => "Do not have unwind info for the given address.",
            Error::UnsupportedOffset => "An offset value was larger than the maximum supported value.",
            Error::UnknownPointerEncoding => "The given pointer encoding is either unknown or invalid.",
            Error::NoEntryAtGivenOffset => "Did not find an entry at the given offset.",
            Error::OffsetOutOfBounds => "The given offset is out of bounds.",
            Error::UnknownAugmentation => "Found an unknown CFI augmentation.",
            Error::UnsupportedPointerEncoding => "We do not support the given pointer encoding yet.",
            Error::CannotFitInU8 => "We tried to convert some number into a `u8`, but it was too large.",
            Error::TooManyRegisterRules => "The CFI program defined more register rules than we have storage for.",
            Error::CfiStackFull => "Attempted to push onto the CFI stack, but it was already at full capacity.",
        }
    }
}

} // verus!

verus! {

/// Initial-length round trip, 32-bit form: a 4-byte word below the
/// reserved range, followed by anything, decodes to itself with the
/// 32-bit format, consuming the word.
pub proof fn lemma_initial_length_round_trip_32(l: u64, rest: Seq<u8>, big: bool)
    requires
        l < MAX_DWARF_32_UNIT_LENGTH,
    ensures
        spec_parse_initial_length(word_bytes(l as nat, 4, big) + rest, big) == Ok::<
            ((u64, Format), int),
            Error,
        >(((l, Format::Dwarf32), 4)),
{
    let e = word_bytes(l as nat, 4, big);
    lemma_pow256_values();
    lemma_word_bytes_value(l as nat, 4, big);
    let s = e + rest;
    assert(s.take(4) =~= e);
}

/// Initial-length round trip, 64-bit form: the 4-byte escape word followed
/// by an 8-byte length, followed by anything, decodes to that length with
/// the 64-bit format, consuming both words.
pub proof fn lemma_initial_length_round_trip_64(v: u64, rest: Seq<u8>, big: bool)
    ensures
        ({
            let s = word_bytes(0xffff_ffff as nat, 4, big) + word_bytes(v as nat, 8, big) + rest;
            spec_parse_initial_length(s, big) == Ok::<((u64, Format), int), Error>(
                ((v, Format::Dwarf64), 12),
            )
        }),
{
    let e4 = word_bytes(0xffff_ffff as nat, 4, big);
    let e8 = word_bytes(v as nat, 8, big);
    lemma_pow256_values();
    lemma_word_bytes_value(0xffff_ffff as nat, 4, big);
    lemma_word_bytes_value(v as nat, 8, big);
    let s = e4 + e8 + rest;
    assert(s.take(4) =~= e4);
    assert(s.skip(4).take(8) =~= e8);
}

/// Any 4-byte word in the reserved range decodes to the unknown-reserved-
/// length failure.
pub proof fn lemma_initial_length_reserved(s: Seq<u8>, big: bool)
    requires
        s.len() >= 4,
        MAX_DWARF_32_UNIT_LENGTH <= word_value(s.take(4), big) < DWARF_64_INITIAL_UNIT_LENGTH,
    ensures
        spec_parse_initial_length(s, big) == Err::<((u64, Format), int), Error>(
            Error::UnknownReservedLength,
        ),
{
}

} // verus!
