//! Constants and newtypes for the raw opcode and encoding bytes that appear
//! in DWARF sections, in particular the `DW_EH_PE_*` pointer-encoding
//! descriptor used by `.eh_frame`-style augmentation data.

#![allow(non_upper_case_globals)]

use vstd::prelude::*;

verus! {

/// A DWARF standard line-number opcode, `DW_LNS_*`.
#[derive(Debug, Clone, Copy, PartialEq, Eq, Structural)]
pub struct DwLns(pub u8);

/// A DWARF extended line-number opcode, `DW_LNE_*`.
#[derive(Debug, Clone, Copy, PartialEq, Eq, Structural)]
pub struct DwLne(pub u8);

/// A DWARF expression operation, `DW_OP_*`.
#[derive(Debug, Clone, Copy, PartialEq, Eq, Structural)]
pub struct DwOp(pub u8);

/// A DWARF call-frame instruction, `DW_CFA_*`.
#[derive(Debug, Clone, Copy, PartialEq, Eq, Structural)]
pub struct DwCfa(pub u8);

/// An exception-handling pointer-encoding descriptor byte, `DW_EH_PE_*`.
///
/// The low nibble selects the value format (how the raw quantity is stored),
/// the bits `0x70` select the application (which base address the quantity
/// is relative to), and bit `0x80` flags indirection.
#[derive(Debug, Clone, Copy, PartialEq, Eq, Structural)]
pub struct DwEhPe(pub u8);

/// The value is an absolute, address-sized quantity; as an application,
/// the decoded quantity needs no base at all.
pub const DW_EH_PE_absptr: u8 = 0x00;

/// The value is an unsigned LEB128 quantity.
pub const DW_EH_PE_uleb128: u8 = 0x01;

/// The value is an unsigned 2-byte quantity.
pub const DW_EH_PE_udata2: u8 = 0x02;

/// The value is an unsigned 4-byte quantity.
pub const DW_EH_PE_udata4: u8 = 0x03;

/// The value is an unsigned 8-byte quantity.
pub const DW_EH_PE_udata8: u8 = 0x04;

/// The value is a signed LEB128 quantity.
pub const DW_EH_PE_sleb128: u8 = 0x09;

/// The value is a signed 2-byte quantity.
pub const DW_EH_PE_sdata2: u8 = 0x0a;

/// The value is a signed 4-byte quantity.
pub const DW_EH_PE_sdata4: u8 = 0x0b;

/// The value is a signed 8-byte quantity.
pub const DW_EH_PE_sdata8: u8 = 0x0c;

/// The decoded quantity is relative to the program counter, that is to the
/// position of the encoded bytes within their section.
pub const DW_EH_PE_pcrel: u8 = 0x10;

/// The decoded quantity is relative to the start of the `.text` segment.
pub const DW_EH_PE_textrel: u8 = 0x20;

/// The decoded quantity is relative to the start of the data segment.
pub const DW_EH_PE_datarel: u8 = 0x30;

/// The decoded quantity is relative to the start of the enclosing function.
pub const DW_EH_PE_funcrel: u8 = 0x40;

/// The decoded quantity is aligned to an address-sized boundary.
pub const DW_EH_PE_aligned: u8 = 0x50;

/// The resolved address is the location where the real pointer is stored.
pub const DW_EH_PE_indirect: u8 = 0x80;

/// The sentinel descriptor: no pointer is present at all.
pub const DW_EH_PE_omit: u8 = 0xff;

impl DwEhPe {
    /// The value-format nibble of the descriptor.
    pub open spec fn spec_format(self) -> u8 {
        self.0 & 0x0f
    }

    /// The application bits of the descriptor.
    pub open spec fn spec_application(self) -> u8 {
        self.0 & 0x70
    }

    /// Whether the indirection bit of the descriptor is set.
    pub open spec fn spec_is_indirect(self) -> bool {
        self.0 & 0x80 != 0
    }

    /// Whether the value-format nibble is one of the allow-listed formats.
    pub open spec fn spec_format_ok(self) -> bool {
        ||| self.spec_format() == 0x00
        ||| self.spec_format() == 0x01
        ||| self.spec_format() == 0x02
        ||| self.spec_format() == 0x03
        ||| self.spec_format() == 0x04
        ||| self.spec_format() == 0x09
        ||| self.spec_format() == 0x0a
        ||| self.spec_format() == 0x0b
        ||| self.spec_format() == 0x0c
    }

    /// Whether the application bits are one of the allow-listed applications.
    pub open spec fn spec_application_ok(self) -> bool {
        ||| self.spec_application() == 0x00
        ||| self.spec_application() == 0x10
        ||| self.spec_application() == 0x20
        ||| self.spec_application() == 0x30
        ||| self.spec_application() == 0x40
        ||| self.spec_application() == 0x50
    }

    /// A descriptor byte is valid when it is the `omit` sentinel, or when
    /// both its value-format nibble and its application bits come from the
    /// respective allow-lists (the indirection bit is free either way).
    pub open spec fn spec_is_valid_encoding(self) -> bool {
        ||| self.0 == DW_EH_PE_omit
        ||| (self.spec_format_ok() && self.spec_application_ok())
    }

    /// Extract the value format: the low nibble of the descriptor.
    pub fn format(&self) -> (r: DwEhPe)
        ensures
            r.0 == self.spec_format(),
    {
        DwEhPe(self.0 & 0x0f)
    }

    /// Extract the application: bits `0x70` of the descriptor.
    pub fn application(&self) -> (r: DwEhPe)
        ensures
            r.0 == self.spec_application(),
    {
        DwEhPe(self.0 & 0x70)
    }

    /// Whether the indirection bit is set.
    pub fn is_indirect(&self) -> (r: bool)
        ensures
            r == self.spec_is_indirect(),
    {
        self.0 & 0x80 != 0
    }

    /// Whether this descriptor byte is in the allow-list of valid encodings.
    pub fn is_valid_encoding(&self) -> (r: bool)
        ensures
            r == self.spec_is_valid_encoding(),
    {
        if self.0 == DW_EH_PE_omit {
            return true;
        }
        let format = self.0 & 0x0f;
        let format_ok = format == 0x00 || format == 0x01 || format == 0x02 || format == 0x03
            || format == 0x04 || format == 0x09 || format == 0x0a || format == 0x0b || format
            == 0x0c;
        let application = self.0 & 0x70;
        let application_ok = application == 0x00 || application == 0x10 || application == 0x20
            || application == 0x30 || application == 0x40 || application == 0x50;
        format_ok && application_ok
    }
}

} // verus!
