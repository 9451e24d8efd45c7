//! The abbreviation data model: the shape of debugging-information entry
//! types, as declared in the `.debug_abbrev` section.

use vstd::prelude::*;
use std::collections::HashMap;

verus! {

broadcast use vstd::std_specs::hash::group_hash_axioms;

/// Abbreviation tag types, aka `DW_TAG_whatever` in the standard.
#[derive(Debug, Clone, Copy, PartialEq, Eq, Structural)]
#[allow(missing_docs)]
pub enum AbbreviationTag {
    ArrayType,
    ClassType,
    EntryPoint,
    EnumerationType,
    FormalParameter,
    ImportedDeclaration,
    Label,
    LexicalBlock,
    Member,
    PointerType,
    ReferenceType,
    CompileUnit,
    StringType,
    StructureType,
    SubroutineType,
    Typedef,
    UnionType,
    UnspecifiedParameters,
    Variant,
    CommonBlock,
    CommonInclusion,
    Inheritance,
    InlinedSubroutine,
    Module,
    PtrToMemberType,
    SetType,
    SubrangeType,
    WithStmt,
    AccessDeclaration,
    BaseType,
    CatchBlock,
    ConstType,
    Constant,
    Enumerator,
    FileType,
    Friend,
    Namelist,
    NamelistItem,
    PackedType,
    Subprogram,
    TemplateTypeParameter,
    TemplateValueParameter,
    ThrownType,
    TryBlock,
    VariantPart,
    Variable,
    VolatileType,
    DwarfProcedure,
    RestrictType,
    InterfaceType,
    Namespace,
    ImportedModule,
    UnspecifiedType,
    PartialUnit,
    ImportedUnit,
    Condition,
    SharedType,
    TypeUnit,
    RvalueReferenceType,
    TemplateAlias,
    LoUser,
    HiUser,
}

/// Whether an abbreviation's type has children or not, aka
/// `DW_CHILDREN_{yes,no}` in the standard.
#[derive(Debug, Clone, Copy, PartialEq, Eq, Structural)]
pub enum AbbreviationHasChildren {
    /// The type has children.
    Yes,
    /// The type does not have children.
    No,
}

/// The set of possible attribute names, aka `DW_AT_whatever` in the
/// standard.
#[derive(Debug, Clone, Copy, PartialEq, Eq, Structural)]
#[allow(missing_docs)]
pub enum AttributeName {
    Sibling,
    Location,
    Name,
    Ordering,
    ByteSize,
    BitOffset,
    BitSize,
    StmtList,
    LowPc,
    HighPc,
    Language,
    Discr,
    DiscrValue,
    Visibility,
    Import,
    StringLength,
    CommonReference,
    CompDir,
    ConstValue,
    ContainingType,
    DefaultValue,
    Inline,
    IsOptional,
    LowerBound,
    Producer,
    Prototyped,
    ReturnAddr,
    StartScope,
    BitStride,
    UpperBound,
    AbstractOrigin,
    Accessibility,
    AddressClass,
    Artificial,
    BaseTypes,
    CallingConvention,
    Count,
    DataMemberLocation,
    DeclColumn,
    DeclFile,
    DeclLine,
    Declaration,
    DiscrList,
    Encoding,
    External,
    FrameBase,
    Friend,
    IdentifierCase,
    MacroInfo,
    NamelistItem,
    Priority,
    Segment,
    Specification,
    StaticLink,
    Type,
    UseLocation,
    VariableParameter,
    Virtuality,
    VtableElemLocation,
    Allocated,
    Associated,
    DataLocation,
    ByteStride,
    EntryPc,
    UseUtf8,
    Extension,
    Ranges,
    Trampoline,
    CallColumn,
    CallFile,
    CallLine,
    Description,
    BinaryScale,
    DecimalScale,
    Small,
    DecimalSign,
    DigitCount,
    PictureString,
    Mutable,
    ThreadsScaled,
    Explicit,
    ObjectPointer,
    Endianity,
    Elemental,
    Pure,
    Recursive,
    Signature,
    MainSubprogram,
    DataBitOffset,
    ConstExpr,
    EnumClass,
    LinkageName,
    LoUser,
    HiUser,
}

/// The type and encoding of an attribute, aka `DW_FORM_whatever` in the
/// standard.
#[derive(Debug, Clone, Copy, PartialEq, Eq, Structural)]
#[allow(missing_docs)]
pub enum AttributeForm {
    Addr,
    Block2,
    Block4,
    Data2,
    Data4,
    Data8,
    String,
    Block,
    Block1,
    Data1,
    Flag,
    Sdata,
    Strp,
    Udata,
    RefAddr,
    Ref1,
    Ref2,
    Ref4,
    Ref8,
    RefUdata,
    Indirect,
    SecOffset,
    Exprloc,
    FlagPresent,
    RefSig8,
}

/// The description of an attribute in an abbreviated type.  It is a pair
/// of name and form.
#[derive(Debug, Clone, Copy, PartialEq, Eq, Structural)]
pub struct AttributeSpecification {
    name: AttributeName,
    form: AttributeForm,
}

impl AttributeSpecification {
    /// The attribute's name.
    pub closed spec fn spec_name(self) -> AttributeName {
        self.name
    }

    /// The attribute's form.
    pub closed spec fn spec_form(self) -> AttributeForm {
        self.form
    }

    /// Construct a new `AttributeSpecification` from the given name and
    /// form.
    pub fn new(name: AttributeName, form: AttributeForm) -> (r: AttributeSpecification)
        ensures
            r.spec_name() == name,
            r.spec_form() == form,
    {
        AttributeSpecification { name, form }
    }

    /// Get the attribute's name.
    pub fn name(&self) -> (r: AttributeName)
        ensures
            r == self.spec_name(),
    {
        self.name
    }

    /// Get the attribute's form.
    pub fn form(&self) -> (r: AttributeForm)
        ensures
            r == self.spec_form(),
    {
        self.form
    }
}

/// An abbreviation describes the shape of a DIE type: its code, tag type,
/// whether it has children, and its set of attributes.
#[derive(Debug, Clone, PartialEq, Eq)]
pub struct Abbreviation {
    code: u64,
    tag: AbbreviationTag,
    has_children: AbbreviationHasChildren,
    attributes: Vec<AttributeSpecification>,
}

impl Abbreviation {
    /// The abbreviation's code.
    pub closed spec fn spec_code(self) -> u64 {
        self.code
    }

    /// The abbreviation's tag.
    pub closed spec fn spec_tag(self) -> AbbreviationTag {
        self.tag
    }

    /// The abbreviation's has-children flag.
    pub closed spec fn spec_has_children(self) -> AbbreviationHasChildren {
        self.has_children
    }

    /// The abbreviation's attribute specifications, in order.
    pub closed spec fn spec_attributes(self) -> Seq<AttributeSpecification> {
        self.attributes@
    }

    /// Construct a new `Abbreviation`.  A code of zero is reserved for
    /// null records, so `code` must be nonzero.
    pub fn new(
        code: u64,
        tag: AbbreviationTag,
        has_children: AbbreviationHasChildren,
        attributes: Vec<AttributeSpecification>,
    ) -> (r: Abbreviation)
        requires
            code != 0,
        ensures
            r.spec_code() == code,
            r.spec_tag() == tag,
            r.spec_has_children() == has_children,
            r.spec_attributes() == attributes@,
    {
        Abbreviation { code, tag, has_children, attributes }
    }

    /// Get this abbreviation's code.
    pub fn code(&self) -> (r: u64)
        ensures
            r == self.spec_code(),
    {
        self.code
    }

    /// Get this abbreviation's tag.
    pub fn tag(&self) -> (r: AbbreviationTag)
        ensures
            r == self.spec_tag(),
    {
        self.tag
    }

    /// Return true if this abbreviation's type has children, false
    /// otherwise.
    pub fn has_children(&self) -> (r: bool)
        ensures
            r == (self.spec_has_children() == AbbreviationHasChildren::Yes),
    {
        match self.has_children {
            AbbreviationHasChildren::Yes => true,
            AbbreviationHasChildren::No => false,
        }
    }

    /// Get this abbreviation's attributes.
    pub fn attributes(&self) -> (r: &[AttributeSpecification])
        ensures
            r@ == self.spec_attributes(),
    {
        self.attributes.as_slice()
    }
}

/// A set of type abbreviations, keyed by their codes.
#[derive(Debug, Clone)]
pub struct Abbreviations {
    abbrevs: HashMap<u64, Abbreviation>,
}

impl Abbreviations {
    /// The mapping from code to abbreviation.
    pub closed spec fn spec_abbrevs(self) -> Map<u64, Abbreviation> {
        self.abbrevs@
    }

    /// Construct a new, empty set of abbreviations.
    pub fn new() -> (r: Abbreviations)
        ensures
            r.spec_abbrevs() == Map::<u64, Abbreviation>::empty(),
    {
        Abbreviations { abbrevs: HashMap::new() }
    }

    /// Insert an abbreviation into the set.
    ///
    /// Returns `Ok` if it is the first abbreviation in the set with its
    /// code, `Err` if the code is a duplicate and there already exists an
    /// abbreviation in the set with the given abbreviation's code.
    pub fn insert(&mut self, abbrev: Abbreviation) -> (r: core::result::Result<(), ()>)
        ensures
            old(self).spec_abbrevs().contains_key(abbrev.spec_code()) ==> (r is Err
                && final(self).spec_abbrevs() == old(self).spec_abbrevs()),
            !old(self).spec_abbrevs().contains_key(abbrev.spec_code()) ==> (r is Ok
                && final(self).spec_abbrevs() == old(self).spec_abbrevs().insert(
                abbrev.spec_code(),
                abbrev,
            )),
    {
        if self.abbrevs.contains_key(&abbrev.code) {
            Err(())
        } else {
            let code = abbrev.code;
            self.abbrevs.insert(code, abbrev);
            Ok(())
        }
    }
}

/// The header of a compilation unit's debugging information.
#[derive(Debug, Clone, Copy, PartialEq, Eq, Structural)]
pub struct CompilationUnitHeader {
    unit_length: u64,
    version: u16,
    debug_abbrev_offset: u64,
    address_size: u8,
}

impl CompilationUnitHeader {
    /// The unit length stated by the header.
    pub closed spec fn spec_unit_length(self) -> u64 {
        self.unit_length
    }

    /// The DWARF version stated by the header.
    pub closed spec fn spec_version(self) -> u16 {
        self.version
    }

    /// The `.debug_abbrev` offset stated by the header.
    pub closed spec fn spec_debug_abbrev_offset(self) -> u64 {
        self.debug_abbrev_offset
    }

    /// The address size stated by the header.
    pub closed spec fn spec_address_size(self) -> u8 {
        self.address_size
    }

    /// Construct a new `CompilationUnitHeader`.
    pub fn new(unit_length: u64, version: u16, debug_abbrev_offset: u64, address_size: u8) -> (r:
        CompilationUnitHeader)
        ensures
            r.spec_unit_length() == unit_length,
            r.spec_version() == version,
            r.spec_debug_abbrev_offset() == debug_abbrev_offset,
            r.spec_address_size() == address_size,
    {
        CompilationUnitHeader { unit_length, version, debug_abbrev_offset, address_size }
    }

    /// Get the length of the debugging info for this compilation unit.
    pub fn unit_length(&self) -> (r: u64)
        ensures
            r == self.spec_unit_length(),
    {
        self.unit_length
    }

    /// Get the DWARF version of the debugging info for this compilation
    /// unit.
    pub fn version(&self) -> (r: u16)
        ensures
            r == self.spec_version(),
    {
        self.version
    }

    /// The offset into the `.debug_abbrev` section for this compilation
    /// unit's debugging information entries.
    pub fn debug_abbrev_offset(&self) -> (r: u64)
        ensures
            r == self.spec_debug_abbrev_offset(),
    {
        self.debug_abbrev_offset
    }

    /// The size of addresses (in bytes) in this compilation unit.
    pub fn address_size(&self) -> (r: u8)
        ensures
            r == self.spec_address_size(),
    {
        self.address_size
    }
}

} // verus!
