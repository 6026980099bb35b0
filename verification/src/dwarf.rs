//! Debugging entries as plain values: what the symbol cache builder reads of
//! a compilation unit.
//!
//! An entry carries its tag, its place in the tree and its attributes, with
//! every indirection (strings, file tables, location expressions) already
//! followed, so that the builder works on values alone.
use crate::extract::PieceLocation;
use vstd::prelude::*;

verus! {

pub const DW_TAG_NULL: u16 = 0x00;

pub const DW_TAG_ARRAY_TYPE: u16 = 0x01;

pub const DW_TAG_MEMBER: u16 = 0x0d;

pub const DW_TAG_POINTER_TYPE: u16 = 0x0f;

pub const DW_TAG_STRUCTURE_TYPE: u16 = 0x13;

pub const DW_TAG_UNION_TYPE: u16 = 0x17;

pub const DW_TAG_VARIANT: u16 = 0x19;

pub const DW_TAG_SUBRANGE_TYPE: u16 = 0x21;

pub const DW_TAG_BASE_TYPE: u16 = 0x24;

pub const DW_TAG_VARIANT_PART: u16 = 0x33;

pub const DW_TAG_VARIABLE: u16 = 0x34;

pub const DW_TAG_NAMESPACE: u16 = 0x39;

pub const DW_AT_LOCATION: u16 = 0x02;

pub const DW_AT_NAME: u16 = 0x03;

pub const DW_AT_BYTE_SIZE: u16 = 0x0b;

pub const DW_AT_DISCR_VALUE: u16 = 0x16;

pub const DW_AT_CONTAINING_TYPE: u16 = 0x1d;

pub const DW_AT_LOWER_BOUND: u16 = 0x22;

pub const DW_AT_ADDRESS_CLASS: u16 = 0x33;

pub const DW_AT_COUNT: u16 = 0x37;

pub const DW_AT_DATA_MEMBER_LOCATION: u16 = 0x38;

pub const DW_AT_DECL_FILE: u16 = 0x3a;

pub const DW_AT_DECL_LINE: u16 = 0x3b;

pub const DW_AT_ENCODING: u16 = 0x3e;

pub const DW_AT_TYPE: u16 = 0x49;

pub const DW_AT_LINKAGE_NAME: u16 = 0x6e;

pub const DW_AT_ALIGNMENT: u16 = 0x88;

/// One file of a unit's line-number table.
#[derive(Debug)]
pub struct FileEntry {
    /// The directory of the file: absent where the table names none for it,
    /// and `Some(None)` where it names one whose text cannot be read.
    pub directory: Option<Option<String>>,
    /// The index of that directory in the table.
    pub directory_index: u64,
    /// The name of the file, where its text can be read.
    pub path_name: Option<String>,
}

/// The value of an attribute, in the forms that the builder tells apart.
#[derive(Debug)]
pub enum AttributeValue {
    /// A string of the string section, or none where it cannot be read.
    DebugStrRef(Option<String>),
    /// A reference to another entry, as an offset from the start of the unit.
    UnitRef(u64),
    /// A reference to another entry, as an offset from the start of the section.
    DebugInfoRef(u64),
    /// An unsigned constant.
    Udata(u64),
    /// A location expression: the pieces that evaluating it gave, or none
    /// where it could not be evaluated.
    Exprloc(Option<Vec<PieceLocation>>),
    /// A reference to a location list.
    LocationListsRef,
    /// An index into the unit's file table, with the entry found there.
    FileIndex(u64, Option<FileEntry>),
    /// Any other form.
    Other,
}

/// One attribute of an entry.
#[derive(Debug)]
pub struct Attribute {
    /// The attribute's name (`DW_AT_*`).
    pub name: u16,
    pub value: AttributeValue,
    /// The value read as an unsigned constant, where its form allows that.
    pub udata: Option<u64>,
}

/// One debugging entry, as a depth-first walk of the unit meets it.
#[derive(Debug)]
pub struct Die {
    /// How much deeper in the tree this entry lies than the one before it.
    pub depth_delta: isize,
    /// The entry's tag (`DW_TAG_*`).
    pub tag: u16,
    /// The entry's offset from the start of its unit.
    pub offset: u64,
    pub attributes: Vec<Attribute>,
}

/// What the builder reads of a unit besides its entries.
#[derive(Debug)]
pub struct UnitHeader {
    /// The version of the debugging format.
    pub version: u16,
    /// Where the unit starts in the debug section; none for a unit that lies
    /// in another section.
    pub unit_start: Option<u64>,
    /// The directory in which the unit was compiled.
    pub comp_dir: Option<String>,
}

/// A unit as it is handed to the builder: its header and its entries, in
/// the order of a depth-first walk.
#[derive(Debug)]
pub struct UnitEntries {
    pub header: UnitHeader,
    pub dies: Vec<Die>,
}

} // verus!
