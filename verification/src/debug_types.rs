//! Cursors over the type graph. A cursor pairs a record of the symbol model
//! with the address at which a value of that type lies in the target, if
//! that address is known, and composes offsets as it descends into members,
//! variants, elements and pointees. It holds the registry, through which
//! every type is looked up, whichever unit registers it.
use crate::memory::{device_fails, device_reads, lemma_byte_read, Read};
use crate::text::u64_to_decimal;
use crate::unit_info::{
    member_named, variant_named, variant_with_discriminant, wrap64, Array,
    BaseType, BaseTypeView, DebugItem, Enumeration, EnumerationVariant, EnumerationVariantView,
    EnumerationView, MemoryLocation, Pointer, PointerView, StructOffset, Structure,
    StructureMember, StructureMemberView, StructureView, Union, UnionView, Variable,
    VariableView,
};
use crate::{DebugInfo, DebugInfoModel};
use vstd::prelude::*;
use vstd::string::*;

verus! {

/// Why a step through the type graph failed.
#[derive(Debug)]
pub enum DebugTypeError {
    /// Multiple items matched the given path
    MultipleMatches,
    MemberNotFound { owner: String, member: String },
    GenericNotFound { owner: String },
    StructureNotFound { owner: String },
    BaseTypeNotFound { owner: String },
    UnionNotFound { owner: String },
    VariantNotFound { owner: String, variant: String },
    EnumerationNotFound { owner: String },
    ArrayNotFound(String),
    KindNotFound { owner: String, member: Option<String> },
    KindIncorrect { owner: String, member: Option<String>, attempted: String, actual: String },
    NotRustSlice(String),
    ReadError,
    SizeError(u64),
    LocationMissing,
    VariableNotFound(String),
}

/// An error with its strings as sequences of characters.
pub enum DebugTypeErrorView {
    MultipleMatches,
    MemberNotFound { owner: Seq<char>, member: Seq<char> },
    GenericNotFound { owner: Seq<char> },
    StructureNotFound { owner: Seq<char> },
    BaseTypeNotFound { owner: Seq<char> },
    UnionNotFound { owner: Seq<char> },
    VariantNotFound { owner: Seq<char>, variant: Seq<char> },
    EnumerationNotFound { owner: Seq<char> },
    ArrayNotFound(Seq<char>),
    KindNotFound { owner: Seq<char>, member: Option<Seq<char>> },
    KindIncorrect {
        owner: Seq<char>,
        member: Option<Seq<char>>,
        attempted: Seq<char>,
        actual: Seq<char>,
    },
    NotRustSlice(Seq<char>),
    ReadError,
    SizeError(u64),
    LocationMissing,
    VariableNotFound(Seq<char>),
}

impl View for DebugTypeError {
    type V = DebugTypeErrorView;

    open spec fn view(&self) -> DebugTypeErrorView {
        match self {
            DebugTypeError::MultipleMatches => DebugTypeErrorView::MultipleMatches,
            DebugTypeError::MemberNotFound { owner, member } => DebugTypeErrorView::MemberNotFound {
                owner: owner@,
                member: member@,
            },
            DebugTypeError::GenericNotFound { owner } => DebugTypeErrorView::GenericNotFound {
                owner: owner@,
            },
            DebugTypeError::StructureNotFound { owner } => DebugTypeErrorView::StructureNotFound {
                owner: owner@,
            },
            DebugTypeError::BaseTypeNotFound { owner } => DebugTypeErrorView::BaseTypeNotFound {
                owner: owner@,
            },
            DebugTypeError::UnionNotFound { owner } => DebugTypeErrorView::UnionNotFound {
                owner: owner@,
            },
            DebugTypeError::VariantNotFound {
                owner,
                variant,
            } => DebugTypeErrorView::VariantNotFound { owner: owner@, variant: variant@ },
            DebugTypeError::EnumerationNotFound {
                owner,
            } => DebugTypeErrorView::EnumerationNotFound { owner: owner@ },
            DebugTypeError::ArrayNotFound(owner) => DebugTypeErrorView::ArrayNotFound(owner@),
            DebugTypeError::KindNotFound { owner, member } => DebugTypeErrorView::KindNotFound {
                owner: owner@,
                member: crate::unit_info::opt_view(*member),
            },
            DebugTypeError::KindIncorrect {
                owner,
                member,
                attempted,
                actual,
            } => DebugTypeErrorView::KindIncorrect {
                owner: owner@,
                member: crate::unit_info::opt_view(*member),
                attempted: attempted@,
                actual: actual@,
            },
            DebugTypeError::NotRustSlice(owner) => DebugTypeErrorView::NotRustSlice(owner@),
            DebugTypeError::ReadError => DebugTypeErrorView::ReadError,
            DebugTypeError::SizeError(size) => DebugTypeErrorView::SizeError(*size),
            DebugTypeError::LocationMissing => DebugTypeErrorView::LocationMissing,
            DebugTypeError::VariableNotFound(path) => DebugTypeErrorView::VariableNotFound(path@),
        }
    }
}

/// The message that describes an error to a user.
pub open spec fn error_message(e: DebugTypeErrorView) -> Seq<char> {
    match e {
        DebugTypeErrorView::StructureNotFound { owner } => "Structure for \""@ + owner
            + "\" could not be found"@,
        DebugTypeErrorView::EnumerationNotFound { owner } => "Enumeration for \""@ + owner
            + "\" could not be found"@,
        DebugTypeErrorView::VariantNotFound { owner, variant } => "Variant \""@ + variant
            + "\" could not be found in enum \""@ + owner + "\""@,
        DebugTypeErrorView::UnionNotFound { owner } => "Union \""@ + owner
            + "\" could not be found"@,
        DebugTypeErrorView::BaseTypeNotFound { owner } => "Base type \""@ + owner
            + "\" could not be found"@,
        DebugTypeErrorView::ArrayNotFound(owner) => "Array could not be found for item \""@ + owner
            + "\""@,
        DebugTypeErrorView::MemberNotFound { owner, member } => "Member \""@ + member
            + "\" not found in struct \""@ + owner + "\""@,
        DebugTypeErrorView::GenericNotFound { owner } => "Generic not found in struct \""@ + owner
            + "\""@,
        DebugTypeErrorView::VariableNotFound(path) => "Variable \""@ + path
            + "\" could not be found"@,
        DebugTypeErrorView::SizeError(size) => "Size \""@ + crate::text::decimal(size as nat)
            + "\" is not valid"@,
        DebugTypeErrorView::KindNotFound { owner, member: Some(member) } =>
            "Type for element \""@ + member + "\" in struct \""@ + owner
            + "\" could not be found"@,
        DebugTypeErrorView::KindNotFound { owner, member: None } =>
            "Type for anonymous member of struct \""@ + owner + "\" could not be found"@,
        DebugTypeErrorView::KindIncorrect { owner, member: Some(member), attempted, actual } =>
            "Type for element \""@ + member + "\" in struct \""@ + owner + "\" is \""@ + actual
            + "\", not \""@ + attempted + "\""@,
        DebugTypeErrorView::KindIncorrect { owner, member: None, attempted, actual } =>
            "Type for element \""@ + owner + "\" \""@ + actual + "\", not \""@ + attempted
            + "\""@,
        DebugTypeErrorView::NotRustSlice(owner) => "Type \""@ + owner + "\" is not a Rust slice"@,
        DebugTypeErrorView::ReadError => "An error occurred when reading memory from the target"@,
        DebugTypeErrorView::LocationMissing => "There was no location data available"@,
        DebugTypeErrorView::MultipleMatches => "Multiple items matched the specified string"@,
    }
}

fn enclosed(before: &str, value: &str, after: &str) -> (r: String)
    ensures
        r@ == before@ + value@ + after@,
{
    let mut s = String::from_str(before);
    s.append(value);
    s.append(after);
    s
}

impl DebugTypeError {
    /// The message that describes the error to a user.
    pub fn to_string(&self) -> (r: String)
        ensures
            r@ == error_message(self@),
    {
        match self {
            DebugTypeError::StructureNotFound { owner } => enclosed(
                "Structure for \"",
                owner.as_str(),
                "\" could not be found",
            ),
            DebugTypeError::EnumerationNotFound { owner } => enclosed(
                "Enumeration for \"",
                owner.as_str(),
                "\" could not be found",
            ),
            DebugTypeError::VariantNotFound { owner, variant } => {
                let mut s = enclosed(
                    "Variant \"",
                    variant.as_str(),
                    "\" could not be found in enum \"",
                );
                s.append(owner.as_str());
                s.append("\"");
                s
            },
            DebugTypeError::UnionNotFound { owner } => enclosed(
                "Union \"",
                owner.as_str(),
                "\" could not be found",
            ),
            DebugTypeError::BaseTypeNotFound { owner } => enclosed(
                "Base type \"",
                owner.as_str(),
                "\" could not be found",
            ),
            DebugTypeError::ArrayNotFound(owner) => enclosed(
                "Array could not be found for item \"",
                owner.as_str(),
                "\"",
            ),
            DebugTypeError::MemberNotFound { owner, member } => {
                let mut s = enclosed("Member \"", member.as_str(), "\" not found in struct \"");
                s.append(owner.as_str());
                s.append("\"");
                s
            },
            DebugTypeError::GenericNotFound { owner } => enclosed(
                "Generic not found in struct \"",
                owner.as_str(),
                "\"",
            ),
            DebugTypeError::VariableNotFound(path) => enclosed(
                "Variable \"",
                path.as_str(),
                "\" could not be found",
            ),
            DebugTypeError::SizeError(size) => {
                let digits = u64_to_decimal(*size);
                enclosed("Size \"", digits.as_str(), "\" is not valid")
            },
            DebugTypeError::KindNotFound { owner, member: Some(member) } => {
                let mut s = enclosed("Type for element \"", member.as_str(), "\" in struct \"");
                s.append(owner.as_str());
                s.append("\" could not be found");
                s
            },
            DebugTypeError::KindNotFound { owner, member: None } => enclosed(
                "Type for anonymous member of struct \"",
                owner.as_str(),
                "\" could not be found",
            ),
            DebugTypeError::KindIncorrect { owner, member: Some(member), attempted, actual } => {
                let mut s = enclosed("Type for element \"", member.as_str(), "\" in struct \"");
                s.append(owner.as_str());
                s.append("\" is \"");
                s.append(actual.as_str());
                s.append("\", not \"");
                s.append(attempted.as_str());
                s.append("\"");
                s
            },
            DebugTypeError::KindIncorrect { owner, member: None, attempted, actual } => {
                let mut s = enclosed("Type for element \"", owner.as_str(), "\" \"");
                s.append(actual.as_str());
                s.append("\", not \"");
                s.append(attempted.as_str());
                s.append("\"");
                s
            },
            DebugTypeError::NotRustSlice(owner) => enclosed(
                "Type \"",
                owner.as_str(),
                "\" is not a Rust slice",
            ),
            DebugTypeError::ReadError => String::from_str(
                "An error occurred when reading memory from the target",
            ),
            DebugTypeError::LocationMissing => String::from_str(
                "There was no location data available",
            ),
            DebugTypeError::MultipleMatches => String::from_str(
                "Multiple items matched the specified string",
            ),
        }
    }
}

/// Whether a result is the error with this view.
pub open spec fn fails_with<T>(r: Result<T, DebugTypeError>, e: DebugTypeErrorView) -> bool {
    r matches Err(x) && x@ == e
}

/// Whether a result is a value with this view.
pub open spec fn gives<T: View>(r: Result<T, DebugTypeError>, v: T::V) -> bool {
    r matches Ok(c) && c@ == v
}

/// Whether a result is what is expected of it, by its view.
pub open spec fn agrees<T: View>(
    r: Result<T, DebugTypeError>,
    expected: Result<T::V, DebugTypeErrorView>,
) -> bool {
    match expected {
        Ok(v) => gives(r, v),
        Err(e) => fails_with(r, e),
    }
}

/// A result by its view.
pub open spec fn viewed<T: View>(r: Result<T, DebugTypeError>) -> Result<T::V, DebugTypeErrorView> {
    match r {
        Ok(c) => Ok(c@),
        Err(e) => Err(e@),
    }
}

/// A result that may hold nothing, by its view.
pub open spec fn viewed_some<T: View>(r: Result<Option<T>, DebugTypeError>) -> Result<
    Option<T::V>,
    DebugTypeErrorView,
> {
    match r {
        Ok(Some(c)) => Ok(Some(c@)),
        Ok(None) => Ok(None),
        Err(e) => Err(e@),
    }
}

/// Whether a result is an optional value that is present, with this view.
pub open spec fn gives_some<T: View>(r: Result<Option<T>, DebugTypeError>, v: T::V) -> bool {
    r matches Ok(Some(c)) && c@ == v
}

/// A location moved by an offset; an unknown location stays unknown.
pub open spec fn shifted(location: Option<MemoryLocation>, by: StructOffset) -> Option<
    MemoryLocation,
> {
    match location {
        Some(l) => Some(MemoryLocation(wrap64(l.0 + by.0))),
        None => None,
    }
}

/// The sum of two offsets.
pub open spec fn offset_sum(a: StructOffset, b: StructOffset) -> StructOffset {
    StructOffset(wrap64(a.0 + b.0))
}

/// The offset of the element at `index` where elements are `size` apart.
pub open spec fn stride(size: StructOffset, index: u64) -> StructOffset {
    StructOffset(wrap64(size.0 * index))
}

fn shift(location: Option<MemoryLocation>, by: StructOffset) -> (r: Option<MemoryLocation>)
    ensures
        r == shifted(location, by),
{
    match location {
        Some(l) => Some(l + by),
        None => None,
    }
}

fn clone_name(name: &Option<String>) -> (r: Option<String>)
    ensures
        r == *name,
{
    match name {
        Some(s) => Some(s.clone()),
        None => None,
    }
}

/// The kind of type that an item is registered as, in words: the first of
/// structure, enumeration, pointer, array, union and base type under which
/// the item is found.
pub open spec fn kind_name(info: DebugInfoModel, kind: DebugItem) -> Option<Seq<char>> {
    if info.structure_from_item(kind) is Some {
        Some("structure"@)
    } else if info.enumeration_from_item(kind) is Some {
        Some("enumeration"@)
    } else if info.pointer_from_item(kind) is Some {
        Some("pointer"@)
    } else if info.array_from_item(kind) is Some {
        Some("array"@)
    } else if info.union_from_item(kind) is Some {
        Some("union"@)
    } else if info.base_type_from_item(kind) is Some {
        Some("base type"@)
    } else {
        None
    }
}

/// The error for a member that is not of the kind that was asked for: it
/// names the kind that the member is of, if that kind is known.
pub open spec fn wrong_kind(
    info: DebugInfoModel,
    owner: Seq<char>,
    member: StructureMemberView,
    attempted: Seq<char>,
) -> DebugTypeErrorView {
    match kind_name(info, member.kind) {
        Some(actual) => DebugTypeErrorView::KindIncorrect {
            owner,
            member: member.name,
            attempted,
            actual,
        },
        None => DebugTypeErrorView::KindNotFound { owner, member: member.name },
    }
}

/// A value of a base type in the target.
#[derive(Debug)]
pub struct DebugBaseType<'a> {
    location: Option<MemoryLocation>,
    offset: StructOffset,
    base_type: &'a BaseType,
}

/// What a cursor on a value of a base type holds, as plain values: the symbols that it looks types up
/// in, its place in the target, and the record that it stands on.
pub struct DebugBaseTypeView {
    pub location: Option<MemoryLocation>,
    pub offset: StructOffset,
    pub base_type: BaseTypeView,
}

impl View for DebugBaseType<'_> {
    type V = DebugBaseTypeView;

    closed spec fn view(&self) -> DebugBaseTypeView {
        DebugBaseTypeView {
            location: self.location,
            offset: self.offset,
            base_type: self.base_type@,
        }
    }
}

/// The number of bytes to read for a value of `size` bytes that has to fit
/// in `limit` bytes: the size itself, if it is 1, 2, 4 or 8 and no more than
/// the limit.
pub open spec fn read_width(size: u64, limit: u64) -> Option<u64> {
    if (size == 1 || size == 2 || size == 4 || size == 8) && size <= limit {
        Some(size)
    } else {
        None
    }
}

/// What has to be read to have the value of a base type in at most `limit`
/// bytes: the address and the number of bytes. There is nothing to read
/// where the address is not known, and where the size of the type is none
/// of 1, 2, 4 and 8 or more than the limit.
pub open spec fn read_request(b: DebugBaseTypeView, limit: u64) -> Option<(u64, u64)> {
    match (b.location, read_width(b.base_type.size, limit)) {
        (Some(location), Some(width)) => Some((location.0, width)),
        _ => None,
    }
}

/// A word read from a target, of one of four widths.
#[derive(Debug, Clone, Copy, PartialEq, Eq)]
pub enum Word {
    U8(u8),
    U16(u16),
    U32(u32),
    U64(u64),
}

impl Word {
    /// The number of bytes of the word.
    pub open spec fn width(self) -> u64 {
        match self {
            Word::U8(_) => 1,
            Word::U16(_) => 2,
            Word::U32(_) => 4,
            Word::U64(_) => 8,
        }
    }

    /// The word as a number.
    pub open spec fn value(self) -> u64 {
        match self {
            Word::U8(v) => v as u64,
            Word::U16(v) => v as u64,
            Word::U32(v) => v as u64,
            Word::U64(v) => v,
        }
    }

    /// The word as a number.
    pub fn to_u64(&self) -> (r: u64)
        ensures
            r == self.value(),
    {
        match self {
            Word::U8(v) => *v as u64,
            Word::U16(v) => *v as u64,
            Word::U32(v) => *v as u64,
            Word::U64(v) => *v,
        }
    }
}

/// The number that a word stands for, if there is a word.
pub open spec fn word_value(word: Option<Word>) -> Option<u64> {
    match word {
        Some(w) => Some(w.value()),
        None => None,
    }
}

/// Whether `width` is the width of a word that can be read.
pub open spec fn is_word_width(width: u64) -> bool {
    width == 1 || width == 2 || width == 4 || width == 8
}

/// Reads the byte at `address`: what the reader gives, or nothing where it
/// fails.
fn read_byte<S: Read + ?Sized>(memory_source: &mut S, address: u64) -> (r: Option<u8>)
    ensures
        device_reads(
            &*old(memory_source),
            address,
            1,
            match r {
                Some(v) => Some(v as u64),
                None => None,
            },
            &*final(memory_source),
        ),
{
    let ghost before: &S = &*memory_source;
    let outcome = memory_source.read_u8(address);
    proof {
        lemma_byte_read(before, address, outcome, &*memory_source);
    }
    match outcome {
        Ok(v) => Some(v),
        Err(_) => None,
    }
}

/// Reads a word of `width` bytes at `address`, least significant byte first:
/// the word that the reader's bytes compose, or nothing where the reader
/// fails. Where the width is none of 1, 2, 4 and 8, nothing is read.
pub fn read_word<S: Read + ?Sized>(memory_source: &mut S, address: u64, width: u64) -> (r: Option<
    Word,
>)
    ensures
        r matches Some(w) ==> w.width() == width,
        is_word_width(width) ==> device_reads(
            &*old(memory_source),
            address,
            width as nat,
            word_value(r),
            &*final(memory_source),
        ),
        !is_word_width(width) ==> r is None && &*final(memory_source) == &*old(memory_source),
{
    let ghost before: &S = &*memory_source;
    if width == 1 {
        match read_byte(memory_source, address) {
            Some(v) => Some(Word::U8(v)),
            None => None,
        }
    } else if width == 2 {
        match memory_source.read_u16(address) {
            Ok(v) => Some(Word::U16(v)),
            Err(e) => {
                proof {
                    assert(device_fails(before, address, 2, e, &*memory_source));
                }
                None
            },
        }
    } else if width == 4 {
        match memory_source.read_u32(address) {
            Ok(v) => Some(Word::U32(v)),
            Err(e) => {
                proof {
                    assert(device_fails(before, address, 4, e, &*memory_source));
                }
                None
            },
        }
    } else if width == 8 {
        match memory_source.read_u64(address) {
            Ok(v) => Some(Word::U64(v)),
            Err(e) => {
                proof {
                    assert(device_fails(before, address, 8, e, &*memory_source));
                }
                None
            },
        }
    } else {
        None
    }
}

impl<'a> DebugBaseType<'a> {
    pub fn name(&self) -> (r: &str)
        ensures
            r@ == self@.base_type.name,
    {
        self.base_type.name()
    }

    pub fn size(&self) -> (r: u64)
        ensures
            r == self@.base_type.size,
    {
        self.base_type.size()
    }

    /// The address of the value, if it is known.
    pub fn location(&self) -> (r: Option<MemoryLocation>)
        ensures
            r == self@.location,
    {
        self.location
    }

    /// The offset of the value from the root of the walk that led to it.
    pub fn offset(&self) -> (r: StructOffset)
        ensures
            r == self@.offset,
    {
        self.offset
    }

    /// What has to be read to have the value in at most `limit` bytes: the
    /// address and the number of bytes.
    pub fn read_request(&self, limit: u64) -> (r: Option<(u64, u64)>)
        ensures
            r == read_request(self@, limit),
    {
        let size = self.base_type.size();
        match self.location {
            Some(location) => if (size == 1 || size == 2 || size == 4 || size == 8) && size
                <= limit {
                Some((location.0, size))
            } else {
                None
            },
            None => None,
        }
    }

    /// Reads the value in at most `limit` bytes. Nothing is read where
    /// there is no request for it; a word that is read has the size of the
    /// type.
    fn read<S: Read + ?Sized>(&self, memory_source: &mut S, limit: u64) -> (r: Option<Word>)
        ensures
            match read_request(self@, limit) {
                Some(request) => (r matches Some(w) ==> w.width() == request.1) && device_reads(
                    &*old(memory_source),
                    request.0,
                    request.1 as nat,
                    word_value(r),
                    &*final(memory_source),
                ),
                None => r is None && &*final(memory_source) == &*old(memory_source),
            },
    {
        match self.read_request(limit) {
            Some((address, width)) => read_word(memory_source, address, width),
            None => None,
        }
    }

    /// The value as a byte: read from the target if the address is known
    /// and the type is one byte wide. The result is the byte that the
    /// reader gives, if it gives one.
    pub fn as_u8<S: Read + ?Sized>(&self, memory_source: &mut S) -> (r: Option<u8>)
        ensures
            match read_request(self@, 1) {
                Some(request) => device_reads(
                    &*old(memory_source),
                    request.0,
                    request.1 as nat,
                    match r {
                        Some(v) => Some(v as u64),
                        None => None,
                    },
                    &*final(memory_source),
                ),
                None => r is None && &*final(memory_source) == &*old(memory_source),
            },
    {
        match self.read(memory_source, 1) {
            Some(Word::U8(v)) => Some(v),
            _ => None,
        }
    }

    /// The value as a 16-bit word: read from the target if the address is
    /// known and the type is one or two bytes wide. The result is the word
    /// that the reader gives, if it gives one.
    pub fn as_u16<S: Read + ?Sized>(&self, memory_source: &mut S) -> (r: Option<u16>)
        ensures
            match read_request(self@, 2) {
                Some(request) => device_reads(
                    &*old(memory_source),
                    request.0,
                    request.1 as nat,
                    match r {
                        Some(v) => Some(v as u64),
                        None => None,
                    },
                    &*final(memory_source),
                ),
                None => r is None && &*final(memory_source) == &*old(memory_source),
            },
    {
        match self.read(memory_source, 2) {
            Some(Word::U8(v)) => Some(v as u16),
            Some(Word::U16(v)) => Some(v),
            _ => None,
        }
    }

    /// The value as a 32-bit word: read from the target if the address is
    /// known and the type is one, two or four bytes wide. The result is the
    /// word that the reader gives, if it gives one.
    pub fn as_u32<S: Read + ?Sized>(&self, memory_source: &mut S) -> (r: Option<u32>)
        ensures
            match read_request(self@, 4) {
                Some(request) => device_reads(
                    &*old(memory_source),
                    request.0,
                    request.1 as nat,
                    match r {
                        Some(v) => Some(v as u64),
                        None => None,
                    },
                    &*final(memory_source),
                ),
                None => r is None && &*final(memory_source) == &*old(memory_source),
            },
    {
        match self.read(memory_source, 4) {
            Some(Word::U8(v)) => Some(v as u32),
            Some(Word::U16(v)) => Some(v as u32),
            Some(Word::U32(v)) => Some(v),
            _ => None,
        }
    }

    /// The value as a 64-bit word: read from the target if the address is
    /// known and the type is one, two, four or eight bytes wide. The result
    /// is the word that the reader gives, if it gives one.
    pub fn as_u64<S: Read + ?Sized>(&self, memory_source: &mut S) -> (r: Option<u64>)
        ensures
            match read_request(self@, 8) {
                Some(request) => device_reads(
                    &*old(memory_source),
                    request.0,
                    request.1 as nat,
                    match r {
                        Some(v) => Some(v as u64),
                        None => None,
                    },
                    &*final(memory_source),
                ),
                None => r is None && &*final(memory_source) == &*old(memory_source),
            },
    {
        match self.read(memory_source, 8) {
            Some(w) => Some(w.to_u64()),
            None => None,
        }
    }
}

/// A structure in the target.
#[derive(Debug)]
pub struct DebugStructure<'a> {
    info: &'a DebugInfo,
    location: Option<MemoryLocation>,
    offset: StructOffset,
    structure: &'a Structure,
}

/// What a cursor on a structure holds, as plain values: the symbols that it looks types up
/// in, its place in the target, and the record that it stands on.
pub struct DebugStructureView {
    pub info: DebugInfoModel,
    pub location: Option<MemoryLocation>,
    pub offset: StructOffset,
    pub structure: StructureView,
}

impl View for DebugStructure<'_> {
    type V = DebugStructureView;

    closed spec fn view(&self) -> DebugStructureView {
        DebugStructureView {
            info: self.info@,
            location: self.location,
            offset: self.offset,
            structure: self.structure@,
        }
    }
}

/// A member of a structure or of a union in the target.
#[derive(Debug)]
pub struct DebugStructureMember<'a> {
    parent_name: String,
    info: &'a DebugInfo,
    location: Option<MemoryLocation>,
    offset: StructOffset,
    structure_member: &'a StructureMember,
}

/// What a cursor on a member holds, as plain values: the symbols that it looks types up
/// in, its place in the target, and the record that it stands on.
pub struct DebugStructureMemberView {
    pub info: DebugInfoModel,
    pub parent_name: Seq<char>,
    pub location: Option<MemoryLocation>,
    pub offset: StructOffset,
    pub member: StructureMemberView,
}

impl View for DebugStructureMember<'_> {
    type V = DebugStructureMemberView;

    closed spec fn view(&self) -> DebugStructureMemberView {
        DebugStructureMemberView {
            info: self.info@,
            parent_name: self.parent_name@,
            location: self.location,
            offset: self.offset,
            member: self.structure_member@,
        }
    }
}

/// A union in the target.
#[derive(Debug)]
pub struct DebugUnion<'a> {
    info: &'a DebugInfo,
    location: Option<MemoryLocation>,
    offset: StructOffset,
    union: &'a Union,
}

/// What a cursor on a union holds, as plain values: the symbols that it looks types up
/// in, its place in the target, and the record that it stands on.
pub struct DebugUnionView {
    pub info: DebugInfoModel,
    pub location: Option<MemoryLocation>,
    pub offset: StructOffset,
    pub union: UnionView,
}

impl View for DebugUnion<'_> {
    type V = DebugUnionView;

    closed spec fn view(&self) -> DebugUnionView {
        DebugUnionView {
            info: self.info@,
            location: self.location,
            offset: self.offset,
            union: self.union@,
        }
    }
}

/// A pointer in the target.
#[derive(Debug)]
pub struct DebugPointer<'a> {
    info: &'a DebugInfo,
    location: Option<MemoryLocation>,
    offset: StructOffset,
    pointer: &'a Pointer,
    parent_name: String,
}

/// What a cursor on a pointer holds, as plain values: the symbols that it looks types up
/// in, its place in the target, and the record that it stands on.
pub struct DebugPointerView {
    pub info: DebugInfoModel,
    pub location: Option<MemoryLocation>,
    pub offset: StructOffset,
    pub pointer: PointerView,
    pub parent_name: Seq<char>,
}

impl View for DebugPointer<'_> {
    type V = DebugPointerView;

    closed spec fn view(&self) -> DebugPointerView {
        DebugPointerView {
            info: self.info@,
            location: self.location,
            offset: self.offset,
            pointer: self.pointer@,
            parent_name: self.parent_name@,
        }
    }
}

/// An array in the target.
#[derive(Debug)]
pub struct DebugArray<'a> {
    info: &'a DebugInfo,
    location: Option<MemoryLocation>,
    offset: StructOffset,
    array: &'a Array,
    parent_name: String,
}

/// What a cursor on an array holds, as plain values: the symbols that it looks types up
/// in, its place in the target, and the record that it stands on.
pub struct DebugArrayView {
    pub info: DebugInfoModel,
    pub location: Option<MemoryLocation>,
    pub offset: StructOffset,
    pub array: Array,
    pub parent_name: Seq<char>,
}

impl View for DebugArray<'_> {
    type V = DebugArrayView;

    closed spec fn view(&self) -> DebugArrayView {
        DebugArrayView {
            info: self.info@,
            location: self.location,
            offset: self.offset,
            array: *self.array,
            parent_name: self.parent_name@,
        }
    }
}

/// An enumeration in the target.
#[derive(Debug)]
pub struct DebugEnumeration<'a> {
    info: &'a DebugInfo,
    location: Option<MemoryLocation>,
    offset: StructOffset,
    enumeration: &'a Enumeration,
}

/// What a cursor on an enumeration holds, as plain values: the symbols that it looks types up
/// in, its place in the target, and the record that it stands on.
pub struct DebugEnumerationView {
    pub info: DebugInfoModel,
    pub location: Option<MemoryLocation>,
    pub offset: StructOffset,
    pub enumeration: EnumerationView,
}

impl View for DebugEnumeration<'_> {
    type V = DebugEnumerationView;

    closed spec fn view(&self) -> DebugEnumerationView {
        DebugEnumerationView {
            info: self.info@,
            location: self.location,
            offset: self.offset,
            enumeration: self.enumeration@,
        }
    }
}

/// A variant of an enumeration in the target.
#[derive(Debug)]
pub struct DebugEnumerationVariant<'a> {
    parent_name: String,
    info: &'a DebugInfo,
    location: Option<MemoryLocation>,
    offset: StructOffset,
    variant: &'a EnumerationVariant,
}

/// What a cursor on a variant holds, as plain values: the symbols that it looks types up
/// in, its place in the target, and the record that it stands on.
pub struct DebugEnumerationVariantView {
    pub info: DebugInfoModel,
    pub parent_name: Seq<char>,
    pub location: Option<MemoryLocation>,
    pub offset: StructOffset,
    pub variant: EnumerationVariantView,
}

impl View for DebugEnumerationVariant<'_> {
    type V = DebugEnumerationVariantView;

    closed spec fn view(&self) -> DebugEnumerationVariantView {
        DebugEnumerationVariantView {
            info: self.info@,
            parent_name: self.parent_name@,
            location: self.location,
            offset: self.offset,
            variant: self.variant@,
        }
    }
}

/// A variable of the target.
#[derive(Debug)]
pub struct DebugVariable<'a> {
    info: &'a DebugInfo,
    variable: &'a Variable,
}

/// What a cursor on a variable holds, as plain values: the symbols that it looks types up
/// in, its place in the target, and the record that it stands on.
pub struct DebugVariableView {
    pub info: DebugInfoModel,
    pub variable: VariableView,
}

impl View for DebugVariable<'_> {
    type V = DebugVariableView;

    closed spec fn view(&self) -> DebugVariableView {
        DebugVariableView { info: self.info@, variable: self.variable@ }
    }
}

/// The member of a structure cursor that is called `name`: it lies at the
/// structure's location and offset, each moved by the member's offset.
pub open spec fn structure_member(s: DebugStructureView, name: Seq<char>) -> Result<
    DebugStructureMemberView,
    DebugTypeErrorView,
> {
    match member_named(s.structure.members, name) {
        Some(i) => Ok(
            DebugStructureMemberView {
                info: s.info,
                parent_name: s.structure.name,
                location: shifted(s.location, s.structure.members[i].offset),
                offset: offset_sum(s.offset, s.structure.members[i].offset),
                member: s.structure.members[i],
            },
        ),
        None => Err(DebugTypeErrorView::MemberNotFound { owner: s.structure.name, member: name }),
    }
}

/// The member of a union cursor that is called `name`.
pub open spec fn union_member(u: DebugUnionView, name: Seq<char>) -> Result<
    DebugStructureMemberView,
    DebugTypeErrorView,
> {
    match member_named(u.union.members, name) {
        Some(i) => Ok(
            DebugStructureMemberView {
                info: u.info,
                parent_name: u.union.name,
                location: shifted(u.location, u.union.members[i].offset),
                offset: offset_sum(u.offset, u.union.members[i].offset),
                member: u.union.members[i],
            },
        ),
        None => Err(DebugTypeErrorView::MemberNotFound { owner: u.union.name, member: name }),
    }
}

/// A member as a structure, at the place of the member; or the error that says
/// of what kind the member is instead.
pub open spec fn member_structure(m: DebugStructureMemberView) -> Result<
    DebugStructureView,
    DebugTypeErrorView,
> {
    match m.info.structure_from_item(m.member.kind) {
        Some(structure) => Ok(
            DebugStructureView { info: m.info, location: m.location, offset: m.offset, structure },
        ),
        None => Err(wrong_kind(m.info, m.parent_name, m.member, "structure"@)),
    }
}

/// A member as an enumeration, at the place of the member; or the error that says
/// of what kind the member is instead.
pub open spec fn member_enumeration(m: DebugStructureMemberView) -> Result<
    DebugEnumerationView,
    DebugTypeErrorView,
> {
    match m.info.enumeration_from_item(m.member.kind) {
        Some(enumeration) => Ok(
            DebugEnumerationView {
                info: m.info,
                location: m.location,
                offset: m.offset,
                enumeration,
            },
        ),
        None => Err(wrong_kind(m.info, m.parent_name, m.member, "enumeration"@)),
    }
}

/// A member as a pointer, at the place of the member; or the error that says
/// of what kind the member is instead.
pub open spec fn member_pointer(m: DebugStructureMemberView) -> Result<
    DebugPointerView,
    DebugTypeErrorView,
> {
    match m.info.pointer_from_item(m.member.kind) {
        Some(pointer) => Ok(
            DebugPointerView {
                info: m.info,
                location: m.location,
                offset: m.offset,
                pointer,
                parent_name: m.parent_name,
            },
        ),
        None => Err(wrong_kind(m.info, m.parent_name, m.member, "pointer"@)),
    }
}

/// A member as an array, at the place of the member; or the error that says
/// of what kind the member is instead.
pub open spec fn member_array(m: DebugStructureMemberView) -> Result<
    DebugArrayView,
    DebugTypeErrorView,
> {
    match m.info.array_from_item(m.member.kind) {
        Some(array) => Ok(
            DebugArrayView {
                info: m.info,
                location: m.location,
                offset: m.offset,
                array,
                parent_name: m.parent_name,
            },
        ),
        None => Err(wrong_kind(m.info, m.parent_name, m.member, "array"@)),
    }
}

/// A member as an union, at the place of the member; or the error that says
/// of what kind the member is instead.
pub open spec fn member_union(m: DebugStructureMemberView) -> Result<
    DebugUnionView,
    DebugTypeErrorView,
> {
    match m.info.union_from_item(m.member.kind) {
        Some(union) => Ok(
            DebugUnionView { info: m.info, location: m.location, offset: m.offset, union },
        ),
        None => Err(wrong_kind(m.info, m.parent_name, m.member, "union"@)),
    }
}

/// A member as a value of a base type, at the place of the member; or the error that says
/// of what kind the member is instead.
pub open spec fn member_base_type(m: DebugStructureMemberView) -> Result<
    DebugBaseTypeView,
    DebugTypeErrorView,
> {
    match m.info.base_type_from_item(m.member.kind) {
        Some(base_type) => Ok(
            DebugBaseTypeView { location: m.location, offset: m.offset, base_type },
        ),
        None => Err(wrong_kind(m.info, m.parent_name, m.member, "base type"@)),
    }
}

impl<'a> DebugStructureMember<'a> {
    /// The error for asking this member for a kind that it is not of.
    fn find_alternatives(&self, attempted: &str) -> (r: DebugTypeError)
        ensures
            r@ == wrong_kind(self@.info, self@.parent_name, self@.member, attempted@),
    {
        let member = clone_name(&self.structure_member.name);
        let attempted = String::from_str(attempted);
        let owner = self.parent_name.clone();
        let kind_index = self.structure_member.kind();
        let actual = if self.info.structure_from_item(kind_index).is_some() {
            "structure"
        } else if self.info.enumeration_from_item(kind_index).is_some() {
            "enumeration"
        } else if self.info.pointer_from_item(kind_index).is_some() {
            "pointer"
        } else if self.info.array_from_item(kind_index).is_some() {
            "array"
        } else if self.info.union_from_item(kind_index).is_some() {
            "union"
        } else if self.info.base_type_from_item(kind_index).is_some() {
            "base type"
        } else {
            return DebugTypeError::KindNotFound { owner, member };
        };
        DebugTypeError::KindIncorrect { owner, member, attempted, actual: String::from_str(actual) }
    }

    /// The member as a structure, at the member's location.
    pub fn structure(&self) -> (r: Result<DebugStructure<'a>, DebugTypeError>)
        ensures
            match member_structure(self@) {
                Ok(v) => r matches Ok(c) && c@ == v,
                Err(e) => r matches Err(x) && x@ == e,
            },
    {
        match self.info.structure_from_item(self.structure_member.kind()) {
            Some(structure) => Ok(
                DebugStructure {
                    info: self.info,
                    location: self.location,
                    offset: self.offset,
                    structure,
                },
            ),
            None => Err(self.find_alternatives("structure")),
        }
    }

    /// The member as an enumeration, at the member's location.
    pub fn enumeration(&self) -> (r: Result<DebugEnumeration<'a>, DebugTypeError>)
        ensures
            match member_enumeration(self@) {
                Ok(v) => r matches Ok(c) && c@ == v,
                Err(e) => r matches Err(x) && x@ == e,
            },
    {
        match self.info.enumeration_from_item(self.structure_member.kind()) {
            Some(enumeration) => Ok(
                DebugEnumeration {
                    info: self.info,
                    location: self.location,
                    offset: self.offset,
                    enumeration,
                },
            ),
            None => Err(self.find_alternatives("enumeration")),
        }
    }

    /// The member as a pointer, at the member's location.
    pub fn pointer(&self) -> (r: Result<DebugPointer<'a>, DebugTypeError>)
        ensures
            match member_pointer(self@) {
                Ok(v) => r matches Ok(c) && c@ == v,
                Err(e) => r matches Err(x) && x@ == e,
            },
    {
        match self.info.pointer_from_item(self.structure_member.kind()) {
            Some(pointer) => Ok(
                DebugPointer {
                    info: self.info,
                    location: self.location,
                    offset: self.offset,
                    pointer,
                    parent_name: self.parent_name.clone(),
                },
            ),
            None => Err(self.find_alternatives("pointer")),
        }
    }

    /// The member as an array, at the member's location.
    pub fn array(&self) -> (r: Result<DebugArray<'a>, DebugTypeError>)
        ensures
            match member_array(self@) {
                Ok(v) => r matches Ok(c) && c@ == v,
                Err(e) => r matches Err(x) && x@ == e,
            },
    {
        match self.info.array_from_item(self.structure_member.kind()) {
            Some(array) => Ok(
                DebugArray {
                    info: self.info,
                    location: self.location,
                    offset: self.offset,
                    array,
                    parent_name: self.parent_name.clone(),
                },
            ),
            None => Err(self.find_alternatives("array")),
        }
    }

    /// The member as a union, at the member's location.
    pub fn union(&self) -> (r: Result<DebugUnion<'a>, DebugTypeError>)
        ensures
            match member_union(self@) {
                Ok(v) => r matches Ok(c) && c@ == v,
                Err(e) => r matches Err(x) && x@ == e,
            },
    {
        match self.info.union_from_item(self.structure_member.kind()) {
            Some(union) => Ok(
                DebugUnion {
                    info: self.info,
                    location: self.location,
                    offset: self.offset,
                    union,
                },
            ),
            None => Err(self.find_alternatives("union")),
        }
    }

    /// The member as a value of a base type, at the member's location.
    pub fn base_type(&self) -> (r: Result<DebugBaseType<'a>, DebugTypeError>)
        ensures
            match member_base_type(self@) {
                Ok(v) => r matches Ok(c) && c@ == v,
                Err(e) => r matches Err(x) && x@ == e,
            },
    {
        match self.info.base_type_from_item(self.structure_member.kind()) {
            Some(base_type) => Ok(
                DebugBaseType { location: self.location, offset: self.offset, base_type },
            ),
            None => Err(self.find_alternatives("base type")),
        }
    }

    /// Forgets the offset accumulated so far.
    pub fn reset_offset(&mut self) -> (r: &Self)
        ensures
            final(self)@ == (DebugStructureMemberView { offset: StructOffset(0), ..old(self)@ }),
            r@ == final(self)@,
    {
        self.offset = StructOffset::new(0);
        self
    }

    /// The address of the member.
    pub fn location(&self) -> (r: Result<u64, DebugTypeError>)
        ensures
            match self@.location {
                Some(l) => r == Ok::<u64, DebugTypeError>(l.0),
                None => r matches Err(e) && e@ == DebugTypeErrorView::LocationMissing,
            },
    {
        match self.location {
            Some(location) => Ok(location.0),
            None => Err(DebugTypeError::LocationMissing),
        }
    }

    /// The offset of the member from the root of the walk that led to it.
    pub fn cursor_offset(&self) -> (r: StructOffset)
        ensures
            r == self@.offset,
    {
        self.offset
    }
}

impl core::ops::Deref for DebugStructureMember<'_> {
    type Target = StructureMember;

    fn deref(&self) -> (r: &StructureMember)
        ensures
            r@ == self@.member,
    {
        self.structure_member
    }
}

impl<'a> DebugUnion<'a> {
    pub(crate) fn new(
        info: &'a DebugInfo,
        union: &'a Union,
        location: MemoryLocation,
    ) -> (r: Self)
        ensures
            r@ == (DebugUnionView {
                info: info@,
                location: Some(location),
                offset: StructOffset(0),
                union: union@,
            }),
    {
        Self { info, location: Some(location), offset: StructOffset::new(0), union }
    }

    /// The member called `name`, at the union's location moved by the
    /// member's offset.
    pub fn member_named(&self, name: &str) -> (r: Result<DebugStructureMember<'a>, DebugTypeError>)
        ensures
            match union_member(self@, name@) {
                Ok(v) => r matches Ok(c) && c@ == v,
                Err(e) => r matches Err(x) && x@ == e,
            },
    {
        match self.union.member_named(name) {
            Some(structure_member) => Ok(
                DebugStructureMember {
                    info: self.info,
                    location: shift(self.location, structure_member.offset()),
                    offset: self.offset + structure_member.offset(),
                    parent_name: String::from_str(self.union.name()),
                    structure_member,
                },
            ),
            None => Err(
                DebugTypeError::MemberNotFound {
                    owner: String::from_str(self.union.name()),
                    member: String::from_str(name),
                },
            ),
        }
    }

    pub fn location(&self) -> (r: Option<MemoryLocation>)
        ensures
            r == self@.location,
    {
        self.location
    }

    /// The offset of the union from the root of the walk that led to it.
    pub fn cursor_offset(&self) -> (r: StructOffset)
        ensures
            r == self@.offset,
    {
        self.offset
    }
}

impl core::ops::Deref for DebugUnion<'_> {
    type Target = Union;

    fn deref(&self) -> (r: &Union)
        ensures
            r@ == self@.union,
    {
        self.union
    }
}

/// The structure that a pointer points to, as a cursor at the pointer's
/// own location and offset.
pub open spec fn pointer_structure(p: DebugPointerView) -> Result<
    DebugStructureView,
    DebugTypeErrorView,
> {
    match p.info.structure_from_item(p.pointer.kind) {
        Some(structure) => Ok(
            DebugStructureView { info: p.info, location: p.location, offset: p.offset, structure },
        ),
        None => Err(DebugTypeErrorView::StructureNotFound { owner: p.parent_name }),
    }
}

/// A pointer cursor moved to the address that was read from the pointer:
/// the location is that address, and the offset starts again at zero.
pub open spec fn pointer_at(p: DebugPointerView, target: u32) -> DebugPointerView {
    DebugPointerView {
        location: Some(MemoryLocation(target as u64)),
        offset: StructOffset(0),
        ..p
    }
}

/// Whether reading the word that a pointer holds, with the reader in the
/// state `before`, can give `word` and leave the reader in the state
/// `after`. Without a location nothing is read. Else four bytes are read at
/// the cursor's location and composed, least significant first; a read that
/// fails is `ReadError`.
pub open spec fn pointer_read<S: Read + ?Sized>(
    p: DebugPointerView,
    before: &S,
    word: Result<u32, DebugTypeErrorView>,
    after: &S,
) -> bool {
    match p.location {
        None => word == Err::<u32, DebugTypeErrorView>(DebugTypeErrorView::LocationMissing)
            && after == before,
        Some(location) => match word {
            Ok(target) => device_reads(before, location.0, 4, Some(target as u64), after),
            Err(e) => e == DebugTypeErrorView::ReadError && device_reads(
                before,
                location.0,
                4,
                None,
                after,
            ),
        },
    }
}

/// What following a pointer gives once its word has been read: the cursor
/// moved to the address read.
pub open spec fn follow_result(p: DebugPointerView, word: Result<u32, DebugTypeErrorView>) -> Result<
    DebugPointerView,
    DebugTypeErrorView,
> {
    match word {
        Ok(target) => Ok(pointer_at(p, target)),
        Err(e) => Err(e),
    }
}

/// What following a pointer that must not be null gives once its word has
/// been read: the cursor moved to the address read, or `ReadError` for null.
pub open spec fn follow_unless_null_result(
    p: DebugPointerView,
    word: Result<u32, DebugTypeErrorView>,
) -> Result<DebugPointerView, DebugTypeErrorView> {
    match word {
        Ok(target) => if target == 0 {
            Err(DebugTypeErrorView::ReadError)
        } else {
            Ok(pointer_at(p, target))
        },
        Err(e) => Err(e),
    }
}

/// What trying to follow a pointer gives once its word has been read: the
/// cursor moved to the address read, or nothing for null.
pub open spec fn try_follow_result(
    p: DebugPointerView,
    word: Result<u32, DebugTypeErrorView>,
) -> Result<Option<DebugPointerView>, DebugTypeErrorView> {
    match word {
        Ok(target) => if target == 0 {
            Ok(None)
        } else {
            Ok(Some(pointer_at(p, target)))
        },
        Err(e) => Err(e),
    }
}

impl<'a> DebugPointer<'a> {
    /// The structure that the pointer points to, at the cursor's location.
    pub fn structure(&self) -> (r: Result<DebugStructure<'a>, DebugTypeError>)
        ensures
            match pointer_structure(self@) {
                Ok(v) => r matches Ok(c) && c@ == v,
                Err(e) => r matches Err(x) && x@ == e,
            },
    {
        match self.info.structure_from_item(self.pointer.kind()) {
            Some(structure) => Ok(
                DebugStructure {
                    structure,
                    location: self.location,
                    offset: self.offset,
                    info: self.info,
                },
            ),
            None => Err(DebugTypeError::StructureNotFound { owner: self.parent_name.clone() }),
        }
    }

    /// The cursor moved to `target`, the address read from the pointer.
    pub fn followed(self, target: u32) -> (r: Self)
        ensures
            r@ == pointer_at(self@, target),
    {
        let mut moved = self;
        moved.location = Some(MemoryLocation(target as u64));
        moved.offset = StructOffset::new(0);
        moved
    }

    /// The cursor moved to `target`, the address read from the pointer,
    /// unless that address is null, which is an error.
    pub fn followed_unless_null(self, target: u32) -> (r: Result<Self, DebugTypeError>)
        ensures
            target == 0 ==> fails_with(r, DebugTypeErrorView::ReadError),
            target != 0 ==> gives(r, pointer_at(self@, target)),
    {
        if target == 0 {
            Err(DebugTypeError::ReadError)
        } else {
            Ok(self.followed(target))
        }
    }

    /// The cursor moved to `target`, the address read from the pointer,
    /// or nothing where that address is null.
    pub fn followed_if_not_null(self, target: u32) -> (r: Option<Self>)
        ensures
            target == 0 ==> r is None,
            target != 0 ==> (r matches Some(c) && c@ == pointer_at(self@, target)),
    {
        if target == 0 {
            None
        } else {
            Some(self.followed(target))
        }
    }

    /// The word that the pointer holds: 32 bits, least significant byte
    /// first, read at the cursor's location.
    fn read_target<S: Read + ?Sized>(&self, memory_source: &mut S) -> (r: Result<
        u32,
        DebugTypeError,
    >)
        ensures
            pointer_read(
                self@,
                &*old(memory_source),
                match r {
                    Ok(target) => Ok(target),
                    Err(e) => Err(e@),
                },
                &*final(memory_source),
            ),
    {
        let location = match self.location {
            Some(location) => location.0,
            None => {
                return Err(DebugTypeError::LocationMissing);
            },
        };
        match read_word(memory_source, location, 4) {
            Some(Word::U32(target)) => Ok(target),
            _ => Err(DebugTypeError::ReadError),
        }
    }

    /// Follows the pointer, and fails if it is null.
    ///
    /// Without a location this is `LocationMissing`, and nothing is read.
    /// Else the word of the pointer is read at the cursor's location: a
    /// failed read and a null pointer are `ReadError`, and any other address
    /// read gives the cursor moved there.
    pub fn follow_unless_null<S: Read + ?Sized>(self, memory_source: &mut S) -> (r: Result<
        Self,
        DebugTypeError,
    >)
        ensures
            exists|word: Result<u32, DebugTypeErrorView>| #[trigger]
                pointer_read(self@, &*old(memory_source), word, &*final(memory_source))
                    && viewed(r) == follow_unless_null_result(self@, word),
    {
        let target = match self.read_target(memory_source) {
            Ok(target) => target,
            Err(e) => {
                proof {
                    assert(pointer_read(
                        self@,
                        &*old(memory_source),
                        Err(e@),
                        &*memory_source,
                    ));
                }
                return Err(e);
            },
        };
        proof {
            assert(pointer_read(self@, &*old(memory_source), Ok(target), &*memory_source));
        }
        self.followed_unless_null(target)
    }

    /// Attempt to follow a pointer. If the pointer is null, return `Ok(None)`.
    ///
    /// Without a location this is `LocationMissing`, and nothing is read.
    /// Else the word of the pointer is read at the cursor's location: a
    /// failed read is `ReadError`, null gives nothing, and any other address
    /// read gives the cursor moved there.
    pub fn try_follow<S: Read + ?Sized>(self, memory_source: &mut S) -> (r: Result<
        Option<Self>,
        DebugTypeError,
    >)
        ensures
            exists|word: Result<u32, DebugTypeErrorView>| #[trigger]
                pointer_read(self@, &*old(memory_source), word, &*final(memory_source))
                    && viewed_some(r) == try_follow_result(self@, word),
    {
        let target = match self.read_target(memory_source) {
            Ok(target) => target,
            Err(e) => {
                proof {
                    assert(pointer_read(
                        self@,
                        &*old(memory_source),
                        Err(e@),
                        &*memory_source,
                    ));
                }
                return Err(e);
            },
        };
        proof {
            assert(pointer_read(self@, &*old(memory_source), Ok(target), &*memory_source));
        }
        Ok(self.followed_if_not_null(target))
    }

    /// Follows the pointer: reads the address that it holds, and moves
    /// the cursor there.
    ///
    /// Without a location this is `LocationMissing`, and nothing is read.
    /// Else the word of the pointer is read at the cursor's location: a
    /// failed read is `ReadError`, and an address read gives the cursor
    /// moved there.
    pub fn follow<S: Read + ?Sized>(self, memory_source: &mut S) -> (r: Result<
        Self,
        DebugTypeError,
    >)
        ensures
            exists|word: Result<u32, DebugTypeErrorView>| #[trigger]
                pointer_read(self@, &*old(memory_source), word, &*final(memory_source))
                    && viewed(r) == follow_result(self@, word),
    {
        let target = match self.read_target(memory_source) {
            Ok(target) => target,
            Err(e) => {
                proof {
                    assert(pointer_read(
                        self@,
                        &*old(memory_source),
                        Err(e@),
                        &*memory_source,
                    ));
                }
                return Err(e);
            },
        };
        proof {
            assert(pointer_read(self@, &*old(memory_source), Ok(target), &*memory_source));
        }
        Ok(self.followed(target))
    }

    /// Read a u8 from the specified offset beyond the cursor's location.
    /// Without a location nothing is read; else the byte is what the reader
    /// gives, if it gives one.
    pub fn read_u8<S: Read + ?Sized>(&self, offset: u64, memory_source: &mut S) -> (r: Option<u8>)
        ensures
            match self@.location {
                Some(location) => device_reads(
                    &*old(memory_source),
                    wrap64(location.0 + offset),
                    1,
                    match r {
                        Some(v) => Some(v as u64),
                        None => None,
                    },
                    &*final(memory_source),
                ),
                None => r is None && &*final(memory_source) == &*old(memory_source),
            },
    {
        let location = match self.location {
            Some(location) => location.0.wrapping_add(offset),
            None => {
                return None;
            },
        };
        read_byte(memory_source, location)
    }

    /// The address at which the cursor stands.
    pub fn location(&self) -> (r: Result<u64, DebugTypeError>)
        ensures
            match self@.location {
                Some(l) => r == Ok::<u64, DebugTypeError>(l.0),
                None => r matches Err(e) && e@ == DebugTypeErrorView::LocationMissing,
            },
    {
        match self.location {
            Some(location) => Ok(location.0),
            None => Err(DebugTypeError::LocationMissing),
        }
    }

    /// The offset of the cursor from the root of the walk that led to it.
    pub fn cursor_offset(&self) -> (r: StructOffset)
        ensures
            r == self@.offset,
    {
        self.offset
    }
}

impl core::ops::Deref for DebugPointer<'_> {
    type Target = Pointer;

    fn deref(&self) -> (r: &Pointer)
        ensures
            r@ == self@.pointer,
    {
        self.pointer
    }
}

/// The payload of a variant, as a structure cursor: it lies at the
/// variant's location and offset, each moved by the variant's own offset.
pub open spec fn variant_structure(v: DebugEnumerationVariantView) -> Result<
    DebugStructureView,
    DebugTypeErrorView,
> {
    match v.info.structure_from_item(v.variant.kind) {
        Some(structure) => Ok(
            DebugStructureView {
                info: v.info,
                location: shifted(v.location, v.variant.offset),
                offset: offset_sum(v.offset, v.variant.offset),
                structure,
            },
        ),
        None => Err(DebugTypeErrorView::StructureNotFound { owner: v.parent_name }),
    }
}

impl<'a> DebugEnumerationVariant<'a> {
    /// The payload of the variant.
    pub fn structure(&self) -> (r: Result<DebugStructure<'a>, DebugTypeError>)
        ensures
            match variant_structure(self@) {
                Ok(v) => r matches Ok(c) && c@ == v,
                Err(e) => r matches Err(x) && x@ == e,
            },
    {
        match self.info.structure_from_item(self.variant.kind()) {
            Some(structure) => Ok(
                DebugStructure {
                    info: self.info,
                    location: shift(self.location, self.variant.offset()),
                    offset: self.offset + self.variant.offset(),
                    structure,
                },
            ),
            None => Err(DebugTypeError::StructureNotFound { owner: self.parent_name.clone() }),
        }
    }

    /// The address of the enumeration whose variant this is.
    pub fn location(&self) -> (r: Option<MemoryLocation>)
        ensures
            r == self@.location,
    {
        self.location
    }

    /// The offset of the enumeration from the root of the walk that led to it.
    pub fn cursor_offset(&self) -> (r: StructOffset)
        ensures
            r == self@.offset,
    {
        self.offset
    }
}

impl core::ops::Deref for DebugEnumerationVariant<'_> {
    type Target = EnumerationVariant;

    fn deref(&self) -> (r: &EnumerationVariant)
        ensures
            r@ == self@.variant,
    {
        self.variant
    }
}

/// The cursor on the variant at position `i` of an enumeration cursor: it
/// stands where the enumeration stands.
pub open spec fn variant_at(e: DebugEnumerationView, i: int) -> DebugEnumerationVariantView {
    DebugEnumerationVariantView {
        info: e.info,
        parent_name: e.enumeration.name,
        location: e.location,
        offset: e.offset,
        variant: e.enumeration.variants[i],
    }
}

/// The variant that a discriminant selects: the variant that carries it,
/// else the variant that carries none; without either, an error that names
/// the discriminant in decimal.
pub open spec fn selected_variant(e: DebugEnumerationView, discriminant: usize) -> Result<
    DebugEnumerationVariantView,
    DebugTypeErrorView,
> {
    match variant_with_discriminant(e.enumeration.variants, discriminant as u64) {
        Some(i) => Ok(variant_at(e, i)),
        None => Err(
            DebugTypeErrorView::VariantNotFound {
                owner: e.enumeration.name,
                variant: crate::text::decimal(discriminant as nat),
            },
        ),
    }
}

/// The variant called `name`.
pub open spec fn named_variant(e: DebugEnumerationView, name: Seq<char>) -> Result<
    DebugEnumerationVariantView,
    DebugTypeErrorView,
> {
    match variant_named(e.enumeration.variants, name) {
        Some(i) => Ok(variant_at(e, i)),
        None => Err(
            DebugTypeErrorView::VariantNotFound { owner: e.enumeration.name, variant: name },
        ),
    }
}

/// The number of bytes of the discriminant that is read to tell the
/// variant of an enumeration in the target. It takes a location, a type of
/// the discriminant with a known size, and a size of 1, 2, 4 or 8 bytes.
pub open spec fn discriminant_width(e: DebugEnumerationView) -> Result<u64, DebugTypeErrorView> {
    if e.location is None {
        Err(DebugTypeErrorView::LocationMissing)
    } else {
        match e.info.size_from_item(e.enumeration.discriminant_kind) {
            None => Err(
                DebugTypeErrorView::KindNotFound { owner: e.enumeration.name, member: None },
            ),
            Some(size) => if size.0 == 1 || size.0 == 2 || size.0 == 4 || size.0 == 8 {
                Ok(size.0)
            } else {
                Err(DebugTypeErrorView::SizeError(size.0))
            },
        }
    }
}

/// The size of the base type of the discriminant of an enumeration. Where
/// the type of the discriminant is no registered item, the kind is not
/// found; where it is an item of another kind, the base type is not found.
pub open spec fn discriminant_size(e: DebugEnumerationView) -> Result<u64, DebugTypeErrorView> {
    match e.info.base_type_from_item(e.enumeration.discriminant_kind) {
        Some(b) => Ok(b.size),
        None => if e.info.unit_of(e.enumeration.discriminant_kind) is None {
            Err(DebugTypeErrorView::KindNotFound { owner: e.enumeration.name, member: None })
        } else {
            Err(DebugTypeErrorView::BaseTypeNotFound { owner: e.enumeration.name })
        },
    }
}

/// Whether reading the discriminant of an enumeration, with the reader in
/// the state `before`, can give `word` and leave the reader in the state
/// `after`. Where the discriminant cannot be read for want of a location or
/// of a usable size, nothing is read. Else as many bytes as the discriminant
/// is wide are read at the cursor's location and composed, least
/// significant first; a read that fails is `ReadError`.
pub open spec fn discriminant_read<S: Read + ?Sized>(
    e: DebugEnumerationView,
    before: &S,
    word: Result<u64, DebugTypeErrorView>,
    after: &S,
) -> bool {
    match discriminant_width(e) {
        Err(x) => word == Err::<u64, DebugTypeErrorView>(x) && after == before,
        Ok(width) => match word {
            Ok(discriminant) => device_reads(
                before,
                e.location.unwrap().0,
                width as nat,
                Some(discriminant),
                after,
            ),
            Err(x) => x == DebugTypeErrorView::ReadError && device_reads(
                before,
                e.location.unwrap().0,
                width as nat,
                None,
                after,
            ),
        },
    }
}

/// The variant of an enumeration once its discriminant has been read: the
/// one that the discriminant selects.
pub open spec fn variant_result(
    e: DebugEnumerationView,
    word: Result<u64, DebugTypeErrorView>,
) -> Result<DebugEnumerationVariantView, DebugTypeErrorView> {
    match word {
        Ok(discriminant) => selected_variant(e, discriminant as usize),
        Err(x) => Err(x),
    }
}

impl<'a> DebugEnumeration<'a> {
    pub(crate) fn new(
        info: &'a DebugInfo,
        enumeration: &'a Enumeration,
        location: MemoryLocation,
    ) -> (r: Self)
        ensures
            r@ == (DebugEnumerationView {
                info: info@,
                location: Some(location),
                offset: StructOffset(0),
                enumeration: enumeration@,
            }),
    {
        Self { info, location: Some(location), offset: StructOffset::new(0), enumeration }
    }

    /// The size of the base type of the discriminant. Where the type of the
    /// discriminant is no registered item, which is so where the
    /// discriminant was never met, the kind is reported as not found; where
    /// it is an item of another kind, the base type is.
    pub fn discriminant_size(&self) -> (r: Result<u64, DebugTypeError>)
        ensures
            agrees(r, discriminant_size(self@)),
    {
        let kind = self.enumeration.discriminant_kind();
        match self.info.base_type_from_item(kind) {
            Some(discriminant) => Ok(discriminant.size()),
            None => match self.info.lookup_unit(kind) {
                Some(_) => Err(
                    DebugTypeError::BaseTypeNotFound {
                        owner: String::from_str(self.enumeration.name()),
                    },
                ),
                None => Err(
                    DebugTypeError::KindNotFound {
                        owner: String::from_str(self.enumeration.name()),
                        member: None,
                    },
                ),
            },
        }
    }

    fn variant_cursor(&self, variant: &'a EnumerationVariant) -> (r: DebugEnumerationVariant<'a>)
        ensures
            r@ == (DebugEnumerationVariantView {
                info: self@.info,
                parent_name: self@.enumeration.name,
                location: self@.location,
                offset: self@.offset,
                variant: variant@,
            }),
    {
        DebugEnumerationVariant {
            info: self.info,
            location: self.location,
            offset: self.offset,
            variant,
            parent_name: String::from_str(self.enumeration.name()),
        }
    }

    /// Look through the list of variants and get the variant that the given
    /// discriminant selects.
    pub fn variant_with_discriminant(&self, discriminant: usize) -> (r: Result<
        DebugEnumerationVariant<'a>,
        DebugTypeError,
    >)
        ensures
            match selected_variant(self@, discriminant) {
                Ok(v) => r matches Ok(c) && c@ == v,
                Err(e) => r matches Err(x) && x@ == e,
            },
    {
        match self.enumeration.variant_with_discriminant(discriminant) {
            Some(variant) => Ok(self.variant_cursor(variant)),
            None => Err(
                DebugTypeError::VariantNotFound {
                    owner: String::from_str(self.enumeration.name()),
                    variant: u64_to_decimal(discriminant as u64),
                },
            ),
        }
    }

    /// Return the enum variant with the given name.
    pub fn variant_named(&self, name: &str) -> (r: Result<
        DebugEnumerationVariant<'a>,
        DebugTypeError,
    >)
        ensures
            match named_variant(self@, name@) {
                Ok(v) => r matches Ok(c) && c@ == v,
                Err(e) => r matches Err(x) && x@ == e,
            },
    {
        match self.enumeration.variant_named(name) {
            Some(variant) => Ok(self.variant_cursor(variant)),
            None => Err(
                DebugTypeError::VariantNotFound {
                    owner: String::from_str(self.enumeration.name()),
                    variant: String::from_str(name),
                },
            ),
        }
    }

    /// The address of the enumeration.
    pub fn location(&self) -> (r: Result<u64, DebugTypeError>)
        ensures
            match self@.location {
                Some(l) => r == Ok::<u64, DebugTypeError>(l.0),
                None => r matches Err(e) && e@ == DebugTypeErrorView::LocationMissing,
            },
    {
        match self.location {
            Some(location) => Ok(location.0),
            None => Err(DebugTypeError::LocationMissing),
        }
    }

    /// The offset of the enumeration from the root of the walk that led to it.
    pub fn cursor_offset(&self) -> (r: StructOffset)
        ensures
            r == self@.offset,
    {
        self.offset
    }

    /// Cursors on all variants, in order.
    pub fn variants(&self) -> (r: Result<Vec<DebugEnumerationVariant<'a>>, DebugTypeError>)
        ensures
            r matches Ok(v) && v.len() == self@.enumeration.variants.len() && forall|i: int|
                0 <= i < v.len() ==> (#[trigger] v[i])@ == variant_at(self@, i),
    {
        let mut variants: Vec<DebugEnumerationVariant<'a>> = Vec::new();
        let all = &self.enumeration.variants;
        let mut i: usize = 0;
        while i < all.len()
            invariant
                i <= all.len(),
                all == &self.enumeration.variants,
                variants.len() == i,
                forall|k: int| 0 <= k < i ==> (#[trigger] variants[k])@ == variant_at(self@, k),
            decreases all.len() - i,
        {
            variants.push(self.variant_cursor(&all[i]));
            i += 1;
        }
        Ok(variants)
    }

    /// The number of bytes of the discriminant to read.
    pub fn discriminant_width(&self) -> (r: Result<u64, DebugTypeError>)
        ensures
            match discriminant_width(self@) {
                Ok(w) => r == Ok::<u64, DebugTypeError>(w),
                Err(e) => r matches Err(x) && x@ == e,
            },
    {
        if self.location.is_none() {
            return Err(DebugTypeError::LocationMissing);
        }
        match self.info.size_from_item(self.enumeration.discriminant_kind()) {
            None => Err(
                DebugTypeError::KindNotFound {
                    owner: String::from_str(self.enumeration.name()),
                    member: None,
                },
            ),
            Some(size) => if size.0 == 1 || size.0 == 2 || size.0 == 4 || size.0 == 8 {
                Ok(size.0)
            } else {
                Err(DebugTypeError::SizeError(size.0))
            },
        }
    }

    /// Returns the currently-selected variant, if one is available.
    ///
    /// Where the discriminant cannot be read for want of a location or of a
    /// usable size, the error says so. Else the discriminant is read at the
    /// cursor's location: a failed read is `ReadError`, and a discriminant
    /// read selects the variant as `variant_with_discriminant` does.
    pub fn variant<S: Read + ?Sized>(&self, memory_source: &mut S) -> (r: Result<
        DebugEnumerationVariant<'a>,
        DebugTypeError,
    >)
        ensures
            exists|word: Result<u64, DebugTypeErrorView>| #[trigger]
                discriminant_read(self@, &*old(memory_source), word, &*final(memory_source))
                    && viewed(r) == variant_result(self@, word),
    {
        let width = match self.discriminant_width() {
            Ok(width) => width,
            Err(e) => {
                proof {
                    assert(discriminant_read(
                        self@,
                        &*old(memory_source),
                        Err(e@),
                        &*memory_source,
                    ));
                }
                return Err(e);
            },
        };
        let address = match self.location {
            Some(location) => location.0,
            None => {
                return Err(DebugTypeError::LocationMissing);
            },
        };
        let discriminant = match read_word(memory_source, address, width) {
            Some(word) => word.to_u64(),
            None => {
                proof {
                    assert(discriminant_read(
                        self@,
                        &*old(memory_source),
                        Err(DebugTypeErrorView::ReadError),
                        &*memory_source,
                    ));
                }
                return Err(DebugTypeError::ReadError);
            },
        };
        proof {
            assert(discriminant_read(
                self@,
                &*old(memory_source),
                Ok(discriminant),
                &*memory_source,
            ));
        }
        self.variant_with_discriminant(#[verifier::truncate] (discriminant as usize))
    }
}

impl core::ops::Deref for DebugEnumeration<'_> {
    type Target = Enumeration;

    fn deref(&self) -> (r: &Enumeration)
        ensures
            r@ == self@.enumeration,
    {
        self.enumeration
    }
}

/// One element of an array in the target.
#[derive(Debug)]
pub struct DebugArrayItem<'a> {
    info: &'a DebugInfo,
    location: Option<MemoryLocation>,
    offset: StructOffset,
    kind: DebugItem,
    parent_name: String,
}

/// What a cursor on an element of an array holds, as plain values: the symbols that it looks types up
/// in, its place in the target, and the record that it stands on.
pub struct DebugArrayItemView {
    pub info: DebugInfoModel,
    pub location: Option<MemoryLocation>,
    pub offset: StructOffset,
    pub kind: DebugItem,
    pub parent_name: Seq<char>,
}

impl View for DebugArrayItem<'_> {
    type V = DebugArrayItemView;

    closed spec fn view(&self) -> DebugArrayItemView {
        DebugArrayItemView {
            info: self.info@,
            location: self.location,
            offset: self.offset,
            kind: self.kind,
            parent_name: self.parent_name@,
        }
    }
}

/// An element as a structure, at the place of the element.
pub open spec fn item_structure(item: DebugArrayItemView) -> Result<
    DebugStructureView,
    DebugTypeErrorView,
> {
    match item.info.structure_from_item(item.kind) {
        Some(structure) => Ok(
            DebugStructureView {
                info: item.info,
                location: item.location,
                offset: item.offset,
                structure,
            },
        ),
        None => Err(DebugTypeErrorView::StructureNotFound { owner: item.parent_name }),
    }
}

/// An element as an enumeration, at the place of the element.
pub open spec fn item_enumeration(item: DebugArrayItemView) -> Result<
    DebugEnumerationView,
    DebugTypeErrorView,
> {
    match item.info.enumeration_from_item(item.kind) {
        Some(enumeration) => Ok(
            DebugEnumerationView {
                info: item.info,
                location: item.location,
                offset: item.offset,
                enumeration,
            },
        ),
        None => Err(DebugTypeErrorView::EnumerationNotFound { owner: item.parent_name }),
    }
}

/// The address of an element that is a byte.
pub open spec fn byte_address(item: DebugArrayItemView) -> Option<u64> {
    match (item.location, item.info.base_type_from_item(item.kind)) {
        (Some(location), Some(base_type)) => if base_type.size == 1 {
            Some(location.0)
        } else {
            None
        },
        _ => None,
    }
}

/// An item stored within an array. The item may be a Structure, an Enumeration,
/// or a BaseType of u8.
impl<'a> DebugArrayItem<'a> {
    /// If the Array is an array of structs, return the underlying Structure object.
    pub fn structure(&self) -> (r: Result<DebugStructure<'a>, DebugTypeError>)
        ensures
            agrees(r, item_structure(self@)),
    {
        match self.info.structure_from_item(self.kind) {
            Some(structure) => Ok(
                DebugStructure {
                    info: self.info,
                    location: self.location,
                    offset: self.offset,
                    structure,
                },
            ),
            None => Err(DebugTypeError::StructureNotFound { owner: self.parent_name.clone() }),
        }
    }

    /// If the Array is an array of enums, return the underlying Enumeration object.
    pub fn enumeration(&self) -> (r: Result<DebugEnumeration<'a>, DebugTypeError>)
        ensures
            agrees(r, item_enumeration(self@)),
    {
        match self.info.enumeration_from_item(self.kind) {
            Some(enumeration) => Ok(
                DebugEnumeration {
                    info: self.info,
                    location: self.location,
                    offset: self.offset,
                    enumeration,
                },
            ),
            None => Err(DebugTypeError::EnumerationNotFound { owner: self.parent_name.clone() }),
        }
    }

    /// The address of the element, if the element is a byte: it has a
    /// location and is of a base type of one byte.
    pub fn byte_address(&self) -> (r: Option<u64>)
        ensures
            r == byte_address(self@),
    {
        match self.location {
            Some(location) => match self.info.base_type_from_item(self.kind) {
                Some(base_type) => if base_type.size() == 1 {
                    Some(location.0)
                } else {
                    None
                },
                None => None,
            },
            None => None,
        }
    }

    /// Treat the element as a `u8`. This can be useful for reading strings, which are
    /// generally stored as arrays of u8 values. The byte is read where the
    /// element is a byte, and is what the reader gives, if it gives one.
    pub fn u8<S: Read + ?Sized>(&self, memory_source: &mut S) -> (r: Option<u8>)
        ensures
            match byte_address(self@) {
                Some(address) => device_reads(
                    &*old(memory_source),
                    address,
                    1,
                    match r {
                        Some(v) => Some(v as u64),
                        None => None,
                    },
                    &*final(memory_source),
                ),
                None => r is None && &*final(memory_source) == &*old(memory_source),
            },
    {
        match self.byte_address() {
            Some(address) => read_byte(memory_source, address),
            None => None,
        }
    }

    /// The address of the element, if it is known.
    pub fn location(&self) -> (r: Option<MemoryLocation>)
        ensures
            r == self@.location,
    {
        self.location
    }

    /// The offset of the element from the root of the walk that led to it.
    pub fn cursor_offset(&self) -> (r: StructOffset)
        ensures
            r == self@.offset,
    {
        self.offset
    }
}

/// Steps through the elements of an array.
#[derive(Debug)]
pub struct DebugArrayIterator<'a> {
    info: &'a DebugInfo,
    location: Option<MemoryLocation>,
    offset: StructOffset,
    array: &'a Array,
    index: usize,
    count: usize,
    element_size: StructOffset,
    parent_name: String,
}

/// What an iterator over the elements of an array holds, as plain values.
pub struct DebugArrayIteratorView {
    pub info: DebugInfoModel,
    pub location: Option<MemoryLocation>,
    pub offset: StructOffset,
    pub array: Array,
    pub index: usize,
    pub count: usize,
    pub element_size: StructOffset,
    pub parent_name: Seq<char>,
}

impl View for DebugArrayIterator<'_> {
    type V = DebugArrayIteratorView;

    closed spec fn view(&self) -> DebugArrayIteratorView {
        DebugArrayIteratorView {
            info: self.info@,
            location: self.location,
            offset: self.offset,
            array: *self.array,
            index: self.index,
            count: self.count,
            element_size: self.element_size,
            parent_name: self.parent_name@,
        }
    }
}

/// The element at position `index` of the array that is stepped through: it
/// lies `index` times the size of an element beyond the start of the array.
pub open spec fn array_item(it: DebugArrayIteratorView, index: usize) -> DebugArrayItemView {
    DebugArrayItemView {
        info: it.info,
        location: shifted(it.location, stride(it.element_size, index as u64)),
        offset: offset_sum(it.offset, stride(it.element_size, index as u64)),
        kind: it.array.kind,
        parent_name: it.parent_name,
    }
}

impl<'a> DebugArrayIterator<'a> {
    /// The next element, if there is one.
    pub fn next(&mut self) -> (r: Option<DebugArrayItem<'a>>)
        ensures
            old(self)@.index >= old(self)@.count ==> r is None && final(self)@ == old(self)@,
            old(self)@.index < old(self)@.count ==> (r matches Some(item) && item@ == array_item(
                old(self)@,
                old(self)@.index,
            )) && final(self)@ == (DebugArrayIteratorView {
                index: (old(self)@.index + 1) as usize,
                ..old(self)@
            }),
    {
        if self.index >= self.count {
            return None;
        }
        let by = self.element_size * StructOffset::new(self.index as u64);
        let item = DebugArrayItem {
            info: self.info,
            location: shift(self.location, by),
            offset: self.offset + by,
            kind: self.array.kind(),
            parent_name: self.parent_name.clone(),
        };
        self.index += 1;
        Some(item)
    }

    /// The number of elements that are still to come.
    pub fn remaining(&self) -> (r: usize)
        ensures
            r == if self@.index < self@.count {
                self@.count - self@.index
            } else {
                0
            },
    {
        if self.index < self.count {
            self.count - self.index
        } else {
            0
        }
    }
}

/// The first element of an array as a structure, if the elements are structures.
pub open spec fn array_structure(a: DebugArrayView) -> Option<DebugStructureView> {
    match a.info.structure_from_item(a.array.kind) {
        Some(structure) => Some(
            DebugStructureView { info: a.info, location: a.location, offset: a.offset, structure },
        ),
        None => None,
    }
}

/// The first element of an array as an enumeration, if the elements are
/// enumerations.
pub open spec fn array_enumeration(a: DebugArrayView) -> Option<DebugEnumerationView> {
    match a.info.enumeration_from_item(a.array.kind) {
        Some(enumeration) => Some(
            DebugEnumerationView {
                info: a.info,
                location: a.location,
                offset: a.offset,
                enumeration,
            },
        ),
        None => None,
    }
}

/// The iterator over the elements of an array cursor. It takes an element
/// type with a known size.
pub open spec fn array_iter(a: DebugArrayView) -> Result<
    DebugArrayIteratorView,
    DebugTypeErrorView,
> {
    match a.info.size_from_item(a.array.kind) {
        Some(element_size) => Ok(
            DebugArrayIteratorView {
                info: a.info,
                location: a.location,
                offset: a.offset,
                array: a.array,
                index: 0,
                count: a.array.count,
                element_size,
                parent_name: a.parent_name,
            },
        ),
        None => Err(DebugTypeErrorView::KindNotFound { owner: a.parent_name, member: None }),
    }
}

impl<'a> DebugArray<'a> {
    /// The first element as a structure, if the elements are structures.
    pub fn structure(&self) -> (r: Option<DebugStructure<'a>>)
        ensures
            match array_structure(self@) {
                Some(v) => r matches Some(c) && c@ == v,
                None => r is None,
            },
    {
        match self.info.structure_from_item(self.array.kind()) {
            Some(structure) => Some(
                DebugStructure {
                    info: self.info,
                    location: self.location,
                    offset: self.offset,
                    structure,
                },
            ),
            None => None,
        }
    }

    /// The first element as an enumeration, if the elements are enumerations.
    pub fn enumeration(&self) -> (r: Option<DebugEnumeration<'a>>)
        ensures
            match array_enumeration(self@) {
                Some(v) => r matches Some(c) && c@ == v,
                None => r is None,
            },
    {
        match self.info.enumeration_from_item(self.array.kind()) {
            Some(enumeration) => Some(
                DebugEnumeration {
                    info: self.info,
                    location: self.location,
                    offset: self.offset,
                    enumeration,
                },
            ),
            None => None,
        }
    }

    /// An iterator over the elements.
    pub fn iter(&self) -> (r: Result<DebugArrayIterator<'a>, DebugTypeError>)
        ensures
            agrees(r, array_iter(self@)),
    {
        let element_size = match self.info.size_from_item(self.array.kind()) {
            Some(element_size) => element_size,
            None => {
                return Err(
                    DebugTypeError::KindNotFound { owner: self.parent_name.clone(), member: None },
                );
            },
        };
        Ok(
            DebugArrayIterator {
                info: self.info,
                location: self.location,
                offset: self.offset,
                array: self.array,
                index: 0,
                count: self.array.count(),
                element_size,
                parent_name: self.parent_name.clone(),
            },
        )
    }

    /// Forgets the offset accumulated so far.
    pub fn reset_offset(&mut self) -> (r: &Self)
        ensures
            final(self)@ == (DebugArrayView { offset: StructOffset(0), ..old(self)@ }),
            r@ == final(self)@,
    {
        self.offset = StructOffset::new(0);
        self
    }

    /// The address of the array, if it is known.
    pub fn location(&self) -> (r: Option<MemoryLocation>)
        ensures
            r == self@.location,
    {
        self.location
    }

    /// The offset of the array from the root of the walk that led to it.
    pub fn cursor_offset(&self) -> (r: StructOffset)
        ensures
            r == self@.offset,
    {
        self.offset
    }
}

impl core::ops::Deref for DebugArray<'_> {
    type Target = Array;

    fn deref(&self) -> (r: &Array)
        ensures
            *r == self@.array,
    {
        self.array
    }
}

/// Steps through the elements of a slice whose elements are of a base type.
#[derive(Debug)]
pub struct DebugSliceBaseTypeIter<'a> {
    location: Option<MemoryLocation>,
    offset: StructOffset,
    length: u64,
    current: u64,
    size: StructOffset,
    base_type: &'a BaseType,
}

/// What an iterator over the elements of a slice of values of a base type holds, as plain values.
pub struct DebugSliceBaseTypeIterView {
    pub location: Option<MemoryLocation>,
    pub offset: StructOffset,
    pub length: u64,
    pub current: u64,
    pub size: StructOffset,
    pub base_type: BaseTypeView,
}

impl View for DebugSliceBaseTypeIter<'_> {
    type V = DebugSliceBaseTypeIterView;

    closed spec fn view(&self) -> DebugSliceBaseTypeIterView {
        DebugSliceBaseTypeIterView {
            location: self.location,
            offset: self.offset,
            length: self.length,
            current: self.current,
            size: self.size,
            base_type: self.base_type@,
        }
    }
}

impl<'a> DebugSliceBaseTypeIter<'a> {
    pub fn len(&self) -> (r: usize)
        ensures
            r == self@.length as usize,
    {
        #[verifier::truncate]
        (self.length as usize)
    }

    pub fn is_empty(&self) -> (r: bool)
        ensures
            r == (self@.length == 0),
    {
        self.length == 0
    }

    /// The next element, if there is one: it lies as many element sizes
    /// beyond the start of the slice as elements came before it.
    pub fn next(&mut self) -> (r: Option<DebugBaseType<'a>>)
        ensures
            old(self)@.current >= old(self)@.length ==> r is None && final(self)@ == old(self)@,
            old(self)@.current < old(self)@.length ==> (r matches Some(item) && item@ == (
            DebugBaseTypeView {
                location: shifted(
                    old(self)@.location,
                    stride(old(self)@.size, old(self)@.current),
                ),
                offset: offset_sum(old(self)@.offset, stride(old(self)@.size, old(self)@.current)),
                base_type: old(self)@.base_type,
            })) && final(self)@ == (DebugSliceBaseTypeIterView {
                current: (old(self)@.current + 1) as u64,
                ..old(self)@
            }),
    {
        if self.current >= self.length {
            return None;
        }
        let by = self.size * StructOffset::new(self.current);
        let item = DebugBaseType {
            location: shift(self.location, by),
            offset: self.offset + by,
            base_type: self.base_type,
        };
        self.current += 1;
        Some(item)
    }
}

/// Steps through the elements of a slice whose elements are structures.
#[derive(Debug)]
pub struct DebugSliceStructureIter<'a> {
    info: &'a DebugInfo,
    location: Option<MemoryLocation>,
    offset: StructOffset,
    length: u64,
    current: u64,
    size: StructOffset,
    structure: &'a Structure,
}

/// What an iterator over the elements of a slice of structures holds, as plain values.
pub struct DebugSliceStructureIterView {
    pub info: DebugInfoModel,
    pub location: Option<MemoryLocation>,
    pub offset: StructOffset,
    pub length: u64,
    pub current: u64,
    pub size: StructOffset,
    pub structure: StructureView,
}

impl View for DebugSliceStructureIter<'_> {
    type V = DebugSliceStructureIterView;

    closed spec fn view(&self) -> DebugSliceStructureIterView {
        DebugSliceStructureIterView {
            info: self.info@,
            location: self.location,
            offset: self.offset,
            length: self.length,
            current: self.current,
            size: self.size,
            structure: self.structure@,
        }
    }
}

impl<'a> DebugSliceStructureIter<'a> {
    pub fn len(&self) -> (r: usize)
        ensures
            r == self@.length as usize,
    {
        #[verifier::truncate]
        (self.length as usize)
    }

    pub fn is_empty(&self) -> (r: bool)
        ensures
            r == (self@.length == 0),
    {
        self.length == 0
    }

    /// The next element, if there is one: it lies as many element sizes
    /// beyond the start of the slice as elements came before it.
    pub fn next(&mut self) -> (r: Option<DebugStructure<'a>>)
        ensures
            old(self)@.current >= old(self)@.length ==> r is None && final(self)@ == old(self)@,
            old(self)@.current < old(self)@.length ==> (r matches Some(item) && item@ == (
            DebugStructureView {
                info: old(self)@.info,
                location: shifted(
                    old(self)@.location,
                    stride(old(self)@.size, old(self)@.current),
                ),
                offset: offset_sum(old(self)@.offset, stride(old(self)@.size, old(self)@.current)),
                structure: old(self)@.structure,
            })) && final(self)@ == (DebugSliceStructureIterView {
                current: (old(self)@.current + 1) as u64,
                ..old(self)@
            }),
    {
        if self.current >= self.length {
            return None;
        }
        let by = self.size * StructOffset::new(self.current);
        let item = DebugStructure {
            info: self.info,
            location: shift(self.location, by),
            offset: self.offset + by,
            structure: self.structure,
        };
        self.current += 1;
        Some(item)
    }
}

/// A slice in the target: a number of elements of one type, one after the
/// other from the address that the slice's pointer holds.
#[derive(Debug)]
pub struct DebugSlice<'a> {
    info: &'a DebugInfo,
    location: Option<MemoryLocation>,
    offset: StructOffset,
    length: u64,
    data_ptr: &'a Pointer,
    parent_name: String,
}

/// What a cursor on a slice holds, as plain values: the symbols that it looks types up
/// in, its place in the target, and the record that it stands on.
pub struct DebugSliceView {
    pub info: DebugInfoModel,
    pub location: Option<MemoryLocation>,
    pub offset: StructOffset,
    pub length: u64,
    pub data_ptr: PointerView,
    pub parent_name: Seq<char>,
}

impl View for DebugSlice<'_> {
    type V = DebugSliceView;

    closed spec fn view(&self) -> DebugSliceView {
        DebugSliceView {
            info: self.info@,
            location: self.location,
            offset: self.offset,
            length: self.length,
            data_ptr: self.data_ptr@,
            parent_name: self.parent_name@,
        }
    }
}

/// The iterator over the elements of a slice of values of a base type.
pub open spec fn slice_base_type_iter(s: DebugSliceView) -> Result<
    DebugSliceBaseTypeIterView,
    DebugTypeErrorView,
> {
    match s.info.base_type_from_item(s.data_ptr.kind) {
        None => Err(DebugTypeErrorView::BaseTypeNotFound { owner: s.parent_name }),
        Some(base_type) => match s.info.size_from_item(s.data_ptr.kind) {
            None => Err(DebugTypeErrorView::KindNotFound { owner: s.parent_name, member: None }),
            Some(size) => Ok(
                DebugSliceBaseTypeIterView {
                    location: s.location,
                    offset: s.offset,
                    length: s.length,
                    current: 0,
                    size,
                    base_type,
                },
            ),
        },
    }
}

/// The iterator over the elements of a slice of structures.
pub open spec fn slice_structure_iter(s: DebugSliceView) -> Result<
    DebugSliceStructureIterView,
    DebugTypeErrorView,
> {
    match s.info.structure_from_item(s.data_ptr.kind) {
        None => Err(DebugTypeErrorView::StructureNotFound { owner: s.parent_name }),
        Some(structure) => match s.info.size_from_item(s.data_ptr.kind) {
            None => Err(DebugTypeErrorView::KindNotFound { owner: s.parent_name, member: None }),
            Some(size) => Ok(
                DebugSliceStructureIterView {
                    info: s.info,
                    location: s.location,
                    offset: s.offset,
                    length: s.length,
                    current: 0,
                    size,
                    structure,
                },
            ),
        },
    }
}

impl<'a> DebugSlice<'a> {
    /// An iterator over the elements, which are of a base type.
    pub fn base_type_iter(&self) -> (r: Result<DebugSliceBaseTypeIter<'a>, DebugTypeError>)
        ensures
            agrees(r, slice_base_type_iter(self@)),
    {
        let base_type = match self.info.base_type_from_item(self.data_ptr.kind()) {
            Some(base_type) => base_type,
            None => {
                return Err(DebugTypeError::BaseTypeNotFound { owner: self.parent_name.clone() });
            },
        };
        let element_size = match self.info.size_from_item(self.data_ptr.kind()) {
            Some(element_size) => element_size,
            None => {
                return Err(
                    DebugTypeError::KindNotFound { owner: self.parent_name.clone(), member: None },
                );
            },
        };
        Ok(
            DebugSliceBaseTypeIter {
                location: self.location,
                offset: self.offset,
                length: self.length,
                current: 0,
                size: element_size,
                base_type,
            },
        )
    }

    /// An iterator over the elements, which are structures.
    pub fn structure_iter(&self) -> (r: Result<DebugSliceStructureIter<'a>, DebugTypeError>)
        ensures
            agrees(r, slice_structure_iter(self@)),
    {
        let structure = match self.info.structure_from_item(self.data_ptr.kind()) {
            Some(structure) => structure,
            None => {
                return Err(DebugTypeError::StructureNotFound { owner: self.parent_name.clone() });
            },
        };
        let element_size = match self.info.size_from_item(self.data_ptr.kind()) {
            Some(element_size) => element_size,
            None => {
                return Err(
                    DebugTypeError::KindNotFound { owner: self.parent_name.clone(), member: None },
                );
            },
        };
        Ok(
            DebugSliceStructureIter {
                info: self.info,
                location: self.location,
                offset: self.offset,
                length: self.length,
                current: 0,
                size: element_size,
                structure,
            },
        )
    }

    /// The number of elements.
    pub fn length(&self) -> (r: u64)
        ensures
            r == self@.length,
    {
        self.length
    }

    /// The address of the first element, if it is known.
    pub fn location(&self) -> (r: Option<MemoryLocation>)
        ensures
            r == self@.location,
    {
        self.location
    }
}

/// The type of the length of a structure that is laid out as a slice: the
/// structure has two members, and the one called `length` is of a base
/// type. Any other structure is no slice.
pub open spec fn slice_length(s: DebugStructureView) -> Result<
    DebugBaseTypeView,
    DebugTypeErrorView,
> {
    if s.structure.members.len() != 2 {
        Err(DebugTypeErrorView::NotRustSlice(s.structure.name))
    } else {
        match structure_member(s, "length"@) {
            Ok(member) => match member_base_type(member) {
                Ok(length) => Ok(length),
                Err(_) => Err(DebugTypeErrorView::NotRustSlice(s.structure.name)),
            },
            Err(_) => Err(DebugTypeErrorView::NotRustSlice(s.structure.name)),
        }
    }
}

/// The pointer to the elements of a structure that is laid out as a slice:
/// the structure has two members, and the one called `data_ptr` is a
/// pointer. Any other structure is no slice.
pub open spec fn slice_pointer(s: DebugStructureView) -> Result<
    DebugPointerView,
    DebugTypeErrorView,
> {
    if s.structure.members.len() != 2 {
        Err(DebugTypeErrorView::NotRustSlice(s.structure.name))
    } else {
        match structure_member(s, "data_ptr"@) {
            Ok(member) => match member_pointer(member) {
                Ok(pointer) => Ok(pointer),
                Err(_) => Err(DebugTypeErrorView::NotRustSlice(s.structure.name)),
            },
            Err(_) => Err(DebugTypeErrorView::NotRustSlice(s.structure.name)),
        }
    }
}

/// Whether reading the length of a slice, with the reader in the state
/// `before`, can give `length` and leave the reader in the state `after`.
/// The length is read in the size of its type, at most eight bytes, at its
/// address; where there is nothing to read, nothing is read.
pub open spec fn length_read<S: Read + ?Sized>(
    b: DebugBaseTypeView,
    before: &S,
    length: Option<u64>,
    after: &S,
) -> bool {
    match read_request(b, 8) {
        Some(request) => device_reads(before, request.0, request.1 as nat, length, after),
        None => length is None && after == before,
    }
}

/// The slice that a structure stands for once its length and the word of
/// its pointer have been read. A length that could not be read and a null
/// pointer are `ReadError`.
pub open spec fn slice_result(
    s: DebugStructureView,
    pointer: DebugPointerView,
    length: Option<u64>,
    word: Result<u32, DebugTypeErrorView>,
) -> Result<DebugSliceView, DebugTypeErrorView> {
    match length {
        None => Err(DebugTypeErrorView::ReadError),
        Some(n) => match word {
            Ok(target) => if target == 0 {
                Err(DebugTypeErrorView::ReadError)
            } else {
                Ok(slice_at(s, pointer, n, target))
            },
            Err(e) => Err(e),
        },
    }
}

/// Whether reading a structure as a slice, with the reader in the state
/// `before`, can give `r` and leave the reader in the state `after`. A
/// structure that is not laid out as a slice is reported as such, and
/// nothing is read. Else the length is read first; where it was read, the
/// word of the pointer is read after it.
pub open spec fn slice_read<S: Read + ?Sized>(
    s: DebugStructureView,
    before: &S,
    r: Result<DebugSliceView, DebugTypeErrorView>,
    after: &S,
) -> bool {
    match (slice_length(s), slice_pointer(s)) {
        (Ok(length_type), Ok(pointer)) => exists|length: Option<u64>, mid: &S| #[trigger]
            length_read(length_type, before, length, mid) && match length {
                None => r == slice_result(s, pointer, length, Ok(0)) && after == mid,
                Some(_) => exists|word: Result<u32, DebugTypeErrorView>| #[trigger]
                    pointer_read(pointer, mid, word, after) && r == slice_result(
                        s,
                        pointer,
                        length,
                        word,
                    ),
            },
        (Err(e), _) => r == Err::<DebugSliceView, DebugTypeErrorView>(e) && after == before,
        (_, Err(e)) => r == Err::<DebugSliceView, DebugTypeErrorView>(e) && after == before,
    }
}

/// The slice that a structure stands for, once its length and the address
/// of its elements have been read.
pub open spec fn slice_at(
    s: DebugStructureView,
    pointer: DebugPointerView,
    length: u64,
    target: u32,
) -> DebugSliceView {
    DebugSliceView {
        info: s.info,
        location: Some(MemoryLocation(target as u64)),
        offset: s.offset,
        length,
        data_ptr: pointer.pointer,
        parent_name: s.structure.name,
    }
}

impl<'a> DebugStructure<'a> {
    pub(crate) fn new(
        info: &'a DebugInfo,
        structure: &'a Structure,
        location: MemoryLocation,
    ) -> (r: Self)
        ensures
            r@ == (DebugStructureView {
                info: info@,
                location: Some(location),
                offset: StructOffset(0),
                structure: structure@,
            }),
    {
        DebugStructure {
            info,
            location: Some(location),
            offset: StructOffset::new(0),
            structure,
        }
    }

    /// The member called `name`, at the structure's location and offset,
    /// each moved by the member's offset.
    pub fn member_named(&self, name: &str) -> (r: Result<DebugStructureMember<'a>, DebugTypeError>)
        ensures
            agrees(r, structure_member(self@, name@)),
    {
        match self.structure.member_named(name) {
            Some(structure_member) => Ok(
                DebugStructureMember {
                    info: self.info,
                    location: shift(self.location, structure_member.offset()),
                    offset: self.offset + structure_member.offset(),
                    parent_name: String::from_str(self.structure.name()),
                    structure_member,
                },
            ),
            None => Err(
                DebugTypeError::MemberNotFound {
                    owner: String::from_str(self.structure.name()),
                    member: String::from_str(name),
                },
            ),
        }
    }

    fn not_slice(&self) -> (r: DebugTypeError)
        ensures
            r@ == DebugTypeErrorView::NotRustSlice(self@.structure.name),
    {
        DebugTypeError::NotRustSlice(String::from_str(self.structure.name()))
    }

    /// The length of the slice that this structure stands for, as a value
    /// of a base type that is still to be read.
    pub fn slice_length(&self) -> (r: Result<DebugBaseType<'a>, DebugTypeError>)
        ensures
            agrees(r, slice_length(self@)),
    {
        if self.structure.members().len() != 2 {
            return Err(self.not_slice());
        }
        match self.member_named("length") {
            Ok(member) => match member.base_type() {
                Ok(length) => Ok(length),
                Err(_) => Err(self.not_slice()),
            },
            Err(_) => Err(self.not_slice()),
        }
    }

    /// The pointer to the elements of the slice that this structure stands for.
    pub fn slice_pointer(&self) -> (r: Result<DebugPointer<'a>, DebugTypeError>)
        ensures
            agrees(r, slice_pointer(self@)),
    {
        if self.structure.members().len() != 2 {
            return Err(self.not_slice());
        }
        match self.member_named("data_ptr") {
            Ok(member) => match member.pointer() {
                Ok(pointer) => Ok(pointer),
                Err(_) => Err(self.not_slice()),
            },
            Err(_) => Err(self.not_slice()),
        }
    }

    /// Special case for Rust slices, which always have two members:
    /// a "data_ptr" and a "length".
    ///
    /// A structure that does not have these two members, the length of a
    /// base type and the other a pointer, is no slice, and nothing is read.
    /// Else the length is read first, then the pointer is followed. A length
    /// or a pointer that cannot be read, and a null pointer, are
    /// `ReadError`. Otherwise the result is the slice with the length and
    /// the address that were read.
    pub fn as_slice<S: Read + ?Sized>(&self, memory_source: &mut S) -> (r: Result<
        DebugSlice<'a>,
        DebugTypeError,
    >)
        ensures
            slice_read(self@, &*old(memory_source), viewed(r), &*final(memory_source)),
    {
        let length_type = match self.slice_length() {
            Ok(length_type) => length_type,
            Err(e) => {
                return Err(e);
            },
        };
        let pointer = match self.slice_pointer() {
            Ok(pointer) => pointer,
            Err(e) => {
                return Err(e);
            },
        };
        let ghost before: &S = &*memory_source;
        let ghost p = pointer@;
        let read = length_type.as_u64(memory_source);
        let ghost mid: &S = &*memory_source;
        proof {
            assert(length_read(length_type@, before, read, mid));
        }
        let length = match read {
            Some(length) => length,
            None => {
                return Err(DebugTypeError::ReadError);
            },
        };
        let followed = pointer.follow_unless_null(memory_source);
        proof {
            let word = choose|word: Result<u32, DebugTypeErrorView>| #[trigger]
                pointer_read(p, mid, word, &*memory_source) && viewed(followed)
                    == follow_unless_null_result(p, word);
            assert(pointer_read(p, mid, word, &*memory_source));
        }
        match followed {
            Ok(data_ptr) => Ok(self.slice_from(length, &data_ptr)),
            Err(e) => Err(e),
        }
    }

    /// The slice that this structure stands for, given its length and the
    /// pointer to its elements, which has been followed.
    pub fn slice_from(&self, length: u64, data_ptr: &DebugPointer<'a>) -> (r: DebugSlice<'a>)
        ensures
            r@ == (DebugSliceView {
                info: self@.info,
                location: data_ptr@.location,
                offset: self@.offset,
                length,
                data_ptr: data_ptr@.pointer,
                parent_name: self@.structure.name,
            }),
    {
        DebugSlice {
            info: self.info,
            location: data_ptr.location,
            offset: self.offset,
            length,
            data_ptr: data_ptr.pointer,
            parent_name: String::from_str(self.structure.name()),
        }
    }

    pub fn location(&self) -> (r: Option<MemoryLocation>)
        ensures
            r == self@.location,
    {
        self.location
    }

    /// The offset of the structure from the root of the walk that led to it.
    pub fn cursor_offset(&self) -> (r: StructOffset)
        ensures
            r == self@.offset,
    {
        self.offset
    }
}

impl core::ops::Deref for DebugStructure<'_> {
    type Target = Structure;

    fn deref(&self) -> (r: &Structure)
        ensures
            r@ == self@.structure,
    {
        self.structure
    }
}

/// A variable as a structure, at the address of the variable.
pub open spec fn variable_structure(v: DebugVariableView) -> Result<
    DebugStructureView,
    DebugTypeErrorView,
> {
    match v.info.structure_from_item(v.variable.kind) {
        Some(structure) => Ok(
            DebugStructureView {
                info: v.info,
                location: Some(v.variable.location),
                offset: StructOffset(0),
                structure,
            },
        ),
        None => Err(DebugTypeErrorView::StructureNotFound { owner: v.variable.name }),
    }
}

/// A variable as an enumeration, at the address of the variable.
pub open spec fn variable_enumeration(v: DebugVariableView) -> Result<
    DebugEnumerationView,
    DebugTypeErrorView,
> {
    match v.info.enumeration_from_item(v.variable.kind) {
        Some(enumeration) => Ok(
            DebugEnumerationView {
                info: v.info,
                location: Some(v.variable.location),
                offset: StructOffset(0),
                enumeration,
            },
        ),
        None => Err(DebugTypeErrorView::EnumerationNotFound { owner: v.variable.name }),
    }
}

/// A variable as an array, at the address of the variable.
pub open spec fn variable_array(v: DebugVariableView) -> Result<
    DebugArrayView,
    DebugTypeErrorView,
> {
    match v.info.array_from_item(v.variable.kind) {
        Some(array) => Ok(
            DebugArrayView {
                info: v.info,
                location: Some(v.variable.location),
                offset: StructOffset(0),
                array,
                parent_name: v.variable.name,
            },
        ),
        None => Err(DebugTypeErrorView::ArrayNotFound(v.variable.name)),
    }
}

impl<'a> DebugVariable<'a> {
    /// A cursor on a variable of the given unit of the given registry.
    pub fn new(info: &'a DebugInfo, variable: &'a Variable) -> (r: Self)
        ensures
            r@ == (DebugVariableView { info: info@, variable: variable@ }),
    {
        DebugVariable { info, variable }
    }

    /// The variable as a structure, at the variable's address.
    pub fn structure(&self) -> (r: Result<DebugStructure<'a>, DebugTypeError>)
        ensures
            agrees(r, variable_structure(self@)),
    {
        match self.info.structure_from_item(self.variable.kind()) {
            Some(structure) => Ok(
                DebugStructure {
                    info: self.info,
                    location: Some(self.variable.location()),
                    offset: StructOffset::new(0),
                    structure,
                },
            ),
            None => Err(
                DebugTypeError::StructureNotFound {
                    owner: String::from_str(self.variable.name()),
                },
            ),
        }
    }

    /// The variable as an enumeration, at the variable's address.
    pub fn enumeration(&self) -> (r: Result<DebugEnumeration<'a>, DebugTypeError>)
        ensures
            agrees(r, variable_enumeration(self@)),
    {
        match self.info.enumeration_from_item(self.variable.kind()) {
            Some(enumeration) => Ok(
                DebugEnumeration {
                    info: self.info,
                    location: Some(self.variable.location()),
                    offset: StructOffset::new(0),
                    enumeration,
                },
            ),
            None => Err(
                DebugTypeError::EnumerationNotFound {
                    owner: String::from_str(self.variable.name()),
                },
            ),
        }
    }

    /// The variable as an array, at the variable's address.
    pub fn array(&self) -> (r: Result<DebugArray<'a>, DebugTypeError>)
        ensures
            agrees(r, variable_array(self@)),
    {
        match self.info.array_from_item(self.variable.kind()) {
            Some(array) => Ok(
                DebugArray {
                    info: self.info,
                    location: Some(self.variable.location()),
                    offset: StructOffset::new(0),
                    array,
                    parent_name: String::from_str(self.variable.name()),
                },
            ),
            None => Err(DebugTypeError::ArrayNotFound(String::from_str(self.variable.name()))),
        }
    }
}

impl core::ops::Deref for DebugVariable<'_> {
    type Target = Variable;

    fn deref(&self) -> (r: &Variable)
        ensures
            r@ == self@.variable,
    {
        self.variable
    }
}

/// Whether every member of a structure whose type has a known size lies
/// within the structure.
pub open spec fn members_within(info: DebugInfoModel, structure: StructureView) -> bool {
    forall|i: int|
        0 <= i < structure.members.len() ==> (info.size_from_item(
            (#[trigger] structure.members[i]).kind,
        ) matches Some(size) ==> structure.members[i].offset.0 + size.0 <= structure.size)
}

/// In a structure whose members lie within it, the member found by name
/// lies within it: its offset is not negative, and offset and size of the
/// member together do not exceed the size of the structure, where the size
/// of the member is known.
pub proof fn lemma_member_within(s: DebugStructureView, name: Seq<char>)
    requires
        members_within(s.info, s.structure),
    ensures
        structure_member(s, name) matches Ok(m) ==> m.member.offset.0 >= 0 && (
        s.info.size_from_item(m.member.kind) matches Some(size) ==> m.member.offset.0 + size.0
            <= s.structure.size),
{
    crate::search::lemma_first_where_is_first(
        s.structure.members,
        |m: StructureMemberView| m.name == Some(name),
    );
}

/// Where addresses do not wrap, the element at position `index` of an array
/// lies `index` times the element size beyond the array, by location and by
/// offset.
pub proof fn lemma_array_item_place(it: DebugArrayIteratorView, l: MemoryLocation, index: usize)
    ensures
        it.location == Some(l) && l.0 + it.element_size.0 * index <= u64::MAX ==> array_item(
            it,
            index,
        ).location == Some(MemoryLocation((l.0 + it.element_size.0 * index) as u64)),
        it.location is None ==> array_item(it, index).location is None,
        it.offset.0 + it.element_size.0 * index <= u64::MAX ==> array_item(it, index).offset
            == StructOffset((it.offset.0 + it.element_size.0 * index) as u64),
{
    let product = it.element_size.0 * index;
    assert(0 <= product) by (nonlinear_arith)
        requires
            product == it.element_size.0 * index,
            0 <= it.element_size.0,
            0 <= index,
    ;
    if it.location == Some(l) && l.0 + product <= u64::MAX {
        assert(wrap64(product) == product);
        assert(wrap64(l.0 + product) == l.0 + product);
    }
    if it.offset.0 + product <= u64::MAX {
        assert(wrap64(product) == product);
        assert(wrap64(it.offset.0 + product) == it.offset.0 + product);
    }
}

} // verus!
