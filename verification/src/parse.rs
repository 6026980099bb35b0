//! Reading the attributes of a debugging entry into the records of the
//! symbol model.
use crate::dwarf::{
    Attribute, AttributeValue, FileEntry, UnitHeader, DW_AT_ADDRESS_CLASS, DW_AT_ALIGNMENT,
    DW_AT_BYTE_SIZE, DW_AT_CONTAINING_TYPE, DW_AT_COUNT, DW_AT_DATA_MEMBER_LOCATION,
    DW_AT_DECL_FILE, DW_AT_DECL_LINE, DW_AT_DISCR_VALUE, DW_AT_ENCODING, DW_AT_LINKAGE_NAME,
    DW_AT_LOCATION, DW_AT_LOWER_BOUND, DW_AT_NAME, DW_AT_TYPE,
};
use crate::extract::{
    evaluate_expression, evaluation, ExpressionResult, ExpressionResultView, VariableLocation,
    VariableLocationView,
};
use crate::search::{
    first_where, last_where, lemma_first_where_absent, lemma_first_where_found,
    lemma_last_where_absent, lemma_last_where_found,
};
use crate::text::{join, spec_join, strings_view};
use crate::unit_info::{
    Array, BaseType, BaseTypeView, DebugItem, EnumerationVariantView, FileName, MemoryLocation,
    Pointer, PointerView, StructOffset, Structure, StructureMember, StructureMemberView,
    StructureView, Union, UnionView, Variable, VariableView,
};
use vstd::prelude::*;
use vstd::string::*;

verus! {

/// The string that a value holds, where it is a readable string.
pub open spec fn string_value(value: AttributeValue) -> Option<Seq<char>> {
    match value {
        AttributeValue::DebugStrRef(Some(s)) => Some(s@),
        _ => None,
    }
}

/// The item that an offset from the start of a unit denotes.
pub open spec fn item_at_unit_offset(offset: u64, unit_start: Option<u64>) -> Option<DebugItem> {
    match unit_start {
        Some(start) if start + offset <= u64::MAX => Some(
            DebugItem { offset: (start + offset) as u64 },
        ),
        _ => None,
    }
}

/// The item that a value refers to.
pub open spec fn type_value(value: AttributeValue, header: UnitHeader) -> Option<DebugItem> {
    match value {
        AttributeValue::UnitRef(offset) => item_at_unit_offset(offset, header.unit_start),
        AttributeValue::DebugInfoRef(offset) => Some(DebugItem { offset }),
        _ => None,
    }
}

/// The offset that a value gives: a constant, or the address that its
/// expression evaluates to. A location list gives none.
pub open spec fn offset_value(value: AttributeValue) -> Option<StructOffset> {
    match value {
        AttributeValue::Udata(offset) => Some(StructOffset(offset)),
        AttributeValue::Exprloc(Some(pieces)) => match evaluation(pieces@) {
            Ok(ExpressionResultView::Location(VariableLocationView::Address(address))) => Some(
                StructOffset(address),
            ),
            _ => None,
        },
        _ => None,
    }
}

/// What precedes the file's name in its path: nothing where the file has no
/// directory; else the directory and `/`, after the compilation directory and
/// `/` where the directory is relative and not the first of the table.
pub open spec fn directory_prefix(file: FileEntry, header: UnitHeader) -> Option<Seq<char>> {
    match file.directory {
        None => Some(Seq::empty()),
        Some(None) => None,
        Some(Some(directory)) => {
            let relative = !(directory@.len() > 0 && directory@[0] == '/');
            let base = if file.directory_index != 0 && relative {
                match header.comp_dir {
                    Some(comp_dir) => comp_dir@ + "/"@,
                    None => Seq::empty(),
                }
            } else {
                Seq::empty()
            };
            Some(base + directory@ + "/"@)
        },
    }
}

/// The path of the file that a value names.
pub open spec fn file_name_value(value: AttributeValue, header: UnitHeader) -> Option<Seq<char>> {
    match value {
        AttributeValue::FileIndex(index, Some(file)) => if index == 0 && header.version <= 4 {
            None
        } else {
            match (directory_prefix(file, header), file.path_name) {
                (Some(prefix), Some(path_name)) => Some(prefix + path_name@),
                _ => None,
            }
        },
        _ => None,
    }
}

/// Which attribute of an entry is looked for.
pub enum Pick {
    /// One with this name.
    Named(u16),
    /// One with this name that holds a readable string.
    NamedString(u16),
    /// One with this name that refers to an item.
    NamedType(u16),
    /// One with this name that gives an offset.
    NamedOffset(u16),
}

/// Whether an attribute is one that is looked for.
pub open spec fn picks(pick: Pick, header: UnitHeader, a: Attribute) -> bool {
    match pick {
        Pick::Named(name) => a.name == name,
        Pick::NamedString(name) => a.name == name && string_value(a.value) is Some,
        Pick::NamedType(name) => a.name == name && type_value(a.value, header) is Some,
        Pick::NamedOffset(name) => a.name == name && offset_value(a.value) is Some,
    }
}

/// The last attribute that is looked for.
pub open spec fn last_picked(attrs: Seq<Attribute>, pick: Pick, header: UnitHeader) -> Option<int> {
    last_where(attrs, |a: Attribute| picks(pick, header, a))
}

/// The last attribute called `name`.
pub open spec fn last_named(attrs: Seq<Attribute>, name: u16) -> Option<int> {
    last_where(attrs, |a: Attribute| a.name == name)
}

/// The string of the last attribute called `name`.
pub open spec fn named_string(attrs: Seq<Attribute>, name: u16) -> Option<Seq<char>> {
    match last_named(attrs, name) {
        Some(i) => string_value(attrs[i].value),
        None => None,
    }
}

/// The unsigned constant of the last attribute called `name`.
pub open spec fn named_udata(attrs: Seq<Attribute>, name: u16) -> Option<u64> {
    match last_named(attrs, name) {
        Some(i) => attrs[i].udata,
        None => None,
    }
}

/// The item that the last attribute called `name` refers to.
pub open spec fn named_type(attrs: Seq<Attribute>, name: u16, header: UnitHeader) -> Option<
    DebugItem,
> {
    match last_named(attrs, name) {
        Some(i) => type_value(attrs[i].value, header),
        None => None,
    }
}

/// The offset that the last attribute called `name` gives.
pub open spec fn named_offset(attrs: Seq<Attribute>, name: u16) -> Option<StructOffset> {
    match last_named(attrs, name) {
        Some(i) => offset_value(attrs[i].value),
        None => None,
    }
}

/// The file that the last attribute called `name` names.
pub open spec fn named_file(attrs: Seq<Attribute>, name: u16, header: UnitHeader) -> Option<
    Seq<char>,
> {
    match last_named(attrs, name) {
        Some(i) => file_name_value(attrs[i].value, header),
        None => None,
    }
}

/// The string that a value holds.
pub fn parse_string(value: &AttributeValue) -> (r: Option<String>)
    ensures
        crate::unit_info::opt_view(r) == string_value(*value),
{
    match value {
        AttributeValue::DebugStrRef(Some(s)) => Some(s.clone()),
        _ => None,
    }
}

/// The item that a value refers to; none where the value is no reference.
pub fn parse_type(value: &AttributeValue, header: &UnitHeader) -> (r: Option<DebugItem>)
    ensures
        r == type_value(*value, *header),
{
    match value {
        AttributeValue::UnitRef(offset) => DebugItem::from_unit_offset(*offset, header.unit_start),
        AttributeValue::DebugInfoRef(offset) => Some(DebugItem::from_debug_info_offset(*offset)),
        _ => None,
    }
}

/// The offset that a value gives.
pub fn parse_offset(value: &AttributeValue) -> (r: Option<StructOffset>)
    ensures
        r == offset_value(*value),
{
    match value {
        AttributeValue::Udata(offset) => Some(StructOffset(*offset)),
        AttributeValue::Exprloc(Some(pieces)) => {
            match evaluate_expression(pieces) {
                Ok(ExpressionResult::Location(VariableLocation::Address(address))) => Some(
                    StructOffset(address),
                ),
                _ => None,
            }
        },
        _ => None,
    }
}

/// The address that a value gives.
pub fn parse_location(value: &AttributeValue) -> (r: Option<MemoryLocation>)
    ensures
        r == match offset_value(*value) {
            Some(offset) => Some(MemoryLocation(offset.0)),
            None => None,
        },
{
    match parse_offset(value) {
        Some(offset) => Some(MemoryLocation(offset.0)),
        None => None,
    }
}

/// The path of the file that a value names.
pub fn parse_filename(value: &AttributeValue, header: &UnitHeader) -> (r: Option<FileName>)
    ensures
        match file_name_value(*value, *header) {
            Some(path) => r matches Some(f) && f.0@ == path,
            None => r is None,
        },
{
    let (index, file) = match value {
        AttributeValue::FileIndex(index, Some(file)) => (*index, file),
        _ => {
            return None;
        },
    };
    if index == 0 && header.version <= 4 {
        return None;
    }
    let mut file_name = String::new();
    match &file.directory {
        None => {},
        Some(None) => {
            return None;
        },
        Some(Some(directory)) => {
            let relative = !(directory.as_str().unicode_len() > 0 && directory.as_str().get_char(0)
                == '/');
            if file.directory_index != 0 && relative {
                match &header.comp_dir {
                    Some(comp_dir) => {
                        file_name.append(comp_dir.as_str());
                        file_name.append("/");
                    },
                    None => {},
                }
            }
            file_name.append(directory.as_str());
            file_name.append("/");
        },
    }
    assert(Some(file_name@) == directory_prefix(*file, *header)) by {
        match file.directory {
            None => {},
            Some(None) => {},
            Some(Some(directory)) => {
                let relative = !(directory@.len() > 0 && directory@[0] == '/');
                if file.directory_index != 0 && relative {
                    match header.comp_dir {
                        Some(comp_dir) => {
                            assert(file_name@ =~= comp_dir@ + "/"@ + directory@ + "/"@);
                        },
                        None => {
                            assert(file_name@ =~= Seq::<char>::empty() + directory@ + "/"@);
                        },
                    }
                } else {
                    assert(file_name@ =~= Seq::<char>::empty() + directory@ + "/"@);
                }
            },
        }
    }
    match &file.path_name {
        Some(path_name) => {
            file_name.append(path_name.as_str());
            Some(FileName(file_name))
        },
        None => None,
    }
}

fn picks_attribute(pick: &Pick, header: &UnitHeader, a: &Attribute) -> (r: bool)
    ensures
        r == picks(*pick, *header, *a),
{
    match pick {
        Pick::Named(name) => a.name == *name,
        Pick::NamedString(name) => a.name == *name && parse_string(&a.value).is_some(),
        Pick::NamedType(name) => a.name == *name && parse_type(&a.value, header).is_some(),
        Pick::NamedOffset(name) => a.name == *name && parse_offset(&a.value).is_some(),
    }
}

/// The last attribute that is looked for.
pub fn find_last(attrs: &Vec<Attribute>, pick: Pick, header: &UnitHeader) -> (r: Option<usize>)
    ensures
        match last_picked(attrs@, pick, *header) {
            Some(i) => r == Some(i as usize) && i < attrs.len(),
            None => r is None,
        },
{
    let ghost p = |a: Attribute| picks(pick, *header, a);
    let mut i: usize = attrs.len();
    while i > 0
        invariant
            i <= attrs.len(),
            p == (|a: Attribute| picks(pick, *header, a)),
            forall|j: int| i <= j < attrs.len() ==> !p(#[trigger] attrs@[j]),
        decreases i,
    {
        i -= 1;
        if picks_attribute(&pick, header, &attrs[i]) {
            proof {
                assert(p(attrs@[i as int]));
                lemma_last_where_found(attrs@, p, i as int);
            }
            return Some(i);
        }
        assert(!p(attrs@[i as int]));
    }
    proof {
        lemma_last_where_absent(attrs@, p);
    }
    None
}

/// The last attribute called `name`.
pub fn find_last_named(attrs: &Vec<Attribute>, name: u16) -> (r: Option<usize>)
    ensures
        match last_named(attrs@, name) {
            Some(i) => r == Some(i as usize) && i < attrs.len(),
            None => r is None,
        },
{
    let ghost p = |a: Attribute| a.name == name;
    let mut i: usize = attrs.len();
    while i > 0
        invariant
            i <= attrs.len(),
            p == (|a: Attribute| a.name == name),
            forall|j: int| i <= j < attrs.len() ==> !p(#[trigger] attrs@[j]),
        decreases i,
    {
        i -= 1;
        if attrs[i].name == name {
            proof {
                assert(p(attrs@[i as int]));
                lemma_last_where_found(attrs@, p, i as int);
            }
            return Some(i);
        }
        assert(!p(attrs@[i as int]));
    }
    proof {
        lemma_last_where_absent(attrs@, p);
    }
    None
}

fn string_named(attrs: &Vec<Attribute>, name: u16) -> (r: Option<String>)
    ensures
        crate::unit_info::opt_view(r) == named_string(attrs@, name),
{
    match find_last_named(attrs, name) {
        Some(i) => parse_string(&attrs[i].value),
        None => None,
    }
}

fn udata_named(attrs: &Vec<Attribute>, name: u16) -> (r: Option<u64>)
    ensures
        r == named_udata(attrs@, name),
{
    match find_last_named(attrs, name) {
        Some(i) => attrs[i].udata,
        None => None,
    }
}

fn type_named(attrs: &Vec<Attribute>, name: u16, header: &UnitHeader) -> (r: Option<DebugItem>)
    ensures
        r == named_type(attrs@, name, *header),
{
    match find_last_named(attrs, name) {
        Some(i) => parse_type(&attrs[i].value, header),
        None => None,
    }
}

fn offset_named(attrs: &Vec<Attribute>, name: u16) -> (r: Option<StructOffset>)
    ensures
        r == named_offset(attrs@, name),
{
    match find_last_named(attrs, name) {
        Some(i) => parse_offset(&attrs[i].value),
        None => None,
    }
}

/// The variable that an entry's attributes describe, within the given
/// namespaces: its name is the namespaces and its own name, joined by `::`.
/// There is none unless the attributes give a name, a type and an address.
pub open spec fn variable_of(
    attrs: Seq<Attribute>,
    namespaces: Seq<Seq<char>>,
    header: UnitHeader,
) -> Option<VariableView> {
    match (
        named_string(attrs, DW_AT_NAME),
        named_type(attrs, DW_AT_TYPE, header),
        named_offset(attrs, DW_AT_LOCATION),
    ) {
        (Some(name), Some(kind), Some(location)) => Some(
            VariableView {
                name: spec_join(namespaces, "::"@) + "::"@ + name,
                kind,
                location: MemoryLocation(location.0),
                linkage_name: named_string(attrs, DW_AT_LINKAGE_NAME),
                line: named_udata(attrs, DW_AT_DECL_LINE),
                file: named_file(attrs, DW_AT_DECL_FILE, header),
            },
        ),
        _ => None,
    }
}

/// Reads a variable from the attributes of its entry.
pub fn parse_variable(attrs: &Vec<Attribute>, parents: &Vec<String>, header: &UnitHeader) -> (r:
    Option<Variable>)
    ensures
        match variable_of(attrs@, strings_view(parents@), *header) {
            Some(v) => r matches Some(x) && x@ == v,
            None => r is None,
        },
{
    let name = string_named(attrs, DW_AT_NAME);
    let kind = type_named(attrs, DW_AT_TYPE, header);
    let location = match find_last_named(attrs, DW_AT_LOCATION) {
        Some(i) => parse_location(&attrs[i].value),
        None => None,
    };
    let linkage_name = string_named(attrs, DW_AT_LINKAGE_NAME);
    let line = udata_named(attrs, DW_AT_DECL_LINE);
    let file = match find_last_named(attrs, DW_AT_DECL_FILE) {
        Some(i) => parse_filename(&attrs[i].value, header),
        None => None,
    };
    match (name, kind, location) {
        (Some(name), Some(kind), Some(location)) => {
            let mut qualified = join(parents, "::");
            qualified.append("::");
            qualified.append(name.as_str());
            Some(Variable { name: qualified, kind, location, linkage_name, line, file })
        },
        _ => None,
    }
}

/// The structure that an entry's attributes describe, without members yet.
/// There is none unless the attributes give a name and a size.
pub open spec fn structure_of(
    attrs: Seq<Attribute>,
    namespace: Seq<char>,
    header: UnitHeader,
) -> Option<StructureView> {
    match (named_string(attrs, DW_AT_NAME), named_udata(attrs, DW_AT_BYTE_SIZE)) {
        (Some(name), Some(size)) => Some(
            StructureView {
                name,
                namespace,
                members: Seq::empty(),
                size,
                containing_type: named_type(attrs, DW_AT_CONTAINING_TYPE, header),
            },
        ),
        _ => None,
    }
}

/// Reads a structure, without its members, from the attributes of its entry.
pub fn parse_structure(attrs: &Vec<Attribute>, parents: &Vec<String>, header: &UnitHeader) -> (r:
    Option<Structure>)
    ensures
        match structure_of(attrs@, spec_join(strings_view(parents@), "::"@), *header) {
            Some(v) => r matches Some(x) && x@ == v,
            None => r is None,
        },
{
    let name = string_named(attrs, DW_AT_NAME);
    let size = udata_named(attrs, DW_AT_BYTE_SIZE);
    let containing_type = type_named(attrs, DW_AT_CONTAINING_TYPE, header);
    match (name, size) {
        (Some(name), Some(size)) => {
            let namespace = join(parents, "::");
            let members: Vec<StructureMember> = Vec::new();
            assert(crate::unit_info::members_view(members@) =~= Seq::empty());
            Some(Structure { name, namespace, members, size, containing_type })
        },
        _ => None,
    }
}

/// The union that an entry's attributes describe, without members yet.
/// There is none unless the attributes give a name and a size.
pub open spec fn union_of(attrs: Seq<Attribute>, namespace: Seq<char>) -> Option<UnionView> {
    match (named_string(attrs, DW_AT_NAME), named_udata(attrs, DW_AT_BYTE_SIZE)) {
        (Some(name), Some(size)) => Some(
            UnionView { name, namespace, members: Seq::empty(), size },
        ),
        _ => None,
    }
}

/// Reads a union, without its members, from the attributes of its entry.
pub fn parse_union(attrs: &Vec<Attribute>, parents: &Vec<String>) -> (r: Option<Union>)
    ensures
        match union_of(attrs@, spec_join(strings_view(parents@), "::"@)) {
            Some(v) => r matches Some(x) && x@ == v,
            None => r is None,
        },
{
    let name = string_named(attrs, DW_AT_NAME);
    let size = udata_named(attrs, DW_AT_BYTE_SIZE);
    match (name, size) {
        (Some(name), Some(size)) => {
            let namespace = join(parents, "::");
            let members: Vec<StructureMember> = Vec::new();
            assert(crate::unit_info::members_view(members@) =~= Seq::empty());
            Some(Union { name, namespace, members, size })
        },
        _ => None,
    }
}

/// The member that an entry's attributes describe. There is none unless the
/// attributes give a type; a member without a location lies at offset 0.
pub open spec fn member_of(attrs: Seq<Attribute>, header: UnitHeader) -> Option<
    StructureMemberView,
> {
    match named_type(attrs, DW_AT_TYPE, header) {
        Some(kind) => Some(
            StructureMemberView {
                name: named_string(attrs, DW_AT_NAME),
                kind,
                offset: match named_offset(attrs, DW_AT_DATA_MEMBER_LOCATION) {
                    Some(offset) => offset,
                    None => StructOffset(0),
                },
            },
        ),
        None => None,
    }
}

/// Reads a member of a structure or union from the attributes of its entry.
pub fn parse_structure_member(attrs: &Vec<Attribute>, header: &UnitHeader) -> (r: Option<
    StructureMember,
>)
    ensures
        match member_of(attrs@, *header) {
            Some(v) => r matches Some(x) && x@ == v,
            None => r is None,
        },
{
    let name = string_named(attrs, DW_AT_NAME);
    let kind = type_named(attrs, DW_AT_TYPE, header);
    let offset = match offset_named(attrs, DW_AT_DATA_MEMBER_LOCATION) {
        Some(offset) => offset,
        None => StructOffset(0),
    };
    match kind {
        Some(kind) => Some(StructureMember { name, kind, offset }),
        None => None,
    }
}

/// The discriminant that selects the variant which an entry's attributes
/// describe; none for the variant that is selected by default.
pub open spec fn variant_discriminant(attrs: Seq<Attribute>) -> Option<u64> {
    named_udata(attrs, DW_AT_DISCR_VALUE)
}

/// Reads the discriminant of a variant from the attributes of its entry.
pub fn parse_enum_variant(attrs: &Vec<Attribute>) -> (r: Option<u64>)
    ensures
        r == variant_discriminant(attrs@),
{
    udata_named(attrs, DW_AT_DISCR_VALUE)
}

/// A variant after the attributes of its payload member have been read:
/// each of name, type and offset is taken from the last attribute that gives
/// it, and stays as it was where none does.
pub open spec fn variant_updated(
    variant: EnumerationVariantView,
    attrs: Seq<Attribute>,
    header: UnitHeader,
) -> EnumerationVariantView {
    EnumerationVariantView {
        name: match last_picked(attrs, Pick::NamedString(DW_AT_NAME), header) {
            Some(i) => string_value(attrs[i].value).unwrap(),
            None => variant.name,
        },
        discriminant: variant.discriminant,
        kind: match last_picked(attrs, Pick::NamedType(DW_AT_TYPE), header) {
            Some(i) => type_value(attrs[i].value, header).unwrap(),
            None => variant.kind,
        },
        offset: match last_picked(attrs, Pick::NamedOffset(DW_AT_DATA_MEMBER_LOCATION), header) {
            Some(i) => offset_value(attrs[i].value).unwrap(),
            None => variant.offset,
        },
    }
}

/// Reads name, type and offset of a variant from the attributes of its
/// payload member.
pub fn update_enum_variant_member(
    attrs: &Vec<Attribute>,
    variant: &mut crate::unit_info::EnumerationVariant,
    header: &UnitHeader,
)
    ensures
        final(variant)@ == variant_updated(old(variant)@, attrs@, *header),
{
    match find_last(attrs, Pick::NamedString(DW_AT_NAME), header) {
        Some(i) => match parse_string(&attrs[i].value) {
            Some(name) => {
                variant.name = name;
            },
            None => {},
        },
        None => {},
    }
    match find_last(attrs, Pick::NamedType(DW_AT_TYPE), header) {
        Some(i) => match parse_type(&attrs[i].value, header) {
            Some(kind) => {
                variant.kind = kind;
            },
            None => {},
        },
        None => {},
    }
    match find_last(attrs, Pick::NamedOffset(DW_AT_DATA_MEMBER_LOCATION), header) {
        Some(i) => match parse_offset(&attrs[i].value) {
            Some(offset) => {
                variant.offset = offset;
            },
            None => {},
        },
        None => {},
    }
    proof {
        crate::search::lemma_last_where_is_last(
            attrs@,
            |a: Attribute| picks(Pick::NamedString(DW_AT_NAME), *header, a),
        );
        crate::search::lemma_last_where_is_last(
            attrs@,
            |a: Attribute| picks(Pick::NamedType(DW_AT_TYPE), *header, a),
        );
        crate::search::lemma_last_where_is_last(
            attrs@,
            |a: Attribute| picks(Pick::NamedOffset(DW_AT_DATA_MEMBER_LOCATION), *header, a),
        );
    }
}

/// Where the discriminant of an enumeration lies, as the attributes of its
/// discriminant member say: the offset (0 where none is given) and the type
/// (none where none is given).
pub open spec fn discriminant_of(attrs: Seq<Attribute>, header: UnitHeader) -> (
    StructOffset,
    Option<DebugItem>,
) {
    (
        match named_offset(attrs, DW_AT_DATA_MEMBER_LOCATION) {
            Some(offset) => offset,
            None => StructOffset(0),
        },
        named_type(attrs, DW_AT_TYPE, header),
    )
}

/// Reads where the discriminant of an enumeration lies from the attributes
/// of its discriminant member.
pub fn parse_enum_discriminant(
    attrs: &Vec<Attribute>,
    enumeration: &mut crate::unit_info::Enumeration,
    header: &UnitHeader,
)
    ensures
        final(enumeration)@ == (crate::unit_info::EnumerationView {
            discriminant_offset: discriminant_of(attrs@, *header).0,
            discriminant_kind: match discriminant_of(attrs@, *header).1 {
                Some(kind) => kind,
                None => old(enumeration)@.discriminant_kind,
            },
            ..old(enumeration)@
        }),
{
    let kind = type_named(attrs, DW_AT_TYPE, header);
    let offset = offset_named(attrs, DW_AT_DATA_MEMBER_LOCATION);
    enumeration.discriminant_offset = match offset {
        Some(offset) => offset,
        None => StructOffset(0),
    };
    match kind {
        Some(kind) => {
            enumeration.discriminant_kind = kind;
        },
        None => {},
    }
}

/// The type of the elements of the array that an entry's attributes describe.
pub open spec fn array_element(attrs: Seq<Attribute>, header: UnitHeader) -> Option<DebugItem> {
    named_type(attrs, DW_AT_TYPE, header)
}

/// Reads the type of the elements of an array from the attributes of its entry.
pub fn parse_array(attrs: &Vec<Attribute>, header: &UnitHeader) -> (r: Option<DebugItem>)
    ensures
        r == array_element(attrs@, *header),
{
    type_named(attrs, DW_AT_TYPE, header)
}

/// The lower bound and the number of elements that an entry's attributes
/// give for an array; none unless they give both.
pub open spec fn subrange_of(attrs: Seq<Attribute>) -> Option<(u64, usize)> {
    match (named_udata(attrs, DW_AT_LOWER_BOUND), named_udata(attrs, DW_AT_COUNT)) {
        (Some(lower_bound), Some(count)) => Some((lower_bound, count as usize)),
        _ => None,
    }
}

/// Reads lower bound and element count of an array from the attributes of
/// its subrange.
pub fn parse_subrange(attrs: &Vec<Attribute>) -> (r: Option<(u64, usize)>)
    ensures
        r == subrange_of(attrs@),
{
    let lower_bound = udata_named(attrs, DW_AT_LOWER_BOUND);
    let count = udata_named(attrs, DW_AT_COUNT);
    match (lower_bound, count) {
        (Some(lower_bound), Some(count)) => Some(
            (lower_bound, #[verifier::truncate] (count as usize)),
        ),
        _ => None,
    }
}

/// The pointer that an entry's attributes describe; none unless they give
/// the type pointed to.
pub open spec fn pointer_of(attrs: Seq<Attribute>, header: UnitHeader) -> Option<PointerView> {
    match named_type(attrs, DW_AT_TYPE, header) {
        Some(kind) => Some(PointerView { name: named_string(attrs, DW_AT_NAME), kind }),
        None => None,
    }
}

/// Reads a pointer from the attributes of its entry.
pub fn parse_pointer(attrs: &Vec<Attribute>, header: &UnitHeader) -> (r: Option<Pointer>)
    ensures
        match pointer_of(attrs@, *header) {
            Some(v) => r matches Some(x) && x@ == v,
            None => r is None,
        },
{
    let name = string_named(attrs, DW_AT_NAME);
    let kind = type_named(attrs, DW_AT_TYPE, header);
    match kind {
        Some(kind) => Some(Pointer { name, kind }),
        None => None,
    }
}

/// The base type that an entry's attributes describe; none unless they give
/// a name and a size.
pub open spec fn base_type_of(attrs: Seq<Attribute>) -> Option<BaseTypeView> {
    match (named_string(attrs, DW_AT_NAME), named_udata(attrs, DW_AT_BYTE_SIZE)) {
        (Some(name), Some(size)) => Some(BaseTypeView { name, size }),
        _ => None,
    }
}

/// Reads a base type from the attributes of its entry.
pub fn parse_base_type(attrs: &Vec<Attribute>) -> (r: Option<BaseType>)
    ensures
        match base_type_of(attrs@) {
            Some(v) => r matches Some(x) && x@ == v,
            None => r is None,
        },
{
    let name = string_named(attrs, DW_AT_NAME);
    let size = udata_named(attrs, DW_AT_BYTE_SIZE);
    match (name, size) {
        (Some(name), Some(size)) => Some(BaseType { name, size }),
        _ => None,
    }
}

/// The name that an entry's attributes give to a namespace: the string of
/// the first attribute that is called a name.
pub open spec fn namespace_name(attrs: Seq<Attribute>) -> Option<Seq<char>> {
    match first_where(attrs, |a: Attribute| a.name == DW_AT_NAME) {
        Some(i) => string_value(attrs[i].value),
        None => None,
    }
}

/// Reads the name of a namespace from the attributes of its entry.
pub fn parse_namespace(attrs: &Vec<Attribute>) -> (r: Option<String>)
    ensures
        crate::unit_info::opt_view(r) == namespace_name(attrs@),
{
    let ghost p = |a: Attribute| a.name == DW_AT_NAME;
    let mut i: usize = 0;
    while i < attrs.len()
        invariant
            i <= attrs.len(),
            p == (|a: Attribute| a.name == DW_AT_NAME),
            forall|j: int| 0 <= j < i ==> !p(#[trigger] attrs@[j]),
        decreases attrs.len() - i,
    {
        if attrs[i].name == DW_AT_NAME {
            proof {
                assert(p(attrs@[i as int]));
                lemma_first_where_found(attrs@, p, i as int);
            }
            return parse_string(&attrs[i].value);
        }
        assert(!p(attrs@[i as int]));
        i += 1;
    }
    proof {
        lemma_first_where_absent(attrs@, p);
    }
    None
}

} // verus!
