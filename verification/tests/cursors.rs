//! Cursors over a registry that is built from entries written out as
//! plain values.
use tasru::debug_types::{DebugTypeError, DebugVariable};
use tasru::dwarf::{
    Attribute, AttributeValue, Die, UnitEntries, UnitHeader, DW_AT_BYTE_SIZE, DW_AT_COUNT,
    DW_AT_DATA_MEMBER_LOCATION, DW_AT_DISCR_VALUE, DW_AT_LINKAGE_NAME, DW_AT_LOCATION,
    DW_AT_LOWER_BOUND, DW_AT_NAME, DW_AT_TYPE, DW_TAG_ARRAY_TYPE, DW_TAG_BASE_TYPE, DW_TAG_MEMBER,
    DW_TAG_POINTER_TYPE, DW_TAG_STRUCTURE_TYPE, DW_TAG_SUBRANGE_TYPE, DW_TAG_UNION_TYPE,
    DW_TAG_VARIABLE, DW_TAG_VARIANT, DW_TAG_VARIANT_PART,
};
use tasru::extract::PieceLocation;
use tasru::memory::Read;
use tasru::unit_info::{DebugItem, MemoryLocation, StructOffset};
use tasru::DebugInfo;

struct Zeros;

impl Read for Zeros {
    type Error = std::fmt::Error;

    fn read_u8(&mut self, address: u64) -> Result<u8, Self::Error> {
        Ok(address as u8)
    }
}

fn text(attribute: u16, value: &str) -> Attribute {
    Attribute { name: attribute, value: AttributeValue::DebugStrRef(Some(String::from(value))), udata: None }
}

fn number(attribute: u16, value: u64) -> Attribute {
    Attribute { name: attribute, value: AttributeValue::Udata(value), udata: Some(value) }
}

fn kind(offset: u64) -> Attribute {
    Attribute { name: DW_AT_TYPE, value: AttributeValue::UnitRef(offset), udata: None }
}

fn die(depth: usize, tag: u16, offset: u64, attributes: Vec<Attribute>) -> (usize, Die) {
    (depth, Die { depth_delta: 0, tag, offset, attributes })
}

fn base(offset: u64, name: &str, size: u64) -> (usize, Die) {
    die(1, DW_TAG_BASE_TYPE, offset, vec![text(DW_AT_NAME, name), number(DW_AT_BYTE_SIZE, size)])
}

fn structure(depth: usize, offset: u64, name: &str, size: u64) -> (usize, Die) {
    die(depth, DW_TAG_STRUCTURE_TYPE, offset, vec![text(DW_AT_NAME, name), number(DW_AT_BYTE_SIZE, size)])
}

fn member(depth: usize, offset: u64, name: &str, of: u64, at: u64) -> (usize, Die) {
    die(depth, DW_TAG_MEMBER, offset, vec![text(DW_AT_NAME, name), kind(of), number(DW_AT_DATA_MEMBER_LOCATION, at)])
}

fn array(offset: u64, of: u64, count: u64) -> Vec<(usize, Die)> {
    vec![
        die(1, DW_TAG_ARRAY_TYPE, offset, vec![kind(of)]),
        die(2, DW_TAG_SUBRANGE_TYPE, offset + 4, vec![number(DW_AT_LOWER_BOUND, 0), number(DW_AT_COUNT, count)]),
    ]
}

fn variable(offset: u64, name: &str, of: u64, address: u64) -> (usize, Die) {
    die(1, DW_TAG_VARIABLE, offset, vec![
        text(DW_AT_NAME, name),
        text(DW_AT_LINKAGE_NAME, name),
        kind(of),
        Attribute {
            name: DW_AT_LOCATION,
            value: AttributeValue::Exprloc(Some(vec![PieceLocation::Address(address)])),
            udata: None,
        },
    ])
}

fn enumeration(offset: u64, name: &str, tag_type: Option<u64>, variants: &[(&str, Option<u64>, u64)]) -> Vec<(usize, Die)> {
    let mut dies = vec![structure(1, offset, name, 4), die(2, DW_TAG_VARIANT_PART, offset + 1, vec![])];
    if let Some(tag_type) = tag_type {
        dies.push(die(3, DW_TAG_MEMBER, offset + 2, vec![kind(tag_type), number(DW_AT_DATA_MEMBER_LOCATION, 0)]));
    }
    for (i, (variant, discriminant, body)) in variants.iter().enumerate() {
        let at = offset + 4 + 2 * i as u64;
        let attributes = match discriminant {
            Some(value) => vec![number(DW_AT_DISCR_VALUE, *value)],
            None => vec![],
        };
        dies.push(die(3, DW_TAG_VARIANT, at, attributes));
        dies.push(die(4, DW_TAG_MEMBER, at + 1, vec![text(DW_AT_NAME, variant), kind(*body), number(DW_AT_DATA_MEMBER_LOCATION, 2)]));
    }
    dies
}

/// Turns entries with their depths into entries with changes of depth.
fn walk(entries: Vec<(usize, Die)>) -> Vec<Die> {
    let mut depth = 0isize;
    let mut first = true;
    entries
        .into_iter()
        .map(|(at, mut die)| {
            die.depth_delta = if first { 0 } else { at as isize - depth };
            first = false;
            depth = at as isize;
            die
        })
        .collect()
}

fn registry() -> DebugInfo {
    let mut entries = vec![die(0, 0x11, 0x0b, vec![])];
    entries.push(base(0x10, "u8", 1));
    entries.push(base(0x14, "u24", 3));
    entries.push(base(0x18, "u32", 4));
    entries.push(die(1, DW_TAG_POINTER_TYPE, 0x20, vec![kind(0x18)]));
    entries.push(die(1, DW_TAG_POINTER_TYPE, 0x24, vec![kind(0x30), text(DW_AT_NAME, "*const Inner")]));
    entries.push(structure(1, 0x30, "Inner", 2));
    entries.push(member(2, 0x34, "a", 0x10, 0));
    entries.extend(array(0x40, 0x30, 2));
    entries.extend(array(0x48, 0x20, 2));
    entries.extend(array(0x50, 0x10, 4));
    entries.extend(array(0x58, 0xa0, 1));
    entries.extend(enumeration(0x60, "Odd", Some(0x14), &[("A", Some(0), 0x30)]));
    entries.extend(enumeration(0x80, "Untagged", None, &[("A", Some(0), 0x30)]));
    entries.extend(enumeration(0xa0, "Tagged", Some(0x10), &[("Zero", Some(0), 0x30), ("Rest", None, 0x999)]));
    entries.push(die(1, DW_TAG_UNION_TYPE, 0xc0, vec![text(DW_AT_NAME, "Either"), number(DW_AT_BYTE_SIZE, 4)]));
    entries.push(member(2, 0xc4, "word", 0x18, 0));
    entries.push(structure(1, 0xd0, "Outer", 48));
    entries.push(member(2, 0xd1, "inner", 0x30, 4));
    entries.push(member(2, 0xd2, "items", 0x40, 8));
    entries.push(member(2, 0xd3, "e", 0xa0, 12));
    entries.push(member(2, 0xd4, "u", 0xc0, 16));
    entries.push(member(2, 0xd5, "ghost", 0x999, 20));
    entries.push(member(2, 0xd6, "ptrs", 0x48, 24));
    entries.push(member(2, 0xd7, "bytes", 0x50, 32));
    entries.push(member(2, 0xd8, "link", 0x24, 36));
    entries.push(member(2, 0xd9, "tags", 0x58, 40));
    entries.push(structure(1, 0x100, "&[Inner]", 8));
    entries.push(member(2, 0x104, "data_ptr", 0x24, 0));
    entries.push(member(2, 0x108, "length", 0x18, 4));
    entries.push(variable(0x200, "OUTER", 0xd0, 0x1000));
    entries.push(variable(0x210, "ODD", 0x60, 0x3000));
    entries.push(variable(0x220, "UNTAGGED", 0x80, 0x3100));
    entries.push(variable(0x230, "SLICE", 0x100, 0x4000));
    let header = UnitHeader { version: 5, unit_start: Some(0), comp_dir: None };
    DebugInfo::load(&vec![UnitEntries { header, dies: walk(entries) }]).unwrap()
}

fn item(offset: u64) -> DebugItem {
    DebugItem::from_debug_info_offset(offset)
}

#[test]
fn nested_structure() {
    let info = registry();
    let outer = info.variable_from_name("OUTER").unwrap().structure().unwrap();
    let inner = outer.member_named("inner").unwrap().structure().unwrap();
    assert_eq!(inner.name(), "Inner");
    assert_eq!(inner.location(), Some(MemoryLocation(0x1004)));
    assert_eq!(inner.cursor_offset(), StructOffset(4));
    let a = inner.member_named("a").unwrap();
    assert_eq!(a.location().unwrap(), 0x1004);
    assert_eq!(a.base_type().unwrap().as_u8(&mut Zeros), Some(0x04));
    assert_eq!(a.base_type().unwrap().as_u64(&mut Zeros), Some(0x04));
}

#[test]
fn members_lie_within_their_structure() {
    let info = registry();
    let outer = info.variable_from_name("OUTER").unwrap().structure().unwrap();
    let mut sized = 0;
    for member in outer.members() {
        if let Some(size) = info.size_from_item(member.kind()) {
            assert!(member.offset().0 + size.0 <= outer.size());
            sized += 1;
        }
    }
    assert_eq!(sized, 3);
    let found = outer.member_named("u").unwrap();
    assert_eq!(found.offset(), StructOffset(16));
    assert_eq!(info.size_from_item(found.kind()), Some(StructOffset(4)));
}

#[test]
fn array_of_structures() {
    let info = registry();
    let outer = info.variable_from_name("OUTER").unwrap().structure().unwrap();
    let items = outer.member_named("items").unwrap().array().unwrap();
    assert_eq!(items.location(), Some(MemoryLocation(0x1008)));
    assert_eq!(items.cursor_offset(), StructOffset(8));
    assert_eq!(items.count(), 2);
    assert_eq!(items.structure().unwrap().location(), Some(MemoryLocation(0x1008)));
    assert!(items.enumeration().is_none());
    let mut iterator = items.iter().unwrap();
    let first = iterator.next().unwrap();
    let second = iterator.next().unwrap();
    assert!(iterator.next().is_none());
    assert_eq!(iterator.remaining(), 0);
    assert_eq!(first.location(), Some(MemoryLocation(0x1008)));
    assert_eq!(second.location(), Some(MemoryLocation(0x100a)));
    assert_eq!(second.cursor_offset(), StructOffset(10));
    assert_eq!(second.structure().unwrap().member_named("a").unwrap().location().unwrap(), 0x100a);
    assert_eq!(second.u8(&mut Zeros), None);
}

#[test]
fn array_of_enumerations() {
    let info = registry();
    let outer = info.variable_from_name("OUTER").unwrap().structure().unwrap();
    let tags = outer.member_named("tags").unwrap().array().unwrap();
    assert_eq!(tags.enumeration().unwrap().name(), "Tagged");
    let mut iterator = tags.iter().unwrap();
    let only = iterator.next().unwrap();
    assert_eq!(only.enumeration().unwrap().location().unwrap(), 0x1028);
    assert!(iterator.next().is_none());
}

#[test]
fn array_of_bytes() {
    let info = registry();
    let outer = info.variable_from_name("OUTER").unwrap().structure().unwrap();
    let bytes = outer.member_named("bytes").unwrap().array().unwrap();
    let mut iterator = bytes.iter().unwrap();
    let mut read = Vec::new();
    while let Some(item) = iterator.next() {
        read.push(item.u8(&mut Zeros).unwrap());
    }
    assert_eq!(read, vec![0x20, 0x21, 0x22, 0x23]);
}

#[test]
fn array_whose_elements_have_no_size() {
    let info = registry();
    let outer = info.variable_from_name("OUTER").unwrap().structure().unwrap();
    let pointers = outer.member_named("ptrs").unwrap().array().unwrap();
    match pointers.iter() {
        Err(e) => assert_eq!(
            e.to_string(),
            "Type for anonymous member of struct \"Outer\" could not be found"
        ),
        Ok(_) => panic!("the size of a pointer is not known"),
    }
}

#[test]
fn member_whose_type_is_unknown() {
    let info = registry();
    let outer = info.variable_from_name("OUTER").unwrap().structure().unwrap();
    let ghost = outer.member_named("ghost").unwrap();
    match ghost.structure() {
        Err(DebugTypeError::KindNotFound { owner, member }) => {
            assert_eq!(owner, "Outer");
            assert_eq!(member.as_deref(), Some("ghost"));
        }
        other => panic!("unexpected result: {:?}", other.map(|_| ())),
    }
    match ghost.base_type() {
        Err(e) => assert_eq!(
            e.to_string(),
            "Type for element \"ghost\" in struct \"Outer\" could not be found"
        ),
        Ok(_) => panic!("the type is not registered"),
    }
}

#[test]
fn members_of_every_kind() {
    let info = registry();
    let outer = info.variable_from_name("OUTER").unwrap().structure().unwrap();
    let names = |result: Result<(), DebugTypeError>| match result {
        Err(DebugTypeError::KindIncorrect { actual, attempted, .. }) => (actual, attempted),
        other => panic!("unexpected result: {:?}", other),
    };
    let inner = outer.member_named("inner").unwrap();
    assert_eq!(names(inner.enumeration().map(|_| ())), (String::from("structure"), String::from("enumeration")));
    let e = outer.member_named("e").unwrap();
    assert_eq!(e.enumeration().unwrap().location().unwrap(), 0x100c);
    assert_eq!(names(e.pointer().map(|_| ())), (String::from("enumeration"), String::from("pointer")));
    let u = outer.member_named("u").unwrap();
    assert_eq!(u.union().unwrap().location(), Some(MemoryLocation(0x1010)));
    assert_eq!(u.union().unwrap().cursor_offset(), StructOffset(16));
    assert_eq!(names(u.base_type().map(|_| ())), (String::from("union"), String::from("base type")));
    let items = outer.member_named("items").unwrap();
    assert_eq!(names(items.union().map(|_| ())), (String::from("array"), String::from("union")));
    let link = outer.member_named("link").unwrap();
    assert_eq!(names(link.structure().map(|_| ())), (String::from("pointer"), String::from("structure")));
    assert_eq!(link.pointer().unwrap().structure().unwrap().name(), "Inner");
    let word = u.union().unwrap().member_named("word").unwrap();
    assert_eq!(names(word.array().map(|_| ())), (String::from("base type"), String::from("array")));
}

#[test]
fn pointer_to_a_structure() {
    let info = registry();
    let outer = info.variable_from_name("OUTER").unwrap().structure().unwrap();
    let link = outer.member_named("link").unwrap().pointer().unwrap();
    assert_eq!(link.location().unwrap(), 0x1024);
    let followed = link.follow(&mut Zeros).unwrap();
    assert_eq!(followed.location().unwrap(), 0x27262524);
    let target = followed.structure().unwrap();
    assert_eq!(target.location(), Some(MemoryLocation(0x27262524)));
    assert_eq!(target.cursor_offset(), StructOffset(0));
    let plain = outer.member_named("ptrs").unwrap();
    assert!(plain.pointer().is_err());
    let to_word = info.pointer_from_item(item(0x20)).unwrap();
    assert_eq!(to_word.kind(), item(0x18));
}

#[test]
fn offsets_can_be_reset() {
    let info = registry();
    let outer = info.variable_from_name("OUTER").unwrap().structure().unwrap();
    let mut items = outer.member_named("items").unwrap();
    assert_eq!(items.cursor_offset(), StructOffset(8));
    assert_eq!(items.reset_offset().cursor_offset(), StructOffset(0));
    assert_eq!(items.location().unwrap(), 0x1008);
    let mut array = items.array().unwrap();
    assert_eq!(array.cursor_offset(), StructOffset(0));
    let mut other = outer.member_named("items").unwrap().array().unwrap();
    assert_eq!(other.reset_offset().cursor_offset(), StructOffset(0));
    assert_eq!(array.reset_offset().location(), Some(MemoryLocation(0x1008)));
}

#[test]
fn discriminant_of_an_unusable_size() {
    let info = registry();
    let odd = info.variable_from_name("ODD").unwrap().enumeration().unwrap();
    assert_eq!(odd.discriminant_size().unwrap(), 3);
    assert!(matches!(odd.discriminant_width(), Err(DebugTypeError::SizeError(3))));
    match odd.variant(&mut Zeros) {
        Err(e) => assert_eq!(e.to_string(), "Size \"3\" is not valid"),
        Ok(_) => panic!("a discriminant of three bytes cannot be read"),
    }
}

#[test]
fn enumeration_without_discriminant() {
    let info = registry();
    let untagged = info.variable_from_name("UNTAGGED").unwrap().enumeration().unwrap();
    assert_eq!(untagged.discriminant_kind(), item(0));
    match untagged.discriminant_size() {
        Err(DebugTypeError::KindNotFound { owner, member }) => {
            assert_eq!(owner, "Untagged");
            assert_eq!(member, None);
        }
        _ => panic!("the enumeration has no discriminant"),
    }
    match untagged.variant(&mut Zeros) {
        Err(DebugTypeError::KindNotFound { owner, member }) => {
            assert_eq!(owner, "Untagged");
            assert_eq!(member, None);
        }
        other => panic!("unexpected result: {:?}", other.map(|_| ())),
    }
    assert_eq!(untagged.variant_with_discriminant(0).unwrap().name(), "A");
}

#[test]
fn variant_payload_lies_at_its_offset() {
    let info = registry();
    let outer = info.variable_from_name("OUTER").unwrap().structure().unwrap();
    let tagged = outer.member_named("e").unwrap().enumeration().unwrap();
    assert_eq!(tagged.discriminant_width().unwrap(), 1);
    let rest = tagged.variant(&mut Zeros).unwrap();
    assert_eq!(rest.name(), "Rest");
    assert_eq!(rest.location(), Some(MemoryLocation(0x100c)));
    match rest.structure() {
        Err(e) => assert_eq!(e.to_string(), "Structure for \"Tagged\" could not be found"),
        Ok(_) => panic!("the payload is not registered"),
    }
    let zero = tagged.variant_with_discriminant(0).unwrap();
    assert_eq!(zero.offset(), StructOffset(2));
    assert_eq!(zero.cursor_offset(), StructOffset(12));
    let payload = zero.structure().unwrap();
    assert_eq!(payload.location(), Some(MemoryLocation(0x100e)));
    assert_eq!(payload.cursor_offset(), StructOffset(14));
    let all = tagged.variants().unwrap();
    assert_eq!(all.len(), 2);
    assert_eq!(all[1].name(), "Rest");
    assert_eq!(all[0].location(), Some(MemoryLocation(0x100c)));
}

#[test]
fn slice_of_structures() {
    let info = registry();
    let structure = info.variable_from_name("SLICE").unwrap().structure().unwrap();
    assert_eq!(structure.slice_length().unwrap().location(), Some(MemoryLocation(0x4004)));
    assert_eq!(structure.slice_pointer().unwrap().location().unwrap(), 0x4000);
    let slice = structure.as_slice(&mut Zeros).unwrap();
    assert_eq!(slice.length(), 0x07060504);
    assert_eq!(slice.location(), Some(MemoryLocation(0x03020100)));
    let mut elements = slice.structure_iter().unwrap();
    assert_eq!(elements.len(), 0x07060504);
    assert!(!elements.is_empty());
    let first = elements.next().unwrap();
    let second = elements.next().unwrap();
    assert_eq!(first.location(), Some(MemoryLocation(0x03020100)));
    assert_eq!(second.location(), Some(MemoryLocation(0x03020102)));
    assert_eq!(second.cursor_offset(), StructOffset(2));
    assert_eq!(second.name(), "Inner");
    match slice.base_type_iter() {
        Err(e) => assert_eq!(e.to_string(), "Base type \"&[Inner]\" could not be found"),
        Ok(_) => panic!("the elements are structures"),
    }
}

#[test]
fn variable_cursor_from_its_parts() {
    let info = registry();
    let unit = info.lookup_unit(item(0x200)).unwrap();
    let variable = unit.variable_from_item(item(0x200)).unwrap();
    let cursor = DebugVariable::new(&info, variable);
    assert_eq!(cursor.name(), "::OUTER");
    assert_eq!(cursor.structure().unwrap().size(), 48);
    assert_eq!(info.variable_from_item(item(0x200)).unwrap().location(), MemoryLocation(0x1000));
}

#[test]
fn lower_bound_does_not_move_the_elements() {
    let entries = vec![
        die(0, 0x11, 0x0b, vec![]),
        base(0x10, "u16", 2),
        die(1, DW_TAG_ARRAY_TYPE, 0x20, vec![kind(0x10)]),
        die(2, DW_TAG_SUBRANGE_TYPE, 0x24, vec![number(DW_AT_LOWER_BOUND, 5), number(DW_AT_COUNT, 2)]),
        variable(0x30, "SHIFTED", 0x20, 0x7000),
    ];
    let header = UnitHeader { version: 4, unit_start: Some(0), comp_dir: None };
    let info = DebugInfo::load(&vec![UnitEntries { header, dies: walk(entries) }]).unwrap();
    let array = info.variable_from_name("SHIFTED").unwrap().array().unwrap();
    assert_eq!(array.lower_bound(), 5);
    assert_eq!(array.count(), 2);
    let mut iterator = array.iter().unwrap();
    assert_eq!(iterator.next().unwrap().location(), Some(MemoryLocation(0x7000)));
    assert_eq!(iterator.next().unwrap().location(), Some(MemoryLocation(0x7002)));
    assert!(iterator.next().is_none());
}

#[test]
fn places_wrap_at_the_end_of_the_address_space() {
    let entries = vec![
        die(0, 0x11, 0x0b, vec![]),
        base(0x10, "u64", 8),
        structure(1, 0x20, "Far", 16),
        member(2, 0x24, "second", 0x10, 8),
        variable(0x30, "FAR", 0x20, 0xffff_fff0),
    ];
    let header = UnitHeader { version: 4, unit_start: Some(0), comp_dir: None };
    let info = DebugInfo::load(&vec![UnitEntries { header, dies: walk(entries) }]).unwrap();
    let far = info.structure_from_type_at_address("::Far", u64::MAX - 3);
    assert!(far.is_err());
    let unit = info.lookup_unit(item(0x20)).unwrap();
    assert_eq!(unit.find_structure("", "Far").unwrap().size(), 16);
    let at_end = info.structure_from_item_at_address(&item(0x20), u64::MAX - 3).unwrap();
    assert_eq!(at_end.member_named("second").unwrap().location().unwrap(), 4);
}

#[test]
fn read_requests() {
    let info = registry();
    let outer = info.variable_from_name("OUTER").unwrap().structure().unwrap();
    let byte = outer.member_named("inner").unwrap().structure().unwrap().member_named("a").unwrap();
    let byte = byte.base_type().unwrap();
    assert_eq!(byte.read_request(1), Some((0x1004, 1)));
    assert_eq!(byte.read_request(8), Some((0x1004, 1)));
    assert_eq!(byte.read_request(0), None);
    let word = outer.member_named("u").unwrap().union().unwrap().member_named("word").unwrap();
    let word = word.base_type().unwrap();
    assert_eq!(word.read_request(4), Some((0x1010, 4)));
    assert_eq!(word.read_request(2), None);
    assert_eq!(word.as_u16(&mut Zeros), None);
    assert_eq!(word.as_u32(&mut Zeros), Some(0x13121110));
    let bytes = outer.member_named("bytes").unwrap().array().unwrap();
    let first = bytes.iter().unwrap().next().unwrap();
    assert_eq!(first.byte_address(), Some(0x1020));
    let items = outer.member_named("items").unwrap().array().unwrap();
    assert_eq!(items.iter().unwrap().next().unwrap().byte_address(), None);
}

#[test]
fn slice_from_its_parts() {
    let info = registry();
    let structure = info.variable_from_name("SLICE").unwrap().structure().unwrap();
    let pointer = structure.slice_pointer().unwrap().followed(0x5000);
    let slice = structure.slice_from(2, &pointer);
    assert_eq!(slice.length(), 2);
    assert_eq!(slice.location(), Some(MemoryLocation(0x5000)));
    let mut elements = slice.structure_iter().unwrap();
    assert_eq!(elements.len(), 2);
    assert_eq!(elements.next().unwrap().location(), Some(MemoryLocation(0x5000)));
    assert_eq!(elements.next().unwrap().location(), Some(MemoryLocation(0x5002)));
    assert!(elements.next().is_none());
    let empty = structure.slice_from(0, &pointer);
    let mut none = empty.structure_iter().unwrap();
    assert!(none.is_empty());
    assert!(none.next().is_none());
}

/// A reader that serves zero below the address 0x200 and the low byte of
/// every other address, records every address that it is asked for, and
/// fails from one address on.
struct Recorder {
    fails_from: u64,
    asked: Vec<u64>,
}

impl Recorder {
    fn new() -> Recorder {
        Recorder { fails_from: u64::MAX, asked: Vec::new() }
    }

    fn failing_from(address: u64) -> Recorder {
        Recorder { fails_from: address, asked: Vec::new() }
    }
}

impl Read for Recorder {
    type Error = std::fmt::Error;

    fn read_u8(&mut self, address: u64) -> Result<u8, Self::Error> {
        self.asked.push(address);
        if address >= self.fails_from {
            Err(std::fmt::Error)
        } else if address < 0x200 {
            Ok(0)
        } else {
            Ok(address as u8)
        }
    }
}

/// A registry of one unit with these entries after the root.
fn registry_of(entries: Vec<(usize, Die)>) -> DebugInfo {
    let mut all = vec![die(0, 0x11, 0x0b, vec![])];
    all.extend(entries);
    let header = UnitHeader { version: 5, unit_start: Some(0), comp_dir: None };
    DebugInfo::load(&vec![UnitEntries { header, dies: walk(all) }]).unwrap()
}

#[test]
fn variable_is_found_by_its_demangled_linkage_name() {
    let info = registry();
    let by_name = info.variable_from_name("UNTAGGED").unwrap();
    let by_demangled = info.variable_from_demangled_name("UNTAGGED").unwrap();
    assert_eq!(by_demangled.kind(), by_name.kind());
    assert_eq!(by_demangled.location(), MemoryLocation(0x3100));
    let mangled = registry_of(vec![
        base(0x10, "u8", 1),
        die(1, DW_TAG_VARIABLE, 0x20, vec![
            text(DW_AT_NAME, "_ZN3foo1X17h0123456789abcdefE"),
            text(DW_AT_LINKAGE_NAME, "::_ZN3foo1X17h0123456789abcdefE"),
            kind(0x10),
            Attribute {
                name: DW_AT_LOCATION,
                value: AttributeValue::Exprloc(Some(vec![PieceLocation::Address(0x500)])),
                udata: None,
            },
        ]),
    ]);
    let found = mangled.variable_from_name("::_ZN3foo1X17h0123456789abcdefE").unwrap();
    assert_eq!(found.location(), MemoryLocation(0x500));
    assert_eq!(found.linkage_name.as_deref(), Some("::_ZN3foo1X17h0123456789abcdefE"));
    let again = mangled.variable_from_demangled_name("::_ZN3foo1X17h0123456789abcdefE").unwrap();
    assert_eq!(again.location(), MemoryLocation(0x500));
}

#[test]
fn follow_reads_one_word_at_the_cursor() {
    let info = registry();
    let outer = info.variable_from_name("OUTER").unwrap().structure().unwrap();
    let mut reader = Recorder::new();
    let link = outer.member_named("link").unwrap().pointer().unwrap();
    let followed = link.follow(&mut reader).unwrap();
    assert_eq!(reader.asked, vec![0x1024, 0x1025, 0x1026, 0x1027]);
    assert_eq!(followed.location().unwrap(), 0x27262524);
    assert_eq!(followed.cursor_offset(), StructOffset(0));
    assert_eq!(followed.kind(), item(0x30));

    let mut failing = Recorder::failing_from(0x1026);
    let link = outer.member_named("link").unwrap().pointer().unwrap();
    assert!(matches!(link.follow(&mut failing), Err(DebugTypeError::ReadError)));
    assert_eq!(failing.asked, vec![0x1024, 0x1025, 0x1026]);
}

#[test]
fn try_follow_tells_null_from_failure() {
    let nulls = registry_of(vec![
        base(0x18, "u32", 4),
        die(1, DW_TAG_POINTER_TYPE, 0x20, vec![kind(0x18)]),
        structure(1, 0x30, "Holder", 4),
        member(2, 0x34, "ptr", 0x20, 0),
        variable(0x40, "AT_ZERO", 0x30, 0x100),
        variable(0x48, "ELSEWHERE", 0x30, 0x1110),
    ]);
    let pointer = |name: &str| {
        nulls.variable_from_name(name).unwrap().structure().unwrap().member_named("ptr").unwrap().pointer().unwrap()
    };
    let mut reader = Recorder::new();
    assert!(matches!(pointer("AT_ZERO").try_follow(&mut reader), Ok(None)));
    assert_eq!(reader.asked.len(), 4);
    assert!(matches!(pointer("AT_ZERO").follow_unless_null(&mut reader), Err(DebugTypeError::ReadError)));
    assert_eq!(pointer("AT_ZERO").follow(&mut reader).unwrap().location().unwrap(), 0);
    let found = pointer("ELSEWHERE").try_follow(&mut reader).unwrap().unwrap();
    assert_eq!(found.location().unwrap(), 0x13121110);
    assert_eq!(pointer("ELSEWHERE").follow_unless_null(&mut reader).unwrap().location().unwrap(), 0x13121110);
    let mut failing = Recorder::failing_from(0);
    assert!(matches!(pointer("ELSEWHERE").try_follow(&mut failing), Err(DebugTypeError::ReadError)));
    assert_eq!(failing.asked, vec![0x1110]);
}

#[test]
fn variant_reads_the_discriminant_at_the_cursor() {
    let info = registry();
    let outer = info.variable_from_name("OUTER").unwrap().structure().unwrap();
    let tagged = outer.member_named("e").unwrap().enumeration().unwrap();
    let mut reader = Recorder::new();
    let rest = tagged.variant(&mut reader).unwrap();
    assert_eq!(reader.asked, vec![0x100c]);
    assert_eq!(rest.name(), "Rest");
    let mut failing = Recorder::failing_from(0x100c);
    assert!(matches!(tagged.variant(&mut failing), Err(DebugTypeError::ReadError)));
    assert_eq!(failing.asked, vec![0x100c]);
    let untagged = info.variable_from_name("UNTAGGED").unwrap().enumeration().unwrap();
    let mut unused = Recorder::new();
    assert!(untagged.variant(&mut unused).is_err());
    assert!(unused.asked.is_empty());
}

#[test]
fn discriminant_of_another_kind_is_no_base_type() {
    let info = registry_of({
        let mut entries = vec![structure(1, 0x30, "Inner", 2)];
        entries.extend(enumeration(0x60, "Wrong", Some(0x30), &[("A", Some(0), 0x30)]));
        entries.push(variable(0x90, "WRONG", 0x60, 0x3000));
        entries
    });
    let wrong = info.variable_from_name("WRONG").unwrap().enumeration().unwrap();
    match wrong.discriminant_size() {
        Err(DebugTypeError::BaseTypeNotFound { owner }) => assert_eq!(owner, "Wrong"),
        _ => panic!("the discriminant is a structure"),
    }
}

#[test]
fn slice_takes_its_two_members() {
    let info = registry_of(vec![
        base(0x18, "u32", 4),
        die(1, DW_TAG_POINTER_TYPE, 0x20, vec![kind(0x18)]),
        structure(1, 0x30, "Pair", 8),
        member(2, 0x34, "first", 0x18, 0),
        member(2, 0x38, "second", 0x20, 4),
        structure(1, 0x40, "Swapped", 8),
        member(2, 0x44, "length", 0x20, 0),
        member(2, 0x48, "data_ptr", 0x18, 4),
        structure(1, 0x50, "HalfRight", 8),
        member(2, 0x54, "length", 0x18, 0),
        member(2, 0x58, "data_ptr", 0x18, 4),
        structure(1, 0x60, "Three", 12),
        member(2, 0x64, "length", 0x18, 0),
        member(2, 0x68, "data_ptr", 0x20, 4),
        member(2, 0x6c, "capacity", 0x18, 8),
        structure(1, 0x70, "&[u32]", 8),
        member(2, 0x74, "data_ptr", 0x20, 0),
        member(2, 0x78, "length", 0x18, 4),
        variable(0x80, "PAIR", 0x30, 0x1000),
        variable(0x84, "SWAPPED", 0x40, 0x1000),
        variable(0x88, "HALF_RIGHT", 0x50, 0x1000),
        variable(0x8c, "THREE", 0x60, 0x1000),
        variable(0x90, "SLICE", 0x70, 0x1000),
    ]);
    for (variable, owner) in [("PAIR", "Pair"), ("SWAPPED", "Swapped"), ("HALF_RIGHT", "HalfRight"), ("THREE", "Three")] {
        let structure = info.variable_from_name(variable).unwrap().structure().unwrap();
        let mut reader = Recorder::new();
        match structure.as_slice(&mut reader) {
            Err(DebugTypeError::NotRustSlice(name)) => assert_eq!(name, owner),
            _ => panic!("the structure is no slice"),
        }
        assert!(reader.asked.is_empty());
        assert!(matches!(structure.slice_length(), Err(DebugTypeError::NotRustSlice(_))) || variable == "HALF_RIGHT");
        assert!(matches!(structure.slice_pointer(), Err(DebugTypeError::NotRustSlice(_))) || variable == "THREE");
    }
    let structure = info.variable_from_name("SLICE").unwrap().structure().unwrap();
    let mut reader = Recorder::new();
    let slice = structure.as_slice(&mut reader).unwrap();
    assert_eq!(reader.asked, vec![0x1004, 0x1005, 0x1006, 0x1007, 0x1000, 0x1001, 0x1002, 0x1003]);
    assert_eq!(slice.length(), 0x07060504);
    assert_eq!(slice.location(), Some(MemoryLocation(0x03020100)));
    let mut failing = Recorder::failing_from(0x1005);
    assert!(matches!(structure.as_slice(&mut failing), Err(DebugTypeError::ReadError)));
    assert_eq!(failing.asked, vec![0x1004, 0x1005]);
}
