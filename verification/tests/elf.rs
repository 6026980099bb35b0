//! End-to-end tests: an object file with debugging information is written
//! into memory, read back through the library, and navigated with a reader
//! that serves prepared bytes.
use gimli::write::{Address, AttributeValue, DwarfUnit, EndianVec, Expression, Sections, UnitEntryId};
use tasru::debug_types::DebugTypeError;
use tasru::memory::Read;
use tasru::unit_info::{MemoryLocation, StructOffset};
use tasru::DebugInfo;

struct StubReader {
    bytes: Vec<(u64, u8)>,
}

impl StubReader {
    fn new() -> Self {
        StubReader { bytes: Vec::new() }
    }

    fn with(mut self, address: u64, bytes: &[u8]) -> Self {
        for (i, b) in bytes.iter().enumerate() {
            self.bytes.push((address + i as u64, *b));
        }
        self
    }
}

impl Read for StubReader {
    type Error = std::io::Error;

    fn read_u8(&mut self, address: u64) -> Result<u8, Self::Error> {
        for (a, b) in &self.bytes {
            if *a == address {
                return Ok(*b);
            }
        }
        Err(std::io::Error::new(std::io::ErrorKind::NotFound, "no byte at this address"))
    }
}

fn add(dwarf: &mut DwarfUnit, parent: UnitEntryId, tag: gimli::DwTag, name: Option<&str>) -> UnitEntryId {
    let id = dwarf.unit.add(parent, tag);
    if let Some(name) = name {
        let text = dwarf.strings.add(name);
        dwarf.unit.get_mut(id).set(gimli::DW_AT_name, AttributeValue::StringRef(text));
    }
    id
}

fn base_type(dwarf: &mut DwarfUnit, parent: UnitEntryId, name: &str, size: u8) -> UnitEntryId {
    let id = add(dwarf, parent, gimli::DW_TAG_base_type, Some(name));
    dwarf.unit.get_mut(id).set(gimli::DW_AT_byte_size, AttributeValue::Data1(size));
    dwarf.unit.get_mut(id).set(gimli::DW_AT_encoding, AttributeValue::Encoding(gimli::DW_ATE_unsigned));
    id
}

fn structure(dwarf: &mut DwarfUnit, parent: UnitEntryId, name: &str, size: u8) -> UnitEntryId {
    let id = add(dwarf, parent, gimli::DW_TAG_structure_type, Some(name));
    dwarf.unit.get_mut(id).set(gimli::DW_AT_byte_size, AttributeValue::Data1(size));
    id
}

fn member(dwarf: &mut DwarfUnit, parent: UnitEntryId, name: &str, kind: UnitEntryId, offset: u8) -> UnitEntryId {
    let id = add(dwarf, parent, gimli::DW_TAG_member, Some(name));
    dwarf.unit.get_mut(id).set(gimli::DW_AT_type, AttributeValue::UnitRef(kind));
    dwarf.unit.get_mut(id).set(gimli::DW_AT_data_member_location, AttributeValue::Data1(offset));
    id
}

fn variable(
    dwarf: &mut DwarfUnit,
    parent: UnitEntryId,
    name: &str,
    linkage_name: &str,
    kind: UnitEntryId,
    address: u64,
) -> UnitEntryId {
    let id = add(dwarf, parent, gimli::DW_TAG_variable, Some(name));
    dwarf.unit.get_mut(id).set(gimli::DW_AT_type, AttributeValue::UnitRef(kind));
    let mut location = Expression::new();
    location.op_addr(Address::Constant(address));
    dwarf.unit.get_mut(id).set(gimli::DW_AT_location, AttributeValue::Exprloc(location));
    let text = dwarf.strings.add(linkage_name);
    dwarf.unit.get_mut(id).set(gimli::DW_AT_linkage_name, AttributeValue::StringRef(text));
    id
}

/// An enumeration as the Rust compiler describes one: a structure that
/// holds a variant part, with one payload structure for each variant.
fn enumeration(
    dwarf: &mut DwarfUnit,
    parent: UnitEntryId,
    name: &str,
    size: u8,
    tag_type: UnitEntryId,
    variants: &[(&str, Option<u8>)],
) -> UnitEntryId {
    let id = structure(dwarf, parent, name, size);
    let part = dwarf.unit.add(id, gimli::DW_TAG_variant_part);
    let tag = dwarf.unit.add(part, gimli::DW_TAG_member);
    dwarf.unit.get_mut(tag).set(gimli::DW_AT_type, AttributeValue::UnitRef(tag_type));
    dwarf.unit.get_mut(tag).set(gimli::DW_AT_artificial, AttributeValue::Flag(true));
    dwarf.unit.get_mut(tag).set(gimli::DW_AT_data_member_location, AttributeValue::Data1(0));
    let mut payload_members = Vec::new();
    for (variant_name, discriminant) in variants {
        let variant = dwarf.unit.add(part, gimli::DW_TAG_variant);
        if let Some(value) = discriminant {
            dwarf.unit.get_mut(variant).set(gimli::DW_AT_discr_value, AttributeValue::Data1(*value));
        }
        let payload = add(dwarf, variant, gimli::DW_TAG_member, Some(variant_name));
        dwarf.unit.get_mut(payload).set(gimli::DW_AT_data_member_location, AttributeValue::Data1(0));
        payload_members.push((payload, *variant_name));
    }
    for (payload, variant_name) in payload_members {
        let body = structure(dwarf, id, variant_name, size);
        dwarf.unit.get_mut(payload).set(gimli::DW_AT_type, AttributeValue::UnitRef(body));
    }
    id
}

/// The object file of the tests: one unit with the namespace `foo`.
fn fixture() -> Vec<u8> {
    let encoding = gimli::Encoding { format: gimli::Format::Dwarf32, version: 4, address_size: 4 };
    let mut dwarf = DwarfUnit::new(encoding);
    let root = dwarf.unit.root();
    let foo = add(&mut dwarf, root, gimli::DW_TAG_namespace, Some("foo"));
    let u32_type = base_type(&mut dwarf, root, "u32", 4);
    let u8_type = base_type(&mut dwarf, root, "u8", 1);

    let point = structure(&mut dwarf, foo, "Point", 8);
    member(&mut dwarf, point, "x", u32_type, 0);
    member(&mut dwarf, point, "y", u32_type, 4);
    variable(&mut dwarf, foo, "ORIGIN", "_ZN3foo6ORIGIN17h0123456789abcdefE", point, 0x2000);

    let color = enumeration(
        &mut dwarf,
        foo,
        "Color",
        1,
        u8_type,
        &[("Red", Some(0)), ("Green", Some(1)), ("Blue", Some(2))],
    );
    variable(&mut dwarf, foo, "C", "_ZN3foo1C17h0123456789abcdefE", color, 0x3000);

    let opt = enumeration(&mut dwarf, foo, "Opt", 4, u8_type, &[("None", None), ("Some", Some(0))]);
    variable(&mut dwarf, foo, "OPT", "_ZN3foo3OPT17h0123456789abcdefE", opt, 0x3100);

    let pointer = add(&mut dwarf, root, gimli::DW_TAG_pointer_type, Some("*const u32"));
    dwarf.unit.get_mut(pointer).set(gimli::DW_AT_type, AttributeValue::UnitRef(u32_type));
    let slice = structure(&mut dwarf, root, "&[u32]", 8);
    member(&mut dwarf, slice, "data_ptr", pointer, 0);
    member(&mut dwarf, slice, "length", u32_type, 4);
    variable(&mut dwarf, foo, "SLICE", "_ZN3foo5SLICE17h0123456789abcdefE", slice, 0x4000);

    let holder = structure(&mut dwarf, foo, "Holder", 4);
    member(&mut dwarf, holder, "ptr", pointer, 0);
    variable(&mut dwarf, foo, "HOLDER", "_ZN3foo6HOLDER17h0123456789abcdefE", holder, 0x6000);

    let array = dwarf.unit.add(root, gimli::DW_TAG_array_type);
    dwarf.unit.get_mut(array).set(gimli::DW_AT_type, AttributeValue::UnitRef(u32_type));
    let range = dwarf.unit.add(array, gimli::DW_TAG_subrange_type);
    dwarf.unit.get_mut(range).set(gimli::DW_AT_lower_bound, AttributeValue::Data1(0));
    dwarf.unit.get_mut(range).set(gimli::DW_AT_count, AttributeValue::Data1(3));
    variable(&mut dwarf, foo, "ARRAY", "_ZN3foo5ARRAY17h0123456789abcdefE", array, 0x8000);

    let bar = add(&mut dwarf, foo, gimli::DW_TAG_namespace, Some("Bar"));
    let inner = structure(&mut dwarf, bar, "Point", 12);
    member(&mut dwarf, inner, "z", u32_type, 8);

    let either = add(&mut dwarf, foo, gimli::DW_TAG_union_type, Some("Either"));
    dwarf.unit.get_mut(either).set(gimli::DW_AT_byte_size, AttributeValue::Data1(4));
    member(&mut dwarf, either, "word", u32_type, 0);
    member(&mut dwarf, either, "byte", u8_type, 0);

    let mut sections = Sections::new(EndianVec::new(gimli::LittleEndian));
    dwarf.write(&mut sections).unwrap();
    let mut object = object::write::Object::new(
        object::BinaryFormat::Elf,
        object::Architecture::Arm,
        object::Endianness::Little,
    );
    sections
        .for_each(|id, data| -> Result<(), ()> {
            let section = object.add_section(Vec::new(), id.name().as_bytes().to_vec(), object::SectionKind::Debug);
            object.set_section_data(section, data.slice().to_vec(), 1);
            Ok(())
        })
        .unwrap();
    object.write().unwrap()
}

fn open() -> DebugInfo {
    DebugInfo::new(&fixture()).unwrap()
}

#[test]
fn simple_struct_read() {
    let info = open();
    let mut reader = StubReader::new().with(0x2000, &[0x07, 0, 0, 0, 0x0B, 0, 0, 0]);
    let origin = info.variable_from_demangled_name("foo::ORIGIN").unwrap();
    let point = origin.structure().unwrap();
    let x = point.member_named("x").unwrap().base_type().unwrap().as_u32(&mut reader);
    let y = point.member_named("y").unwrap().base_type().unwrap().as_u32(&mut reader);
    assert_eq!(x, Some(7));
    assert_eq!(y, Some(11));
}

#[test]
fn member_lies_at_its_offset() {
    let info = open();
    let origin = info.variable_from_demangled_name("foo::ORIGIN").unwrap();
    let point = origin.structure().unwrap();
    assert_eq!(point.location(), Some(MemoryLocation(0x2000)));
    assert_eq!(point.size(), 8);
    let y = point.member_named("y").unwrap();
    assert_eq!(y.location().unwrap(), 0x2004);
    assert_eq!(y.cursor_offset(), StructOffset(4));
    assert_eq!(y.offset(), StructOffset(4));
    assert_eq!(y.name(), Some("y"));
    let value = y.base_type().unwrap();
    assert_eq!(value.name(), "u32");
    assert_eq!(value.size(), 4);
    assert_eq!(value.location(), Some(MemoryLocation(0x2004)));
}

#[test]
fn missing_member_is_reported() {
    let info = open();
    let origin = info.variable_from_demangled_name("foo::ORIGIN").unwrap();
    let point = origin.structure().unwrap();
    match point.member_named("w") {
        Err(DebugTypeError::MemberNotFound { owner, member }) => {
            assert_eq!(owner, "Point");
            assert_eq!(member, "w");
        }
        other => panic!("unexpected result: {:?}", other.map(|_| ())),
    }
}

#[test]
fn member_of_another_kind_is_reported() {
    let info = open();
    let origin = info.variable_from_demangled_name("foo::ORIGIN").unwrap();
    let x = origin.structure().unwrap().member_named("x").unwrap();
    match x.structure() {
        Err(e) => assert_eq!(
            e.to_string(),
            "Type for element \"x\" in struct \"Point\" is \"base type\", not \"structure\""
        ),
        Ok(_) => panic!("a base type is no structure"),
    }
    let holder = info.variable_from_demangled_name("foo::HOLDER").unwrap().structure().unwrap();
    match holder.member_named("ptr").unwrap().array() {
        Err(DebugTypeError::KindIncorrect { actual, attempted, .. }) => {
            assert_eq!(actual, "pointer");
            assert_eq!(attempted, "array");
        }
        other => panic!("unexpected result: {:?}", other.map(|_| ())),
    }
}

#[test]
fn variable_lookups() {
    let info = open();
    let by_linkage = info.variable_from_name("_ZN3foo6ORIGIN17h0123456789abcdefE").unwrap();
    assert_eq!(by_linkage.name(), "foo::ORIGIN");
    assert_eq!(by_linkage.location(), MemoryLocation(0x2000));
    let by_name = info.variable_from_name("foo::ORIGIN").unwrap();
    assert_eq!(by_name.kind(), by_linkage.kind());
    let by_demangled = info.variable_from_demangled_name("foo::ORIGIN").unwrap();
    assert_eq!(by_demangled.kind(), by_linkage.kind());
    match info.variable_from_demangled_name("foo::MISSING") {
        Err(e) => assert_eq!(e.to_string(), "Variable \"foo::MISSING\" could not be found"),
        Ok(_) => panic!("no such variable"),
    }
    let found = info.find_variable(|v| v.name().ends_with("::C")).unwrap();
    assert_eq!(found.name(), "foo::C");
    assert!(matches!(
        info.find_variable(|_| false),
        Err(DebugTypeError::VariableNotFound(path)) if path.is_empty()
    ));
}

#[test]
fn variable_is_no_enumeration() {
    let info = open();
    let origin = info.variable_from_demangled_name("foo::ORIGIN").unwrap();
    match origin.enumeration() {
        Err(e) => assert_eq!(e.to_string(), "Enumeration for \"foo::ORIGIN\" could not be found"),
        Ok(_) => panic!("a structure is no enumeration"),
    }
    match origin.array() {
        Err(e) => assert_eq!(e.to_string(), "Array could not be found for item \"foo::ORIGIN\""),
        Ok(_) => panic!("a structure is no array"),
    }
    let color = info.variable_from_demangled_name("foo::C").unwrap();
    match color.structure() {
        Err(e) => assert_eq!(e.to_string(), "Structure for \"foo::C\" could not be found"),
        Ok(_) => panic!("an enumeration is no structure"),
    }
}

#[test]
fn enum_variant_selection() {
    let info = open();
    let mut reader = StubReader::new().with(0x3000, &[0x01]);
    let color = info.variable_from_demangled_name("foo::C").unwrap().enumeration().unwrap();
    assert_eq!(color.name(), "Color");
    assert_eq!(color.namespace(), "foo");
    assert_eq!(color.discriminant_size().unwrap(), 1);
    assert_eq!(color.variants().unwrap().len(), 3);
    let variant = color.variant(&mut reader).unwrap();
    assert_eq!(variant.name(), "Green");
    assert_eq!(variant.discriminant(), Some(1));
    let body = variant.structure().unwrap();
    assert_eq!(body.name(), "Green");
    assert_eq!(body.location(), Some(MemoryLocation(0x3000)));
}

#[test]
fn enum_variants_by_name_and_discriminant() {
    let info = open();
    let color = info.variable_from_demangled_name("foo::C").unwrap().enumeration().unwrap();
    assert_eq!(color.variant_named("Blue").unwrap().discriminant(), Some(2));
    assert_eq!(color.variant_with_discriminant(2).unwrap().name(), "Blue");
    assert_eq!(color.variant_with_discriminant(0).unwrap().name(), "Red");
    match color.variant_with_discriminant(7) {
        Err(e) => assert_eq!(e.to_string(), "Variant \"7\" could not be found in enum \"Color\""),
        Ok(_) => panic!("no variant carries 7"),
    }
    match color.variant_named("Purple") {
        Err(DebugTypeError::VariantNotFound { owner, variant }) => {
            assert_eq!(owner, "Color");
            assert_eq!(variant, "Purple");
        }
        other => panic!("unexpected result: {:?}", other.map(|_| ())),
    }
}

#[test]
fn enum_variant_needs_a_readable_discriminant() {
    let info = open();
    let color = info.variable_from_demangled_name("foo::C").unwrap().enumeration().unwrap();
    let mut empty = StubReader::new();
    assert!(matches!(color.variant(&mut empty), Err(DebugTypeError::ReadError)));
}

#[test]
fn niche_optimization() {
    let info = open();
    let mut reader = StubReader::new().with(0x3100, &[0x05]);
    let opt = info.variable_from_demangled_name("foo::OPT").unwrap().enumeration().unwrap();
    let variant = opt.variant(&mut reader).unwrap();
    assert_eq!(variant.name(), "None");
    assert_eq!(variant.discriminant(), None);
    let mut some = StubReader::new().with(0x3100, &[0x00]);
    assert_eq!(opt.variant(&mut some).unwrap().name(), "Some");
}

#[test]
fn slice_traversal() {
    let info = open();
    let mut reader = StubReader::new()
        .with(0x4000, &[0x00, 0x50, 0x00, 0x00, 0x03, 0x00, 0x00, 0x00])
        .with(0x5000, &[0xAA, 0, 0, 0, 0xBB, 0, 0, 0, 0xCC, 0, 0, 0]);
    let structure = info.variable_from_demangled_name("foo::SLICE").unwrap().structure().unwrap();
    let slice = structure.as_slice(&mut reader).unwrap();
    assert_eq!(slice.length(), 3);
    assert_eq!(slice.location(), Some(MemoryLocation(0x5000)));
    let mut elements = slice.base_type_iter().unwrap();
    assert_eq!(elements.len(), 3);
    assert!(!elements.is_empty());
    let mut values = Vec::new();
    while let Some(element) = elements.next() {
        values.push(element.as_u32(&mut reader).unwrap());
    }
    assert_eq!(values, vec![0xAA, 0xBB, 0xCC]);
    match slice.structure_iter() {
        Err(e) => assert_eq!(e.to_string(), "Structure for \"&[u32]\" could not be found"),
        Ok(_) => panic!("the elements are no structures"),
    }
}

#[test]
fn structure_that_is_no_slice() {
    let info = open();
    let mut reader = StubReader::new();
    let holder = info.variable_from_demangled_name("foo::HOLDER").unwrap().structure().unwrap();
    match holder.as_slice(&mut reader) {
        Err(e) => assert_eq!(e.to_string(), "Type \"Holder\" is not a Rust slice"),
        Ok(_) => panic!("a structure with one member is no slice"),
    }
    let point = info.variable_from_demangled_name("foo::ORIGIN").unwrap().structure().unwrap();
    match point.as_slice(&mut reader) {
        Err(e) => assert_eq!(e.to_string(), "Type \"Point\" is not a Rust slice"),
        Ok(_) => panic!("a point is no slice"),
    }
}

#[test]
fn pointer_follow() {
    let info = open();
    let mut reader = StubReader::new().with(0x6000, &[0x00, 0x70, 0x00, 0x00]);
    let holder = info.variable_from_demangled_name("foo::HOLDER").unwrap().structure().unwrap();
    let pointer = holder.member_named("ptr").unwrap().pointer().unwrap();
    assert_eq!(pointer.location().unwrap(), 0x6000);
    let followed = pointer.follow(&mut reader).unwrap();
    assert_eq!(followed.location().unwrap(), 0x7000);
    assert_eq!(followed.cursor_offset(), StructOffset(0));
    let pointer = holder.member_named("ptr").unwrap().pointer().unwrap();
    assert_eq!(pointer.follow_unless_null(&mut reader).unwrap().location().unwrap(), 0x7000);
    let pointer = holder.member_named("ptr").unwrap().pointer().unwrap();
    assert_eq!(pointer.try_follow(&mut reader).unwrap().unwrap().location().unwrap(), 0x7000);
}

#[test]
fn null_pointer_follow() {
    let info = open();
    let mut reader = StubReader::new().with(0x6000, &[0, 0, 0, 0]);
    let holder = info.variable_from_demangled_name("foo::HOLDER").unwrap().structure().unwrap();
    let pointer = holder.member_named("ptr").unwrap().pointer().unwrap();
    assert!(matches!(pointer.follow_unless_null(&mut reader), Err(DebugTypeError::ReadError)));
    let pointer = holder.member_named("ptr").unwrap().pointer().unwrap();
    assert!(pointer.try_follow(&mut reader).unwrap().is_none());
    let pointer = holder.member_named("ptr").unwrap().pointer().unwrap();
    assert_eq!(pointer.follow(&mut reader).unwrap().location().unwrap(), 0);
    let pointer = holder.member_named("ptr").unwrap().pointer().unwrap();
    assert_eq!(pointer.followed(0x1234).location().unwrap(), 0x1234);
    let pointer = holder.member_named("ptr").unwrap().pointer().unwrap();
    assert!(matches!(pointer.followed_unless_null(0), Err(DebugTypeError::ReadError)));
}

#[test]
fn pointer_reads_bytes_at_offsets() {
    let info = open();
    let mut reader = StubReader::new().with(0x6002, &[0x42]);
    let holder = info.variable_from_demangled_name("foo::HOLDER").unwrap().structure().unwrap();
    let pointer = holder.member_named("ptr").unwrap().pointer().unwrap();
    assert_eq!(pointer.read_u8(2, &mut reader), Some(0x42));
    assert_eq!(pointer.read_u8(3, &mut reader), None);
    assert_eq!(pointer.name(), Some("*const u32"));
}

#[test]
fn type_lookup_by_name() {
    let info = open();
    let point = info.structure_from_type_at_address("foo::Bar::Point", 0x9000).unwrap();
    assert_eq!(point.namespace(), "foo::Bar");
    assert_eq!(point.name(), "Point");
    assert_eq!(point.size(), 12);
    assert_eq!(point.location(), Some(MemoryLocation(0x9000)));
    assert_eq!(point.member_named("z").unwrap().location().unwrap(), 0x9008);
    match info.structure_from_type_at_address("Point", 0x9000) {
        Err(DebugTypeError::StructureNotFound { owner }) => assert_eq!(owner, "Point"),
        other => panic!("unexpected result: {:?}", other.map(|_| ())),
    }
    match info.structure_from_type_at_address("foo::Nothing", 0x9000) {
        Err(DebugTypeError::StructureNotFound { owner }) => assert_eq!(owner, "foo::Nothing"),
        other => panic!("unexpected result: {:?}", other.map(|_| ())),
    }
    let outer = info.structure_from_type_at_address("foo::Point", 0x9100).unwrap();
    assert_eq!(outer.size(), 8);
}

#[test]
fn enumeration_and_union_lookup_by_name() {
    let info = open();
    let color = info.enumeration_from_type_at_address("foo::Color", 0x9200).unwrap();
    assert_eq!(color.location().unwrap(), 0x9200);
    assert!(matches!(
        info.enumeration_from_type_at_address("foo::Point", 0),
        Err(DebugTypeError::EnumerationNotFound { .. })
    ));
    match info.enumeration_from_type_at_address("Color", 0) {
        Err(DebugTypeError::EnumerationNotFound { owner }) => assert_eq!(owner, "Color"),
        _ => panic!("a type name without a namespace names no enumeration"),
    }
    match info.union_from_type_at_address("Either", 0) {
        Err(DebugTypeError::UnionNotFound { owner }) => assert_eq!(owner, "Either"),
        _ => panic!("a type name without a namespace names no union"),
    }
    assert!(matches!(
        info.union_from_type_at_address("foo::Color", 0),
        Err(DebugTypeError::UnionNotFound { .. })
    ));
    let either = info.union_from_type_at_address("foo::Either", 0x9300).unwrap();
    assert_eq!(either.location(), Some(MemoryLocation(0x9300)));
    assert_eq!(either.size(), 4);
    let mut reader = StubReader::new().with(0x9300, &[0x78, 0x56, 0x34, 0x12]);
    let word = either.member_named("word").unwrap().base_type().unwrap();
    assert_eq!(word.as_u64(&mut reader), Some(0x12345678));
    let byte = either.member_named("byte").unwrap().base_type().unwrap();
    assert_eq!(byte.as_u8(&mut reader), Some(0x78));
    assert_eq!(byte.as_u16(&mut reader), Some(0x78));
    assert_eq!(word.as_u16(&mut reader), None);
    assert!(matches!(
        either.member_named("none"),
        Err(DebugTypeError::MemberNotFound { .. })
    ));
    assert!(matches!(
        info.union_from_type_at_address("foo::Point", 0),
        Err(DebugTypeError::UnionNotFound { .. })
    ));
}

#[test]
fn array_iteration() {
    let info = open();
    let array = info.variable_from_demangled_name("foo::ARRAY").unwrap().array().unwrap();
    assert_eq!(array.count(), 3);
    assert_eq!(array.lower_bound(), 0);
    assert_eq!(array.location(), Some(MemoryLocation(0x8000)));
    assert!(array.structure().is_none());
    assert!(array.enumeration().is_none());
    let mut items = array.iter().unwrap();
    assert_eq!(items.remaining(), 3);
    let mut places = Vec::new();
    while let Some(item) = items.next() {
        places.push((item.location(), item.cursor_offset()));
        assert!(matches!(item.structure(), Err(DebugTypeError::StructureNotFound { .. })));
        assert!(matches!(item.enumeration(), Err(DebugTypeError::EnumerationNotFound { .. })));
    }
    assert_eq!(
        places,
        vec![
            (Some(MemoryLocation(0x8000)), StructOffset(0)),
            (Some(MemoryLocation(0x8004)), StructOffset(4)),
            (Some(MemoryLocation(0x8008)), StructOffset(8)),
        ]
    );
    assert!(items.next().is_none());
}

#[test]
fn items_and_sizes() {
    let info = open();
    let origin = info.variable_from_demangled_name("foo::ORIGIN").unwrap();
    let point = origin.kind();
    assert_eq!(info.size_from_item(point), Some(StructOffset(8)));
    assert_eq!(info.structure_from_item(point).unwrap().name(), "Point");
    assert!(info.enumeration_from_item(point).is_none());
    assert!(info.union_from_item(point).is_none());
    assert!(info.array_from_item(point).is_none());
    assert!(info.pointer_from_item(point).is_none());
    assert!(info.base_type_from_item(point).is_none());
    assert!(info.variable_from_item(point).is_none());
    let unit = info.lookup_unit(point).unwrap();
    assert_eq!(unit.name_from_kind(point), Some("Point"));
    assert_eq!(unit.size_from_item(point), Some(StructOffset(8)));
    let symbols = unit.all_symbols();
    assert_eq!(symbols.iter().filter(|s| **s == point).count(), 1);
    let array = info.variable_from_demangled_name("foo::ARRAY").unwrap().kind();
    assert_eq!(info.size_from_item(array), None);
    assert_eq!(info.array_from_item(array).unwrap().count(), 3);
    let element = info.array_from_item(array).unwrap().kind();
    assert_eq!(info.size_from_item(element), Some(StructOffset(4)));
    assert_eq!(info.base_type_from_item(element).unwrap().name(), "u32");
    let at = info.structure_from_item_at_address(&point, 0xA000).unwrap();
    assert_eq!(at.location(), Some(MemoryLocation(0xA000)));
    assert!(matches!(
        info.structure_from_item_at_address(&array, 0xA000),
        Err(DebugTypeError::StructureNotFound { owner }) if owner.is_empty()
    ));
}

#[test]
fn not_an_object_file() {
    assert!(matches!(
        DebugInfo::new(&[1, 2, 3, 4]),
        Err(tasru::DebugInfoError::ObjectError(_))
    ));
}
