//! The builder on entries that are written out as plain values.
use tasru::dwarf::{
    Attribute, AttributeValue, Die, FileEntry, UnitEntries, UnitHeader, DW_AT_ALIGNMENT,
    DW_AT_BYTE_SIZE, DW_AT_CONTAINING_TYPE, DW_AT_COUNT, DW_AT_DATA_MEMBER_LOCATION,
    DW_AT_DECL_FILE, DW_AT_DECL_LINE, DW_AT_DISCR_VALUE, DW_AT_ENCODING, DW_AT_LINKAGE_NAME,
    DW_AT_LOCATION, DW_AT_LOWER_BOUND, DW_AT_NAME, DW_AT_TYPE, DW_TAG_ARRAY_TYPE,
    DW_TAG_BASE_TYPE, DW_TAG_MEMBER, DW_TAG_NAMESPACE, DW_TAG_POINTER_TYPE,
    DW_TAG_STRUCTURE_TYPE, DW_TAG_SUBRANGE_TYPE, DW_TAG_UNION_TYPE, DW_TAG_VARIABLE,
    DW_TAG_VARIANT, DW_TAG_VARIANT_PART,
};
use tasru::extract::PieceLocation;
use tasru::unit_info::{DebugItem, MemoryLocation, StructOffset, UnitBuilder, UnitInfo};
use tasru::walk::BuildError;
use tasru::DebugInfo;

const DW_TAG_COMPILE_UNIT: u16 = 0x11;

fn header() -> UnitHeader {
    UnitHeader { version: 4, unit_start: Some(0x100), comp_dir: Some(String::from("/work")) }
}

fn item(offset: u64) -> DebugItem {
    DebugItem::from_debug_info_offset(0x100 + offset)
}

fn name(text: &str) -> Attribute {
    Attribute {
        name: DW_AT_NAME,
        value: AttributeValue::DebugStrRef(Some(String::from(text))),
        udata: None,
    }
}

fn linkage_name(text: &str) -> Attribute {
    Attribute {
        name: DW_AT_LINKAGE_NAME,
        value: AttributeValue::DebugStrRef(Some(String::from(text))),
        udata: None,
    }
}

fn number(attribute: u16, value: u64) -> Attribute {
    Attribute { name: attribute, value: AttributeValue::Udata(value), udata: Some(value) }
}

fn kind(offset: u64) -> Attribute {
    Attribute { name: DW_AT_TYPE, value: AttributeValue::UnitRef(offset), udata: None }
}

fn address(value: u64) -> Attribute {
    Attribute {
        name: DW_AT_LOCATION,
        value: AttributeValue::Exprloc(Some(vec![PieceLocation::Address(value)])),
        udata: None,
    }
}

fn die(depth_delta: isize, tag: u16, offset: u64, attributes: Vec<Attribute>) -> Die {
    Die { depth_delta, tag, offset, attributes }
}

fn root() -> Die {
    die(0, DW_TAG_COMPILE_UNIT, 0x0b, vec![])
}

fn build(dies: Vec<Die>) -> Result<UnitInfo, BuildError> {
    UnitInfo::new(&header(), &dies)
}

fn base_u32(depth_delta: isize) -> Die {
    die(depth_delta, DW_TAG_BASE_TYPE, 0x20, vec![name("u32"), number(DW_AT_BYTE_SIZE, 4), number(DW_AT_ENCODING, 7)])
}

#[test]
fn empty_unit() {
    let unit = build(vec![]).unwrap();
    assert!(unit.all_symbols().is_empty());
    assert!(unit.variable_from_name("x").is_none());
    assert!(unit.structure_from_item(item(0)).is_none());
}

#[test]
fn base_type_is_registered() {
    let unit = build(vec![root(), base_u32(1)]).unwrap();
    let found = unit.base_type_from_item(item(0x20)).unwrap();
    assert_eq!(found.name(), "u32");
    assert_eq!(found.size(), 4);
    assert_eq!(unit.size_from_item(item(0x20)), Some(StructOffset(4)));
    assert_eq!(unit.name_from_kind(item(0x20)), Some("u32"));
    assert_eq!(unit.all_symbols(), vec![item(0x20)]);
    assert_eq!(unit.kind_of(item(0x20)), Some(tasru::unit_info::SymbolKind::BaseType));
    assert_eq!(unit.kind_of(item(0x21)), None);
}

#[test]
fn base_type_without_size_is_dropped() {
    let unit = build(vec![root(), die(1, DW_TAG_BASE_TYPE, 0x20, vec![name("u32")])]).unwrap();
    assert!(unit.base_type_from_item(item(0x20)).is_none());
    assert!(unit.all_symbols().is_empty());
}

#[test]
fn base_type_with_unexpected_attribute_is_kept() {
    let unit = build(vec![
        root(),
        die(1, DW_TAG_BASE_TYPE, 0x20, vec![name("u32"), number(DW_AT_BYTE_SIZE, 4), number(DW_AT_ALIGNMENT, 4)]),
    ])
    .unwrap();
    let found = unit.base_type_from_item(item(0x20)).unwrap();
    assert_eq!(found.name(), "u32");
    assert_eq!(found.size(), 4);
}

#[test]
fn structure_with_members_in_namespaces() {
    let unit = build(vec![
        root(),
        base_u32(1),
        die(0, DW_TAG_NAMESPACE, 0x30, vec![name("foo")]),
        die(1, DW_TAG_NAMESPACE, 0x34, vec![name("bar")]),
        die(1, DW_TAG_STRUCTURE_TYPE, 0x40, vec![name("Point"), number(DW_AT_BYTE_SIZE, 8), number(DW_AT_ALIGNMENT, 4)]),
        die(1, DW_TAG_MEMBER, 0x48, vec![name("x"), kind(0x20), number(DW_AT_DATA_MEMBER_LOCATION, 0)]),
        die(0, DW_TAG_MEMBER, 0x50, vec![name("y"), kind(0x20), number(DW_AT_DATA_MEMBER_LOCATION, 4)]),
        die(0, DW_TAG_MEMBER, 0x58, vec![kind(0x20)]),
        die(-2, DW_TAG_STRUCTURE_TYPE, 0x60, vec![name("Outer"), number(DW_AT_BYTE_SIZE, 1)]),
        die(-1, DW_TAG_STRUCTURE_TYPE, 0x70, vec![name("Top"), number(DW_AT_BYTE_SIZE, 2), Attribute {
            name: DW_AT_CONTAINING_TYPE,
            value: AttributeValue::DebugInfoRef(0x160),
            udata: None,
        }]),
    ])
    .unwrap();
    let point = unit.structure_from_item(item(0x40)).unwrap();
    assert_eq!(point.name(), "Point");
    assert_eq!(point.namespace(), "foo::bar");
    assert_eq!(point.size(), 8);
    assert_eq!(point.containing_type(), None);
    assert_eq!(point.members().len(), 3);
    assert_eq!(point.member_named("y").unwrap().offset(), StructOffset(4));
    assert_eq!(point.member_named("y").unwrap().kind(), item(0x20));
    assert_eq!(point.members()[2].name(), None);
    assert_eq!(point.members()[2].offset(), StructOffset(0));
    assert!(point.member_named("z").is_none());
    assert_eq!(unit.structure_from_item(item(0x60)).unwrap().namespace(), "foo");
    let top = unit.structure_from_item(item(0x70)).unwrap();
    assert_eq!(top.namespace(), "");
    assert_eq!(top.containing_type(), Some(item(0x60)));
    assert_eq!(unit.find_structure("foo::bar", "Point").unwrap().size(), 8);
    assert!(unit.find_structure("foo", "Point").is_none());
    assert_eq!(unit.all_symbols(), vec![item(0x20), item(0x40), item(0x60), item(0x70)]);
}

#[test]
fn member_without_type_is_dropped() {
    let unit = build(vec![
        root(),
        die(1, DW_TAG_STRUCTURE_TYPE, 0x40, vec![name("S"), number(DW_AT_BYTE_SIZE, 8)]),
        die(1, DW_TAG_MEMBER, 0x48, vec![name("x")]),
    ])
    .unwrap();
    assert!(unit.structure_from_item(item(0x40)).unwrap().members().is_empty());
}

#[test]
fn member_with_unreadable_type_is_dropped() {
    let unit = build(vec![
        root(),
        die(1, DW_TAG_STRUCTURE_TYPE, 0x40, vec![name("S"), number(DW_AT_BYTE_SIZE, 8)]),
        die(1, DW_TAG_MEMBER, 0x48, vec![name("x"), number(DW_AT_TYPE, 3)]),
    ])
    .unwrap();
    assert!(unit.structure_from_item(item(0x40)).unwrap().members().is_empty());
}

#[test]
fn member_location_in_an_unhandled_form_is_skipped() {
    let unit = build(vec![
        root(),
        base_u32(1),
        die(0, DW_TAG_STRUCTURE_TYPE, 0x40, vec![name("S"), number(DW_AT_BYTE_SIZE, 8)]),
        die(1, DW_TAG_MEMBER, 0x48, vec![name("x"), kind(0x20), Attribute {
            name: DW_AT_DATA_MEMBER_LOCATION,
            value: AttributeValue::Other,
            udata: None,
        }]),
    ])
    .unwrap();
    let found = unit.structure_from_item(item(0x40)).unwrap();
    assert_eq!(found.members().len(), 1);
    assert_eq!(found.members()[0].name(), Some("x"));
    assert_eq!(found.members()[0].kind(), item(0x20));
    assert_eq!(found.members()[0].offset(), StructOffset(0));
}

#[test]
fn member_location_from_a_list_counts_as_none() {
    let unit = build(vec![
        root(),
        base_u32(1),
        die(0, DW_TAG_STRUCTURE_TYPE, 0x40, vec![name("S"), number(DW_AT_BYTE_SIZE, 8)]),
        die(1, DW_TAG_MEMBER, 0x48, vec![name("x"), kind(0x20), Attribute {
            name: DW_AT_DATA_MEMBER_LOCATION,
            value: AttributeValue::LocationListsRef,
            udata: None,
        }]),
    ])
    .unwrap();
    assert_eq!(
        unit.structure_from_item(item(0x40)).unwrap().member_named("x").unwrap().offset(),
        StructOffset(0)
    );
}

#[test]
fn last_attribute_of_a_name_wins() {
    let unit = build(vec![
        root(),
        die(1, DW_TAG_BASE_TYPE, 0x20, vec![name("first"), number(DW_AT_BYTE_SIZE, 4), name("second"), number(DW_AT_BYTE_SIZE, 2)]),
    ])
    .unwrap();
    let found = unit.base_type_from_item(item(0x20)).unwrap();
    assert_eq!(found.name(), "second");
    assert_eq!(found.size(), 2);
}

fn color() -> Vec<Die> {
    vec![
        root(),
        die(1, DW_TAG_BASE_TYPE, 0x20, vec![name("u8"), number(DW_AT_BYTE_SIZE, 1), number(DW_AT_ENCODING, 7)]),
        die(0, DW_TAG_NAMESPACE, 0x30, vec![name("foo")]),
        die(1, DW_TAG_STRUCTURE_TYPE, 0x40, vec![name("Color"), number(DW_AT_BYTE_SIZE, 1)]),
        die(1, DW_TAG_VARIANT_PART, 0x48, vec![]),
        die(1, DW_TAG_MEMBER, 0x4c, vec![kind(0x20), number(DW_AT_DATA_MEMBER_LOCATION, 0)]),
        die(0, DW_TAG_VARIANT, 0x50, vec![number(DW_AT_DISCR_VALUE, 0)]),
        die(1, DW_TAG_MEMBER, 0x54, vec![name("Red"), kind(0x80), number(DW_AT_DATA_MEMBER_LOCATION, 0)]),
        die(-1, DW_TAG_VARIANT, 0x60, vec![number(DW_AT_DISCR_VALUE, 1)]),
        die(1, DW_TAG_MEMBER, 0x64, vec![name("Green"), kind(0x90), number(DW_AT_DATA_MEMBER_LOCATION, 0)]),
        die(-1, DW_TAG_VARIANT, 0x70, vec![]),
        die(1, DW_TAG_MEMBER, 0x74, vec![name("Other"), kind(0xa0), number(DW_AT_DATA_MEMBER_LOCATION, 1)]),
        die(-2, DW_TAG_STRUCTURE_TYPE, 0x80, vec![name("Red"), number(DW_AT_BYTE_SIZE, 1)]),
        die(0, DW_TAG_STRUCTURE_TYPE, 0x90, vec![name("Green"), number(DW_AT_BYTE_SIZE, 1)]),
        die(0, DW_TAG_STRUCTURE_TYPE, 0xa0, vec![name("Other"), number(DW_AT_BYTE_SIZE, 1)]),
    ]
}

#[test]
fn structure_with_variants_becomes_an_enumeration() {
    let unit = build(color()).unwrap();
    assert!(unit.structure_from_item(item(0x40)).is_none());
    let found = unit.enumeration_from_item(item(0x40)).unwrap();
    assert_eq!(found.name(), "Color");
    assert_eq!(found.namespace(), "foo");
    assert_eq!(found.size(), 1);
    assert_eq!(found.discriminant_kind(), item(0x20));
    assert_eq!(found.discriminant_offset(), StructOffset(0));
    assert_eq!(found.variants().len(), 3);
    assert_eq!(found.variants()[0].name(), "Red");
    assert_eq!(found.variants()[0].discriminant(), Some(0));
    assert_eq!(found.variants()[0].kind(), item(0x80));
    assert_eq!(found.variants()[2].name(), "Other");
    assert_eq!(found.variants()[2].discriminant(), None);
    assert_eq!(found.variants()[2].offset(), StructOffset(1));
    assert_eq!(unit.structure_from_item(item(0x80)).unwrap().name(), "Red");
    assert_eq!(unit.size_from_item(item(0x40)), Some(StructOffset(1)));
    assert_eq!(unit.name_from_kind(item(0x40)), Some("Color"));
    assert_eq!(unit.find_enumeration("foo", "Color").unwrap().size(), 1);
    assert!(unit.find_structure("foo", "Color").is_none());
    assert_eq!(
        unit.all_symbols(),
        vec![item(0x20), item(0x40), item(0x80), item(0x90), item(0xa0)]
    );
}

#[test]
fn variants_are_selected_by_discriminant_value() {
    let unit = build(color()).unwrap();
    let found = unit.enumeration_from_item(item(0x40)).unwrap();
    assert_eq!(found.variant_with_discriminant(0).unwrap().name(), "Red");
    assert_eq!(found.variant_with_discriminant(1).unwrap().name(), "Green");
    assert_eq!(found.variant_with_discriminant(2).unwrap().name(), "Other");
    assert_eq!(found.variant_with_discriminant(200).unwrap().name(), "Other");
    assert_eq!(found.variant_named("Green").unwrap().discriminant(), Some(1));
    assert!(found.variant_named("Blue").is_none());
}

#[test]
fn variant_with_other_attributes_keeps_its_discriminant() {
    let plain = build(color()).unwrap();
    let mut dies = color();
    dies[6] = die(0, DW_TAG_VARIANT, 0x50, vec![number(DW_AT_DISCR_VALUE, 0), name("Ignored")]);
    let unit = build(dies).unwrap();
    let found = unit.enumeration_from_item(item(0x40)).unwrap();
    let expected = plain.enumeration_from_item(item(0x40)).unwrap();
    assert_eq!(found.variants().len(), expected.variants().len());
    assert_eq!(found.variant_with_discriminant(0).unwrap().name(), "Red");
    assert_eq!(found.variant_named("Red").unwrap().discriminant(), Some(0));
    assert!(found.variant_named("Ignored").is_none());
}

#[test]
fn variant_member_with_unexpected_attribute_is_read() {
    let mut dies = color();
    dies[7] = die(1, DW_TAG_MEMBER, 0x54, vec![name("Red"), kind(0x80), number(DW_AT_BYTE_SIZE, 1)]);
    let unit = build(dies).unwrap();
    let found = unit.enumeration_from_item(item(0x40)).unwrap();
    let red = found.variant_named("Red").unwrap();
    assert_eq!(red.discriminant(), Some(0));
    assert_eq!(red.kind(), item(0x80));
}

#[test]
fn variants_without_structure() {
    let unit = build(vec![
        root(),
        die(1, DW_TAG_STRUCTURE_TYPE, 0x40, vec![name("Nameless")]),
        die(1, DW_TAG_VARIANT_PART, 0x48, vec![]),
        die(1, DW_TAG_VARIANT, 0x50, vec![number(DW_AT_DISCR_VALUE, 0)]),
    ])
    .unwrap();
    assert!(unit.all_symbols().is_empty());
    let mut dies = color();
    dies.push(die(0, DW_TAG_STRUCTURE_TYPE, 0xb0, vec![name("Nameless")]));
    dies.push(die(1, DW_TAG_VARIANT_PART, 0xb8, vec![]));
    let twice = vec![
        root(),
        die(1, DW_TAG_STRUCTURE_TYPE, 0x40, vec![name("First"), number(DW_AT_BYTE_SIZE, 1)]),
        die(0, DW_TAG_STRUCTURE_TYPE, 0x50, vec![name("Second"), number(DW_AT_BYTE_SIZE, 1)]),
        die(1, DW_TAG_VARIANT_PART, 0x58, vec![]),
        die(-1, DW_TAG_STRUCTURE_TYPE, 0x60, vec![name("Nameless")]),
        die(1, DW_TAG_VARIANT_PART, 0x68, vec![]),
    ];
    assert_eq!(build(twice).err(), Some(BuildError::VariantPartWithoutStructure));
    let unit = build(dies).unwrap();
    assert_eq!(unit.enumeration_from_item(item(0xa0)).unwrap().name(), "Other");
    assert!(unit.structure_from_item(item(0xa0)).is_none());
}

#[test]
fn union_with_members() {
    let unit = build(vec![
        root(),
        base_u32(1),
        die(0, DW_TAG_UNION_TYPE, 0x40, vec![name("Either"), number(DW_AT_BYTE_SIZE, 4)]),
        die(1, DW_TAG_MEMBER, 0x48, vec![name("a"), kind(0x20)]),
        die(0, DW_TAG_MEMBER, 0x50, vec![name("b"), kind(0x20)]),
    ])
    .unwrap();
    let found = unit.union_from_item(item(0x40)).unwrap();
    assert_eq!(found.name(), "Either");
    assert_eq!(found.size(), 4);
    assert_eq!(found.members().len(), 2);
    assert_eq!(found.member_named("b").unwrap().kind(), item(0x20));
    assert_eq!(unit.size_from_item(item(0x40)), Some(StructOffset(4)));
    assert_eq!(unit.find_union("", "Either").unwrap().size(), 4);
}

#[test]
fn array_takes_its_bounds_from_the_subrange() {
    let unit = build(vec![
        root(),
        base_u32(1),
        die(0, DW_TAG_ARRAY_TYPE, 0x40, vec![kind(0x20)]),
        die(1, DW_TAG_SUBRANGE_TYPE, 0x48, vec![kind(0x20), number(DW_AT_LOWER_BOUND, 0), number(DW_AT_COUNT, 16)]),
    ])
    .unwrap();
    let found = unit.array_from_item(item(0x40)).unwrap();
    assert_eq!(found.kind(), item(0x20));
    assert_eq!(found.count(), 16);
    assert_eq!(found.lower_bound(), 0);
    assert_eq!(unit.size_from_item(item(0x40)), None);
    assert_eq!(unit.name_from_kind(item(0x40)), None);
    assert_eq!(unit.all_symbols(), vec![item(0x40), item(0x20)]);
}

#[test]
fn subrange_without_bounds_is_skipped() {
    let unit = build(vec![
        root(),
        base_u32(1),
        die(0, DW_TAG_ARRAY_TYPE, 0x40, vec![kind(0x20)]),
        die(1, DW_TAG_SUBRANGE_TYPE, 0x48, vec![number(DW_AT_COUNT, 16)]),
    ])
    .unwrap();
    assert!(unit.array_from_item(item(0x40)).is_none());
}

#[test]
fn second_subrange_is_an_error() {
    let result = build(vec![
        root(),
        base_u32(1),
        die(0, DW_TAG_ARRAY_TYPE, 0x40, vec![kind(0x20)]),
        die(1, DW_TAG_SUBRANGE_TYPE, 0x48, vec![number(DW_AT_LOWER_BOUND, 0), number(DW_AT_COUNT, 2)]),
        die(0, DW_TAG_SUBRANGE_TYPE, 0x50, vec![number(DW_AT_LOWER_BOUND, 0), number(DW_AT_COUNT, 3)]),
    ]);
    assert_eq!(result.err(), Some(BuildError::SubrangeWithoutArray));
}

#[test]
fn pointer_is_registered() {
    let unit = build(vec![
        root(),
        base_u32(1),
        die(0, DW_TAG_POINTER_TYPE, 0x40, vec![kind(0x20), name("*const u32")]),
        die(0, DW_TAG_POINTER_TYPE, 0x48, vec![kind(0x20)]),
        die(0, DW_TAG_POINTER_TYPE, 0x50, vec![name("*const ()")]),
    ])
    .unwrap();
    let found = unit.pointer_from_item(item(0x40)).unwrap();
    assert_eq!(found.name(), Some("*const u32"));
    assert_eq!(found.kind(), item(0x20));
    assert_eq!(unit.pointer_from_item(item(0x48)).unwrap().name(), None);
    assert!(unit.pointer_from_item(item(0x50)).is_none());
    assert_eq!(unit.size_from_item(item(0x40)), None);
    assert_eq!(unit.name_from_kind(item(0x40)), Some("*const u32"));
    assert_eq!(unit.name_from_kind(item(0x48)), None);
}

#[test]
fn pointer_with_unexpected_attribute_is_kept() {
    let unit = build(vec![
        root(),
        die(1, DW_TAG_POINTER_TYPE, 0x40, vec![kind(0x20), number(DW_AT_BYTE_SIZE, 4)]),
    ])
    .unwrap();
    assert_eq!(unit.pointer_from_item(item(0x40)).unwrap().kind(), item(0x20));
}

fn file_index(index: u64, file: Option<FileEntry>) -> Attribute {
    Attribute { name: DW_AT_DECL_FILE, value: AttributeValue::FileIndex(index, file), udata: Some(index) }
}

fn variable(offset: u64, attributes: Vec<Attribute>) -> Die {
    die(0, DW_TAG_VARIABLE, offset, attributes)
}

#[test]
fn variable_is_registered_under_its_names() {
    let unit = build(vec![
        root(),
        base_u32(1),
        die(0, DW_TAG_NAMESPACE, 0x30, vec![name("foo")]),
        die(1, DW_TAG_VARIABLE, 0x40, vec![
            name("X"),
            kind(0x20),
            address(0x2000),
            linkage_name("_ZN3bar1Y17h0123456789abcdefE"),
            number(DW_AT_DECL_LINE, 12),
            file_index(1, Some(FileEntry {
                directory: Some(Some(String::from("src"))),
                directory_index: 1,
                path_name: Some(String::from("lib.rs")),
            })),
        ]),
    ])
    .unwrap();
    let found = unit.variable_from_item(item(0x40)).unwrap();
    assert_eq!(found.name(), "foo::X");
    assert_eq!(found.kind(), item(0x20));
    assert_eq!(found.location(), MemoryLocation(0x2000));
    assert_eq!(found.line(), Some(12));
    assert_eq!(found.file(), Some("/work/src/lib.rs"));
    assert_eq!(unit.variable_from_name("foo::X").unwrap().kind(), item(0x20));
    assert_eq!(unit.variable_from_name("_ZN3bar1Y17h0123456789abcdefE").unwrap().name(), "foo::X");
    assert_eq!(unit.variable_from_demangled_name("bar::Y").unwrap().name(), "foo::X");
    assert_eq!(unit.variable_from_demangled_name("foo::X").unwrap().name(), "foo::X");
    assert!(unit.variable_from_demangled_name("_ZN3bar1Y17h0123456789abcdefE").is_none());
    assert!(unit.variable_from_name("bar::Y").is_none());
    assert_eq!(unit.find_variable(&|v: &&tasru::unit_info::Variable| v.line() == Some(12)).unwrap().name(), "foo::X");
    assert!(unit.find_variable(&|v: &&tasru::unit_info::Variable| v.line() == Some(13)).is_none());
    assert_eq!(unit.size_from_item(item(0x40)), None);
    assert_eq!(unit.name_from_kind(item(0x40)), None);
}

#[test]
fn variable_without_linkage_name_is_found_by_item_only() {
    let unit = build(vec![root(), base_u32(1), variable(0x40, vec![name("X"), kind(0x20), address(0x2000)])]).unwrap();
    assert_eq!(unit.variable_from_item(item(0x40)).unwrap().name(), "::X");
    assert!(unit.variable_from_name("::X").is_none());
    assert!(unit.variable_from_demangled_name("::X").is_none());
}

#[test]
fn variable_without_address_is_dropped() {
    let unit = build(vec![
        root(),
        base_u32(1),
        variable(0x40, vec![name("A"), kind(0x20), linkage_name("A")]),
        variable(0x48, vec![name("B"), kind(0x20), linkage_name("B"), Attribute {
            name: DW_AT_LOCATION,
            value: AttributeValue::LocationListsRef,
            udata: None,
        }]),
        variable(0x50, vec![name("C"), kind(0x20), linkage_name("C"), Attribute {
            name: DW_AT_LOCATION,
            value: AttributeValue::Exprloc(None),
            udata: None,
        }]),
        variable(0x58, vec![name("D"), kind(0x20), linkage_name("D"), address(0)]),
        variable(0x60, vec![name("E"), kind(0x20), linkage_name("E"), address(0xffff_ffff)]),
        variable(0x68, vec![name("F"), linkage_name("F"), address(0x2000)]),
        variable(0x70, vec![kind(0x20), linkage_name("G"), address(0x2000)]),
        variable(0x78, vec![name("H"), kind(0x20), linkage_name("H"), Attribute {
            name: DW_AT_LOCATION,
            value: AttributeValue::Exprloc(Some(vec![PieceLocation::Empty])),
            udata: None,
        }]),
        variable(0x80, vec![name("I"), kind(0x20), linkage_name("I"), Attribute {
            name: DW_AT_LOCATION,
            value: AttributeValue::Exprloc(Some(vec![PieceLocation::Address(1), PieceLocation::Address(2)])),
            udata: None,
        }]),
    ])
    .unwrap();
    assert_eq!(unit.all_symbols(), vec![item(0x20)]);
    assert!(unit.variable_from_name("A").is_none());
    assert!(unit.variable_from_name("D").is_none());
}

#[test]
fn variable_at_a_constant_offset() {
    let unit = build(vec![
        root(),
        base_u32(1),
        variable(0x40, vec![name("X"), kind(0x20), linkage_name("X"), number(DW_AT_LOCATION, 0x44)]),
    ])
    .unwrap();
    assert_eq!(unit.variable_from_name("X").unwrap().location(), MemoryLocation(0x44));
}

#[test]
fn duplicate_linkage_name_is_an_error() {
    let result = build(vec![
        root(),
        base_u32(1),
        variable(0x40, vec![name("X"), kind(0x20), linkage_name("same"), address(0x2000)]),
        variable(0x48, vec![name("Y"), kind(0x20), linkage_name("same"), address(0x2004)]),
    ]);
    assert_eq!(result.err(), Some(BuildError::DuplicateName(item(0x48))));
}

#[test]
fn duplicate_qualified_name_is_an_error() {
    let result = build(vec![
        root(),
        base_u32(1),
        variable(0x40, vec![name("X"), kind(0x20), linkage_name("one"), address(0x2000)]),
        variable(0x48, vec![name("X"), kind(0x20), linkage_name("two"), address(0x2004)]),
    ]);
    assert_eq!(result.err(), Some(BuildError::DuplicateName(item(0x48))));
}

#[test]
fn duplicate_demangled_name_is_an_error() {
    let result = build(vec![
        root(),
        base_u32(1),
        variable(0x40, vec![name("X"), kind(0x20), linkage_name("_ZN3bar1Y17h0123456789abcdefE"), address(0x2000)]),
        variable(0x48, vec![name("Z"), kind(0x20), linkage_name("_ZN3bar1Y17hfedcba9876543210E"), address(0x2004)]),
    ]);
    assert_eq!(result.err(), Some(BuildError::DuplicateDemangledName(item(0x48))));
}

#[test]
fn variable_with_unreadable_type_is_dropped() {
    let unit =
        build(vec![root(), variable(0x40, vec![name("X"), number(DW_AT_TYPE, 1), address(0x2000)])])
            .unwrap();
    assert!(unit.variable_from_item(item(0x40)).is_none());
    assert!(unit.all_symbols().is_empty());
}

#[test]
fn duplicate_item_is_an_error() {
    let result = build(vec![root(), base_u32(1), base_u32(0)]);
    assert_eq!(result.err(), Some(BuildError::DuplicateItem(item(0x20))));
    let across_kinds = build(vec![
        root(),
        base_u32(1),
        die(0, DW_TAG_STRUCTURE_TYPE, 0x20, vec![name("S"), number(DW_AT_BYTE_SIZE, 4)]),
    ]);
    assert_eq!(across_kinds.err(), Some(BuildError::DuplicateItem(item(0x20))));
}

#[test]
fn entry_above_the_root_is_an_error() {
    assert_eq!(build(vec![root(), base_u32(-1)]).err(), Some(BuildError::DepthUnderflow));
    assert_eq!(build(vec![root(), base_u32(-1)]).err(), Some(BuildError::DepthUnderflow));
    assert_eq!(build(vec![root(), base_u32(2)]).err(), Some(BuildError::DepthOverflow));
    assert_eq!(build(vec![die(isize::MAX, DW_TAG_COMPILE_UNIT, 0, vec![])]).err(), Some(BuildError::DepthOverflow));
    assert_eq!(build(vec![die(isize::MIN, DW_TAG_COMPILE_UNIT, 0, vec![])]).err(), Some(BuildError::DepthUnderflow));
    assert!(build(vec![die(1, DW_TAG_COMPILE_UNIT, 0, vec![]), base_u32(1), base_u32(-2)]).is_err());
}

#[test]
fn unit_outside_the_debug_section_registers_nothing() {
    let outside = UnitHeader { version: 4, unit_start: None, comp_dir: None };
    let unit = UnitInfo::new(&outside, &vec![root(), base_u32(1)]).unwrap();
    assert!(unit.all_symbols().is_empty());
}

#[test]
fn namespace_ends_with_its_entries() {
    let unit = build(vec![
        root(),
        die(1, DW_TAG_NAMESPACE, 0x30, vec![name("foo")]),
        die(1, DW_TAG_STRUCTURE_TYPE, 0x40, vec![name("A"), number(DW_AT_BYTE_SIZE, 1)]),
        die(-1, DW_TAG_NAMESPACE, 0x50, vec![name("bar")]),
        die(1, DW_TAG_STRUCTURE_TYPE, 0x60, vec![name("B"), number(DW_AT_BYTE_SIZE, 1)]),
        die(-1, DW_TAG_STRUCTURE_TYPE, 0x70, vec![name("C"), number(DW_AT_BYTE_SIZE, 1)]),
    ])
    .unwrap();
    assert_eq!(unit.structure_from_item(item(0x40)).unwrap().namespace(), "foo");
    assert_eq!(unit.structure_from_item(item(0x60)).unwrap().namespace(), "bar");
    assert_eq!(unit.structure_from_item(item(0x70)).unwrap().namespace(), "");
}

#[test]
fn builder_takes_entries_one_by_one() {
    let mut builder = UnitBuilder::new(header());
    builder.step(&root()).unwrap();
    builder.step(&base_u32(1)).unwrap();
    let unit = builder.finish();
    assert_eq!(unit.all_symbols(), vec![item(0x20)]);
}

#[test]
fn file_names() {
    let at = |version: u16, index: u64, file: Option<FileEntry>| {
        let header = UnitHeader { version, unit_start: Some(0x100), comp_dir: Some(String::from("/work")) };
        let dies = vec![
            root(),
            base_u32(1),
            variable(0x40, vec![name("X"), kind(0x20), address(0x2000), file_index(index, file)]),
        ];
        let unit = UnitInfo::new(&header, &dies).unwrap();
        unit.variable_from_item(item(0x40)).unwrap().file().map(String::from)
    };
    let entry = |directory: Option<Option<&str>>, directory_index: u64, path_name: Option<&str>| FileEntry {
        directory: directory.map(|d| d.map(String::from)),
        directory_index,
        path_name: path_name.map(String::from),
    };
    assert_eq!(at(4, 1, Some(entry(Some(Some("src")), 1, Some("a.rs")))), Some(String::from("/work/src/a.rs")));
    assert_eq!(at(4, 1, Some(entry(Some(Some("/abs")), 1, Some("a.rs")))), Some(String::from("/abs/a.rs")));
    assert_eq!(at(4, 1, Some(entry(Some(Some("src")), 0, Some("a.rs")))), Some(String::from("src/a.rs")));
    assert_eq!(at(4, 1, Some(entry(None, 0, Some("a.rs")))), Some(String::from("a.rs")));
    assert_eq!(at(4, 1, Some(entry(Some(None), 1, Some("a.rs")))), None);
    assert_eq!(at(4, 1, Some(entry(Some(Some("src")), 1, None))), None);
    assert_eq!(at(4, 1, None), None);
    assert_eq!(at(4, 0, Some(entry(Some(Some("src")), 1, Some("a.rs")))), None);
    assert_eq!(at(5, 0, Some(entry(Some(Some("src")), 1, Some("a.rs")))), Some(String::from("/work/src/a.rs")));
}

#[test]
fn registry_refuses_items_of_two_units() {
    let first = UnitEntries { header: header(), dies: vec![root(), base_u32(1)] };
    let second = UnitEntries { header: header(), dies: vec![root(), base_u32(1)] };
    assert_eq!(DebugInfo::load(&vec![first, second]).err(), Some(BuildError::DuplicateItem(item(0x20))));
}

#[test]
fn registry_reports_the_first_unit_that_fails() {
    let good = UnitEntries { header: header(), dies: vec![root(), base_u32(1)] };
    let bad = UnitEntries { header: header(), dies: vec![root(), base_u32(-1)] };
    assert_eq!(DebugInfo::load(&vec![good, bad]).err(), Some(BuildError::DepthUnderflow));
}

#[test]
fn registry_finds_items_in_their_units() {
    let first = UnitEntries { header: header(), dies: vec![root(), base_u32(1)] };
    let other = UnitHeader { version: 4, unit_start: Some(0x1000), comp_dir: None };
    let second = UnitEntries {
        header: other,
        dies: vec![
            root(),
            die(1, DW_TAG_STRUCTURE_TYPE, 0x40, vec![name("S"), number(DW_AT_BYTE_SIZE, 4)]),
            variable(0x50, vec![name("V"), Attribute { name: DW_AT_TYPE, value: AttributeValue::DebugInfoRef(0x120), udata: None }, address(0x2000), linkage_name("v")]),
        ],
    };
    let info = DebugInfo::load(&vec![first, second]).unwrap();
    let s = DebugItem::from_debug_info_offset(0x1040);
    assert_eq!(info.structure_from_item(s).unwrap().name(), "S");
    assert_eq!(info.size_from_item(s), Some(StructOffset(4)));
    assert_eq!(info.base_type_from_item(item(0x20)).unwrap().name(), "u32");
    assert!(info.lookup_unit(DebugItem::from_debug_info_offset(0x999)).is_none());
    let v = info.variable_from_name("v").unwrap();
    assert_eq!(v.kind(), item(0x20));
    assert_eq!(info.variable_from_item(DebugItem::from_debug_info_offset(0x1050)).unwrap().name(), "::V");
    let units = vec![
        UnitInfo::new(&header(), &vec![root(), base_u32(1)]).unwrap(),
        UnitInfo::new(&header(), &vec![root()]).unwrap(),
    ];
    assert!(DebugInfo::from_units(units).is_ok());
}

#[test]
fn items_from_offsets() {
    assert_eq!(DebugItem::from_unit_offset(0x20, Some(0x100)), Some(DebugItem::from_debug_info_offset(0x120)));
    assert_eq!(DebugItem::from_unit_offset(0x20, None), None);
    assert_eq!(DebugItem::from_unit_offset(1, Some(u64::MAX)), None);
    assert_eq!(DebugItem::from_unit_offset(0, Some(u64::MAX)), Some(DebugItem::from_debug_info_offset(u64::MAX)));
}

#[test]
fn locations_and_offsets_add_up() {
    assert_eq!(MemoryLocation(0x2000) + StructOffset::new(4), MemoryLocation(0x2004));
    assert_eq!(StructOffset(3) + StructOffset(4), StructOffset(7));
    assert_eq!(StructOffset(3) * StructOffset(4), StructOffset(12));
    assert_eq!(MemoryLocation(3) * StructOffset(4), MemoryLocation(12));
    assert_eq!(MemoryLocation(u64::MAX) + StructOffset(2), MemoryLocation(1));
    assert_eq!(StructOffset(1 << 63) * StructOffset(2), StructOffset(0));
    let mut moving = MemoryLocation(0x2000);
    moving += StructOffset(0x10);
    assert_eq!(moving, MemoryLocation(0x2010));
    assert_eq!(MemoryLocation(0x2000).to_string(), "<00002000>");
    assert_eq!(StructOffset(0x1_2345_6789).to_string(), "<123456789>");
}
