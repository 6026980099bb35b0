//! Strings, names and messages.
use tasru::debug_types::DebugTypeError;
use tasru::demangle::demangle;
use tasru::extract::{
    evaluate_expression, ExpressionResult, ExtractError, PieceLocation, VariableLocation,
};
use tasru::split_namespace_and_name;
use tasru::text::{join, opt_str_eq, spaces, str_eq, u64_to_decimal, u64_to_hex};
use tasru::unit_info::DebugItem;
use tasru::walk::BuildError;
use tasru::DebugInfoError;

#[test]
fn strings_compare_by_content() {
    assert!(str_eq("", ""));
    assert!(str_eq("abc", "abc"));
    assert!(!str_eq("abc", "abd"));
    assert!(!str_eq("abc", "ab"));
    assert!(str_eq("h\u{e9}llo", "h\u{e9}llo"));
    assert!(!str_eq("h\u{e9}llo", "hello"));
    assert!(opt_str_eq(&Some(String::from("x")), "x"));
    assert!(!opt_str_eq(&Some(String::from("x")), "y"));
    assert!(!opt_str_eq(&None, ""));
}

#[test]
fn parts_are_joined() {
    assert_eq!(join(&vec![], "::"), "");
    assert_eq!(join(&vec![String::from("foo")], "::"), "foo");
    assert_eq!(join(&vec![String::from("foo"), String::from("bar"), String::from("baz")], "::"), "foo::bar::baz");
    assert_eq!(join(&vec![String::new(), String::new()], "/"), "/");
}

#[test]
fn numbers_in_decimal() {
    assert_eq!(u64_to_decimal(0), "0");
    assert_eq!(u64_to_decimal(7), "7");
    assert_eq!(u64_to_decimal(10), "10");
    assert_eq!(u64_to_decimal(1234567890), "1234567890");
    assert_eq!(u64_to_decimal(u64::MAX), "18446744073709551615");
}

#[test]
fn numbers_in_hexadecimal() {
    assert_eq!(u64_to_hex(0, 0, false), "0");
    assert_eq!(u64_to_hex(0, 1, false), "0");
    assert_eq!(u64_to_hex(0, 8, false), "00000000");
    assert_eq!(u64_to_hex(0x2a, 8, false), "0000002a");
    assert_eq!(u64_to_hex(0xdeadbeef, 8, true), "DEADBEEF");
    assert_eq!(u64_to_hex(0xdeadbeef, 2, false), "deadbeef");
    assert_eq!(u64_to_hex(0x1_0000_0000, 8, true), "100000000");
    assert_eq!(u64_to_hex(u64::MAX, 3, true), "FFFFFFFFFFFFFFFF");
}

#[test]
fn names_are_demangled() {
    assert_eq!(demangle("_ZN3foo6ORIGIN17h0123456789abcdefE"), "foo::ORIGIN");
    assert_eq!(demangle("_ZN3foo3barE"), "foo::bar");
    assert_eq!(demangle("plain"), "plain");
    assert_eq!(demangle(""), "");
}

#[test]
fn split_at_the_last_separator() {
    assert_eq!(split_namespace_and_name("foo::Bar::Point"), ("foo::Bar", "Point"));
    assert_eq!(split_namespace_and_name("foo::Point"), ("foo", "Point"));
    assert_eq!(split_namespace_and_name("_x::y"), ("_x", "y"));
}

#[test]
fn split_without_namespace() {
    assert_eq!(split_namespace_and_name("Point"), ("", "Point"));
    assert_eq!(split_namespace_and_name(""), ("", ""));
    assert_eq!(split_namespace_and_name("&foo::Point"), ("", "&foo::Point"));
    assert_eq!(split_namespace_and_name("*const foo::Point"), ("", "*const foo::Point"));
    assert_eq!(split_namespace_and_name("::foo"), ("", "::foo"));
    assert_eq!(split_namespace_and_name("dyn foo::Trait"), ("", "dyn foo::Trait"));
    assert_eq!(split_namespace_and_name("(u8, foo::Bar)"), ("", "(u8, foo::Bar)"));
    assert_eq!(split_namespace_and_name("9lives::x"), ("", "9lives::x"));
    assert_eq!(split_namespace_and_name("a:b"), ("", "a:b"));
}

#[test]
fn split_honours_generic_arguments() {
    assert_eq!(
        split_namespace_and_name("core::option::Option<foo::Bar>"),
        ("core::option", "Option<foo::Bar>")
    );
    assert_eq!(split_namespace_and_name("Option<foo::Bar>"), ("", "Option<foo::Bar>"));
    assert_eq!(split_namespace_and_name("a::b<c::d<e::f>>::g"), ("a", "b<c::d<e::f>>::g"));
    assert_eq!(split_namespace_and_name("dynamic::Thing"), ("dynamic", "Thing"));
    assert_eq!(split_namespace_and_name("a::b::"), ("a::b", ""));
    assert_eq!(split_namespace_and_name("a:::b"), ("a:", "b"));
    assert_eq!(split_namespace_and_name("\u{e9}t\u{e9}::x"), ("", "\u{e9}t\u{e9}::x"));
    assert_eq!(split_namespace_and_name("x\u{e9}::y\u{e9}"), ("x\u{e9}", "y\u{e9}"));
}

#[test]
fn split_and_join_give_the_name_back() {
    for name in ["foo::Bar::Point", "a::b<c::d>", "x\u{e9}::y", "a::b::", "Point", "&a::b", ""] {
        let (namespace, rest) = split_namespace_and_name(name);
        if namespace.is_empty() {
            assert_eq!(rest, name);
        } else {
            assert_eq!(format!("{}::{}", namespace, rest), name);
        }
    }
}

#[test]
fn error_messages() {
    let owner = || String::from("Owner");
    let cases: Vec<(DebugTypeError, &str)> = vec![
        (DebugTypeError::MultipleMatches, "Multiple items matched the specified string"),
        (
            DebugTypeError::MemberNotFound { owner: owner(), member: String::from("m") },
            "Member \"m\" not found in struct \"Owner\"",
        ),
        (DebugTypeError::GenericNotFound { owner: owner() }, "Generic not found in struct \"Owner\""),
        (DebugTypeError::StructureNotFound { owner: owner() }, "Structure for \"Owner\" could not be found"),
        (DebugTypeError::BaseTypeNotFound { owner: owner() }, "Base type \"Owner\" could not be found"),
        (DebugTypeError::UnionNotFound { owner: owner() }, "Union \"Owner\" could not be found"),
        (
            DebugTypeError::VariantNotFound { owner: owner(), variant: String::from("v") },
            "Variant \"v\" could not be found in enum \"Owner\"",
        ),
        (DebugTypeError::EnumerationNotFound { owner: owner() }, "Enumeration for \"Owner\" could not be found"),
        (DebugTypeError::ArrayNotFound(owner()), "Array could not be found for item \"Owner\""),
        (
            DebugTypeError::KindNotFound { owner: owner(), member: Some(String::from("m")) },
            "Type for element \"m\" in struct \"Owner\" could not be found",
        ),
        (
            DebugTypeError::KindNotFound { owner: owner(), member: None },
            "Type for anonymous member of struct \"Owner\" could not be found",
        ),
        (
            DebugTypeError::KindIncorrect {
                owner: owner(),
                member: Some(String::from("m")),
                attempted: String::from("array"),
                actual: String::from("pointer"),
            },
            "Type for element \"m\" in struct \"Owner\" is \"pointer\", not \"array\"",
        ),
        (
            DebugTypeError::KindIncorrect {
                owner: owner(),
                member: None,
                attempted: String::from("array"),
                actual: String::from("pointer"),
            },
            "Type for element \"Owner\" \"pointer\", not \"array\"",
        ),
        (DebugTypeError::NotRustSlice(owner()), "Type \"Owner\" is not a Rust slice"),
        (DebugTypeError::ReadError, "An error occurred when reading memory from the target"),
        (DebugTypeError::SizeError(3), "Size \"3\" is not valid"),
        (DebugTypeError::LocationMissing, "There was no location data available"),
        (DebugTypeError::VariableNotFound(owner()), "Variable \"Owner\" could not be found"),
    ];
    for (error, message) in cases {
        assert_eq!(error.to_string(), message);
    }
}

fn location(pieces: Vec<PieceLocation>) -> VariableLocation {
    match evaluate_expression(&pieces) {
        Ok(ExpressionResult::Location(location)) => location,
        other => panic!("unexpected result: {:?}", other),
    }
}

#[test]
fn expression_results() {
    assert_eq!(location(vec![PieceLocation::Address(0x2000)]), VariableLocation::Address(0x2000));
    assert_eq!(location(vec![PieceLocation::Address(0xffff_fffe)]), VariableLocation::Address(0xffff_fffe));
    assert_eq!(location(vec![PieceLocation::Empty]), VariableLocation::Unavailable);
    assert_eq!(
        location(vec![]),
        VariableLocation::Error(String::from("Error: expr_to_piece() returned 0 results"))
    );
    assert_eq!(
        location(vec![PieceLocation::Empty, PieceLocation::Empty]),
        VariableLocation::Error(String::from("<unsupported memory implementation>"))
    );
    assert_eq!(
        location(vec![PieceLocation::Address(0)]),
        VariableLocation::Error(String::from(
            "The value of this variable may have been optimized out of the debug info, by the compiler."
        ))
    );
    assert_eq!(
        location(vec![PieceLocation::Address(0xffff_ffff)]),
        VariableLocation::Error(String::from(
            "The memory location for this variable value (0xFFFFFFFF) is invalid. Please report this as a bug."
        ))
    );
    assert_eq!(
        location(vec![PieceLocation::Address(0x1_2345_6789)]),
        VariableLocation::Error(String::from(
            "The memory location for this variable value (0x123456789) is invalid. Please report this as a bug."
        ))
    );
    assert_eq!(
        location(vec![PieceLocation::Other(String::from("Register { register: Register(3) }"))]),
        VariableLocation::Error(String::from(
            "Unimplemented: extract_location() found a location type: Register { register: Register(3) }"
        ))
    );
    let long = "x".repeat(150);
    assert_eq!(
        location(vec![PieceLocation::Other(long)]),
        VariableLocation::Error(format!(
            "Unimplemented: extract_location() found a location type: {}",
            "x".repeat(100)
        ))
    );
    assert!(matches!(
        evaluate_expression(&vec![PieceLocation::Value(Ok(42))]),
        Ok(ExpressionResult::Value(42))
    ));
    assert!(matches!(
        evaluate_expression(&vec![PieceLocation::Value(Err(gimli::Error::IntegralTypeRequired))]),
        Err(ExtractError::GimliError(gimli::Error::IntegralTypeRequired))
    ));
}

#[test]
fn variable_locations() {
    assert_eq!(VariableLocation::default(), VariableLocation::Unknown);
    assert_eq!(VariableLocation::Address(0x2a).memory_address().unwrap(), 0x2a);
    assert!(VariableLocation::Address(1).valid());
    assert!(VariableLocation::Value.valid());
    assert!(VariableLocation::Unknown.valid());
    assert!(!VariableLocation::Unavailable.valid());
    assert!(!VariableLocation::Error(String::new()).valid());
    assert!(!VariableLocation::Unsupported(String::new()).valid());
    let message = |location: VariableLocation| match location.memory_address() {
        Err(ExtractError::WarnAndContinue { message }) => message,
        other => panic!("unexpected result: {:?}", other),
    };
    assert_eq!(message(VariableLocation::Unknown), "Variable does not have a memory location: location=Unknown");
    assert_eq!(message(VariableLocation::Unavailable), "Variable does not have a memory location: location=Unavailable");
    assert_eq!(message(VariableLocation::Value), "Variable does not have a memory location: location=Value");
    assert_eq!(
        message(VariableLocation::Error(String::from("a \"b\"\n"))),
        "Variable does not have a memory location: location=Error(\"a \\\"b\\\"\\n\")"
    );
    assert_eq!(
        message(VariableLocation::Unsupported(String::from("why"))),
        "Variable does not have a memory location: location=Unsupported(\"why\")"
    );
    assert_eq!(VariableLocation::Unknown.to_string(), "<unknown value>");
    assert_eq!(VariableLocation::Unavailable.to_string(), "<value not available>");
    assert_eq!(VariableLocation::Address(0x2000).to_string(), "0x00002000");
    assert_eq!(VariableLocation::Address(0xABCDEF0123).to_string(), "0xABCDEF0123");
    assert_eq!(VariableLocation::Value.to_string(), "<not applicable - statically stored value>");
    assert_eq!(VariableLocation::Error(String::from("broken")).to_string(), "broken");
    assert_eq!(VariableLocation::Unsupported(String::from("later")).to_string(), "later");
}

#[test]
fn padding_with_spaces() {
    let mut buffer = String::new();
    assert_eq!(spaces(&mut buffer, 3), "   ");
    assert_eq!(buffer, "   ");
    assert_eq!(spaces(&mut buffer, 1), " ");
    assert_eq!(buffer, "   ");
    assert_eq!(spaces(&mut buffer, 0), "");
    let mut word = String::from("ab");
    assert_eq!(spaces(&mut word, 4), "ab  ");
    assert_eq!(spaces(&mut word, 1), "a");
}

#[test]
fn build_error_messages() {
    let id = DebugItem::from_debug_info_offset(0x120);
    let cases = [
        (BuildError::DuplicateItem(id), "Item <00000120> is registered twice"),
        (BuildError::DuplicateName(id), "A name of the variable at <00000120> is taken already"),
        (
            BuildError::DuplicateDemangledName(id),
            "A demangled name of the variable at <00000120> is taken already",
        ),
        (BuildError::SubrangeWithoutArray, "A subrange has no array type that waits for it"),
        (BuildError::VariantPartWithoutStructure, "A variant part has no structure that holds it"),
        (BuildError::DepthUnderflow, "An entry lies above the root of the tree"),
        (BuildError::DepthOverflow, "An entry lies too deep in the tree"),
    ];
    for (error, message) in cases {
        assert_eq!(error.to_string(), message);
    }
}

#[test]
fn file_error_messages() {
    let missing = DebugInfoError::VariableNotFound(String::from("foo::X"));
    assert_eq!(missing.to_string(), "Variable foo::X not found");
    let build = DebugInfoError::from(BuildError::DepthUnderflow);
    assert_eq!(build.to_string(), "Build Error: An entry lies above the root of the tree");
    let gimli = DebugInfoError::from(gimli::Error::BadUtf8);
    assert_eq!(gimli.to_string(), format!("Gimli Error: {}", gimli::Error::BadUtf8));
    let io = DebugInfoError::from(std::io::Error::new(std::io::ErrorKind::NotFound, "gone"));
    assert_eq!(io.to_string(), "IO Error: gone");
    let object = match tasru::DebugInfo::new(&[0x7f, b'E', b'L', b'F']) {
        Err(error) => error,
        Ok(_) => panic!("four bytes are no object file"),
    };
    assert!(matches!(object, DebugInfoError::ObjectError(_)));
    assert!(object.to_string().starts_with("Object Error: "));
    assert!(object.to_string().len() > "Object Error: ".len());
    assert!(matches!(ExtractError::from(gimli::Error::BadUtf8), ExtractError::GimliError(gimli::Error::BadUtf8)));
}
