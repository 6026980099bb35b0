//! Reading the debugging entries of an object file.
//!
//! The sections of the file are parsed by `object` and `gimli`. Their values
//! are kept behind opaque handles, and every call into them stands in a small
//! function of its own whose contract is believed, not proved. The walks over
//! units, entries and attributes are verified; they hand the builder plain
//! values, with every string, file name and location expression resolved.
use crate::dwarf::{
    Attribute, AttributeValue, Die, FileEntry, UnitEntries, UnitHeader, DW_TAG_ARRAY_TYPE,
    DW_TAG_BASE_TYPE, DW_TAG_MEMBER, DW_TAG_NAMESPACE, DW_TAG_POINTER_TYPE,
    DW_TAG_STRUCTURE_TYPE, DW_TAG_SUBRANGE_TYPE, DW_TAG_UNION_TYPE, DW_TAG_VARIABLE,
    DW_TAG_VARIANT,
};
use crate::extract::{ExtractError, ExtractErrorView, PieceLocation};
use object::{Object, ObjectSection};
use vstd::prelude::*;
use vstd::string::*;

verus! {

/// `object::Error`, the error of the object file parser, as an opaque value.
#[verifier::external_type_specification]
#[verifier::external_body]
pub struct ExObjectError(object::Error);

/// A parsed object file. It borrows the bytes that it was parsed from.
#[verifier::external_body]
pub struct ObjectFile<'a> {
    file: object::File<'a>,
}

/// What parsing bytes as an object file gives: the file, or the error of
/// the parser.
pub uninterp spec fn parsed_object(data: &[u8]) -> Result<ObjectFile<'_>, object::Error>;

/// Parses an object file (`object::File::parse`). The result is what
/// [`parsed_object`] names.
#[verifier::external_body]
pub(crate) fn parse_object<'a>(data: &'a [u8]) -> (r: Result<ObjectFile<'a>, object::Error>)
    ensures
        r == parsed_object(data),
{
    match object::File::parse(data) {
        Ok(file) => Ok(ObjectFile { file }),
        Err(e) => Err(e),
    }
}

/// `gimli::RunTimeEndian`, a byte order that is known when the file is read, as
/// an opaque value.
#[verifier::external_type_specification]
#[verifier::external_body]
pub struct ExRunTimeEndian(gimli::RunTimeEndian);

/// The byte order of an object file.
pub uninterp spec fn object_byte_order(object: ObjectFile<'_>) -> gimli::RunTimeEndian;

/// The byte order of the file (`object::Object::endianness`), as `gimli`
/// names it. The result is what [`object_byte_order`] names.
#[verifier::external_body]
pub(crate) fn byte_order(object: &ObjectFile<'_>) -> (r: gimli::RunTimeEndian)
    ensures
        r == object_byte_order(*object),
{
    match object.file.endianness() {
        object::Endianness::Little => gimli::RunTimeEndian::Little,
        object::Endianness::Big => gimli::RunTimeEndian::Big,
    }
}

/// The contents of the section of an object file that is called `name`,
/// decompressed where the section is compressed. There is none where the
/// file has no such section, and where its contents cannot be read.
pub uninterp spec fn section_contents(object: ObjectFile<'_>, name: Seq<char>) -> Option<Seq<u8>>;

/// The contents of the section called `name`, decompressed where the
/// section is compressed (`object::Object::section_by_name`, then
/// `object::ObjectSection::uncompressed_data`). There is none where the file
/// has no such section, and where its contents cannot be read. The result
/// is what [`section_contents`] names.
#[verifier::external_body]
fn section_data(object: &ObjectFile<'_>, name: &str) -> (r: Option<Vec<u8>>)
    ensures
        match r {
            Some(data) => section_contents(*object, name@) == Some(data@),
            None => section_contents(*object, name@) is None,
        },
{
    let section = object.file.section_by_name(name)?;
    section.uncompressed_data().ok().map(|data| data.into_owned())
}

/// The contents of a section; a section that is absent or unreadable is
/// taken to be empty.
pub fn load_section(object: &ObjectFile<'_>, name: &str) -> (r: Vec<u8>)
    ensures
        r@ == match section_contents(*object, name@) {
            Some(data) => data,
            None => Seq::<u8>::empty(),
        },
{
    match section_data(object, name) {
        Some(data) => data,
        None => Vec::new(),
    }
}

/// The sections of an object file that hold debugging information.
#[verifier::external_body]
pub struct DwarfData {
    dwarf: gimli::Dwarf<gimli::EndianRcSlice<gimli::RunTimeEndian>>,
}

/// The debugging sections of an object file, read in a byte order, or the
/// error of gathering them. A section that the file does not have is empty.
pub uninterp spec fn gathered_sections(
    object: ObjectFile<'_>,
    endian: gimli::RunTimeEndian,
) -> Result<DwarfData, gimli::Error>;

/// Gathers the debugging sections of an object file (`gimli::Dwarf::load`).
/// Each section that `gimli` asks for is fetched by [`load_section`] under
/// the name that `gimli` gives it, and is read in the given byte order. The
/// result is what [`gathered_sections`] names.
#[verifier::external_body]
pub(crate) fn load_dwarf(object: &ObjectFile<'_>, endian: gimli::RunTimeEndian) -> (r: Result<
    DwarfData,
    gimli::Error,
>)
    ensures
        r == gathered_sections(*object, endian),
{
    let section = |id: gimli::SectionId| -> Result<_, gimli::Error> {
        Ok(gimli::EndianRcSlice::new(std::rc::Rc::from(load_section(object, id.name())), endian))
    };
    Ok(DwarfData { dwarf: gimli::Dwarf::load(section)? })
}

/// A walk over the headers of the units of the debugging information.
#[verifier::external_body]
pub struct UnitHeaders {
    headers: gimli::DebugInfoUnitHeadersIter<gimli::EndianRcSlice<gimli::RunTimeEndian>>,
}

/// One compilation unit of the debugging information.
#[verifier::external_body]
pub struct UnitData {
    unit: gimli::Unit<gimli::EndianRcSlice<gimli::RunTimeEndian>>,
}

/// The units that a walk over unit headers has still to visit: for each
/// header, the unit that is parsed from it, or none where the unit cannot be
/// parsed. The walk ends where the section ends, and where a header cannot
/// be read.
pub uninterp spec fn pending_units(dwarf: DwarfData, headers: UnitHeaders) -> Seq<Option<UnitData>>;

/// The units of the debugging information in the order of their headers:
/// for each header, the unit that is parsed from it, or none where the unit
/// cannot be parsed. They end where the section ends, and where a header
/// cannot be read.
pub uninterp spec fn dwarf_units(dwarf: DwarfData) -> Seq<Option<UnitData>>;

/// Starts a walk over the units (`gimli::Dwarf::units`): all units are
/// still to come.
#[verifier::external_body]
fn unit_headers(dwarf: &DwarfData) -> (r: UnitHeaders)
    ensures
        pending_units(*dwarf, r) == dwarf_units(*dwarf),
{
    UnitHeaders { headers: dwarf.dwarf.units() }
}

/// Moves to the next unit header (`next` of the headers' iterator) and
/// parses the unit (`gimli::Dwarf::unit`). Gives nothing at the end of the
/// walk, which is also where a header cannot be read; gives an absent unit
/// where the header can be read and the unit cannot. What is given is the
/// first of the units that were still to come, which leaves the rest to
/// come.
#[verifier::external_body]
fn next_unit(dwarf: &DwarfData, headers: &mut UnitHeaders) -> (r: Option<Option<UnitData>>)
    ensures
        match r {
            Some(unit) => pending_units(*dwarf, *old(headers)).len() > 0 && unit == pending_units(
                *dwarf,
                *old(headers),
            )[0] && pending_units(*dwarf, *final(headers)) == pending_units(
                *dwarf,
                *old(headers),
            ).skip(1),
            None => pending_units(*dwarf, *old(headers)).len() == 0,
        },
{
    let header = headers.headers.next().ok()??;
    Some(dwarf.dwarf.unit(header).ok().map(|unit| UnitData { unit }))
}

/// What the builder reads of the header of a unit: the version of the
/// format, where the unit starts in its section, and the compilation
/// directory, with bytes that are no text replaced.
pub uninterp spec fn header_of(unit: UnitData) -> UnitHeader;

/// What the builder reads of a unit's header: the version of the format
/// (`gimli::UnitHeader::version`), where the unit starts in its section
/// (`gimli::UnitHeader::offset`), and the compilation directory
/// (`gimli::Unit::comp_dir`). The result is what [`header_of`] names.
#[verifier::external_body]
fn unit_header(unit: &UnitData) -> (r: UnitHeader)
    ensures
        r == header_of(*unit),
{
    UnitHeader {
        version: unit.unit.header.version(),
        unit_start: unit.unit.header.offset().as_debug_info_offset().map(|o| o.0 as u64),
        comp_dir: unit.unit.comp_dir.as_ref().and_then(
            |dir| gimli::Reader::to_string_lossy(dir).ok().map(|s| s.into_owned()),
        ),
    }
}

/// A position in the depth-first walk over the entries of a unit.
#[verifier::external_body]
pub struct EntryCursor<'a> {
    cursor: gimli::EntriesCursor<'a, 'a, gimli::EndianRcSlice<gimli::RunTimeEndian>>,
}

/// The entries that a cursor has still to visit: for each, how much deeper
/// it lies than the entry before it, its tag, its offset in the unit, and
/// its attributes, each with its name. The walk ends where the entries end,
/// and where an entry cannot be read.
pub uninterp spec fn pending_entries(cursor: EntryCursor<'_>) -> Seq<
    (isize, u16, u64, Seq<(u16, AttributeData)>),
>;

/// The entries of a unit in the order of a depth-first walk: for each, how
/// much deeper it lies than the entry before it, its tag, its offset in the
/// unit, and its attributes, each with its name. The walk ends where the
/// entries end, and where an entry cannot be read.
pub uninterp spec fn unit_walk(unit: UnitData) -> Seq<
    (isize, u16, u64, Seq<(u16, AttributeData)>),
>;

/// Starts a walk over the entries of a unit (`gimli::Unit::entries`): all
/// entries of the unit are still to come.
#[verifier::external_body]
fn entries<'a>(unit: &'a UnitData) -> (r: EntryCursor<'a>)
    ensures
        pending_entries(r) == unit_walk(*unit),
{
    EntryCursor { cursor: unit.unit.entries() }
}

/// Moves to the next entry in depth-first order
/// (`gimli::EntriesCursor::next_dfs`) and gives its change of depth, its tag
/// and its offset in the unit: those of the first of the entries that were
/// still to come, which leaves the rest to come. The cursor then stands at
/// that entry, so the attributes at the cursor are those of that entry.
#[verifier::external_body]
fn next_entry(cursor: &mut EntryCursor<'_>) -> (r: Option<(isize, u16, u64)>)
    ensures
        match r {
            Some(entry) => {
                let pending = pending_entries(*old(cursor));
                &&& pending.len() > 0
                &&& entry == (pending[0].0, pending[0].1, pending[0].2)
                &&& entry_attributes(*final(cursor)) == pending[0].3
                &&& pending_entries(*final(cursor)) == pending.skip(1)
            },
            None => pending_entries(*old(cursor)).len() == 0,
        },
{
    let (delta, entry) = cursor.cursor.next_dfs().ok()??;
    Some((delta, entry.tag().0, entry.offset().0 as u64))
}

/// The attributes of the entry at which a cursor stands, each with its
/// name, in their order. They end where an attribute cannot be read; there
/// is none where the cursor stands at no entry.
pub uninterp spec fn entry_attributes(cursor: EntryCursor<'_>) -> Seq<(u16, AttributeData)>;

/// A walk over the attributes of one entry.
#[verifier::external_body]
pub struct AttributeReader<'c, 'a> {
    attrs: gimli::AttrsIter<'a, 'c, 'a, gimli::EndianRcSlice<gimli::RunTimeEndian>>,
}

/// One attribute of an entry, as the file holds it.
#[verifier::external_body]
pub struct AttributeData {
    attr: gimli::Attribute<gimli::EndianRcSlice<gimli::RunTimeEndian>>,
}

/// The attributes that a walk has still to visit, each with its name. The
/// walk ends where the attributes end, and where an attribute cannot be
/// read.
pub uninterp spec fn pending_attributes(reader: AttributeReader<'_, '_>) -> Seq<
    (u16, AttributeData),
>;

/// Starts a walk over the attributes of the entry at which the cursor
/// stands (`gimli::EntriesCursor::current`, then
/// `gimli::DebuggingInformationEntry::attrs`): all attributes of the entry
/// are still to come. There is none where the cursor stands at no entry.
#[verifier::external_body]
fn attributes<'c, 'a>(cursor: &'c EntryCursor<'a>) -> (r: Option<AttributeReader<'c, 'a>>)
    ensures
        match r {
            Some(reader) => pending_attributes(reader) == entry_attributes(*cursor),
            None => entry_attributes(*cursor).len() == 0,
        },
{
    cursor.cursor.current().map(|entry| AttributeReader { attrs: entry.attrs() })
}

/// Moves to the next attribute (`gimli::AttrsIter::next`) and gives it with
/// its name: the first of the attributes that were still to come, which
/// leaves the rest to come.
#[verifier::external_body]
fn next_attribute(reader: &mut AttributeReader<'_, '_>) -> (r: Option<(u16, AttributeData)>)
    ensures
        match r {
            Some(attribute) => pending_attributes(*old(reader)).len() > 0 && attribute
                == pending_attributes(*old(reader))[0] && pending_attributes(*final(reader))
                == pending_attributes(*old(reader)).skip(1),
            None => pending_attributes(*old(reader)).len() == 0,
        },
{
    let attr = reader.attrs.next().ok()??;
    Some((attr.name().0, AttributeData { attr }))
}

/// The value of an attribute read as an unsigned constant, where its form
/// allows that.
pub uninterp spec fn attribute_number(attribute: AttributeData) -> Option<u64>;

/// The value of an attribute read as an unsigned constant
/// (`gimli::Attribute::udata_value`). The result is what
/// [`attribute_number`] names.
#[verifier::external_body]
fn attribute_udata(attribute: &AttributeData) -> (r: Option<u64>)
    ensures
        r == attribute_number(*attribute),
{
    attribute.attr.udata_value()
}

/// The form of the value of an attribute, before anything is looked up.
pub enum RawValue {
    /// An offset into the string section.
    DebugStrRef,
    /// A reference to another entry, as an offset from the start of the unit.
    UnitRef(u64),
    /// A reference to another entry, as an offset from the start of the section.
    DebugInfoRef(u64),
    /// An unsigned constant.
    Udata(u64),
    /// A location expression.
    Exprloc,
    /// A reference to a location list.
    LocationListsRef,
    /// An index into the unit's file table.
    FileIndex(u64),
    /// Any other form.
    Other,
}

/// The form of the value of an attribute, with the number that it holds
/// where the form has one.
pub uninterp spec fn attribute_form(attribute: AttributeData) -> RawValue;

/// Tells the forms of an attribute's value apart (`gimli::Attribute::value`).
/// The result is what [`attribute_form`] names.
#[verifier::external_body]
fn attribute_value(attribute: &AttributeData) -> (r: RawValue)
    ensures
        r == attribute_form(*attribute),
{
    match attribute.attr.value() {
        gimli::AttributeValue::DebugStrRef(_) => RawValue::DebugStrRef,
        gimli::AttributeValue::UnitRef(offset) => RawValue::UnitRef(offset.0 as u64),
        gimli::AttributeValue::DebugInfoRef(offset) => RawValue::DebugInfoRef(offset.0 as u64),
        gimli::AttributeValue::Udata(value) => RawValue::Udata(value),
        gimli::AttributeValue::Exprloc(_) => RawValue::Exprloc,
        gimli::AttributeValue::LocationListsRef(_) => RawValue::LocationListsRef,
        gimli::AttributeValue::FileIndex(index) => RawValue::FileIndex(index),
        _ => RawValue::Other,
    }
}

/// The characters of a string, if there is a string.
pub open spec fn text_of(text: Option<String>) -> Option<Seq<char>> {
    match text {
        Some(s) => Some(s@),
        None => None,
    }
}

/// The string that an attribute refers to in the string section, with bytes
/// that are no text replaced. There is none where the value is no reference
/// into that section, and where the reference leads nowhere.
pub uninterp spec fn attribute_text(dwarf: DwarfData, attribute: AttributeData) -> Option<
    Seq<char>,
>;

/// The string that an attribute refers to in the string section
/// (`gimli::Dwarf::string`), with bytes that are no text replaced
/// (`to_string_lossy`). There is none where the value is no reference into
/// that section, and where the reference leads nowhere. The result is what
/// [`attribute_text`] names.
#[verifier::external_body]
fn attribute_string(dwarf: &DwarfData, attribute: &AttributeData) -> (r: Option<String>)
    ensures
        text_of(r) == attribute_text(*dwarf, *attribute),
{
    match attribute.attr.value() {
        gimli::AttributeValue::DebugStrRef(offset) => {
            let text = dwarf.dwarf.string(offset).ok()?;
            gimli::Reader::to_string_lossy(&text).ok().map(|s| s.into_owned())
        },
        _ => None,
    }
}

/// The parts of an entry of a file table, if there is an entry: its
/// directory, the index of that directory, and its path name, each text as a
/// sequence of characters.
pub open spec fn file_parts(file: Option<FileEntry>) -> Option<
    (Option<Option<Seq<char>>>, u64, Option<Seq<char>>),
> {
    match file {
        Some(file) => Some(
            (
                match file.directory {
                    Some(directory) => Some(text_of(directory)),
                    None => None,
                },
                file.directory_index,
                text_of(file.path_name),
            ),
        ),
        None => None,
    }
}

/// The parts of the entry of a unit's file table at `index`: its directory,
/// the index of that directory, and its path name, each text resolved and
/// with bytes that are no text replaced. There is none where the unit has
/// no line-number program, and where the table has no such entry.
pub uninterp spec fn file_at(dwarf: DwarfData, unit: UnitData, index: u64) -> Option<
    (Option<Option<Seq<char>>>, u64, Option<Seq<char>>),
>;

/// The entry of the unit's file table at `index`
/// (`gimli::LineProgramHeader::file`), with its directory
/// (`gimli::FileEntry::directory`), the index of that directory and its
/// path name, each text resolved by `gimli::Dwarf::attr_string`. There is
/// none where the unit has no line-number program, and where the table has
/// no such entry. The result is what [`file_at`] names.
#[verifier::external_body]
fn file_entry(dwarf: &DwarfData, unit: &UnitData, index: u64) -> (r: Option<FileEntry>)
    ensures
        file_parts(r) == file_at(*dwarf, *unit, index),
{
    let header = unit.unit.line_program.as_ref()?.header();
    let file = header.file(index)?;
    let text = |value| {
        let text = dwarf.dwarf.attr_string(&unit.unit, value).ok()?;
        gimli::Reader::to_string_lossy(&text).ok().map(|s| s.into_owned())
    };
    Some(
        FileEntry {
            directory: file.directory(header).map(text),
            directory_index: file.directory_index(),
            path_name: text(file.path_name()),
        },
    )
}

/// The evaluation of a location expression that has not started yet. It
/// gives up with an error after the number of operations that it was
/// prepared with.
#[verifier::external_body]
pub struct Evaluation {
    evaluation: gimli::Evaluation<gimli::EndianRcSlice<gimli::RunTimeEndian>>,
}

/// The evaluation of a location expression that has stopped because it
/// needs an address to be relocated.
#[verifier::external_body]
pub struct WaitingEvaluation {
    evaluation: gimli::Evaluation<gimli::EndianRcSlice<gimli::RunTimeEndian>>,
}

/// The pieces that the evaluation of a location expression gave.
#[verifier::external_body]
pub struct EvaluatedPieces {
    pieces: Vec<gimli::Piece<gimli::EndianRcSlice<gimli::RunTimeEndian>>>,
}

/// Where the evaluation of a location expression stands after a step.
pub enum EvaluationStep {
    /// The evaluation is complete.
    Complete(EvaluatedPieces),
    /// The evaluation needs this address to be relocated.
    RequiresRelocatedAddress(WaitingEvaluation, u64),
    /// The evaluation needs something else, which is described here.
    Unsupported(String),
    /// The evaluation failed.
    Failed(gimli::Error),
}

/// The number of operations after which the evaluation of a location
/// expression gives up. An expression can jump backwards, so without such a
/// bound its evaluation need not end.
pub const MAX_EVALUATION_STEPS: u32 = 65536;

/// The evaluation, not yet started, of the location expression that an
/// attribute holds, in the encoding of a unit, which gives up after
/// `max_iterations` operations. There is none where the attribute holds no
/// expression.
pub uninterp spec fn expression_evaluation(
    unit: UnitData,
    attribute: AttributeData,
    max_iterations: u32,
) -> Option<Evaluation>;

/// Where an evaluation stands after it has run up to its end or up to the
/// first thing that it needs.
pub uninterp spec fn first_step(evaluation: Evaluation) -> EvaluationStep;

/// Where an evaluation that waited for a relocated address stands after it
/// was given `address` and has run on.
pub uninterp spec fn resumed_step(evaluation: WaitingEvaluation, address: u64) -> EvaluationStep;

/// Prepares the evaluation of the location expression that an attribute
/// holds (`gimli::Expression::evaluation`), in the encoding of the unit, and
/// bounds the number of operations that it may take
/// (`gimli::Evaluation::set_max_iterations`). There is none where the
/// attribute holds no expression. The result is what
/// [`expression_evaluation`] names.
#[verifier::external_body]
fn start_evaluation(unit: &UnitData, attribute: &AttributeData, max_iterations: u32) -> (r: Option<
    Evaluation,
>)
    ensures
        r == expression_evaluation(*unit, *attribute, max_iterations),
{
    match attribute.attr.value() {
        gimli::AttributeValue::Exprloc(expression) => {
            let mut evaluation = expression.evaluation(unit.unit.encoding());
            evaluation.set_max_iterations(max_iterations);
            Some(Evaluation { evaluation })
        },
        _ => None,
    }
}

/// Runs an evaluation up to its end or up to the first thing that it
/// needs (`gimli::Evaluation::evaluate`); it ends, because the evaluation
/// was prepared with a bound on its operations. A need other than that of a
/// relocated address is described by its `Debug` text. The result is what
/// [`first_step`] names.
#[verifier::external_body]
fn evaluate(evaluation: Evaluation) -> (r: EvaluationStep)
    ensures
        r == first_step(evaluation),
{
    let mut evaluation = evaluation.evaluation;
    match evaluation.evaluate() {
        Ok(gimli::EvaluationResult::Complete) => EvaluationStep::Complete(
            EvaluatedPieces { pieces: evaluation.result() },
        ),
        Ok(gimli::EvaluationResult::RequiresRelocatedAddress(address)) => {
            EvaluationStep::RequiresRelocatedAddress(WaitingEvaluation { evaluation }, address)
        },
        Ok(other) => EvaluationStep::Unsupported(format!("{:?}", other)),
        Err(e) => EvaluationStep::Failed(e),
    }
}

/// Hands a relocated address to an evaluation that waits for one, and runs
/// it on (`gimli::Evaluation::resume_with_relocated_address`); it ends,
/// because the evaluation was prepared with a bound on its operations. The result
/// is what [`resumed_step`] names.
#[verifier::external_body]
fn resume_with_relocated_address(evaluation: WaitingEvaluation, address: u64) -> (r:
    EvaluationStep)
    ensures
        r == resumed_step(evaluation, address),
{
    let mut evaluation = evaluation.evaluation;
    match evaluation.resume_with_relocated_address(address) {
        Ok(gimli::EvaluationResult::Complete) => EvaluationStep::Complete(
            EvaluatedPieces { pieces: evaluation.result() },
        ),
        Ok(gimli::EvaluationResult::RequiresRelocatedAddress(address)) => {
            EvaluationStep::RequiresRelocatedAddress(WaitingEvaluation { evaluation }, address)
        },
        Ok(other) => EvaluationStep::Unsupported(format!("{:?}", other)),
        Err(e) => EvaluationStep::Failed(e),
    }
}

/// Where the pieces of an evaluated expression lie, as plain values, in
/// their order.
pub uninterp spec fn evaluated_locations(pieces: EvaluatedPieces) -> Seq<PieceLocation>;

/// The number of pieces (`len` of the vector that
/// `gimli::Evaluation::result` gave).
#[verifier::external_body]
fn piece_count(pieces: &EvaluatedPieces) -> (r: usize)
    ensures
        r == evaluated_locations(*pieces).len(),
{
    pieces.pieces.len()
}

/// Where the piece at `index` lies, as a plain value. A value is converted
/// to an integer by `gimli::Value::to_u64`; a location of another kind is
/// described by its `Debug` text. There is none where `index` is no piece.
/// The result is the entry of [`evaluated_locations`] at `index`.
#[verifier::external_body]
fn piece_location(pieces: &EvaluatedPieces, index: usize) -> (r: Option<PieceLocation>)
    ensures
        match r {
            Some(location) => index < evaluated_locations(*pieces).len() && location
                == evaluated_locations(*pieces)[index as int],
            None => index >= evaluated_locations(*pieces).len(),
        },
{
    Some(
        match &pieces.pieces.get(index)?.location {
            gimli::Location::Empty => PieceLocation::Empty,
            gimli::Location::Address { address } => PieceLocation::Address(*address),
            gimli::Location::Value { value } => PieceLocation::Value(value.to_u64(u64::MAX)),
            other => PieceLocation::Other(format!("{:?}", other)),
        },
    )
}

/// The message for an evaluation that needs what cannot be given.
pub open spec fn unsupported_message(need: Seq<char>) -> Seq<char> {
    "Unimplemented: Expressions that include "@ + need + " are not currently supported."@
}

/// What an evaluation that stands at `step` comes to, where at most `fuel`
/// more addresses are relocated: the pieces of its result, the error of the
/// evaluator, or a warning that names what it needs and cannot have. An
/// address that needs relocating is used as it stands. There is no outcome
/// where the evaluation asks for more addresses than that.
pub open spec fn evaluation_outcome(step: EvaluationStep, fuel: nat) -> Option<
    Result<Seq<PieceLocation>, ExtractErrorView>,
>
    decreases fuel,
{
    match step {
        EvaluationStep::Complete(evaluated) => Some(Ok(evaluated_locations(evaluated))),
        EvaluationStep::RequiresRelocatedAddress(waiting, address) => if fuel == 0 {
            None
        } else {
            evaluation_outcome(resumed_step(waiting, address), (fuel - 1) as nat)
        },
        EvaluationStep::Unsupported(need) => Some(
            Err(ExtractErrorView::WarnAndContinue { message: unsupported_message(need@) }),
        ),
        EvaluationStep::Failed(e) => Some(Err(ExtractErrorView::GimliError(e))),
    }
}

/// What the location expression of an attribute comes to, if the attribute
/// holds one.
pub open spec fn expression_outcome(unit: UnitData, attribute: AttributeData) -> Option<
    Result<Seq<PieceLocation>, ExtractErrorView>,
> {
    match expression_evaluation(unit, attribute, MAX_EVALUATION_STEPS) {
        Some(evaluation) => evaluation_outcome(first_step(evaluation), usize::MAX as nat),
        None => None,
    }
}

/// The pieces or the error of an evaluation, with the pieces as a sequence
/// and the strings of the error as sequences of characters.
pub open spec fn outcome_view(outcome: Option<Result<Vec<PieceLocation>, ExtractError>>) -> Option<
    Result<Seq<PieceLocation>, ExtractErrorView>,
> {
    match outcome {
        Some(Ok(pieces)) => Some(Ok(pieces@)),
        Some(Err(e)) => Some(Err(e@)),
        None => None,
    }
}

/// Evaluates the location expression of an attribute and gives the pieces
/// of its result. An address that needs relocating is used as it stands.
///
/// There is no result where the attribute holds no expression. An
/// evaluation that fails gives the error of the evaluator, as does one that
/// takes more than [`MAX_EVALUATION_STEPS`] operations; one that needs
/// anything but a relocated address gives a warning that names the need.
pub fn expression_to_piece(unit: &UnitData, attribute: &AttributeData) -> (r: Option<
    Result<Vec<PieceLocation>, ExtractError>,
>)
    ensures
        outcome_view(r) == expression_outcome(*unit, *attribute),
{
    let evaluation = match start_evaluation(unit, attribute, MAX_EVALUATION_STEPS) {
        Some(evaluation) => evaluation,
        None => {
            return None;
        },
    };
    let mut result = evaluate(evaluation);
    let mut fuel: usize = usize::MAX;
    loop
        invariant
            evaluation_outcome(result, fuel as nat) == expression_outcome(*unit, *attribute),
        decreases fuel,
    {
        match result {
            EvaluationStep::Complete(evaluated) => {
                return Some(Ok(collect_pieces(&evaluated)));
            },
            EvaluationStep::RequiresRelocatedAddress(waiting, address) => {
                if fuel == 0 {
                    return None;
                }
                fuel -= 1;
                result = resume_with_relocated_address(waiting, address);
            },
            EvaluationStep::Unsupported(need) => {
                let mut message = String::from_str("Unimplemented: Expressions that include ");
                message.append(need.as_str());
                message.append(" are not currently supported.");
                assert(message@ == unsupported_message(need@));
                return Some(Err(ExtractError::WarnAndContinue { message }));
            },
            EvaluationStep::Failed(e) => {
                return Some(Err(ExtractError::GimliError(e)));
            },
        }
    }
}

/// The pieces of an evaluated expression as plain values, in their order.
fn collect_pieces(evaluated: &EvaluatedPieces) -> (r: Vec<PieceLocation>)
    ensures
        r@ == evaluated_locations(*evaluated),
{
    let count = piece_count(evaluated);
    let mut pieces: Vec<PieceLocation> = Vec::new();
    let mut i: usize = 0;
    while i < count
        invariant
            count == evaluated_locations(*evaluated).len(),
            i <= count,
            pieces@ == evaluated_locations(*evaluated).take(i as int),
        decreases count - i,
    {
        match piece_location(evaluated, i) {
            Some(location) => {
                pieces.push(location);
            },
            None => {},
        }
        i += 1;
        assert(pieces@ =~= evaluated_locations(*evaluated).take(i as int));
    }
    assert(pieces@ =~= evaluated_locations(*evaluated));
    pieces
}

/// Whether the builder takes entries with this tag into the symbols.
pub open spec fn is_symbol_tag(tag: u16) -> bool {
    tag == DW_TAG_VARIABLE || tag == DW_TAG_MEMBER || tag == DW_TAG_VARIANT || tag
        == DW_TAG_STRUCTURE_TYPE || tag == DW_TAG_UNION_TYPE || tag == DW_TAG_ARRAY_TYPE || tag
        == DW_TAG_SUBRANGE_TYPE || tag == DW_TAG_POINTER_TYPE || tag == DW_TAG_BASE_TYPE || tag
        == DW_TAG_NAMESPACE
}

fn reads_attributes(tag: u16) -> (r: bool)
    ensures
        r == is_symbol_tag(tag),
{
    tag == DW_TAG_VARIABLE || tag == DW_TAG_MEMBER || tag == DW_TAG_VARIANT || tag
        == DW_TAG_STRUCTURE_TYPE || tag == DW_TAG_UNION_TYPE || tag == DW_TAG_ARRAY_TYPE || tag
        == DW_TAG_SUBRANGE_TYPE || tag == DW_TAG_POINTER_TYPE || tag == DW_TAG_BASE_TYPE || tag
        == DW_TAG_NAMESPACE
}

/// The pieces that a location expression comes to, where it comes to any.
pub open spec fn found_pieces(
    outcome: Option<Result<Seq<PieceLocation>, ExtractErrorView>>,
) -> Option<Seq<PieceLocation>> {
    match outcome {
        Some(Ok(pieces)) => Some(pieces),
        _ => None,
    }
}

/// The pieces of a location as a sequence, if there are pieces.
pub open spec fn pieces_of(pieces: Option<Vec<PieceLocation>>) -> Option<Seq<PieceLocation>> {
    match pieces {
        Some(pieces) => Some(pieces@),
        None => None,
    }
}

/// Whether `value` is the value of an attribute with every indirection
/// followed: of the form that the attribute has, with the number that the
/// form holds, and with the string, the pieces of the location expression or
/// the entry of the file table that it leads to.
pub open spec fn resolves(
    dwarf: DwarfData,
    unit: UnitData,
    attribute: AttributeData,
    value: AttributeValue,
) -> bool {
    match attribute_form(attribute) {
        RawValue::DebugStrRef => (value matches AttributeValue::DebugStrRef(text) && text_of(text)
            == attribute_text(dwarf, attribute)),
        RawValue::UnitRef(offset) => value == AttributeValue::UnitRef(offset),
        RawValue::DebugInfoRef(offset) => value == AttributeValue::DebugInfoRef(offset),
        RawValue::Udata(number) => value == AttributeValue::Udata(number),
        RawValue::Exprloc => (value matches AttributeValue::Exprloc(pieces) && pieces_of(pieces)
            == found_pieces(expression_outcome(unit, attribute))),
        RawValue::LocationListsRef => value == AttributeValue::LocationListsRef,
        RawValue::FileIndex(index) => (value matches AttributeValue::FileIndex(at, file) && at
            == index && file_parts(file) == file_at(dwarf, unit, index)),
        RawValue::Other => value == AttributeValue::Other,
    }
}

/// The value of an attribute with every indirection followed.
fn resolve_value(dwarf: &DwarfData, unit: &UnitData, attribute: &AttributeData) -> (r:
    AttributeValue)
    ensures
        resolves(*dwarf, *unit, *attribute, r),
{
    match attribute_value(attribute) {
        RawValue::DebugStrRef => AttributeValue::DebugStrRef(attribute_string(dwarf, attribute)),
        RawValue::UnitRef(offset) => AttributeValue::UnitRef(offset),
        RawValue::DebugInfoRef(offset) => AttributeValue::DebugInfoRef(offset),
        RawValue::Udata(value) => AttributeValue::Udata(value),
        RawValue::Exprloc => AttributeValue::Exprloc(
            match expression_to_piece(unit, attribute) {
                Some(Ok(pieces)) => Some(pieces),
                _ => None,
            },
        ),
        RawValue::LocationListsRef => AttributeValue::LocationListsRef,
        RawValue::FileIndex(index) => AttributeValue::FileIndex(
            index,
            file_entry(dwarf, unit, index),
        ),
        RawValue::Other => AttributeValue::Other,
    }
}

/// Whether `read` are the attributes `held`, one for each and in their
/// order: each with its name, its value with every indirection followed,
/// and its value as an unsigned constant.
pub open spec fn attributes_read(
    dwarf: DwarfData,
    unit: UnitData,
    read: Seq<Attribute>,
    held: Seq<(u16, AttributeData)>,
) -> bool {
    &&& read.len() == held.len()
    &&& forall|i: int|
        0 <= i < read.len() ==> (#[trigger] read[i]).name == held[i].0 && resolves(
            dwarf,
            unit,
            held[i].1,
            read[i].value,
        ) && read[i].udata == attribute_number(held[i].1)
}

/// The attributes of the entry at which the cursor stands, in order.
fn read_attributes(dwarf: &DwarfData, unit: &UnitData, cursor: &EntryCursor<'_>) -> (r: Vec<
    Attribute,
>)
    ensures
        attributes_read(*dwarf, *unit, r@, entry_attributes(*cursor)),
{
    let mut out: Vec<Attribute> = Vec::new();
    let mut reader = match attributes(cursor) {
        Some(reader) => reader,
        None => {
            return out;
        },
    };
    let ghost held = entry_attributes(*cursor);
    loop
        invariant
            held == entry_attributes(*cursor),
            out.len() <= held.len(),
            pending_attributes(reader) == held.skip(out.len() as int),
            attributes_read(*dwarf, *unit, out@, held.take(out.len() as int)),
        decreases pending_attributes(reader).len(),
    {
        match next_attribute(&mut reader) {
            Some((name, attribute)) => {
                let value = resolve_value(dwarf, unit, &attribute);
                let udata = attribute_udata(&attribute);
                out.push(Attribute { name, value, udata });
                assert(pending_attributes(reader) =~= held.skip(out.len() as int));
            },
            None => {
                assert(held.take(out.len() as int) =~= held);
                return out;
            },
        }
    }
}

/// Whether entries with plain values are the entries of a walk: one for
/// each, with its change of depth, its tag and its offset. An entry that
/// the builder takes into the symbols has the attributes of the entry of
/// the walk, each with its value resolved; any other entry has none.
pub open spec fn follows(
    dwarf: DwarfData,
    unit: UnitData,
    dies: Seq<Die>,
    walk: Seq<(isize, u16, u64, Seq<(u16, AttributeData)>)>,
) -> bool {
    &&& dies.len() == walk.len()
    &&& forall|i: int|
        0 <= i < dies.len() ==> (#[trigger] dies[i]).depth_delta == walk[i].0 && dies[i].tag
            == walk[i].1 && dies[i].offset == walk[i].2 && if is_symbol_tag(dies[i].tag) {
            attributes_read(dwarf, unit, dies[i].attributes@, walk[i].3)
        } else {
            dies[i].attributes.len() == 0
        }
}

/// Whether `entries` are what is read of a unit: its header, and the
/// entries of its walk.
pub open spec fn unit_read(dwarf: DwarfData, unit: UnitData, entries: UnitEntries) -> bool {
    entries.header == header_of(unit) && follows(dwarf, unit, entries.dies@, unit_walk(unit))
}

/// The entries of a unit, in the order of a depth-first walk, as plain
/// values, with the header of the unit. One entry is given for each entry
/// of the walk, with its change of depth, its tag and its offset. The
/// attributes are read of those entries only that the builder takes into
/// the symbols.
pub fn read_unit(dwarf: &DwarfData, unit: &UnitData) -> (r: UnitEntries)
    ensures
        unit_read(*dwarf, *unit, r),
{
    let header = unit_header(unit);
    let mut dies: Vec<Die> = Vec::new();
    let mut cursor = entries(unit);
    let ghost walk = unit_walk(*unit);
    loop
        invariant
            walk == unit_walk(*unit),
            header == header_of(*unit),
            dies.len() <= walk.len(),
            pending_entries(cursor) == walk.skip(dies.len() as int),
            follows(*dwarf, *unit, dies@, walk.take(dies.len() as int)),
        decreases pending_entries(cursor).len(),
    {
        match next_entry(&mut cursor) {
            Some((depth_delta, tag, offset)) => {
                let attributes = if reads_attributes(tag) {
                    read_attributes(dwarf, unit, &cursor)
                } else {
                    Vec::new()
                };
                dies.push(Die { depth_delta, tag, offset, attributes });
                assert(pending_entries(cursor) =~= walk.skip(dies.len() as int));
            },
            None => {
                assert(walk.take(dies.len() as int) =~= walk);
                return UnitEntries { header, dies };
            },
        }
    }
}

/// The units among `units` that were parsed, in their order.
pub open spec fn parsed(units: Seq<Option<UnitData>>) -> Seq<UnitData>
    decreases units.len(),
{
    if units.len() == 0 {
        Seq::empty()
    } else {
        match units.last() {
            Some(unit) => parsed(units.drop_last()).push(unit),
            None => parsed(units.drop_last()),
        }
    }
}

/// Whether `read` holds what is read of `units`, one for each and in their
/// order.
pub open spec fn units_read(dwarf: DwarfData, read: Seq<UnitEntries>, units: Seq<UnitData>) -> bool {
    &&& read.len() == units.len()
    &&& forall|i: int| 0 <= i < read.len() ==> unit_read(dwarf, units[i], #[trigger] read[i])
}

/// The entries of all units of the debugging information, in the order of
/// the units. A unit whose header can be read and which cannot be parsed is
/// left out.
pub fn read_units(dwarf: &DwarfData) -> (r: Vec<UnitEntries>)
    ensures
        units_read(*dwarf, r@, parsed(dwarf_units(*dwarf))),
{
    let mut units: Vec<UnitEntries> = Vec::new();
    let mut headers = unit_headers(dwarf);
    let ghost all = dwarf_units(*dwarf);
    let ghost mut seen: int = 0;
    loop
        invariant
            all == dwarf_units(*dwarf),
            0 <= seen <= all.len(),
            pending_units(*dwarf, headers) == all.skip(seen),
            units_read(*dwarf, units@, parsed(all.take(seen))),
        decreases pending_units(*dwarf, headers).len(),
    {
        match next_unit(dwarf, &mut headers) {
            Some(found) => {
                proof {
                    assert(all.take(seen + 1).drop_last() =~= all.take(seen));
                    assert(all.take(seen + 1).last() == found);
                    assert(pending_units(*dwarf, headers) =~= all.skip(seen + 1));
                    seen = seen + 1;
                }
                match found {
                    Some(unit) => {
                        units.push(read_unit(dwarf, &unit));
                    },
                    None => {},
                }
            },
            None => {
                assert(all.take(seen) =~= all);
                return units;
            },
        }
    }
}

} // verus!
