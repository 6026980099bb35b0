//! Where a variable lives: the outcome of evaluating a location expression.
use crate::text::u64_to_hex;
use vstd::prelude::*;
use vstd::string::*;

verus! {

/// `gimli::Error`, the error of the DWARF parser, as an opaque value.
#[verifier::external_type_specification]
#[verifier::external_body]
pub struct ExGimliError(gimli::Error);

/// Why the location of a variable could not be had.
#[derive(Debug)]
pub enum ExtractError {
    WarnAndContinue { message: String },
    GimliError(gimli::Error),
    UnknownVariable,
}

/// An error with its strings as sequences of characters.
pub enum ExtractErrorView {
    WarnAndContinue { message: Seq<char> },
    GimliError(gimli::Error),
    UnknownVariable,
}

impl View for ExtractError {
    type V = ExtractErrorView;

    open spec fn view(&self) -> ExtractErrorView {
        match self {
            ExtractError::WarnAndContinue { message } => ExtractErrorView::WarnAndContinue {
                message: message@,
            },
            ExtractError::GimliError(e) => ExtractErrorView::GimliError(*e),
            ExtractError::UnknownVariable => ExtractErrorView::UnknownVariable,
        }
    }
}

impl From<gimli::Error> for ExtractError {
    fn from(value: gimli::Error) -> (r: Self) {
        ExtractError::GimliError(value)
    }
}

impl vstd::std_specs::convert::FromSpecImpl<gimli::Error> for ExtractError {
    open spec fn obeys_from_spec() -> bool {
        true
    }

    open spec fn from_spec(value: gimli::Error) -> Self {
        ExtractError::GimliError(value)
    }
}

/// Where a variable can be found.
#[derive(Debug, Clone, PartialEq, Eq)]
pub enum VariableLocation {
    /// Location of the variable is not known. This means that it has not been evaluated yet.
    Unknown,
    /// The variable does not have a location currently, probably due to optimisations.
    Unavailable,
    /// The variable can be found in memory, at this address.
    Address(u64),
    /// The value of the variable is directly available.
    Value,
    /// There was an error evaluating the variable location.
    Error(String),
    /// Support for handling the location of this variable is not (yet) implemented.
    Unsupported(String),
}

/// A location with its strings as sequences of characters.
pub enum VariableLocationView {
    Unknown,
    Unavailable,
    Address(u64),
    Value,
    Error(Seq<char>),
    Unsupported(Seq<char>),
}

impl View for VariableLocation {
    type V = VariableLocationView;

    open spec fn view(&self) -> VariableLocationView {
        match self {
            VariableLocation::Unknown => VariableLocationView::Unknown,
            VariableLocation::Unavailable => VariableLocationView::Unavailable,
            VariableLocation::Address(a) => VariableLocationView::Address(*a),
            VariableLocation::Value => VariableLocationView::Value,
            VariableLocation::Error(m) => VariableLocationView::Error(m@),
            VariableLocation::Unsupported(m) => VariableLocationView::Unsupported(m@),
        }
    }
}

impl Default for VariableLocation {
    fn default() -> (r: Self)
        ensures
            r@ == VariableLocationView::Unknown,
    {
        VariableLocation::Unknown
    }
}

/// The text that the standard `Debug` formatting gives for a string with the
/// characters `s`: the string in double quotes, with escapes.
pub uninterp spec fn debug_quoted(s: Seq<char>) -> Seq<char>;

/// `Debug` formatting of a string slice (`format!("{:?}", s)`). The result is
/// named, not described: it is the quoted and escaped form of `s` that the
/// standard library documents for `str`.
#[verifier::external_body]
fn debug_quote(s: &str) -> (r: String)
    ensures
        r@ == debug_quoted(s@),
{
    format!("{:?}", s)
}

/// `0x`, then the address in upper-case hexadecimal with at least eight digits.
pub open spec fn address_text(address: u64) -> Seq<char> {
    "0x"@ + crate::text::hex(address as nat, 8, true)
}

fn format_address(address: u64) -> (r: String)
    ensures
        r@ == address_text(address),
{
    let mut s = String::from_str("0x");
    let digits = u64_to_hex(address, 8, true);
    s.append(digits.as_str());
    s
}

/// A location as the `Debug` formatting writes it.
pub open spec fn location_debug_text(location: VariableLocationView) -> Seq<char> {
    match location {
        VariableLocationView::Unknown => "Unknown"@,
        VariableLocationView::Unavailable => "Unavailable"@,
        VariableLocationView::Address(a) => "Address("@ + crate::text::decimal(a as nat) + ")"@,
        VariableLocationView::Value => "Value"@,
        VariableLocationView::Error(m) => "Error("@ + debug_quoted(m) + ")"@,
        VariableLocationView::Unsupported(m) => "Unsupported("@ + debug_quoted(m) + ")"@,
    }
}

/// A location as it is shown to a user.
pub open spec fn location_text(location: VariableLocationView) -> Seq<char> {
    match location {
        VariableLocationView::Unknown => "<unknown value>"@,
        VariableLocationView::Unavailable => "<value not available>"@,
        VariableLocationView::Address(a) => address_text(a),
        VariableLocationView::Value => "<not applicable - statically stored value>"@,
        VariableLocationView::Error(m) => m,
        VariableLocationView::Unsupported(m) => m,
    }
}

impl VariableLocation {
    /// Return the memory address, if available. Otherwise an error is returned.
    pub fn memory_address(&self) -> (r: Result<u64, ExtractError>)
        ensures
            match self@ {
                VariableLocationView::Address(a) => r == Ok::<u64, ExtractError>(a),
                other => r matches Err(ExtractError::WarnAndContinue { message }) && message@
                    == "Variable does not have a memory location: location="@
                    + location_debug_text(other),
            },
    {
        let mut message = String::from_str("Variable does not have a memory location: location=");
        match self {
            VariableLocation::Address(address) => {
                return Ok(*address);
            },
            VariableLocation::Unknown => {
                message.append("Unknown");
            },
            VariableLocation::Unavailable => {
                message.append("Unavailable");
            },
            VariableLocation::Value => {
                message.append("Value");
            },
            VariableLocation::Error(m) => {
                let quoted = debug_quote(m.as_str());
                message.append("Error(");
                message.append(quoted.as_str());
                message.append(")");
                assert(message@ =~= "Variable does not have a memory location: location="@ + (
                "Error("@ + debug_quoted(m@) + ")"@));
            },
            VariableLocation::Unsupported(m) => {
                let quoted = debug_quote(m.as_str());
                message.append("Unsupported(");
                message.append(quoted.as_str());
                message.append(")");
                assert(message@ =~= "Variable does not have a memory location: location="@ + (
                "Unsupported("@ + debug_quoted(m@) + ")"@));
            },
        }
        Err(ExtractError::WarnAndContinue { message })
    }

    /// Check if the location is valid, ie. not an error, unsupported, or unavailable.
    pub fn valid(&self) -> (r: bool)
        ensures
            r == (self@ is Address || self@ is Value || self@ is Unknown),
    {
        match self {
            VariableLocation::Address(_) | VariableLocation::Value | VariableLocation::Unknown => {
                true
            },
            _ => false,
        }
    }

    /// The location as it is shown to a user.
    pub fn to_string(&self) -> (r: String)
        ensures
            r@ == location_text(self@),
    {
        match self {
            VariableLocation::Unknown => String::from_str("<unknown value>"),
            VariableLocation::Unavailable => String::from_str("<value not available>"),
            VariableLocation::Address(address) => format_address(*address),
            VariableLocation::Value => String::from_str(
                "<not applicable - statically stored value>",
            ),
            VariableLocation::Error(error) => error.clone(),
            VariableLocation::Unsupported(reason) => reason.clone(),
        }
    }
}

/// What evaluating a location expression gives: the value of a variable, or
/// a memory location.
#[derive(Debug)]
pub enum ExpressionResult {
    Value(u64),
    Location(VariableLocation),
}

/// A result with its strings as sequences of characters.
pub enum ExpressionResultView {
    Value(u64),
    Location(VariableLocationView),
}

impl View for ExpressionResult {
    type V = ExpressionResultView;

    open spec fn view(&self) -> ExpressionResultView {
        match self {
            ExpressionResult::Value(v) => ExpressionResultView::Value(*v),
            ExpressionResult::Location(l) => ExpressionResultView::Location(l@),
        }
    }
}

/// Where one piece of an evaluated expression says its value lies.
#[derive(Debug)]
pub enum PieceLocation {
    /// The piece is empty: the value was optimised away.
    Empty,
    /// The value is in memory at this address.
    Address(u64),
    /// The value itself is known: as an integer, or else the reason why it
    /// is not an integer.
    Value(Result<u64, gimli::Error>),
    /// Any other kind of location, with a description of it.
    Other(String),
}

/// The result for an expression whose single piece lies at `address`.
pub open spec fn address_result(address: u64) -> VariableLocationView {
    if address == 0 {
        VariableLocationView::Error(
            "The value of this variable may have been optimized out of the debug info, by the compiler."@,
        )
    } else if address >= u32::MAX {
        VariableLocationView::Error(
            "The memory location for this variable value ("@ + address_text(address)
                + ") is invalid. Please report this as a bug."@,
        )
    } else {
        VariableLocationView::Address(address)
    }
}

/// At most the first hundred characters of `s`.
pub open spec fn truncated(s: Seq<char>) -> Seq<char> {
    if s.len() > 100 {
        s.take(100)
    } else {
        s
    }
}

/// What the pieces of an evaluated expression mean for a variable.
pub open spec fn evaluation(pieces: Seq<PieceLocation>) -> Result<
    ExpressionResultView,
    ExtractErrorView,
> {
    if pieces.len() == 0 {
        Ok(
            ExpressionResultView::Location(
                VariableLocationView::Error("Error: expr_to_piece() returned 0 results"@),
            ),
        )
    } else if pieces.len() > 1 {
        Ok(
            ExpressionResultView::Location(
                VariableLocationView::Error("<unsupported memory implementation>"@),
            ),
        )
    } else {
        match pieces[0] {
            PieceLocation::Empty => Ok(
                ExpressionResultView::Location(VariableLocationView::Unavailable),
            ),
            PieceLocation::Address(address) => Ok(
                ExpressionResultView::Location(address_result(address)),
            ),
            PieceLocation::Value(Ok(value)) => Ok(ExpressionResultView::Value(value)),
            PieceLocation::Value(Err(e)) => Err(ExtractErrorView::GimliError(e)),
            PieceLocation::Other(description) => Ok(
                ExpressionResultView::Location(
                    VariableLocationView::Error(
                        "Unimplemented: extract_location() found a location type: "@ + truncated(
                            description@,
                        ),
                    ),
                ),
            ),
        }
    }
}

/// The view of a result of [`evaluate_expression`].
pub open spec fn evaluation_view(r: Result<ExpressionResult, ExtractError>) -> Result<
    ExpressionResultView,
    ExtractErrorView,
> {
    match r {
        Ok(v) => Ok(v@),
        Err(e) => Err(e@),
    }
}

fn evaluate_address(address: u64) -> (r: ExpressionResult)
    ensures
        r@ == ExpressionResultView::Location(address_result(address)),
{
    let location = if address == 0 {
        VariableLocation::Error(
            String::from_str(
                "The value of this variable may have been optimized out of the debug info, by the compiler.",
            ),
        )
    } else if address >= u32::MAX as u64 {
        let mut message = String::from_str("The memory location for this variable value (");
        let text = format_address(address);
        message.append(text.as_str());
        message.append(") is invalid. Please report this as a bug.");
        VariableLocation::Error(message)
    } else {
        VariableLocation::Address(address)
    };
    ExpressionResult::Location(location)
}

/// Interprets the pieces that evaluating a location expression gave as the
/// value of a variable or as its memory location.
///
/// No piece and several pieces are reported as errors inside the result; so
/// are an address of zero, an address that does not fit in 32 bits, and a
/// kind of location that has no memory address.
pub fn evaluate_expression(pieces: &Vec<PieceLocation>) -> (r: Result<
    ExpressionResult,
    ExtractError,
>)
    ensures
        evaluation_view(r) == evaluation(pieces@),
{
    if pieces.len() == 0 {
        return Ok(
            ExpressionResult::Location(
                VariableLocation::Error(
                    String::from_str("Error: expr_to_piece() returned 0 results"),
                ),
            ),
        );
    }
    if pieces.len() > 1 {
        return Ok(
            ExpressionResult::Location(
                VariableLocation::Error(String::from_str("<unsupported memory implementation>")),
            ),
        );
    }
    match &pieces[0] {
        PieceLocation::Empty => Ok(ExpressionResult::Location(VariableLocation::Unavailable)),
        PieceLocation::Address(address) => Ok(evaluate_address(*address)),
        PieceLocation::Value(Ok(value)) => Ok(ExpressionResult::Value(*value)),
        PieceLocation::Value(Err(e)) => Err(ExtractError::GimliError(*e)),
        PieceLocation::Other(description) => {
            let length = description.as_str().unicode_len();
            let kept = if length > 100 {
                description.as_str().substring_char(0, 100)
            } else {
                description.as_str()
            };
            let mut message = String::from_str(
                "Unimplemented: extract_location() found a location type: ",
            );
            message.append(kept);
            Ok(ExpressionResult::Location(VariableLocation::Error(message)))
        },
    }
}

} // verus!
