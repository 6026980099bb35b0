//! Readable forms of mangled symbol names.
use vstd::prelude::*;

verus! {

/// The readable form of the symbol name `name`, without the trailing hash:
/// what `rustc_demangle` prints for it in its alternate format.
pub uninterp spec fn demangled(name: Seq<char>) -> Seq<char>;

/// Calls `rustc_demangle::demangle` and prints what it returns with `{:#}`.
/// The outcome depends on the name alone; it is named, not described. A name
/// that is not mangled is printed as it stands, and printing does not fail: a
/// demangling that grows beyond the crate's size limit is replaced by a note.
#[verifier::external_body]
pub fn demangle(name: &str) -> (r: String)
    ensures
        r@ == demangled(name@),
{
    format!("{:#}", rustc_demangle::demangle(name))
}

} // verus!
