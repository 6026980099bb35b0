//! The symbol model: identifiers, the records that describe variables and
//! types, and the per-unit cache that indexes them.
use crate::demangle::{demangle, demangled};
use crate::dwarf::{
    Attribute, Die, UnitHeader, DW_TAG_ARRAY_TYPE, DW_TAG_BASE_TYPE, DW_TAG_MEMBER,
    DW_TAG_NAMESPACE, DW_TAG_NULL, DW_TAG_POINTER_TYPE, DW_TAG_STRUCTURE_TYPE,
    DW_TAG_SUBRANGE_TYPE, DW_TAG_UNION_TYPE, DW_TAG_VARIABLE, DW_TAG_VARIANT,
    DW_TAG_VARIANT_PART,
};
use crate::name_index::NameIndex;
use crate::parse::{
    parse_array, parse_base_type, parse_enum_discriminant, parse_enum_variant, parse_namespace,
    parse_pointer, parse_structure, parse_structure_member, parse_subrange, parse_union,
    parse_variable, update_enum_variant_member,
};
use crate::search::{first_where, lemma_first_where_absent, lemma_first_where_found};
use crate::text::{opt_str_eq, str_eq, strings_view};
use crate::walk::{
    built, depth_moved, dispatched, entered, enumeration_from, parent_tag, path_extended,
    path_truncated, stepped, with_variable, BuildError, BuildState,
};
use std::collections::HashMap;
use vstd::prelude::*;
use vstd::string::*;

verus! {

/// A location within the debug section. Two items are the same when their
/// offsets are the same.
#[derive(Debug, Hash, PartialEq, Eq, Clone, Copy, Structural)]
pub struct DebugItem {
    pub offset: u64,
}

impl DebugItem {
    /// The item of an entry that lies `offset` bytes into a unit which starts
    /// at `unit_start` in the debug section. A unit that is not part of that
    /// section has no start there, and its entries have no item.
    pub fn from_unit_offset(offset: u64, unit_start: Option<u64>) -> (r: Option<Self>)
        ensures
            r == match unit_start {
                Some(start) if start + offset <= u64::MAX => Some(
                    DebugItem { offset: (start + offset) as u64 },
                ),
                _ => None,
            },
    {
        match unit_start {
            Some(start) => match start.checked_add(offset) {
                Some(sum) => Some(DebugItem { offset: sum }),
                None => None,
            },
            None => None,
        }
    }

    /// The item at `offset` bytes from the start of the debug section.
    pub fn from_debug_info_offset(offset: u64) -> (r: Self)
        ensures
            r == (DebugItem { offset }),
    {
        DebugItem { offset }
    }
}

/// An offset from the start of a structure, array or other base.
#[derive(Debug, Hash, PartialEq, Eq, Clone, Copy, Structural)]
pub struct StructOffset(pub u64);

/// A location within the running target.
#[derive(Debug, Hash, PartialEq, Eq, Clone, Copy, Structural)]
pub struct MemoryLocation(pub u64);

/// The value of `n` in a 64-bit address space, where sums and products wrap.
pub open spec fn wrap64(n: int) -> u64 {
    (n % 0x1_0000_0000_0000_0000) as u64
}

/// A number as locations and offsets are shown: in angle brackets, in
/// hexadecimal with at least eight digits.
pub open spec fn bracketed(n: u64) -> Seq<char> {
    "<"@ + crate::text::hex(n as nat, 8, false) + ">"@
}

fn bracket(n: u64) -> (r: String)
    ensures
        r@ == bracketed(n),
{
    let mut s = String::from_str("<");
    let digits = crate::text::u64_to_hex(n, 8, false);
    s.append(digits.as_str());
    s.append(">");
    s
}

impl StructOffset {
    pub fn new(offset: u64) -> (r: Self)
        ensures
            r == StructOffset(offset),
    {
        StructOffset(offset)
    }

    /// The offset as it is shown to a user.
    pub fn to_string(&self) -> (r: String)
        ensures
            r@ == bracketed(self.0),
    {
        bracket(self.0)
    }
}

impl MemoryLocation {
    /// The location as it is shown to a user.
    pub fn to_string(&self) -> (r: String)
        ensures
            r@ == bracketed(self.0),
    {
        bracket(self.0)
    }
}

impl core::ops::Add<StructOffset> for MemoryLocation {
    type Output = MemoryLocation;

    fn add(self, rhs: StructOffset) -> (r: MemoryLocation) {
        MemoryLocation(self.0.wrapping_add(rhs.0))
    }
}

impl vstd::std_specs::ops::AddSpecImpl<StructOffset> for MemoryLocation {
    open spec fn obeys_add_spec() -> bool {
        true
    }

    open spec fn add_req(self, rhs: StructOffset) -> bool {
        true
    }

    open spec fn add_spec(self, rhs: StructOffset) -> MemoryLocation {
        MemoryLocation(wrap64(self.0 + rhs.0))
    }
}

impl core::ops::AddAssign<StructOffset> for MemoryLocation {
    fn add_assign(&mut self, rhs: StructOffset)
        ensures
            *final(self) == MemoryLocation(wrap64(old(self).0 + rhs.0)),
    {
        self.0 = self.0.wrapping_add(rhs.0);
    }
}

impl core::ops::Mul<StructOffset> for MemoryLocation {
    type Output = MemoryLocation;

    fn mul(self, rhs: StructOffset) -> (r: MemoryLocation) {
        MemoryLocation(self.0.wrapping_mul(rhs.0))
    }
}

impl vstd::std_specs::ops::MulSpecImpl<StructOffset> for MemoryLocation {
    open spec fn obeys_mul_spec() -> bool {
        true
    }

    open spec fn mul_req(self, rhs: StructOffset) -> bool {
        true
    }

    open spec fn mul_spec(self, rhs: StructOffset) -> MemoryLocation {
        MemoryLocation(wrap64(self.0 * rhs.0))
    }
}

impl core::ops::Add<StructOffset> for StructOffset {
    type Output = StructOffset;

    fn add(self, rhs: StructOffset) -> (r: StructOffset) {
        StructOffset(self.0.wrapping_add(rhs.0))
    }
}

impl vstd::std_specs::ops::AddSpecImpl<StructOffset> for StructOffset {
    open spec fn obeys_add_spec() -> bool {
        true
    }

    open spec fn add_req(self, rhs: StructOffset) -> bool {
        true
    }

    open spec fn add_spec(self, rhs: StructOffset) -> StructOffset {
        StructOffset(wrap64(self.0 + rhs.0))
    }
}

impl core::ops::Mul<StructOffset> for StructOffset {
    type Output = StructOffset;

    fn mul(self, rhs: StructOffset) -> (r: StructOffset) {
        StructOffset(self.0.wrapping_mul(rhs.0))
    }
}

impl vstd::std_specs::ops::MulSpecImpl<StructOffset> for StructOffset {
    open spec fn obeys_mul_spec() -> bool {
        true
    }

    open spec fn mul_req(self, rhs: StructOffset) -> bool {
        true
    }

    open spec fn mul_spec(self, rhs: StructOffset) -> StructOffset {
        StructOffset(wrap64(self.0 * rhs.0))
    }
}

/// The characters of an optional string.
pub open spec fn opt_view(s: Option<String>) -> Option<Seq<char>> {
    match s {
        Some(s) => Some(s@),
        None => None,
    }
}

/// The path of the file that declares a variable.
#[derive(Debug)]
pub struct FileName(pub String);

/// One member of a structure or union.
#[derive(Debug)]
pub struct StructureMember {
    pub name: Option<String>,
    pub kind: DebugItem,
    pub offset: StructOffset,
}

/// A member with its strings as sequences of characters.
pub struct StructureMemberView {
    pub name: Option<Seq<char>>,
    pub kind: DebugItem,
    pub offset: StructOffset,
}

impl View for StructureMember {
    type V = StructureMemberView;

    open spec fn view(&self) -> StructureMemberView {
        StructureMemberView { name: opt_view(self.name), kind: self.kind, offset: self.offset }
    }
}

impl StructureMember {
    pub fn name(&self) -> (r: Option<&str>)
        ensures
            r.is_some() == self@.name.is_some(),
            r matches Some(s) ==> Some(s@) == self@.name,
    {
        match &self.name {
            Some(s) => Some(s.as_str()),
            None => None,
        }
    }

    pub fn kind(&self) -> (r: DebugItem)
        ensures
            r == self@.kind,
    {
        self.kind
    }

    pub fn offset(&self) -> (r: StructOffset)
        ensures
            r == self@.offset,
    {
        self.offset
    }
}

/// The views of a list of members, in order.
pub open spec fn members_view(members: Seq<StructureMember>) -> Seq<StructureMemberView> {
    members.map_values(|m: StructureMember| m@)
}

/// The first member called `name`, if any.
pub open spec fn member_named(members: Seq<StructureMemberView>, name: Seq<char>) -> Option<int> {
    first_where(members, |m: StructureMemberView| m.name == Some(name))
}

fn find_member<'a>(members: &'a Vec<StructureMember>, name: &str) -> (r: Option<
    &'a StructureMember,
>)
    ensures
        match member_named(members_view(members@), name@) {
            Some(i) => r == Some(&members@[i]),
            None => r is None,
        },
{
    let ghost views = members_view(members@);
    let ghost p = |m: StructureMemberView| m.name == Some(name@);
    let mut i: usize = 0;
    while i < members.len()
        invariant
            i <= members.len(),
            views == members_view(members@),
            p == (|m: StructureMemberView| m.name == Some(name@)),
            forall|j: int| 0 <= j < i ==> !p(#[trigger] views[j]),
        decreases members.len() - i,
    {
        if opt_str_eq(&members[i].name, name) {
            proof {
                assert(p(views[i as int]));
                lemma_first_where_found(views, p, i as int);
            }
            return Some(&members[i]);
        }
        assert(!p(views[i as int]));
        i += 1;
    }
    proof {
        lemma_first_where_absent(views, p);
    }
    None
}

/// A pointer to a value of another type.
#[derive(Debug)]
pub struct Pointer {
    pub name: Option<String>,
    pub kind: DebugItem,
}

/// A pointer with its strings as sequences of characters.
pub struct PointerView {
    pub name: Option<Seq<char>>,
    pub kind: DebugItem,
}

impl View for Pointer {
    type V = PointerView;

    open spec fn view(&self) -> PointerView {
        PointerView { name: opt_view(self.name), kind: self.kind }
    }
}

impl Pointer {
    pub fn name(&self) -> (r: Option<&str>)
        ensures
            r.is_some() == self@.name.is_some(),
            r matches Some(s) ==> Some(s@) == self@.name,
    {
        match &self.name {
            Some(s) => Some(s.as_str()),
            None => None,
        }
    }

    pub fn kind(&self) -> (r: DebugItem)
        ensures
            r == self@.kind,
    {
        self.kind
    }
}

/// A leaf of the type graph: a scalar of a given width.
#[derive(Debug)]
pub struct BaseType {
    pub name: String,
    pub size: u64,
}

/// A base type with its strings as sequences of characters.
pub struct BaseTypeView {
    pub name: Seq<char>,
    pub size: u64,
}

impl View for BaseType {
    type V = BaseTypeView;

    open spec fn view(&self) -> BaseTypeView {
        BaseTypeView { name: self.name@, size: self.size }
    }
}

impl BaseType {
    pub fn name(&self) -> (r: &str)
        ensures
            r@ == self@.name,
    {
        self.name.as_str()
    }

    pub fn size(&self) -> (r: u64)
        ensures
            r == self@.size,
    {
        self.size
    }
}

/// A union: members that share one location.
#[derive(Debug)]
pub struct Union {
    pub name: String,
    pub namespace: String,
    pub members: Vec<StructureMember>,
    pub size: u64,
}

/// An union with its strings as sequences of characters.
pub struct UnionView {
    pub name: Seq<char>,
    pub namespace: Seq<char>,
    pub members: Seq<StructureMemberView>,
    pub size: u64,
}

impl View for Union {
    type V = UnionView;

    open spec fn view(&self) -> UnionView {
        UnionView {
            name: self.name@,
            namespace: self.namespace@,
            members: members_view(self.members@),
            size: self.size,
        }
    }
}

impl Union {
    pub fn name(&self) -> (r: &str)
        ensures
            r@ == self@.name,
    {
        self.name.as_str()
    }

    /// The names of the enclosing namespaces, joined by `::`.
    pub fn namespace(&self) -> (r: &str)
        ensures
            r@ == self@.namespace,
    {
        self.namespace.as_str()
    }

    pub fn size(&self) -> (r: u64)
        ensures
            r == self@.size,
    {
        self.size
    }

    pub fn members(&self) -> (r: &[StructureMember])
        ensures
            members_view(r@) == self@.members,
    {
        self.members.as_slice()
    }

    /// The first member called `name`.
    pub fn member_named(&self, name: &str) -> (r: Option<&StructureMember>)
        ensures
            match member_named(self@.members, name@) {
                Some(i) => r matches Some(m) && m@ == self@.members[i],
                None => r is None,
            },
    {
        find_member(&self.members, name)
    }
}

/// One alternative of an enumeration.
#[derive(Debug)]
pub struct EnumerationVariant {
    pub name: String,
    pub discriminant: Option<u64>,
    pub kind: DebugItem,
    pub offset: StructOffset,
}

/// A variant with its strings as sequences of characters.
pub struct EnumerationVariantView {
    pub name: Seq<char>,
    pub discriminant: Option<u64>,
    pub kind: DebugItem,
    pub offset: StructOffset,
}

impl View for EnumerationVariant {
    type V = EnumerationVariantView;

    open spec fn view(&self) -> EnumerationVariantView {
        EnumerationVariantView {
            name: self.name@,
            discriminant: self.discriminant,
            kind: self.kind,
            offset: self.offset,
        }
    }
}

impl EnumerationVariant {
    pub fn name(&self) -> (r: &str)
        ensures
            r@ == self@.name,
    {
        self.name.as_str()
    }

    pub fn kind(&self) -> (r: DebugItem)
        ensures
            r == self@.kind,
    {
        self.kind
    }

    pub fn offset(&self) -> (r: StructOffset)
        ensures
            r == self@.offset,
    {
        self.offset
    }

    pub fn discriminant(&self) -> (r: Option<u64>)
        ensures
            r == self@.discriminant,
    {
        self.discriminant
    }
}

/// The views of a list of variants, in order.
pub open spec fn variants_view(variants: Seq<EnumerationVariant>) -> Seq<EnumerationVariantView> {
    variants.map_values(|v: EnumerationVariant| v@)
}

/// The first variant called `name`, if any.
pub open spec fn variant_named(variants: Seq<EnumerationVariantView>, name: Seq<char>) -> Option<
    int,
> {
    first_where(variants, |v: EnumerationVariantView| v.name == name)
}

/// The variant that a discriminant selects: the first one that carries this
/// discriminant; failing that, the first one that carries none (the niche, or
/// default, variant).
pub open spec fn variant_with_discriminant(
    variants: Seq<EnumerationVariantView>,
    discriminant: u64,
) -> Option<int> {
    match first_where(
        variants,
        |v: EnumerationVariantView| v.discriminant == Some(discriminant),
    ) {
        Some(i) => Some(i),
        None => first_where(variants, |v: EnumerationVariantView| v.discriminant is None),
    }
}

/// A tagged sum type.
#[derive(Debug)]
pub struct Enumeration {
    pub name: String,
    pub namespace: String,
    pub discriminant_offset: StructOffset,
    pub discriminant_kind: DebugItem,
    pub size: u64,
    pub variants: Vec<EnumerationVariant>,
}

/// An enumeration with its strings as sequences of characters.
pub struct EnumerationView {
    pub name: Seq<char>,
    pub namespace: Seq<char>,
    pub discriminant_offset: StructOffset,
    pub discriminant_kind: DebugItem,
    pub size: u64,
    pub variants: Seq<EnumerationVariantView>,
}

impl View for Enumeration {
    type V = EnumerationView;

    open spec fn view(&self) -> EnumerationView {
        EnumerationView {
            name: self.name@,
            namespace: self.namespace@,
            discriminant_offset: self.discriminant_offset,
            discriminant_kind: self.discriminant_kind,
            size: self.size,
            variants: variants_view(self.variants@),
        }
    }
}

impl Enumeration {
    pub fn name(&self) -> (r: &str)
        ensures
            r@ == self@.name,
    {
        self.name.as_str()
    }

    /// The names of the enclosing namespaces, joined by `::`.
    pub fn namespace(&self) -> (r: &str)
        ensures
            r@ == self@.namespace,
    {
        self.namespace.as_str()
    }

    pub fn size(&self) -> (r: u64)
        ensures
            r == self@.size,
    {
        self.size
    }

    /// The variant that `discriminant` selects: the first variant that carries
    /// it, else the first variant without a discriminant, else none.
    pub fn variant_with_discriminant(&self, discriminant: usize) -> (r: Option<
        &EnumerationVariant,
    >)
        ensures
            match variant_with_discriminant(self@.variants, discriminant as u64) {
                Some(i) => r matches Some(v) && v@ == self@.variants[i],
                None => r is None,
            },
    {
        let wanted: u64 = discriminant as u64;
        let ghost views = variants_view(self.variants@);
        let ghost p = |v: EnumerationVariantView| v.discriminant == Some(wanted);
        let ghost q = |v: EnumerationVariantView| v.discriminant is None;
        let mut i: usize = 0;
        while i < self.variants.len()
            invariant
                i <= self.variants.len(),
                views == variants_view(self.variants@),
                wanted == discriminant as u64,
                p == (|v: EnumerationVariantView| v.discriminant == Some(wanted)),
                forall|j: int| 0 <= j < i ==> !p(#[trigger] views[j]),
            decreases self.variants.len() - i,
        {
            if self.variants[i].discriminant == Some(wanted) {
                proof {
                    assert(p(views[i as int]));
                    lemma_first_where_found(views, p, i as int);
                }
                return Some(&self.variants[i]);
            }
            assert(!p(views[i as int]));
            i += 1;
        }
        proof {
            lemma_first_where_absent(views, p);
        }
        let mut k: usize = 0;
        while k < self.variants.len()
            invariant
                k <= self.variants.len(),
                views == variants_view(self.variants@),
                wanted == discriminant as u64,
                p == (|v: EnumerationVariantView| v.discriminant == Some(wanted)),
                q == (|v: EnumerationVariantView| v.discriminant is None),
                first_where(views, p) is None,
                forall|j: int| 0 <= j < k ==> !q(#[trigger] views[j]),
            decreases self.variants.len() - k,
        {
            if self.variants[k].discriminant.is_none() {
                proof {
                    assert(q(views[k as int]));
                    lemma_first_where_found(views, q, k as int);
                }
                return Some(&self.variants[k]);
            }
            assert(!q(views[k as int]));
            k += 1;
        }
        proof {
            lemma_first_where_absent(views, q);
        }
        None
    }

    /// The first variant called `name`.
    pub fn variant_named(&self, name: &str) -> (r: Option<&EnumerationVariant>)
        ensures
            match variant_named(self@.variants, name@) {
                Some(i) => r matches Some(v) && v@ == self@.variants[i],
                None => r is None,
            },
    {
        let ghost views = variants_view(self.variants@);
        let ghost p = |v: EnumerationVariantView| v.name == name@;
        let mut i: usize = 0;
        while i < self.variants.len()
            invariant
                i <= self.variants.len(),
                views == variants_view(self.variants@),
                p == (|v: EnumerationVariantView| v.name == name@),
                forall|j: int| 0 <= j < i ==> !p(#[trigger] views[j]),
            decreases self.variants.len() - i,
        {
            if str_eq(self.variants[i].name.as_str(), name) {
                proof {
                    assert(p(views[i as int]));
                    lemma_first_where_found(views, p, i as int);
                }
                return Some(&self.variants[i]);
            }
            assert(!p(views[i as int]));
            i += 1;
        }
        proof {
            lemma_first_where_absent(views, p);
        }
        None
    }

    pub fn variants(&self) -> (r: &[EnumerationVariant])
        ensures
            variants_view(r@) == self@.variants,
    {
        self.variants.as_slice()
    }

    pub fn discriminant_offset(&self) -> (r: StructOffset)
        ensures
            r == self@.discriminant_offset,
    {
        self.discriminant_offset
    }

    pub fn discriminant_kind(&self) -> (r: DebugItem)
        ensures
            r == self@.discriminant_kind,
    {
        self.discriminant_kind
    }
}

/// A product type, or the body of a sum type before it is recognised as one.
#[derive(Debug)]
pub struct Structure {
    pub name: String,
    pub namespace: String,
    pub members: Vec<StructureMember>,
    pub size: u64,
    pub containing_type: Option<DebugItem>,
}

/// A structure with its strings as sequences of characters.
pub struct StructureView {
    pub name: Seq<char>,
    pub namespace: Seq<char>,
    pub members: Seq<StructureMemberView>,
    pub size: u64,
    pub containing_type: Option<DebugItem>,
}

impl View for Structure {
    type V = StructureView;

    open spec fn view(&self) -> StructureView {
        StructureView {
            name: self.name@,
            namespace: self.namespace@,
            members: members_view(self.members@),
            size: self.size,
            containing_type: self.containing_type,
        }
    }
}

impl Structure {
    pub fn name(&self) -> (r: &str)
        ensures
            r@ == self@.name,
    {
        self.name.as_str()
    }

    /// The names of the enclosing namespaces, joined by `::`.
    pub fn namespace(&self) -> (r: &str)
        ensures
            r@ == self@.namespace,
    {
        self.namespace.as_str()
    }

    pub fn members(&self) -> (r: &[StructureMember])
        ensures
            members_view(r@) == self@.members,
    {
        self.members.as_slice()
    }

    /// The first member called `name`.
    pub fn member_named(&self, name: &str) -> (r: Option<&StructureMember>)
        ensures
            match member_named(self@.members, name@) {
                Some(i) => r matches Some(m) && m@ == self@.members[i],
                None => r is None,
            },
    {
        find_member(&self.members, name)
    }

    pub fn size(&self) -> (r: u64)
        ensures
            r == self@.size,
    {
        self.size
    }

    pub fn containing_type(&self) -> (r: Option<DebugItem>)
        ensures
            r == self@.containing_type,
    {
        self.containing_type
    }
}

/// A fixed number of elements of one type.
#[derive(Debug, Clone, Copy)]
pub struct Array {
    pub kind: DebugItem,
    pub lower_bound: u64,
    pub count: usize,
}

impl Array {
    pub fn kind(&self) -> (r: DebugItem)
        ensures
            r == self.kind,
    {
        self.kind
    }

    pub fn count(&self) -> (r: usize)
        ensures
            r == self.count,
    {
        self.count
    }

    pub fn lower_bound(&self) -> (r: u64)
        ensures
            r == self.lower_bound,
    {
        self.lower_bound
    }
}

/// A variable with a fixed address.
#[derive(Debug)]
pub struct Variable {
    pub name: String,
    pub kind: DebugItem,
    pub location: MemoryLocation,
    pub linkage_name: Option<String>,
    pub line: Option<u64>,
    pub file: Option<FileName>,
}

/// A variable with its strings as sequences of characters.
pub struct VariableView {
    pub name: Seq<char>,
    pub kind: DebugItem,
    pub location: MemoryLocation,
    pub linkage_name: Option<Seq<char>>,
    pub line: Option<u64>,
    pub file: Option<Seq<char>>,
}

impl View for Variable {
    type V = VariableView;

    open spec fn view(&self) -> VariableView {
        VariableView {
            name: self.name@,
            kind: self.kind,
            location: self.location,
            linkage_name: opt_view(self.linkage_name),
            line: self.line,
            file: match self.file {
                Some(f) => Some(f.0@),
                None => None,
            },
        }
    }
}

impl Variable {
    pub fn name(&self) -> (r: &str)
        ensures
            r@ == self@.name,
    {
        self.name.as_str()
    }

    pub fn kind(&self) -> (r: DebugItem)
        ensures
            r == self@.kind,
    {
        self.kind
    }

    pub fn location(&self) -> (r: MemoryLocation)
        ensures
            r == self@.location,
    {
        self.location
    }

    pub fn file(&self) -> (r: Option<&str>)
        ensures
            r.is_some() == self@.file.is_some(),
            r matches Some(s) ==> Some(s@) == self@.file,
    {
        match &self.file {
            Some(f) => Some(f.0.as_str()),
            None => None,
        }
    }

    pub fn line(&self) -> (r: Option<u64>)
        ensures
            r == self@.line,
    {
        self.line
    }
}

/// The kinds of symbol that a unit registers.
#[derive(Debug, PartialEq, Eq, Clone, Copy, Structural)]
pub enum SymbolKind {
    Variable,
    Structure,
    Enumeration,
    Array,
    Pointer,
    BaseType,
    Union,
}

/// Where a registered item is kept: the list of its kind, and its position there.
#[derive(Debug, PartialEq, Eq, Clone, Copy, Structural)]
pub struct Slot {
    pub kind: SymbolKind,
    pub index: usize,
}

/// The symbols of one compilation unit, as plain mathematical values.
///
/// For each kind there is the list of the records, in the order in which
/// they were registered, and beside it the list of the items under which they
/// were registered: the record at a position is registered under the item at
/// the same position.
pub struct UnitModel {
    pub variables: Seq<VariableView>,
    pub variable_ids: Seq<DebugItem>,
    pub structures: Seq<StructureView>,
    pub structure_ids: Seq<DebugItem>,
    pub enumerations: Seq<EnumerationView>,
    pub enumeration_ids: Seq<DebugItem>,
    pub arrays: Seq<Array>,
    pub array_ids: Seq<DebugItem>,
    pub pointers: Seq<PointerView>,
    pub pointer_ids: Seq<DebugItem>,
    pub base_types: Seq<BaseTypeView>,
    pub base_type_ids: Seq<DebugItem>,
    pub unions: Seq<UnionView>,
    pub union_ids: Seq<DebugItem>,
    /// Positions of variables by linkage name and by qualified name.
    pub variable_names: Map<Seq<char>, usize>,
    /// Positions of variables by demangled name.
    pub demangled_variable_names: Map<Seq<char>, usize>,
}

impl UnitModel {
    /// A unit without symbols.
    pub open spec fn empty() -> UnitModel {
        UnitModel {
            variables: Seq::empty(),
            variable_ids: Seq::empty(),
            structures: Seq::empty(),
            structure_ids: Seq::empty(),
            enumerations: Seq::empty(),
            enumeration_ids: Seq::empty(),
            arrays: Seq::empty(),
            array_ids: Seq::empty(),
            pointers: Seq::empty(),
            pointer_ids: Seq::empty(),
            base_types: Seq::empty(),
            base_type_ids: Seq::empty(),
            unions: Seq::empty(),
            union_ids: Seq::empty(),
            variable_names: Map::empty(),
            demangled_variable_names: Map::empty(),
        }
    }

    /// The items under which the records of a kind are registered.
    pub open spec fn ids(self, kind: SymbolKind) -> Seq<DebugItem> {
        match kind {
            SymbolKind::Variable => self.variable_ids,
            SymbolKind::Structure => self.structure_ids,
            SymbolKind::Enumeration => self.enumeration_ids,
            SymbolKind::Array => self.array_ids,
            SymbolKind::Pointer => self.pointer_ids,
            SymbolKind::BaseType => self.base_type_ids,
            SymbolKind::Union => self.union_ids,
        }
    }

    /// The number of records of a kind.
    pub open spec fn count(self, kind: SymbolKind) -> nat {
        match kind {
            SymbolKind::Variable => self.variables.len(),
            SymbolKind::Structure => self.structures.len(),
            SymbolKind::Enumeration => self.enumerations.len(),
            SymbolKind::Array => self.arrays.len(),
            SymbolKind::Pointer => self.pointers.len(),
            SymbolKind::BaseType => self.base_types.len(),
            SymbolKind::Union => self.unions.len(),
        }
    }

    /// Whether an item is registered, under whatever kind.
    pub open spec fn contains(self, id: DebugItem) -> bool {
        exists|kind: SymbolKind| #[trigger] self.ids(kind).contains(id)
    }

    /// The position of the record of a kind that is registered under an item.
    pub open spec fn index_of(self, kind: SymbolKind, id: DebugItem) -> Option<int> {
        first_where(self.ids(kind), |x: DebugItem| x.offset == id.offset)
    }

    /// Every record has its item, and no item is registered twice, be it
    /// under one kind or under two.
    pub open spec fn wf(self) -> bool {
        &&& forall|kind: SymbolKind| #[trigger] self.ids(kind).len() == self.count(kind)
        &&& forall|k1: SymbolKind, i1: int, k2: SymbolKind, i2: int|
            #![trigger self.ids(k1)[i1], self.ids(k2)[i2]]
            0 <= i1 < self.ids(k1).len() && 0 <= i2 < self.ids(k2).len() && self.ids(k1)[i1]
                == self.ids(k2)[i2] ==> k1 == k2 && i1 == i2
    }

    /// The variable registered under an item.
    pub open spec fn variable_from_item(self, id: DebugItem) -> Option<VariableView> {
        match self.index_of(SymbolKind::Variable, id) {
            Some(i) => Some(self.variables[i]),
            None => None,
        }
    }

    /// The structure registered under an item.
    pub open spec fn structure_from_item(self, id: DebugItem) -> Option<StructureView> {
        match self.index_of(SymbolKind::Structure, id) {
            Some(i) => Some(self.structures[i]),
            None => None,
        }
    }

    /// The enumeration registered under an item.
    pub open spec fn enumeration_from_item(self, id: DebugItem) -> Option<EnumerationView> {
        match self.index_of(SymbolKind::Enumeration, id) {
            Some(i) => Some(self.enumerations[i]),
            None => None,
        }
    }

    /// The array registered under an item.
    pub open spec fn array_from_item(self, id: DebugItem) -> Option<Array> {
        match self.index_of(SymbolKind::Array, id) {
            Some(i) => Some(self.arrays[i]),
            None => None,
        }
    }

    /// The pointer registered under an item.
    pub open spec fn pointer_from_item(self, id: DebugItem) -> Option<PointerView> {
        match self.index_of(SymbolKind::Pointer, id) {
            Some(i) => Some(self.pointers[i]),
            None => None,
        }
    }

    /// The base type registered under an item.
    pub open spec fn base_type_from_item(self, id: DebugItem) -> Option<BaseTypeView> {
        match self.index_of(SymbolKind::BaseType, id) {
            Some(i) => Some(self.base_types[i]),
            None => None,
        }
    }

    /// The union registered under an item.
    pub open spec fn union_from_item(self, id: DebugItem) -> Option<UnionView> {
        match self.index_of(SymbolKind::Union, id) {
            Some(i) => Some(self.unions[i]),
            None => None,
        }
    }

    /// The variable entered under a name: none where the name is not entered,
    /// or where the position entered for it holds no variable.
    pub open spec fn variable_at(self, names: Map<Seq<char>, usize>, name: Seq<char>) -> Option<
        VariableView,
    > {
        if names.contains_key(name) && names[name] < self.variables.len() {
            Some(self.variables[names[name] as int])
        } else {
            None
        }
    }

    /// The size of the type registered under an item: the stored size of a
    /// structure, an enumeration, a base type or a union; none for an array
    /// or a pointer, and none for an item that is no type.
    pub open spec fn size_from_item(self, id: DebugItem) -> Option<StructOffset> {
        if let Some(s) = self.structure_from_item(id) {
            Some(StructOffset(s.size))
        } else if let Some(e) = self.enumeration_from_item(id) {
            Some(StructOffset(e.size))
        } else if self.array_from_item(id) is Some {
            None
        } else if self.pointer_from_item(id) is Some {
            None
        } else if let Some(b) = self.base_type_from_item(id) {
            Some(StructOffset(b.size))
        } else if let Some(u) = self.union_from_item(id) {
            Some(StructOffset(u.size))
        } else {
            None
        }
    }

    /// The name of the type registered under an item; an array has none.
    pub open spec fn name_from_kind(self, id: DebugItem) -> Option<Seq<char>> {
        if let Some(s) = self.structure_from_item(id) {
            Some(s.name)
        } else if let Some(e) = self.enumeration_from_item(id) {
            Some(e.name)
        } else if self.array_from_item(id) is Some {
            None
        } else if let Some(p) = self.pointer_from_item(id) {
            p.name
        } else if let Some(b) = self.base_type_from_item(id) {
            Some(b.name)
        } else if let Some(u) = self.union_from_item(id) {
            Some(u.name)
        } else {
            None
        }
    }

    /// Whether the variable `v` is entered at position `i` under its names:
    /// a variable with a linkage name is entered under that name and under
    /// its demangled form; where its qualified name differs from the linkage
    /// name, it is entered under the qualified name and its demangled form
    /// too.
    pub open spec fn names_cover(self, v: VariableView, i: int) -> bool {
        v.linkage_name matches Some(l) ==> {
            &&& self.variable_names.contains_key(l)
            &&& self.variable_names[l] == i
            &&& self.demangled_variable_names.contains_key(demangled(l))
            &&& self.demangled_variable_names[demangled(l)] == i
            &&& l != v.name ==> {
                &&& self.variable_names.contains_key(v.name)
                &&& self.variable_names[v.name] == i
                &&& self.demangled_variable_names.contains_key(demangled(v.name))
                &&& self.demangled_variable_names[demangled(v.name)] == i
            }
        }
    }

    /// Every variable is entered under its names.
    pub open spec fn names_wf(self) -> bool {
        forall|i: int|
            0 <= i < self.variables.len() ==> self.names_cover(#[trigger] self.variables[i], i)
    }

    /// All registered items: arrays first, then base types, enumerations,
    /// pointers, structures, unions and variables.
    pub open spec fn all_symbols(self) -> Seq<DebugItem> {
        self.array_ids + self.base_type_ids + self.enumeration_ids + self.pointer_ids
            + self.structure_ids + self.union_ids + self.variable_ids
    }
}

/// What a concatenation contains is what its parts contain.
pub proof fn lemma_concat_contains(a: Seq<DebugItem>, b: Seq<DebugItem>)
    ensures
        forall|x: DebugItem| #[trigger] (a + b).contains(x) == (a.contains(x) || b.contains(x)),
{
    assert forall|x: DebugItem| #[trigger] (a + b).contains(x) == (a.contains(x) || b.contains(
        x,
    )) by {
        if (a + b).contains(x) {
            let i = choose|i: int| 0 <= i < (a + b).len() && (a + b)[i] == x;
            if i < a.len() {
                assert(a[i] == x);
            } else {
                assert(b[i - a.len()] == x);
            }
        }
        if a.contains(x) {
            let i = choose|i: int| 0 <= i < a.len() && a[i] == x;
            assert((a + b)[i] == x);
        }
        if b.contains(x) {
            let i = choose|i: int| 0 <= i < b.len() && b[i] == x;
            assert((a + b)[a.len() + i] == x);
        }
    }
}

/// Two lists without repetitions that share no element concatenate to a
/// list without repetitions.
pub proof fn lemma_concat_distinct(a: Seq<DebugItem>, b: Seq<DebugItem>)
    requires
        a.no_duplicates(),
        b.no_duplicates(),
        forall|x: DebugItem| !(a.contains(x) && b.contains(x)),
    ensures
        (a + b).no_duplicates(),
{
    assert forall|i: int, j: int| 0 <= i < (a + b).len() && 0 <= j < (a + b).len() && i
        != j implies (a + b)[i] != (a + b)[j] by {
        if i < a.len() && j >= a.len() {
            assert(a.contains(a[i]));
            assert(b.contains(b[j - a.len()]));
        } else if j < a.len() && i >= a.len() {
            assert(a.contains(a[j]));
            assert(b.contains(b[i - a.len()]));
        }
    }
}

/// In a well-formed model the items of one kind do not repeat.
pub proof fn lemma_ids_distinct(m: UnitModel, kind: SymbolKind)
    requires
        m.wf(),
    ensures
        m.ids(kind).no_duplicates(),
{
    assert forall|i: int, j: int|
        0 <= i < m.ids(kind).len() && 0 <= j < m.ids(kind).len() && i != j implies m.ids(
        kind,
    )[i] != m.ids(kind)[j] by {
        if m.ids(kind)[i] == m.ids(kind)[j] {
            assert(kind == kind && i == j);
        }
    }
}

/// In a well-formed model no item is of two kinds.
pub proof fn lemma_kinds_disjoint(m: UnitModel, k1: SymbolKind, k2: SymbolKind)
    requires
        m.wf(),
        k1 != k2,
    ensures
        forall|x: DebugItem| !(m.ids(k1).contains(x) && m.ids(k2).contains(x)),
{
    assert forall|x: DebugItem| !(m.ids(k1).contains(x) && m.ids(k2).contains(x)) by {
        if m.ids(k1).contains(x) && m.ids(k2).contains(x) {
            let i = choose|i: int| 0 <= i < m.ids(k1).len() && m.ids(k1)[i] == x;
            let j = choose|j: int| 0 <= j < m.ids(k2).len() && m.ids(k2)[j] == x;
            assert(m.ids(k1)[i] == m.ids(k2)[j]);
        }
    }
}

/// The list of all symbols of a well-formed model holds each registered
/// item, once, and nothing else.
pub proof fn lemma_all_symbols(m: UnitModel)
    requires
        m.wf(),
    ensures
        m.all_symbols().no_duplicates(),
        forall|x: DebugItem| #[trigger] m.all_symbols().contains(x) == m.contains(x),
{
    let a = m.ids(SymbolKind::Array);
    let b = m.ids(SymbolKind::BaseType);
    let e = m.ids(SymbolKind::Enumeration);
    let p = m.ids(SymbolKind::Pointer);
    let s = m.ids(SymbolKind::Structure);
    let u = m.ids(SymbolKind::Union);
    let v = m.ids(SymbolKind::Variable);
    lemma_ids_distinct(m, SymbolKind::Array);
    lemma_ids_distinct(m, SymbolKind::BaseType);
    lemma_ids_distinct(m, SymbolKind::Enumeration);
    lemma_ids_distinct(m, SymbolKind::Pointer);
    lemma_ids_distinct(m, SymbolKind::Structure);
    lemma_ids_distinct(m, SymbolKind::Union);
    lemma_ids_distinct(m, SymbolKind::Variable);
    lemma_kinds_disjoint(m, SymbolKind::Array, SymbolKind::BaseType);
    lemma_kinds_disjoint(m, SymbolKind::Array, SymbolKind::Enumeration);
    lemma_kinds_disjoint(m, SymbolKind::Array, SymbolKind::Pointer);
    lemma_kinds_disjoint(m, SymbolKind::Array, SymbolKind::Structure);
    lemma_kinds_disjoint(m, SymbolKind::Array, SymbolKind::Union);
    lemma_kinds_disjoint(m, SymbolKind::Array, SymbolKind::Variable);
    lemma_kinds_disjoint(m, SymbolKind::BaseType, SymbolKind::Enumeration);
    lemma_kinds_disjoint(m, SymbolKind::BaseType, SymbolKind::Pointer);
    lemma_kinds_disjoint(m, SymbolKind::BaseType, SymbolKind::Structure);
    lemma_kinds_disjoint(m, SymbolKind::BaseType, SymbolKind::Union);
    lemma_kinds_disjoint(m, SymbolKind::BaseType, SymbolKind::Variable);
    lemma_kinds_disjoint(m, SymbolKind::Enumeration, SymbolKind::Pointer);
    lemma_kinds_disjoint(m, SymbolKind::Enumeration, SymbolKind::Structure);
    lemma_kinds_disjoint(m, SymbolKind::Enumeration, SymbolKind::Union);
    lemma_kinds_disjoint(m, SymbolKind::Enumeration, SymbolKind::Variable);
    lemma_kinds_disjoint(m, SymbolKind::Pointer, SymbolKind::Structure);
    lemma_kinds_disjoint(m, SymbolKind::Pointer, SymbolKind::Union);
    lemma_kinds_disjoint(m, SymbolKind::Pointer, SymbolKind::Variable);
    lemma_kinds_disjoint(m, SymbolKind::Structure, SymbolKind::Union);
    lemma_kinds_disjoint(m, SymbolKind::Structure, SymbolKind::Variable);
    lemma_kinds_disjoint(m, SymbolKind::Union, SymbolKind::Variable);
    lemma_concat_contains(a, b);
    lemma_concat_distinct(a, b);
    lemma_concat_contains(a + b, e);
    lemma_concat_distinct(a + b, e);
    lemma_concat_contains(a + b + e, p);
    lemma_concat_distinct(a + b + e, p);
    lemma_concat_contains(a + b + e + p, s);
    lemma_concat_distinct(a + b + e + p, s);
    lemma_concat_contains(a + b + e + p + s, u);
    lemma_concat_distinct(a + b + e + p + s, u);
    lemma_concat_contains(a + b + e + p + s + u, v);
    lemma_concat_distinct(a + b + e + p + s + u, v);
    assert(m.all_symbols() == a + b + e + p + s + u + v);
    assert forall|x: DebugItem| #[trigger] m.all_symbols().contains(x) == m.contains(x) by {
        if m.contains(x) {
            let kind = choose|kind: SymbolKind| #[trigger] m.ids(kind).contains(x);
            match kind {
                SymbolKind::Variable => {},
                SymbolKind::Structure => {},
                SymbolKind::Enumeration => {},
                SymbolKind::Array => {},
                SymbolKind::Pointer => {},
                SymbolKind::BaseType => {},
                SymbolKind::Union => {},
            }
        }
        if m.all_symbols().contains(x) {
            assert(a.contains(x) || b.contains(x) || e.contains(x) || p.contains(x) || s.contains(
                x,
            ) || u.contains(x) || v.contains(x));
        }
    }
}

/// Whether an index of slots agrees with a model: the slot of an item names
/// the kind and position under which the model registers it, and every
/// registered item has its slot.
pub open spec fn linked(m: UnitModel, items: Map<u64, Slot>) -> bool {
    &&& forall|kind: SymbolKind| #[trigger]
        m.ids(kind).len() == m.count(kind) && m.count(kind) <= usize::MAX
    &&& forall|key: u64| #[trigger]
        items.contains_key(key) ==> items[key].index < m.ids(items[key].kind).len() && m.ids(
            items[key].kind,
        )[items[key].index as int] == (DebugItem { offset: key })
    &&& forall|kind: SymbolKind, i: int|
        0 <= i < m.ids(kind).len() ==> items.contains_key((#[trigger] m.ids(kind)[i]).offset)
            && items[m.ids(kind)[i].offset] == (Slot { kind, index: i as usize })
}

/// A model whose items all have agreeing slots registers no item twice.
pub proof fn lemma_linked_wf(m: UnitModel, items: Map<u64, Slot>)
    requires
        linked(m, items),
    ensures
        m.wf(),
{
    assert forall|k1: SymbolKind, i1: int, k2: SymbolKind, i2: int|
        #![trigger m.ids(k1)[i1], m.ids(k2)[i2]]
        0 <= i1 < m.ids(k1).len() && 0 <= i2 < m.ids(k2).len() && m.ids(k1)[i1] == m.ids(
            k2,
        )[i2] implies k1 == k2 && i1 == i2 by {
        let key = m.ids(k1)[i1].offset;
        assert(items[key] == Slot { kind: k1, index: i1 as usize });
        assert(items[key] == Slot { kind: k2, index: i2 as usize });
    }
    assert forall|kind: SymbolKind| #[trigger] m.ids(kind).len() == m.count(kind) by {
        assert(m.ids(kind).len() == m.count(kind) && m.count(kind) <= usize::MAX);
    }
}

/// What the slot of an item says of the model: an item is registered just
/// when it has a slot; its record is then at the slot's position in the list
/// of the slot's kind, and it is under no other kind.
pub proof fn lemma_linked_lookup(m: UnitModel, items: Map<u64, Slot>, id: DebugItem)
    requires
        linked(m, items),
    ensures
        items.contains_key(id.offset) == m.contains(id),
        items.contains_key(id.offset) ==> m.index_of(items[id.offset].kind, id) == Some(
            items[id.offset].index as int,
        ),
        forall|kind: SymbolKind|
            !(items.contains_key(id.offset) && items[id.offset].kind == kind)
                ==> #[trigger] m.index_of(kind, id) is None,
{
    let p = |x: DebugItem| x.offset == id.offset;
    if items.contains_key(id.offset) {
        let s = items[id.offset];
        let ids = m.ids(s.kind);
        assert(ids[s.index as int] == id);
        assert(ids.contains(id));
        assert forall|j: int| 0 <= j < s.index implies !p(#[trigger] ids[j]) by {
            if ids[j] == id {
                assert(items[ids[j].offset] == Slot { kind: s.kind, index: j as usize });
            }
        }
        lemma_first_where_found(ids, p, s.index as int);
    } else {
        if m.contains(id) {
            let kind = choose|kind: SymbolKind| #[trigger] m.ids(kind).contains(id);
            let i = choose|i: int| 0 <= i < m.ids(kind).len() && m.ids(kind)[i] == id;
            assert(items.contains_key(m.ids(kind)[i].offset));
        }
    }
    assert forall|kind: SymbolKind|
        !(items.contains_key(id.offset) && items[id.offset].kind == kind)
            implies #[trigger] m.index_of(kind, id) is None by {
        let ids = m.ids(kind);
        assert forall|j: int| 0 <= j < ids.len() implies !p(#[trigger] ids[j]) by {
            if ids[j] == id {
                assert(items[ids[j].offset] == Slot { kind, index: j as usize });
            }
        }
        lemma_first_where_absent(ids, p);
    }
}

/// Registering a new item at the end of the list of a kind, with its slot,
/// keeps model and slots in agreement.
pub proof fn lemma_linked_register(
    m: UnitModel,
    items: Map<u64, Slot>,
    kind: SymbolKind,
    id: DebugItem,
    m2: UnitModel,
)
    requires
        linked(m, items),
        !items.contains_key(id.offset),
        m2.ids(kind) == m.ids(kind).push(id),
        forall|k: SymbolKind| k != kind ==> #[trigger] m2.ids(k) == m.ids(k),
        forall|k: SymbolKind|
            #[trigger] m2.ids(k).len() == m2.count(k) && m2.count(k) <= usize::MAX,
    ensures
        linked(m2, items.insert(id.offset, Slot { kind, index: m.ids(kind).len() as usize })),
{
    let items2 = items.insert(id.offset, Slot { kind, index: m.ids(kind).len() as usize });
    assert forall|key: u64| #[trigger] items2.contains_key(key) implies items2[key].index < m2.ids(
        items2[key].kind,
    ).len() && m2.ids(items2[key].kind)[items2[key].index as int] == (DebugItem {
        offset: key,
    }) by {
        if key != id.offset {
            assert(items.contains_key(key));
            let s = items[key];
            if s.kind != kind {
                assert(m2.ids(s.kind) == m.ids(s.kind));
            }
        }
    }
    assert forall|k: SymbolKind, i: int| 0 <= i < m2.ids(k).len() implies items2.contains_key(
        (#[trigger] m2.ids(k)[i]).offset,
    ) && items2[m2.ids(k)[i].offset] == (Slot { kind: k, index: i as usize }) by {
        if k == kind && i == m.ids(kind).len() {
        } else {
            if k != kind {
                assert(m2.ids(k) == m.ids(k));
            }
            assert(m2.ids(k)[i] == m.ids(k)[i]);
            assert(items.contains_key(m.ids(k)[i].offset));
        }
    }
}

/// Moving the last structure's item to the end of the enumerations, with a
/// new slot for it, keeps model and slots in agreement.
pub proof fn lemma_linked_promote(m: UnitModel, items: Map<u64, Slot>, m2: UnitModel)
    requires
        linked(m, items),
        m.structure_ids.len() > 0,
        m2.structure_ids == m.structure_ids.drop_last(),
        m2.enumeration_ids == m.enumeration_ids.push(m.structure_ids.last()),
        forall|k: SymbolKind|
            k != SymbolKind::Structure && k != SymbolKind::Enumeration ==> #[trigger] m2.ids(k)
                == m.ids(k),
        forall|k: SymbolKind|
            #[trigger] m2.ids(k).len() == m2.count(k) && m2.count(k) <= usize::MAX,
    ensures
        linked(
            m2,
            items.insert(
                m.structure_ids.last().offset,
                Slot { kind: SymbolKind::Enumeration, index: m.enumeration_ids.len() as usize },
            ),
        ),
{
    let id = m.structure_ids.last();
    let last = m.structure_ids.len() - 1;
    let items2 = items.insert(
        id.offset,
        Slot { kind: SymbolKind::Enumeration, index: m.enumeration_ids.len() as usize },
    );
    assert(m.ids(SymbolKind::Structure)[last] == id);
    assert(items[id.offset] == Slot { kind: SymbolKind::Structure, index: last as usize });
    assert(m2.ids(SymbolKind::Structure) == m.ids(SymbolKind::Structure).drop_last());
    assert(m2.ids(SymbolKind::Enumeration) == m.ids(SymbolKind::Enumeration).push(id));
    assert forall|key: u64| #[trigger] items2.contains_key(key) implies items2[key].index < m2.ids(
        items2[key].kind,
    ).len() && m2.ids(items2[key].kind)[items2[key].index as int] == (DebugItem {
        offset: key,
    }) by {
        if key != id.offset {
            assert(items.contains_key(key));
            let s = items[key];
            if s.kind == SymbolKind::Structure {
                assert(m.ids(s.kind)[s.index as int] == DebugItem { offset: key });
                assert(s.index != last);
            } else if s.kind == SymbolKind::Enumeration {
            } else {
                assert(m2.ids(s.kind) == m.ids(s.kind));
            }
        }
    }
    assert forall|k: SymbolKind, i: int| 0 <= i < m2.ids(k).len() implies items2.contains_key(
        (#[trigger] m2.ids(k)[i]).offset,
    ) && items2[m2.ids(k)[i].offset] == (Slot { kind: k, index: i as usize }) by {
        if k == SymbolKind::Enumeration && i == m.enumeration_ids.len() {
        } else {
            if k != SymbolKind::Enumeration && k != SymbolKind::Structure {
                assert(m2.ids(k) == m.ids(k));
            }
            assert(m2.ids(k)[i] == m.ids(k)[i]);
            assert(items.contains_key(m.ids(k)[i].offset));
            if m.ids(k)[i].offset == id.offset {
                assert(items[id.offset] == Slot { kind: k, index: i as usize });
            }
        }
    }
}

/// The symbols of one compilation unit: the records of each kind, the items
/// under which they are registered, and the indexes that find them.
#[derive(Debug)]
pub struct SymbolCache {
    variables: Vec<Variable>,
    variable_ids: Vec<DebugItem>,
    structures: Vec<Structure>,
    structure_ids: Vec<DebugItem>,
    enumerations: Vec<Enumeration>,
    enumeration_ids: Vec<DebugItem>,
    arrays: Vec<Array>,
    array_ids: Vec<DebugItem>,
    pointers: Vec<Pointer>,
    pointer_ids: Vec<DebugItem>,
    base_types: Vec<BaseType>,
    base_type_ids: Vec<DebugItem>,
    unions: Vec<Union>,
    union_ids: Vec<DebugItem>,
    /// The slot of each registered item, by the item's offset.
    items: HashMap<u64, Slot>,
    variable_names: NameIndex,
    demangled_variable_names: NameIndex,
}

impl View for SymbolCache {
    type V = UnitModel;

    closed spec fn view(&self) -> UnitModel {
        UnitModel {
            variables: self.variables@.map_values(|v: Variable| v@),
            variable_ids: self.variable_ids@,
            structures: self.structures@.map_values(|s: Structure| s@),
            structure_ids: self.structure_ids@,
            enumerations: self.enumerations@.map_values(|e: Enumeration| e@),
            enumeration_ids: self.enumeration_ids@,
            arrays: self.arrays@,
            array_ids: self.array_ids@,
            pointers: self.pointers@.map_values(|p: Pointer| p@),
            pointer_ids: self.pointer_ids@,
            base_types: self.base_types@.map_values(|b: BaseType| b@),
            base_type_ids: self.base_type_ids@,
            unions: self.unions@.map_values(|u: Union| u@),
            union_ids: self.union_ids@,
            variable_names: self.variable_names@,
            demangled_variable_names: self.demangled_variable_names@,
        }
    }
}

impl SymbolCache {
    /// The slots agree with the lists, and the names with the variables.
    pub closed spec fn inv(&self) -> bool {
        &&& linked(self@, self.items@)
        &&& self@.names_wf()
    }

    /// A cache that agrees with itself is well formed.
    pub proof fn lemma_inv_wf(&self)
        requires
            self.inv(),
        ensures
            self@.wf(),
            self@.names_wf(),
    {
        lemma_linked_wf(self@, self.items@);
    }

    fn new() -> (r: Self)
        ensures
            r.inv(),
            r@ == UnitModel::empty(),
    {
        let r = SymbolCache {
            variables: Vec::new(),
            variable_ids: Vec::new(),
            structures: Vec::new(),
            structure_ids: Vec::new(),
            enumerations: Vec::new(),
            enumeration_ids: Vec::new(),
            arrays: Vec::new(),
            array_ids: Vec::new(),
            pointers: Vec::new(),
            pointer_ids: Vec::new(),
            base_types: Vec::new(),
            base_type_ids: Vec::new(),
            unions: Vec::new(),
            union_ids: Vec::new(),
            items: HashMap::new(),
            variable_names: NameIndex::new(),
            demangled_variable_names: NameIndex::new(),
        };
        proof {
            let m = r@;
            assert(m.variables =~= Seq::empty());
            assert(m.structures =~= Seq::empty());
            assert(m.enumerations =~= Seq::empty());
            assert(m.pointers =~= Seq::empty());
            assert(m.base_types =~= Seq::empty());
            assert(m.unions =~= Seq::empty());
            assert forall|kind: SymbolKind| #[trigger]
                m.ids(kind).len() == m.count(kind) && m.count(kind) <= usize::MAX by {
                match kind {
                    SymbolKind::Variable => {},
                    SymbolKind::Structure => {},
                    SymbolKind::Enumeration => {},
                    SymbolKind::Array => {},
                    SymbolKind::Pointer => {},
                    SymbolKind::BaseType => {},
                    SymbolKind::Union => {},
                }
            }
        }
        r
    }

    /// The slot of an item, if it is registered.
    fn slot(&self, id: DebugItem) -> (r: Option<Slot>)
        requires
            self.inv(),
        ensures
            r.is_some() == self@.contains(id),
            r matches Some(s) ==> self@.index_of(s.kind, id) == Some(s.index as int) && s.index
                < self@.count(s.kind),
            forall|kind: SymbolKind|
                !(r matches Some(s) && s.kind == kind) ==> #[trigger] self@.index_of(kind, id)
                    is None,
    {
        broadcast use vstd::std_specs::hash::group_hash_axioms;

        proof {
            lemma_linked_lookup(self@, self.items@, id);
        }
        match self.items.get(&id.offset) {
            Some(s) => {
                proof {
                    assert(self@.ids(s.kind).len() == self@.count(s.kind) && self@.count(s.kind)
                        <= usize::MAX);
                }
                Some(*s)
            },
            None => None,
        }
    }

    fn push_variable(&mut self, id: DebugItem, variable: Variable)
        requires
            old(self).inv(),
            !old(self)@.contains(id),
            old(self)@.names_cover(variable@, old(self)@.variables.len() as int),
        ensures
            final(self).inv(),
            final(self)@ == (UnitModel {
                variables: old(self)@.variables.push(variable@),
                variable_ids: old(self)@.variable_ids.push(id),
                ..old(self)@
            }),
    {
        broadcast use vstd::std_specs::hash::group_hash_axioms;

        let index = self.variable_ids.len();
        proof {
            lemma_linked_lookup(self@, self.items@, id);
        }
        self.items.insert(id.offset, Slot { kind: SymbolKind::Variable, index });
        self.variables.push(variable);
        self.variable_ids.push(id);
        let records: usize = self.variables.len();
        let items: usize = self.variable_ids.len();
        proof {
            lemma_linked_counts(old(self)@, old(self).items@);
            assert(records == items);
            assert(self@.variables =~= old(self)@.variables.push(variable@));
            lemma_counts(self@);
            lemma_linked_register(old(self)@, old(self).items@, SymbolKind::Variable, id, self@);
        }
    }

    fn push_structure(&mut self, id: DebugItem, structure: Structure)
        requires
            old(self).inv(),
            !old(self)@.contains(id),
        ensures
            final(self).inv(),
            final(self)@ == (UnitModel {
                structures: old(self)@.structures.push(structure@),
                structure_ids: old(self)@.structure_ids.push(id),
                ..old(self)@
            }),
    {
        broadcast use vstd::std_specs::hash::group_hash_axioms;

        let index = self.structure_ids.len();
        proof {
            lemma_linked_lookup(self@, self.items@, id);
        }
        self.items.insert(id.offset, Slot { kind: SymbolKind::Structure, index });
        self.structures.push(structure);
        self.structure_ids.push(id);
        let records: usize = self.structures.len();
        let items: usize = self.structure_ids.len();
        proof {
            lemma_linked_counts(old(self)@, old(self).items@);
            assert(records == items);
            assert(self@.structures =~= old(self)@.structures.push(structure@));
            lemma_counts(self@);
            lemma_linked_register(old(self)@, old(self).items@, SymbolKind::Structure, id, self@);
        }
    }

    fn push_enumeration(&mut self, id: DebugItem, enumeration: Enumeration)
        requires
            old(self).inv(),
            !old(self)@.contains(id),
        ensures
            final(self).inv(),
            final(self)@ == (UnitModel {
                enumerations: old(self)@.enumerations.push(enumeration@),
                enumeration_ids: old(self)@.enumeration_ids.push(id),
                ..old(self)@
            }),
    {
        broadcast use vstd::std_specs::hash::group_hash_axioms;

        let index = self.enumeration_ids.len();
        proof {
            lemma_linked_lookup(self@, self.items@, id);
        }
        self.items.insert(id.offset, Slot { kind: SymbolKind::Enumeration, index });
        self.enumerations.push(enumeration);
        self.enumeration_ids.push(id);
        let records: usize = self.enumerations.len();
        let items: usize = self.enumeration_ids.len();
        proof {
            lemma_linked_counts(old(self)@, old(self).items@);
            assert(records == items);
            assert(self@.enumerations =~= old(self)@.enumerations.push(enumeration@));
            lemma_counts(self@);
            lemma_linked_register(
                old(self)@,
                old(self).items@,
                SymbolKind::Enumeration,
                id,
                self@,
            );
        }
    }

    fn push_array(&mut self, id: DebugItem, array: Array)
        requires
            old(self).inv(),
            !old(self)@.contains(id),
        ensures
            final(self).inv(),
            final(self)@ == (UnitModel {
                arrays: old(self)@.arrays.push(array),
                array_ids: old(self)@.array_ids.push(id),
                ..old(self)@
            }),
    {
        broadcast use vstd::std_specs::hash::group_hash_axioms;

        let index = self.array_ids.len();
        proof {
            lemma_linked_lookup(self@, self.items@, id);
        }
        self.items.insert(id.offset, Slot { kind: SymbolKind::Array, index });
        self.arrays.push(array);
        self.array_ids.push(id);
        let records: usize = self.arrays.len();
        let items: usize = self.array_ids.len();
        proof {
            lemma_linked_counts(old(self)@, old(self).items@);
            assert(records == items);
            lemma_counts(self@);
            lemma_linked_register(old(self)@, old(self).items@, SymbolKind::Array, id, self@);
        }
    }

    fn push_pointer(&mut self, id: DebugItem, pointer: Pointer)
        requires
            old(self).inv(),
            !old(self)@.contains(id),
        ensures
            final(self).inv(),
            final(self)@ == (UnitModel {
                pointers: old(self)@.pointers.push(pointer@),
                pointer_ids: old(self)@.pointer_ids.push(id),
                ..old(self)@
            }),
    {
        broadcast use vstd::std_specs::hash::group_hash_axioms;

        let index = self.pointer_ids.len();
        proof {
            lemma_linked_lookup(self@, self.items@, id);
        }
        self.items.insert(id.offset, Slot { kind: SymbolKind::Pointer, index });
        self.pointers.push(pointer);
        self.pointer_ids.push(id);
        let records: usize = self.pointers.len();
        let items: usize = self.pointer_ids.len();
        proof {
            lemma_linked_counts(old(self)@, old(self).items@);
            assert(records == items);
            assert(self@.pointers =~= old(self)@.pointers.push(pointer@));
            lemma_counts(self@);
            lemma_linked_register(old(self)@, old(self).items@, SymbolKind::Pointer, id, self@);
        }
    }

    fn push_base_type(&mut self, id: DebugItem, base_type: BaseType)
        requires
            old(self).inv(),
            !old(self)@.contains(id),
        ensures
            final(self).inv(),
            final(self)@ == (UnitModel {
                base_types: old(self)@.base_types.push(base_type@),
                base_type_ids: old(self)@.base_type_ids.push(id),
                ..old(self)@
            }),
    {
        broadcast use vstd::std_specs::hash::group_hash_axioms;

        let index = self.base_type_ids.len();
        proof {
            lemma_linked_lookup(self@, self.items@, id);
        }
        self.items.insert(id.offset, Slot { kind: SymbolKind::BaseType, index });
        self.base_types.push(base_type);
        self.base_type_ids.push(id);
        let records: usize = self.base_types.len();
        let items: usize = self.base_type_ids.len();
        proof {
            lemma_linked_counts(old(self)@, old(self).items@);
            assert(records == items);
            assert(self@.base_types =~= old(self)@.base_types.push(base_type@));
            lemma_counts(self@);
            lemma_linked_register(old(self)@, old(self).items@, SymbolKind::BaseType, id, self@);
        }
    }

    fn push_union(&mut self, id: DebugItem, new_union: Union)
        requires
            old(self).inv(),
            !old(self)@.contains(id),
        ensures
            final(self).inv(),
            final(self)@ == (UnitModel {
                unions: old(self)@.unions.push(new_union@),
                union_ids: old(self)@.union_ids.push(id),
                ..old(self)@
            }),
    {
        broadcast use vstd::std_specs::hash::group_hash_axioms;

        let index = self.union_ids.len();
        proof {
            lemma_linked_lookup(self@, self.items@, id);
        }
        self.items.insert(id.offset, Slot { kind: SymbolKind::Union, index });
        self.unions.push(new_union);
        self.union_ids.push(id);
        let records: usize = self.unions.len();
        let items: usize = self.union_ids.len();
        proof {
            lemma_linked_counts(old(self)@, old(self).items@);
            assert(records == items);
            assert(self@.unions =~= old(self)@.unions.push(new_union@));
            lemma_counts(self@);
            lemma_linked_register(old(self)@, old(self).items@, SymbolKind::Union, id, self@);
        }
    }

    /// Registers a variable under an item and under its names.
    fn add_variable(&mut self, variable: Variable, id: DebugItem) -> (r: Result<(), BuildError>)
        requires
            old(self).inv(),
        ensures
            match with_variable(old(self)@, variable@, id) {
                Ok(m) => r is Ok && final(self)@ == m && final(self).inv(),
                Err(e) => r == Err::<(), BuildError>(e),
            },
    {
        let index = self.variables.len();
        let demangled_name = demangle(variable.name.as_str());
        match &variable.linkage_name {
            Some(linkage_name) => {
                if !self.variable_names.insert(linkage_name.clone(), index) {
                    return Err(BuildError::DuplicateName(id));
                }
                let demangled_linkage_name = demangle(linkage_name.as_str());
                let entered = str_eq(demangled_linkage_name.as_str(), demangled_name.as_str());
                if !self.demangled_variable_names.insert(demangled_linkage_name, index) {
                    return Err(BuildError::DuplicateDemangledName(id));
                }
                if !str_eq(variable.name.as_str(), linkage_name.as_str()) {
                    if !self.variable_names.insert(variable.name.clone(), index) {
                        return Err(BuildError::DuplicateName(id));
                    }
                    if !entered {
                        if !self.demangled_variable_names.insert(demangled_name, index) {
                            return Err(BuildError::DuplicateDemangledName(id));
                        }
                    }
                }
            },
            None => {},
        }
        proof {
            lemma_linked_same(old(self)@, self@, self.items@);
            assert forall|i: int| 0 <= i < self@.variables.len() implies self@.names_cover(
                #[trigger] self@.variables[i],
                i,
            ) by {
                assert(old(self)@.names_cover(old(self)@.variables[i], i));
            }
        }
        if self.slot(id).is_some() {
            return Err(BuildError::DuplicateItem(id));
        }
        self.push_variable(id, variable);
        Ok(())
    }

    /// Turns the last structure, registered under `id`, into an enumeration.
    fn promote_last_structure(&mut self, id: DebugItem)
        requires
            old(self).inv(),
            old(self)@.structures.len() > 0,
            old(self)@.structure_ids.last() == id,
        ensures
            final(self).inv(),
            final(self)@ == (UnitModel {
                structures: old(self)@.structures.drop_last(),
                structure_ids: old(self)@.structure_ids.drop_last(),
                enumerations: old(self)@.enumerations.push(
                    enumeration_from(old(self)@.structures.last()),
                ),
                enumeration_ids: old(self)@.enumeration_ids.push(id),
                ..old(self)@
            }),
    {
        broadcast use vstd::std_specs::hash::group_hash_axioms;

        proof {
            lemma_linked_counts(self@, self.items@);
        }
        let structure = match self.structures.pop() {
            Some(structure) => structure,
            None => {
                return ;
            },
        };
        self.structure_ids.pop();
        let index = self.enumeration_ids.len();
        self.items.insert(id.offset, Slot { kind: SymbolKind::Enumeration, index });
        let variants: Vec<EnumerationVariant> = Vec::new();
        assert(variants_view(variants@) =~= Seq::empty());
        let enumeration = Enumeration {
            name: structure.name,
            namespace: structure.namespace,
            discriminant_offset: StructOffset(0),
            discriminant_kind: DebugItem::from_debug_info_offset(0),
            size: structure.size,
            variants,
        };
        self.enumerations.push(enumeration);
        self.enumeration_ids.push(id);
        let records: usize = self.enumerations.len();
        let items: usize = self.enumeration_ids.len();
        proof {
            assert(self@.structures =~= old(self)@.structures.drop_last());
            assert(self@.structure_ids =~= old(self)@.structure_ids.drop_last());
            assert(self@.enumerations =~= old(self)@.enumerations.push(
                enumeration_from(old(self)@.structures.last()),
            ));
            lemma_counts(self@);
            lemma_linked_promote(old(self)@, old(self).items@, self@);
        }
    }

    /// Appends a member to the last structure.
    fn push_structure_member(&mut self, member: StructureMember)
        requires
            old(self).inv(),
            old(self)@.structures.len() > 0,
        ensures
            final(self).inv(),
            final(self)@ == (UnitModel {
                structures: old(self)@.structures.drop_last().push(
                    StructureView {
                        members: old(self)@.structures.last().members.push(member@),
                        ..old(self)@.structures.last()
                    },
                ),
                ..old(self)@
            }),
    {
        let mut last = match self.structures.pop() {
            Some(last) => last,
            None => {
                return ;
            },
        };
        let ghost before = last;
        last.members.push(member);
        assert(members_view(last.members@) =~= members_view(before.members@).push(member@));
        self.structures.push(last);
        proof {
            assert(self@.structures =~= old(self)@.structures.drop_last().push(
                StructureView {
                    members: old(self)@.structures.last().members.push(member@),
                    ..old(self)@.structures.last()
                },
            ));
            lemma_linked_same(old(self)@, self@, self.items@);
        }
    }

    /// Appends a member to the last union.
    fn push_union_member(&mut self, member: StructureMember)
        requires
            old(self).inv(),
            old(self)@.unions.len() > 0,
        ensures
            final(self).inv(),
            final(self)@ == (UnitModel {
                unions: old(self)@.unions.drop_last().push(
                    UnionView {
                        members: old(self)@.unions.last().members.push(member@),
                        ..old(self)@.unions.last()
                    },
                ),
                ..old(self)@
            }),
    {
        let mut last = match self.unions.pop() {
            Some(last) => last,
            None => {
                return ;
            },
        };
        let ghost before = last;
        last.members.push(member);
        assert(members_view(last.members@) =~= members_view(before.members@).push(member@));
        self.unions.push(last);
        proof {
            assert(self@.unions =~= old(self)@.unions.drop_last().push(
                UnionView {
                    members: old(self)@.unions.last().members.push(member@),
                    ..old(self)@.unions.last()
                },
            ));
            lemma_linked_same(old(self)@, self@, self.items@);
        }
    }

    /// Reads where the discriminant of the last enumeration lies.
    fn set_discriminant(&mut self, attrs: &Vec<Attribute>, header: &UnitHeader)
        requires
            old(self).inv(),
            old(self)@.enumerations.len() > 0,
        ensures
            final(self).inv(),
            final(self)@ == (UnitModel {
                enumerations: old(self)@.enumerations.drop_last().push(
                    EnumerationView {
                        discriminant_offset: crate::parse::discriminant_of(attrs@, *header).0,
                        discriminant_kind: match crate::parse::discriminant_of(attrs@, *header).1 {
                            Some(kind) => kind,
                            None => old(self)@.enumerations.last().discriminant_kind,
                        },
                        ..old(self)@.enumerations.last()
                    },
                ),
                ..old(self)@
            }),
    {
        let mut last = match self.enumerations.pop() {
            Some(last) => last,
            None => {
                return ;
            },
        };
        parse_enum_discriminant(attrs, &mut last, header);
        self.enumerations.push(last);
        proof {
            assert(self@.enumerations =~= old(self)@.enumerations.drop_last().push(last@));
            lemma_linked_same(old(self)@, self@, self.items@);
        }
    }

    /// Appends a variant, known by its discriminant alone, to the last enumeration.
    fn push_variant(&mut self, discriminant: Option<u64>)
        requires
            old(self).inv(),
            old(self)@.enumerations.len() > 0,
        ensures
            final(self).inv(),
            final(self)@ == (UnitModel {
                enumerations: old(self)@.enumerations.drop_last().push(
                    EnumerationView {
                        variants: old(self)@.enumerations.last().variants.push(
                            EnumerationVariantView {
                                name: Seq::empty(),
                                discriminant,
                                kind: DebugItem { offset: 0 },
                                offset: StructOffset(0),
                            },
                        ),
                        ..old(self)@.enumerations.last()
                    },
                ),
                ..old(self)@
            }),
    {
        let mut last = match self.enumerations.pop() {
            Some(last) => last,
            None => {
                return ;
            },
        };
        let ghost before = last;
        let variant = EnumerationVariant {
            name: String::new(),
            discriminant,
            kind: DebugItem::from_debug_info_offset(0),
            offset: StructOffset(0),
        };
        last.variants.push(variant);
        assert(variants_view(last.variants@) =~= variants_view(before.variants@).push(variant@));
        self.enumerations.push(last);
        proof {
            assert(self@.enumerations =~= old(self)@.enumerations.drop_last().push(last@));
            lemma_linked_same(old(self)@, self@, self.items@);
        }
    }

    /// Reads the payload member of the last variant of the last enumeration.
    fn update_variant(&mut self, attrs: &Vec<Attribute>, header: &UnitHeader)
        requires
            old(self).inv(),
            old(self)@.enumerations.len() > 0,
            old(self)@.enumerations.last().variants.len() > 0,
        ensures
            final(self).inv(),
            final(self)@ == (UnitModel {
                enumerations: old(self)@.enumerations.drop_last().push(
                    EnumerationView {
                        variants: old(self)@.enumerations.last().variants.drop_last().push(
                            crate::parse::variant_updated(
                                old(self)@.enumerations.last().variants.last(),
                                attrs@,
                                *header,
                            ),
                        ),
                        ..old(self)@.enumerations.last()
                    },
                ),
                ..old(self)@
            }),
    {
        let mut last = match self.enumerations.pop() {
            Some(last) => last,
            None => {
                return ;
            },
        };
        let ghost before = last;
        let mut variant = match last.variants.pop() {
            Some(variant) => variant,
            None => {
                return ;
            },
        };
        update_enum_variant_member(attrs, &mut variant, header);
        last.variants.push(variant);
        assert(variants_view(last.variants@) =~= variants_view(
            before.variants@,
        ).drop_last().push(variant@));
        self.enumerations.push(last);
        proof {
            assert(self@.enumerations =~= old(self)@.enumerations.drop_last().push(last@));
            lemma_linked_same(old(self)@, self@, self.items@);
        }
    }

    /// Whether the last enumeration has a variant.
    fn last_enumeration_has_variant(&self) -> (r: bool)
        ensures
            r == (self@.enumerations.len() > 0 && self@.enumerations.last().variants.len() > 0),
    {
        let n = self.enumerations.len();
        n > 0 && self.enumerations[n - 1].variants.len() > 0
    }
}

/// A model with the same items and as many records of each kind agrees with
/// the same slots.
proof fn lemma_linked_same(m: UnitModel, m2: UnitModel, items: Map<u64, Slot>)
    requires
        linked(m, items),
        m2.variable_ids == m.variable_ids,
        m2.structure_ids == m.structure_ids,
        m2.enumeration_ids == m.enumeration_ids,
        m2.array_ids == m.array_ids,
        m2.pointer_ids == m.pointer_ids,
        m2.base_type_ids == m.base_type_ids,
        m2.union_ids == m.union_ids,
        m2.variables.len() == m.variables.len(),
        m2.structures.len() == m.structures.len(),
        m2.enumerations.len() == m.enumerations.len(),
        m2.arrays.len() == m.arrays.len(),
        m2.pointers.len() == m.pointers.len(),
        m2.base_types.len() == m.base_types.len(),
        m2.unions.len() == m.unions.len(),
    ensures
        linked(m2, items),
{
    assert forall|k: SymbolKind| #[trigger] m2.ids(k) == m.ids(k) && m2.count(k) == m.count(k) by {
        match k {
            SymbolKind::Variable => {},
            SymbolKind::Structure => {},
            SymbolKind::Enumeration => {},
            SymbolKind::Array => {},
            SymbolKind::Pointer => {},
            SymbolKind::BaseType => {},
            SymbolKind::Union => {},
        }
    }
    assert forall|kind: SymbolKind| #[trigger]
        m2.ids(kind).len() == m2.count(kind) && m2.count(kind) <= usize::MAX by {
        assert(m.ids(kind).len() == m.count(kind) && m.count(kind) <= usize::MAX);
    }
    assert forall|key: u64| #[trigger] items.contains_key(key) implies items[key].index < m2.ids(
        items[key].kind,
    ).len() && m2.ids(items[key].kind)[items[key].index as int] == (DebugItem {
        offset: key,
    }) by {
        assert(m2.ids(items[key].kind) == m.ids(items[key].kind));
    }
    assert forall|kind: SymbolKind, i: int| 0 <= i < m2.ids(kind).len() implies items.contains_key(
        (#[trigger] m2.ids(kind)[i]).offset,
    ) && items[m2.ids(kind)[i].offset] == (Slot { kind, index: i as usize }) by {
        assert(m2.ids(kind) == m.ids(kind));
        assert(items.contains_key(m.ids(kind)[i].offset));
    }
}

/// In a model that agrees with its slots, every list of records is as long
/// as the list of its items.
proof fn lemma_linked_counts(m: UnitModel, items: Map<u64, Slot>)
    requires
        linked(m, items),
    ensures
        m.variable_ids.len() == m.variables.len() <= usize::MAX,
        m.structure_ids.len() == m.structures.len() <= usize::MAX,
        m.enumeration_ids.len() == m.enumerations.len() <= usize::MAX,
        m.array_ids.len() == m.arrays.len() <= usize::MAX,
        m.pointer_ids.len() == m.pointers.len() <= usize::MAX,
        m.base_type_ids.len() == m.base_types.len() <= usize::MAX,
        m.union_ids.len() == m.unions.len() <= usize::MAX,
{
    assert(m.ids(SymbolKind::Variable).len() == m.count(SymbolKind::Variable));
    assert(m.ids(SymbolKind::Structure).len() == m.count(SymbolKind::Structure));
    assert(m.ids(SymbolKind::Enumeration).len() == m.count(SymbolKind::Enumeration));
    assert(m.ids(SymbolKind::Array).len() == m.count(SymbolKind::Array));
    assert(m.ids(SymbolKind::Pointer).len() == m.count(SymbolKind::Pointer));
    assert(m.ids(SymbolKind::BaseType).len() == m.count(SymbolKind::BaseType));
    assert(m.ids(SymbolKind::Union).len() == m.count(SymbolKind::Union));
}

/// Lists of matching lengths have matching lengths for every kind.
proof fn lemma_counts(m: UnitModel)
    requires
        m.variable_ids.len() == m.variables.len() <= usize::MAX,
        m.structure_ids.len() == m.structures.len() <= usize::MAX,
        m.enumeration_ids.len() == m.enumerations.len() <= usize::MAX,
        m.array_ids.len() == m.arrays.len() <= usize::MAX,
        m.pointer_ids.len() == m.pointers.len() <= usize::MAX,
        m.base_type_ids.len() == m.base_types.len() <= usize::MAX,
        m.union_ids.len() == m.unions.len() <= usize::MAX,
    ensures
        forall|k: SymbolKind| #[trigger] m.ids(k).len() == m.count(k) && m.count(k) <= usize::MAX,
{
    assert forall|k: SymbolKind| #[trigger]
        m.ids(k).len() == m.count(k) && m.count(k) <= usize::MAX by {
        match k {
            SymbolKind::Variable => {},
            SymbolKind::Structure => {},
            SymbolKind::Enumeration => {},
            SymbolKind::Array => {},
            SymbolKind::Pointer => {},
            SymbolKind::BaseType => {},
            SymbolKind::Union => {},
        }
    }
}

/// Builds the symbols of a unit from its entries, one entry at a time, in
/// the order of a depth-first walk.
#[derive(Debug)]
pub struct UnitBuilder {
    cache: SymbolCache,
    header: UnitHeader,
    tag_parent_list: Vec<u16>,
    parent_namespace: Vec<String>,
    array_in_progress: Option<(DebugItem, DebugItem)>,
    last_structure_id: Option<DebugItem>,
    depth: usize,
}

impl View for UnitBuilder {
    type V = BuildState;

    closed spec fn view(&self) -> BuildState {
        BuildState {
            unit: self.cache@,
            tags: self.tag_parent_list@,
            namespaces: strings_view(self.parent_namespace@),
            array_in_progress: self.array_in_progress,
            last_structure: self.last_structure_id,
            depth: self.depth as nat,
        }
    }
}

impl UnitBuilder {
    /// The header of the unit that is being built.
    pub closed spec fn header(&self) -> UnitHeader {
        self.header
    }

    /// The builder's indexes agree with its lists, and its state is well formed.
    pub closed spec fn inv(&self) -> bool {
        &&& self.cache.inv()
        &&& self@.wf()
    }

    /// A builder that has seen no entry.
    pub fn new(header: UnitHeader) -> (r: Self)
        ensures
            r.inv(),
            r@ == BuildState::initial(),
            r.header() == header,
    {
        let r = UnitBuilder {
            cache: SymbolCache::new(),
            header,
            tag_parent_list: Vec::new(),
            parent_namespace: Vec::new(),
            array_in_progress: None,
            last_structure_id: None,
            depth: 0,
        };
        proof {
            r.cache.lemma_inv_wf();
            assert(strings_view(r.parent_namespace@) =~= Seq::empty());
        }
        r
    }

    /// Moves to an entry: the path is cut down to the entry's depth and then
    /// ends in the entry's tag.
    fn enter(&mut self, die: &Die) -> (r: Result<(), BuildError>)
        requires
            old(self).inv(),
        ensures
            match entered(old(self)@, *die) {
                Ok(s) => r is Ok && final(self)@ == s && final(self).inv() && final(self).header()
                    == old(self).header(),
                Err(e) => r == Err::<(), BuildError>(e),
            },
    {
        let delta = die.depth_delta;
        if delta < 0 {
            let up: usize = if delta == isize::MIN {
                (isize::MAX as usize) + 1
            } else {
                (-delta) as usize
            };
            if up > self.depth {
                return Err(BuildError::DepthUnderflow);
            }
            self.depth = self.depth - up;
        } else {
            let down: usize = delta as usize;
            self.depth = if down > usize::MAX - self.depth {
                usize::MAX
            } else {
                self.depth + down
            };
        }
        assert(Some(self.depth as nat) == depth_moved(old(self).depth as nat, delta as int));
        if delta > 1 || self.depth == usize::MAX {
            return Err(BuildError::DepthOverflow);
        }
        let depth = self.depth;
        while self.tag_parent_list.len() > depth
            invariant
                path_truncated(
                    self.tag_parent_list@,
                    strings_view(self.parent_namespace@),
                    depth as nat,
                ) == path_truncated(
                    old(self).tag_parent_list@,
                    strings_view(old(self).parent_namespace@),
                    depth as nat,
                ),
                self.cache == old(self).cache,
                self.header == old(self).header,
                self.array_in_progress == old(self).array_in_progress,
                self.last_structure_id == old(self).last_structure_id,
                self.depth == depth,
            decreases self.tag_parent_list.len(),
        {
            let ghost tags = self.tag_parent_list@;
            let ghost names = self.parent_namespace@;
            let tag = self.tag_parent_list.pop();
            if tag == Some(DW_TAG_NAMESPACE) {
                self.parent_namespace.pop();
            }
            proof {
                assert(self.tag_parent_list@ =~= tags.drop_last());
                if tags.last() == DW_TAG_NAMESPACE && names.len() > 0 {
                    assert(strings_view(self.parent_namespace@) =~= strings_view(
                        names,
                    ).drop_last());
                } else {
                    assert(strings_view(self.parent_namespace@) =~= strings_view(names));
                }
            }
        }
        let ghost cut = self.tag_parent_list@;
        while self.tag_parent_list.len() < depth
            invariant
                cut.len() <= self.tag_parent_list.len() <= depth,
                self.tag_parent_list@ == cut + Seq::new(
                    (self.tag_parent_list.len() - cut.len()) as nat,
                    |i: int| DW_TAG_NULL,
                ),
                self.cache == old(self).cache,
                self.header == old(self).header,
                strings_view(self.parent_namespace@) == path_truncated(
                    old(self).tag_parent_list@,
                    strings_view(old(self).parent_namespace@),
                    depth as nat,
                ).1,
                self.array_in_progress == old(self).array_in_progress,
                self.last_structure_id == old(self).last_structure_id,
                self.depth == depth,
            decreases depth - self.tag_parent_list.len(),
        {
            self.tag_parent_list.push(DW_TAG_NULL);
            assert(self.tag_parent_list@ =~= cut + Seq::new(
                (self.tag_parent_list.len() - cut.len()) as nat,
                |i: int| DW_TAG_NULL,
            ));
        }
        self.tag_parent_list.push(die.tag);
        proof {
            assert(self.tag_parent_list@ =~= path_extended(cut, depth as nat, die.tag));
        }
        Ok(())
    }

    /// The tag of the parent of the current entry.
    fn parent(&self) -> (r: u16)
        ensures
            r == parent_tag(self@.tags),
    {
        let n = self.tag_parent_list.len();
        if n >= 2 {
            self.tag_parent_list[n - 2]
        } else if n == 1 {
            self.tag_parent_list[0]
        } else {
            DW_TAG_NULL
        }
    }

    /// Takes the current entry into the symbols.
    fn dispatch(&mut self, die: &Die) -> (r: Result<(), BuildError>)
        requires
            old(self).inv(),
        ensures
            match dispatched(old(self)@, *die, old(self).header()) {
                Ok(s) => r is Ok && final(self)@ == s && final(self).inv() && final(self).header()
                    == old(self).header(),
                Err(e) => r == Err::<(), BuildError>(e),
            },
    {
        let tag = die.tag;
        let parent = self.parent();
        let attrs = &die.attributes;
        let item = DebugItem::from_unit_offset(die.offset, self.header.unit_start);
        proof {
            self.cache.lemma_inv_wf();
        }
        if tag == DW_TAG_VARIABLE {
            match (parse_variable(attrs, &self.parent_namespace, &self.header), item) {
                (Some(variable), Some(id)) => {
                    match self.cache.add_variable(variable, id) {
                        Ok(()) => {},
                        Err(e) => {
                            return Err(e);
                        },
                    }
                    proof {
                        self.cache.lemma_inv_wf();
                    }
                },
                _ => {},
            }
        } else if tag == DW_TAG_VARIANT_PART && parent == DW_TAG_STRUCTURE_TYPE {
            if self.cache.structures.len() > 0 {
                match self.last_structure_id {
                    None => {
                        return Err(BuildError::VariantPartWithoutStructure);
                    },
                    Some(id) => {
                        self.cache.promote_last_structure(id);
                        self.last_structure_id = None;
                        proof {
                            self.cache.lemma_inv_wf();
                        }
                    },
                }
            }
        } else if tag == DW_TAG_MEMBER && parent == DW_TAG_VARIANT_PART {
            if self.cache.enumerations.len() > 0 {
                self.cache.set_discriminant(attrs, &self.header);
                proof {
                    self.cache.lemma_inv_wf();
                }
            }
        } else if tag == DW_TAG_VARIANT && parent == DW_TAG_VARIANT_PART {
            let discriminant = parse_enum_variant(attrs);
            if self.cache.enumerations.len() > 0 {
                self.cache.push_variant(discriminant);
                proof {
                    self.cache.lemma_inv_wf();
                }
            }
        } else if tag == DW_TAG_MEMBER && parent == DW_TAG_VARIANT {
            if self.cache.last_enumeration_has_variant() {
                self.cache.update_variant(attrs, &self.header);
                proof {
                    self.cache.lemma_inv_wf();
                }
            }
        } else if tag == DW_TAG_MEMBER && parent == DW_TAG_STRUCTURE_TYPE {
            match parse_structure_member(attrs, &self.header) {
                Some(member) => {
                    if self.cache.structures.len() > 0 {
                        self.cache.push_structure_member(member);
                        proof {
                            self.cache.lemma_inv_wf();
                        }
                    }
                },
                None => {},
            }
        } else if tag == DW_TAG_MEMBER && parent == DW_TAG_UNION_TYPE {
            match parse_structure_member(attrs, &self.header) {
                Some(member) => {
                    if self.cache.unions.len() > 0 {
                        self.cache.push_union_member(member);
                        proof {
                            self.cache.lemma_inv_wf();
                        }
                    }
                },
                None => {},
            }
        } else if tag == DW_TAG_STRUCTURE_TYPE {
            match (parse_structure(attrs, &self.parent_namespace, &self.header), item) {
                (Some(structure), Some(id)) => {
                    if self.cache.slot(id).is_some() {
                        return Err(BuildError::DuplicateItem(id));
                    }
                    self.cache.push_structure(id, structure);
                    self.last_structure_id = Some(id);
                    proof {
                        self.cache.lemma_inv_wf();
                    }
                },
                _ => {},
            }
        } else if tag == DW_TAG_UNION_TYPE {
            match (parse_union(attrs, &self.parent_namespace), item) {
                (Some(new_union), Some(id)) => {
                    if self.cache.slot(id).is_some() {
                        return Err(BuildError::DuplicateItem(id));
                    }
                    self.cache.push_union(id, new_union);
                    proof {
                        self.cache.lemma_inv_wf();
                    }
                },
                _ => {},
            }
        } else if tag == DW_TAG_ARRAY_TYPE {
            match item {
                None => {},
                Some(id) => {
                    self.array_in_progress = match parse_array(attrs, &self.header) {
                        Some(kind) => Some((kind, id)),
                        None => None,
                    };
                },
            }
        } else if tag == DW_TAG_SUBRANGE_TYPE && parent == DW_TAG_ARRAY_TYPE {
            match parse_subrange(attrs) {
                None => {},
                Some((lower_bound, count)) => {
                    match self.array_in_progress {
                        None => {
                            return Err(BuildError::SubrangeWithoutArray);
                        },
                        Some((kind, id)) => {
                            if self.cache.slot(id).is_some() {
                                return Err(BuildError::DuplicateItem(id));
                            }
                            self.cache.push_array(id, Array { kind, lower_bound, count });
                            self.array_in_progress = None;
                            proof {
                                self.cache.lemma_inv_wf();
                            }
                        },
                    }
                },
            }
        } else if tag == DW_TAG_POINTER_TYPE {
            match (parse_pointer(attrs, &self.header), item) {
                (Some(pointer), Some(id)) => {
                    if self.cache.slot(id).is_some() {
                        return Err(BuildError::DuplicateItem(id));
                    }
                    self.cache.push_pointer(id, pointer);
                    proof {
                        self.cache.lemma_inv_wf();
                    }
                },
                _ => {},
            }
        } else if tag == DW_TAG_BASE_TYPE {
            match (parse_base_type(attrs), item) {
                (Some(base_type), Some(id)) => {
                    if self.cache.slot(id).is_some() {
                        return Err(BuildError::DuplicateItem(id));
                    }
                    self.cache.push_base_type(id, base_type);
                    proof {
                        self.cache.lemma_inv_wf();
                    }
                },
                _ => {},
            }
        } else if tag == DW_TAG_NAMESPACE {
            match parse_namespace(attrs) {
                Some(name) => {
                    let ghost names = self.parent_namespace@;
                    self.parent_namespace.push(name);
                    assert(strings_view(self.parent_namespace@) =~= strings_view(names).push(
                        name@,
                    ));
                },
                None => {},
            }
        }
        Ok(())
    }

    /// The symbols built from the entries seen so far.
    pub fn finish(self) -> (r: UnitInfo)
        requires
            self.inv(),
        ensures
            r@ == self@.unit,
            r@.wf(),
            r@.names_wf(),
    {
        proof {
            self.cache.lemma_inv_wf();
        }
        UnitInfo { cache: self.cache }
    }

    /// Takes the next entry of the walk into the symbols.
    ///
    /// After an error the builder must not be used further.
    pub fn step(&mut self, die: &Die) -> (r: Result<(), BuildError>)
        requires
            old(self).inv(),
        ensures
            match stepped(old(self)@, *die, old(self).header()) {
                Ok(s) => r is Ok && final(self)@ == s && final(self).inv() && final(self).header()
                    == old(self).header(),
                Err(e) => r == Err::<(), BuildError>(e),
            },
    {
        match self.enter(die) {
            Ok(()) => {},
            Err(e) => {
                return Err(e);
            },
        }
        self.dispatch(die)
    }
}

/// An error among the first entries of a walk is the error of the whole walk.
pub proof fn lemma_built_error(header: UnitHeader, dies: Seq<Die>, k: int)
    requires
        0 <= k <= dies.len(),
        built(header, dies.take(k)) is Err,
    ensures
        built(header, dies) == built(header, dies.take(k)),
    decreases dies.len() - k,
{
    if k == dies.len() {
        assert(dies.take(k) =~= dies);
    } else {
        assert(dies.take(k + 1).drop_last() =~= dies.take(k));
        lemma_built_error(header, dies, k + 1);
    }
}

fn append_items(out: &mut Vec<DebugItem>, ids: &Vec<DebugItem>)
    ensures
        final(out)@ == old(out)@ + ids@,
{
    let mut i: usize = 0;
    while i < ids.len()
        invariant
            i <= ids.len(),
            out@ == old(out)@ + ids@.take(i as int),
        decreases ids.len() - i,
    {
        out.push(ids[i]);
        assert(out@ =~= old(out)@ + ids@.take(i as int + 1));
        i += 1;
    }
    assert(ids@.take(ids.len() as int) =~= ids@);
}

/// Whether a record has this namespace and this name.
pub open spec fn is_called(
    namespace: Seq<char>,
    name: Seq<char>,
    ns: Seq<char>,
    n: Seq<char>,
) -> bool {
    ns == namespace && n == name
}

/// The symbols of one compilation unit.
#[derive(Debug)]
pub struct UnitInfo {
    cache: SymbolCache,
}

impl View for UnitInfo {
    type V = UnitModel;

    closed spec fn view(&self) -> UnitModel {
        self.cache@
    }
}

impl UnitInfo {
    #[verifier::type_invariant]
    spec fn inv(&self) -> bool {
        self.cache.inv()
    }

    /// The variables of the unit, in the order of registration.
    pub closed spec fn variables(&self) -> Seq<Variable> {
        self.cache.variables@
    }

    /// Builds the symbols of a unit from its entries, given in the order of
    /// a depth-first walk. The result is what [`built`] says; the first entry
    /// that cannot be taken in makes the whole unit fail.
    pub fn new(header: &UnitHeader, dies: &Vec<Die>) -> (r: Result<UnitInfo, BuildError>)
        ensures
            match built(*header, dies@) {
                Ok(s) => r matches Ok(u) && u@ == s.unit && u@.wf() && u@.names_wf(),
                Err(e) => r matches Err(x) && x == e,
            },
    {
        let ghost h = *header;
        let mut builder = UnitBuilder::new(
            UnitHeader {
                version: header.version,
                unit_start: header.unit_start,
                comp_dir: match &header.comp_dir {
                    Some(comp_dir) => Some(comp_dir.clone()),
                    None => None,
                },
            },
        );
        let mut i: usize = 0;
        assert(dies@.take(0) =~= Seq::empty());
        while i < dies.len()
            invariant
                i <= dies.len(),
                builder.inv(),
                h == *header,
                builder.header() == h,
                built(h, dies@.take(i as int)) == Ok::<BuildState, BuildError>(builder@),
            decreases dies.len() - i,
        {
            proof {
                assert(dies@.take(i as int + 1).drop_last() =~= dies@.take(i as int));
                assert(dies@.take(i as int + 1).last() == dies@[i as int]);
            }
            match builder.step(&dies[i]) {
                Ok(()) => {},
                Err(e) => {
                    proof {
                        assert(built(h, dies@.take(i as int + 1)) == Err::<
                            BuildState,
                            BuildError,
                        >(e));
                        lemma_built_error(h, dies@, i as int + 1);
                    }
                    return Err(e);
                },
            }
            i += 1;
        }
        assert(dies@.take(dies.len() as int) =~= dies@);
        Ok(builder.finish())
    }

    /// Every item that the unit registers: arrays first, then base types,
    /// enumerations, pointers, structures, unions and variables.
    pub fn all_symbols(&self) -> (r: Vec<DebugItem>)
        ensures
            r@ == self@.all_symbols(),
            self@.wf(),
            self@.names_wf(),
    {
        proof {
            use_type_invariant(self);
            self.cache.lemma_inv_wf();
        }
        let mut out: Vec<DebugItem> = Vec::new();
        append_items(&mut out, &self.cache.array_ids);
        append_items(&mut out, &self.cache.base_type_ids);
        append_items(&mut out, &self.cache.enumeration_ids);
        append_items(&mut out, &self.cache.pointer_ids);
        append_items(&mut out, &self.cache.structure_ids);
        append_items(&mut out, &self.cache.union_ids);
        append_items(&mut out, &self.cache.variable_ids);
        assert(out@ =~= self@.all_symbols());
        out
    }

    /// The variable entered under a linkage name or a qualified name.
    pub fn variable_from_name(&self, name: &str) -> (r: Option<&Variable>)
        ensures
            match self@.variable_at(self@.variable_names, name@) {
                Some(v) => r matches Some(x) && x@ == v,
                None => r is None,
            },
    {
        match self.cache.variable_names.get(name) {
            Some(index) => if index < self.cache.variables.len() {
                Some(&self.cache.variables[index])
            } else {
                None
            },
            None => None,
        }
    }

    /// The variable entered under a demangled name.
    pub fn variable_from_demangled_name(&self, name: &str) -> (r: Option<&Variable>)
        ensures
            match self@.variable_at(self@.demangled_variable_names, name@) {
                Some(v) => r matches Some(x) && x@ == v,
                None => r is None,
            },
    {
        match self.cache.demangled_variable_names.get(name) {
            Some(index) => if index < self.cache.variables.len() {
                Some(&self.cache.variables[index])
            } else {
                None
            },
            None => None,
        }
    }

    /// The variable registered under an item.
    pub fn variable_from_item(&self, location: DebugItem) -> (r: Option<&Variable>)
        ensures
            match self@.variable_from_item(location) {
                Some(v) => r matches Some(x) && x@ == v,
                None => r is None,
            },
    {
        proof {
            use_type_invariant(self);
        }
        match self.cache.slot(location) {
            Some(Slot { kind: SymbolKind::Variable, index }) => Some(&self.cache.variables[index]),
            _ => None,
        }
    }

    /// The structure registered under an item.
    pub fn structure_from_item(&self, location: DebugItem) -> (r: Option<&Structure>)
        ensures
            match self@.structure_from_item(location) {
                Some(v) => r matches Some(x) && x@ == v,
                None => r is None,
            },
    {
        proof {
            use_type_invariant(self);
        }
        match self.cache.slot(location) {
            Some(Slot { kind: SymbolKind::Structure, index }) => Some(
                &self.cache.structures[index],
            ),
            _ => None,
        }
    }

    /// The enumeration registered under an item.
    pub fn enumeration_from_item(&self, location: DebugItem) -> (r: Option<&Enumeration>)
        ensures
            match self@.enumeration_from_item(location) {
                Some(v) => r matches Some(x) && x@ == v,
                None => r is None,
            },
    {
        proof {
            use_type_invariant(self);
        }
        match self.cache.slot(location) {
            Some(Slot { kind: SymbolKind::Enumeration, index }) => Some(
                &self.cache.enumerations[index],
            ),
            _ => None,
        }
    }

    /// The array registered under an item.
    pub fn array_from_item(&self, location: DebugItem) -> (r: Option<&Array>)
        ensures
            match self@.array_from_item(location) {
                Some(v) => r matches Some(x) && *x == v,
                None => r is None,
            },
    {
        proof {
            use_type_invariant(self);
        }
        match self.cache.slot(location) {
            Some(Slot { kind: SymbolKind::Array, index }) => Some(&self.cache.arrays[index]),
            _ => None,
        }
    }

    /// The pointer registered under an item.
    pub fn pointer_from_item(&self, location: DebugItem) -> (r: Option<&Pointer>)
        ensures
            match self@.pointer_from_item(location) {
                Some(v) => r matches Some(x) && x@ == v,
                None => r is None,
            },
    {
        proof {
            use_type_invariant(self);
        }
        match self.cache.slot(location) {
            Some(Slot { kind: SymbolKind::Pointer, index }) => Some(&self.cache.pointers[index]),
            _ => None,
        }
    }

    /// The base type registered under an item.
    pub fn base_type_from_item(&self, location: DebugItem) -> (r: Option<&BaseType>)
        ensures
            match self@.base_type_from_item(location) {
                Some(v) => r matches Some(x) && x@ == v,
                None => r is None,
            },
    {
        proof {
            use_type_invariant(self);
        }
        match self.cache.slot(location) {
            Some(Slot { kind: SymbolKind::BaseType, index }) => Some(
                &self.cache.base_types[index],
            ),
            _ => None,
        }
    }

    /// The union registered under an item.
    pub fn union_from_item(&self, location: DebugItem) -> (r: Option<&Union>)
        ensures
            match self@.union_from_item(location) {
                Some(v) => r matches Some(x) && x@ == v,
                None => r is None,
            },
    {
        proof {
            use_type_invariant(self);
        }
        match self.cache.slot(location) {
            Some(Slot { kind: SymbolKind::Union, index }) => Some(&self.cache.unions[index]),
            _ => None,
        }
    }

    /// The size of the type registered under an item: the stored size of a
    /// structure, an enumeration, a base type or a union. An array and a
    /// pointer have no size here, nor has an item that is no type.
    pub fn size_from_item(&self, location: DebugItem) -> (r: Option<StructOffset>)
        ensures
            r == self@.size_from_item(location),
    {
        proof {
            use_type_invariant(self);
        }
        match self.cache.slot(location) {
            Some(Slot { kind: SymbolKind::Structure, index }) => Some(
                StructOffset(self.cache.structures[index].size),
            ),
            Some(Slot { kind: SymbolKind::Enumeration, index }) => Some(
                StructOffset(self.cache.enumerations[index].size),
            ),
            Some(Slot { kind: SymbolKind::BaseType, index }) => Some(
                StructOffset(self.cache.base_types[index].size),
            ),
            Some(Slot { kind: SymbolKind::Union, index }) => Some(
                StructOffset(self.cache.unions[index].size),
            ),
            _ => None,
        }
    }

    /// The name of the type registered under an item. An array has none.
    pub fn name_from_kind(&self, location: DebugItem) -> (r: Option<&str>)
        ensures
            match self@.name_from_kind(location) {
                Some(n) => r matches Some(x) && x@ == n,
                None => r is None,
            },
    {
        proof {
            use_type_invariant(self);
        }
        match self.cache.slot(location) {
            Some(Slot { kind: SymbolKind::Structure, index }) => Some(
                self.cache.structures[index].name.as_str(),
            ),
            Some(Slot { kind: SymbolKind::Enumeration, index }) => Some(
                self.cache.enumerations[index].name.as_str(),
            ),
            Some(Slot { kind: SymbolKind::Pointer, index }) => self.cache.pointers[index].name(),
            Some(Slot { kind: SymbolKind::BaseType, index }) => Some(
                self.cache.base_types[index].name.as_str(),
            ),
            Some(Slot { kind: SymbolKind::Union, index }) => Some(
                self.cache.unions[index].name.as_str(),
            ),
            _ => None,
        }
    }

    /// The kind under which an item is registered.
    pub fn kind_of(&self, location: DebugItem) -> (r: Option<SymbolKind>)
        ensures
            self@.wf(),
            self@.names_wf(),
            r.is_some() == self@.contains(location),
            forall|kind: SymbolKind|
                (#[trigger] self@.index_of(kind, location)).is_some() == (r == Some(kind)),
    {
        proof {
            use_type_invariant(self);
            self.cache.lemma_inv_wf();
        }
        match self.cache.slot(location) {
            Some(slot) => Some(slot.kind),
            None => None,
        }
    }

    /// The first variable, in the order of registration, that the
    /// predicate accepts.
    pub fn find_variable<P>(&self, predicate: &P) -> (r: Option<&Variable>) where
        P: Fn(&&Variable) -> bool,

        requires
            forall|v: &&Variable| #[trigger] predicate.requires((v,)),
        ensures
            match r {
                Some(found) => exists|i: int|
                    0 <= i < self.variables().len() && #[trigger] self.variables()[i] == *found
                        && predicate.ensures((&&self.variables()[i],), true) && forall|j: int|
                        0 <= j < i ==> predicate.ensures(
                            (&&#[trigger] self.variables()[j],),
                            false,
                        ),
                None => forall|i: int|
                    0 <= i < self.variables().len() ==> predicate.ensures(
                        (&&#[trigger] self.variables()[i],),
                        false,
                    ),
            },
    {
        let mut i: usize = 0;
        while i < self.cache.variables.len()
            invariant
                i <= self.cache.variables.len(),
                forall|v: &&Variable| #[trigger] predicate.requires((v,)),
                forall|j: int|
                    0 <= j < i ==> predicate.ensures((&&#[trigger] self.variables()[j],), false),
            decreases self.cache.variables.len() - i,
        {
            let candidate = &self.cache.variables[i];
            if predicate(&candidate) {
                assert(self.variables()[i as int] == *candidate);
                return Some(candidate);
            }
            i += 1;
        }
        None
    }

    /// The first structure with this namespace and this name.
    pub fn find_structure(&self, namespace: &str, name: &str) -> (r: Option<&Structure>)
        ensures
            match first_where(
                self@.structures,
                |s: StructureView| is_called(namespace@, name@, s.namespace, s.name),
            ) {
                Some(i) => r matches Some(x) && x@ == self@.structures[i],
                None => r is None,
            },
    {
        let ghost views = self@.structures;
        let ghost p = |s: StructureView| is_called(namespace@, name@, s.namespace, s.name);
        let mut i: usize = 0;
        while i < self.cache.structures.len()
            invariant
                i <= self.cache.structures.len(),
                views == self@.structures,
                p == (|s: StructureView| is_called(namespace@, name@, s.namespace, s.name)),
                forall|j: int| 0 <= j < i ==> !p(#[trigger] views[j]),
            decreases self.cache.structures.len() - i,
        {
            let candidate = &self.cache.structures[i];
            if str_eq(candidate.namespace.as_str(), namespace) && str_eq(
                candidate.name.as_str(),
                name,
            ) {
                proof {
                    assert(p(views[i as int]));
                    lemma_first_where_found(views, p, i as int);
                }
                return Some(candidate);
            }
            assert(!p(views[i as int]));
            i += 1;
        }
        proof {
            lemma_first_where_absent(views, p);
        }
        None
    }

    /// The first enumeration with this namespace and this name.
    pub fn find_enumeration(&self, namespace: &str, name: &str) -> (r: Option<&Enumeration>)
        ensures
            match first_where(
                self@.enumerations,
                |e: EnumerationView| is_called(namespace@, name@, e.namespace, e.name),
            ) {
                Some(i) => r matches Some(x) && x@ == self@.enumerations[i],
                None => r is None,
            },
    {
        let ghost views = self@.enumerations;
        let ghost p = |e: EnumerationView| is_called(namespace@, name@, e.namespace, e.name);
        let mut i: usize = 0;
        while i < self.cache.enumerations.len()
            invariant
                i <= self.cache.enumerations.len(),
                views == self@.enumerations,
                p == (|e: EnumerationView| is_called(namespace@, name@, e.namespace, e.name)),
                forall|j: int| 0 <= j < i ==> !p(#[trigger] views[j]),
            decreases self.cache.enumerations.len() - i,
        {
            let candidate = &self.cache.enumerations[i];
            if str_eq(candidate.namespace.as_str(), namespace) && str_eq(
                candidate.name.as_str(),
                name,
            ) {
                proof {
                    assert(p(views[i as int]));
                    lemma_first_where_found(views, p, i as int);
                }
                return Some(candidate);
            }
            assert(!p(views[i as int]));
            i += 1;
        }
        proof {
            lemma_first_where_absent(views, p);
        }
        None
    }

    /// The first union with this namespace and this name.
    pub fn find_union(&self, namespace: &str, name: &str) -> (r: Option<&Union>)
        ensures
            match first_where(
                self@.unions,
                |u: UnionView| is_called(namespace@, name@, u.namespace, u.name),
            ) {
                Some(i) => r matches Some(x) && x@ == self@.unions[i],
                None => r is None,
            },
    {
        let ghost views = self@.unions;
        let ghost p = |u: UnionView| is_called(namespace@, name@, u.namespace, u.name);
        let mut i: usize = 0;
        while i < self.cache.unions.len()
            invariant
                i <= self.cache.unions.len(),
                views == self@.unions,
                p == (|u: UnionView| is_called(namespace@, name@, u.namespace, u.name)),
                forall|j: int| 0 <= j < i ==> !p(#[trigger] views[j]),
            decreases self.cache.unions.len() - i,
        {
            let candidate = &self.cache.unions[i];
            if str_eq(candidate.namespace.as_str(), namespace) && str_eq(
                candidate.name.as_str(),
                name,
            ) {
                proof {
                    assert(p(views[i as int]));
                    lemma_first_where_found(views, p, i as int);
                }
                return Some(candidate);
            }
            assert(!p(views[i as int]));
            i += 1;
        }
        proof {
            lemma_first_where_absent(views, p);
        }
        None
    }
}

/// An item that is registered under a kind is found under that kind.
pub proof fn lemma_index_of_registered(m: UnitModel, kind: SymbolKind, id: DebugItem)
    requires
        m.ids(kind).contains(id),
    ensures
        m.index_of(kind, id) is Some,
{
    let p = |x: DebugItem| x.offset == id.offset;
    let i = choose|i: int| 0 <= i < m.ids(kind).len() && m.ids(kind)[i] == id;
    assert(p(m.ids(kind)[i]));
    crate::search::lemma_first_where_is_first(m.ids(kind), p);
}

/// An item that is found under a kind is registered under that kind.
pub proof fn lemma_index_of_is_registered(m: UnitModel, kind: SymbolKind, id: DebugItem)
    requires
        m.index_of(kind, id) is Some,
    ensures
        0 <= m.index_of(kind, id).unwrap() < m.ids(kind).len(),
        m.ids(kind)[m.index_of(kind, id).unwrap()] == id,
        m.ids(kind).contains(id),
{
    crate::search::lemma_first_where_is_first(m.ids(kind), |x: DebugItem| x.offset == id.offset);
}

/// In a well-formed unit a registered item is found under exactly one kind.
pub proof fn lemma_one_kind(m: UnitModel, id: DebugItem)
    requires
        m.wf(),
        m.contains(id),
    ensures
        exists|kind: SymbolKind|
            (#[trigger] m.index_of(kind, id)) is Some && forall|other: SymbolKind|
                other != kind ==> (#[trigger] m.index_of(other, id)) is None,
{
    let kind = choose|kind: SymbolKind| #[trigger] m.ids(kind).contains(id);
    lemma_index_of_registered(m, kind, id);
    assert forall|other: SymbolKind| other != kind implies (#[trigger] m.index_of(other, id))
        is None by {
        if m.index_of(other, id) is Some {
            lemma_index_of_is_registered(m, other, id);
            lemma_kinds_disjoint(m, kind, other);
        }
    }
}

/// The size of an item agrees with the size that the record registered under
/// it stores, for a structure, an enumeration, a union and a base type; an
/// array and a pointer have no size.
pub proof fn lemma_size_from_item(m: UnitModel, id: DebugItem)
    requires
        m.wf(),
    ensures
        m.structure_from_item(id) matches Some(s) ==> m.size_from_item(id) == Some(
            StructOffset(s.size),
        ),
        m.enumeration_from_item(id) matches Some(e) ==> m.size_from_item(id) == Some(
            StructOffset(e.size),
        ),
        m.union_from_item(id) matches Some(u) ==> m.size_from_item(id) == Some(
            StructOffset(u.size),
        ),
        m.base_type_from_item(id) matches Some(b) ==> m.size_from_item(id) == Some(
            StructOffset(b.size),
        ),
        m.array_from_item(id) is Some ==> m.size_from_item(id) is None,
        m.pointer_from_item(id) is Some ==> m.size_from_item(id) is None,
{
    if m.contains(id) {
        lemma_one_kind(m, id);
    } else {
        assert forall|kind: SymbolKind| (#[trigger] m.index_of(kind, id)) is None by {
            if m.index_of(kind, id) is Some {
                lemma_index_of_is_registered(m, kind, id);
            }
        }
    }
    let s = m.index_of(SymbolKind::Structure, id);
    let e = m.index_of(SymbolKind::Enumeration, id);
    let a = m.index_of(SymbolKind::Array, id);
    let p = m.index_of(SymbolKind::Pointer, id);
    let b = m.index_of(SymbolKind::BaseType, id);
    let u = m.index_of(SymbolKind::Union, id);
}

/// A variable with a linkage name is found under the demangled form of its
/// linkage name, under the demangled form of its qualified name, and under
/// both names themselves.
pub proof fn lemma_variable_found_by_names(m: UnitModel, i: int)
    requires
        m.names_wf(),
        0 <= i < m.variables.len(),
        m.variables[i].linkage_name is Some,
    ensures
        m.variable_at(m.demangled_variable_names, demangled(m.variables[i].linkage_name.unwrap()))
            == Some(m.variables[i]),
        m.variable_at(m.demangled_variable_names, demangled(m.variables[i].name)) == Some(
            m.variables[i],
        ),
        m.variable_at(m.variable_names, m.variables[i].linkage_name.unwrap()) == Some(
            m.variables[i],
        ),
        m.variable_at(m.variable_names, m.variables[i].name) == Some(m.variables[i]),
{
    assert(m.names_cover(m.variables[i], i));
}

/// A variant is found by its name if no variant before it has the same
/// name, and by its discriminant if no variant before it has the same
/// discriminant.
pub proof fn lemma_variant_round_trip(variants: Seq<EnumerationVariantView>, i: int, d: u64)
    requires
        0 <= i < variants.len(),
        variants[i].discriminant == Some(d),
    ensures
        (forall|j: int| 0 <= j < i ==> (#[trigger] variants[j]).name != variants[i].name)
            ==> variant_named(variants, variants[i].name) == Some(i),
        (forall|j: int| 0 <= j < i ==> (#[trigger] variants[j]).discriminant != Some(d))
            ==> variant_with_discriminant(variants, d) == Some(i),
{
    if forall|j: int| 0 <= j < i ==> (#[trigger] variants[j]).name != variants[i].name {
        lemma_first_where_found(
            variants,
            |v: EnumerationVariantView| v.name == variants[i].name,
            i,
        );
    }
    if forall|j: int| 0 <= j < i ==> (#[trigger] variants[j]).discriminant != Some(d) {
        lemma_first_where_found(
            variants,
            |v: EnumerationVariantView| v.discriminant == Some(d),
            i,
        );
    }
}

/// What a discriminant selects is a variant that carries it; or, where no
/// variant carries it, a variant that carries none; or nothing, where every
/// variant carries another discriminant.
pub proof fn lemma_variant_with_discriminant(variants: Seq<EnumerationVariantView>, d: u64)
    ensures
        match variant_with_discriminant(variants, d) {
            Some(i) => 0 <= i < variants.len() && (variants[i].discriminant == Some(d) || (
            variants[i].discriminant is None && forall|j: int|
                0 <= j < variants.len() ==> (#[trigger] variants[j]).discriminant != Some(d))),
            None => forall|j: int|
                0 <= j < variants.len() ==> (#[trigger] variants[j]).discriminant is Some
                    && variants[j].discriminant != Some(d),
        },
{
    crate::search::lemma_first_where_is_first(
        variants,
        |v: EnumerationVariantView| v.discriminant == Some(d),
    );
    crate::search::lemma_first_where_is_first(
        variants,
        |v: EnumerationVariantView| v.discriminant is None,
    );
}

} // verus!
