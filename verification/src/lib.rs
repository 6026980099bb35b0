//! Typed navigation of the debugging information carried by object files.
//!
//! The entries of a compilation unit are read from the file ([`reader`]) as
//! plain values ([`dwarf`]) and folded into a symbol cache
//! ([`unit_info::UnitInfo`]) by the rules of [`walk`]. The caches of all
//! units are indexed by a registry ([`DebugInfo`]) that resolves debug items
//! across units. Cursors in [`debug_types`] walk the type graph while they
//! compose target addresses, and read values through a caller-supplied
//! [`memory::Read`] implementation.
//!
//! ```no_run
//! /// Returns the low byte of the address as the value of every byte.
//! struct FakeReader;
//!
//! impl tasru::memory::Read for FakeReader {
//!     type Error = std::io::Error;
//!
//!     fn read_u8(&mut self, address: u64) -> Result<u8, Self::Error> {
//!         Ok(address as u8)
//!     }
//! }
//!
//! # let bytes: Vec<u8> = Vec::new();
//! // `bytes` holds the contents of an object file.
//! let debug_info = tasru::DebugInfo::new(&bytes).expect("couldn't parse example");
//! let example_enum = debug_info
//!     .variable_from_demangled_name("example::ENUM")
//!     .expect("couldn't find variable")
//!     .enumeration()
//!     .expect("variable isn't an enum");
//! let variant = example_enum.variant(&mut FakeReader).expect("couldn't determine variant");
//! println!("Variant is: {}", variant.name());
//! ```
use crate::search::{
    first_where, lemma_first_where_absent, lemma_first_where_found, lemma_first_where_is_first,
};
use crate::unit_info::{
    lemma_all_symbols, Array, BaseType, BaseTypeView, DebugItem, Enumeration, EnumerationView,
    Pointer, PointerView, StructOffset, Structure, StructureView, Union, UnionView, UnitInfo,
    UnitModel, Variable, VariableView,
};
use crate::debug_types::{
    agrees, fails_with, gives, DebugEnumeration, DebugEnumerationView, DebugStructure,
    DebugStructureView, DebugTypeError, DebugTypeErrorView, DebugUnion, DebugUnionView,
    DebugVariable, DebugVariableView,
};
use crate::dwarf::UnitEntries;
use crate::reader::{
    byte_order, dwarf_units, gathered_sections, load_dwarf, object_byte_order, parse_object,
    parsed, parsed_object, read_units, units_read,
};
use crate::demangle::demangled;
use crate::unit_info::{
    is_called, lemma_one_kind, lemma_size_from_item, lemma_variable_found_by_names,
    MemoryLocation, SymbolKind,
};
use crate::walk::{built, BuildError};
use vstd::string::*;
use std::collections::HashMap;
use vstd::prelude::*;

pub mod debug_types;
pub mod demangle;
pub mod dwarf;
pub mod extract;
pub mod memory;
pub mod memory_source;
pub mod name_index;
pub mod parse;
pub mod reader;
pub mod search;
pub mod text;
pub mod unit_info;
pub mod walk;

verus! {

/// The views of a list of units, in order.
pub open spec fn units_view(units: Seq<UnitInfo>) -> Seq<UnitModel> {
    units.map_values(|u: UnitInfo| u@)
}

/// Whether a unit before the one at `u` registers `id`.
pub open spec fn registered_before(units: Seq<UnitModel>, u: int, id: DebugItem) -> bool {
    exists|k: int| 0 <= k < u && (#[trigger] units[k]).contains(id)
}

/// The first item of the unit at `u`, in the order of its list of all
/// symbols, that a unit before it registers too.
pub open spec fn collision_in(units: Seq<UnitModel>, u: int) -> Option<DebugItem> {
    match first_where(
        units[u].all_symbols(),
        |id: DebugItem| registered_before(units, u, id),
    ) {
        Some(j) => Some(units[u].all_symbols()[j]),
        None => None,
    }
}

/// The first item that two units register: the units taken in order, and
/// the items of a unit in the order of its list of all symbols.
pub open spec fn first_collision(units: Seq<UnitModel>) -> Option<DebugItem> {
    match first_where(
        Seq::new(units.len(), |u: int| u),
        |u: int| collision_in(units, u) is Some,
    ) {
        Some(u) => collision_in(units, u),
        None => None,
    }
}

/// The units of one object file, as plain mathematical values.
pub struct DebugInfoModel {
    pub units: Seq<UnitModel>,
}

impl DebugInfoModel {
    /// Every unit is well formed, and no item is registered by two units.
    pub open spec fn wf(self) -> bool {
        &&& forall|u: int|
            0 <= u < self.units.len() ==> (#[trigger] self.units[u]).wf()
                && self.units[u].names_wf()
        &&& forall|u1: int, u2: int, id: DebugItem|
            0 <= u1 < self.units.len() && 0 <= u2 < self.units.len()
                && #[trigger] self.units[u1].contains(id) && #[trigger] self.units[u2].contains(
                id,
            ) ==> u1 == u2
    }

    /// The unit that registers an item.
    pub open spec fn unit_of(self, id: DebugItem) -> Option<int> {
        first_where(self.units, |u: UnitModel| u.contains(id))
    }

    /// The variable registered under an item.
    pub open spec fn variable_from_item(self, id: DebugItem) -> Option<VariableView> {
        match self.unit_of(id) {
            Some(u) => self.units[u].variable_from_item(id),
            None => None,
        }
    }

    /// The structure registered under an item.
    pub open spec fn structure_from_item(self, id: DebugItem) -> Option<StructureView> {
        match self.unit_of(id) {
            Some(u) => self.units[u].structure_from_item(id),
            None => None,
        }
    }

    /// The enumeration registered under an item.
    pub open spec fn enumeration_from_item(self, id: DebugItem) -> Option<EnumerationView> {
        match self.unit_of(id) {
            Some(u) => self.units[u].enumeration_from_item(id),
            None => None,
        }
    }

    /// The pointer registered under an item.
    pub open spec fn pointer_from_item(self, id: DebugItem) -> Option<PointerView> {
        match self.unit_of(id) {
            Some(u) => self.units[u].pointer_from_item(id),
            None => None,
        }
    }

    /// The array registered under an item.
    pub open spec fn array_from_item(self, id: DebugItem) -> Option<Array> {
        match self.unit_of(id) {
            Some(u) => self.units[u].array_from_item(id),
            None => None,
        }
    }

    /// The union registered under an item.
    pub open spec fn union_from_item(self, id: DebugItem) -> Option<UnionView> {
        match self.unit_of(id) {
            Some(u) => self.units[u].union_from_item(id),
            None => None,
        }
    }

    /// The base type registered under an item.
    pub open spec fn base_type_from_item(self, id: DebugItem) -> Option<BaseTypeView> {
        match self.unit_of(id) {
            Some(u) => self.units[u].base_type_from_item(id),
            None => None,
        }
    }

    /// The size of the type registered under an item, as the unit that
    /// registers it knows it.
    pub open spec fn size_from_item(self, id: DebugItem) -> Option<StructOffset> {
        match self.unit_of(id) {
            Some(u) => self.units[u].size_from_item(id),
            None => None,
        }
    }
}

/// All compilation units of one object file, with an index that finds the
/// unit of every registered item.
#[derive(Debug)]
pub struct DebugInfo {
    /// All the compilation units from within the file
    units: Vec<UnitInfo>,
    /// The unit that registers an item, by the item's offset.
    symbol_unit_mapping: HashMap<u64, usize>,
}

impl View for DebugInfo {
    type V = DebugInfoModel;

    closed spec fn view(&self) -> DebugInfoModel {
        DebugInfoModel { units: units_view(self.units@) }
    }
}

/// Whether an index of units agrees with the units: it maps an item to the
/// unit that registers it, and maps every registered item.
pub open spec fn indexed(units: Seq<UnitModel>, mapping: Map<u64, usize>) -> bool {
    &&& forall|key: u64| #[trigger]
        mapping.contains_key(key) ==> mapping[key] < units.len()
            && units[mapping[key] as int].contains(DebugItem { offset: key })
    &&& forall|u: int, id: DebugItem|
        0 <= u < units.len() && #[trigger] units[u].contains(id) ==> mapping.contains_key(
            id.offset,
        ) && mapping[id.offset] == u
}

/// Units with an index that agrees with them register no item twice.
pub proof fn lemma_indexed_unit_of(units: Seq<UnitModel>, mapping: Map<u64, usize>, id: DebugItem)
    requires
        indexed(units, mapping),
    ensures
        first_where(units, |u: UnitModel| u.contains(id)) == if mapping.contains_key(id.offset) {
            Some(mapping[id.offset] as int)
        } else {
            None
        },
{
    let p = |u: UnitModel| u.contains(id);
    if mapping.contains_key(id.offset) {
        let u = mapping[id.offset] as int;
        assert(p(units[u]));
        assert forall|k: int| 0 <= k < u implies !p(#[trigger] units[k]) by {
            if units[k].contains(id) {
                assert(mapping[id.offset] == k);
            }
        }
        lemma_first_where_found(units, p, u);
    } else {
        assert forall|k: int| 0 <= k < units.len() implies !p(#[trigger] units[k]) by {
            if units[k].contains(id) {
                assert(mapping.contains_key(id.offset));
            }
        }
        lemma_first_where_absent(units, p);
    }
}

impl DebugInfo {
    #[verifier::type_invariant]
    spec fn inv(&self) -> bool {
        &&& indexed(units_view(self.units@), self.symbol_unit_mapping@)
        &&& forall|u: int|
            0 <= u < self.units.len() ==> (#[trigger] units_view(self.units@)[u]).wf()
                && units_view(self.units@)[u].names_wf()
    }

    /// The unit that registers an item.
    fn unit_index(&self, item: DebugItem) -> (r: Option<usize>)
        ensures
            self@.wf(),
            match self@.unit_of(item) {
                Some(u) => r == Some(u as usize) && u < self.units.len(),
                None => r is None,
            },
    {
        broadcast use vstd::std_specs::hash::group_hash_axioms;

        proof {
            use_type_invariant(self);
            lemma_indexed_unit_of(units_view(self.units@), self.symbol_unit_mapping@, item);
            let units = units_view(self.units@);
            assert forall|u1: int, u2: int, id: DebugItem|
                0 <= u1 < units.len() && 0 <= u2 < units.len() && #[trigger] units[u1].contains(
                    id,
                ) && #[trigger] units[u2].contains(id) implies u1 == u2 by {
                assert(self.symbol_unit_mapping@[id.offset] == u1);
                assert(self.symbol_unit_mapping@[id.offset] == u2);
            }
        }
        match self.symbol_unit_mapping.get(&item.offset) {
            Some(u) => Some(*u),
            None => None,
        }
    }

    /// Indexes the given units. No item may be registered by two of them:
    /// the first such item is reported as an error.
    pub fn from_units(units: Vec<UnitInfo>) -> (r: Result<DebugInfo, BuildError>)
        ensures
            match first_collision(units_view(units@)) {
                Some(id) => r matches Err(e) && e == BuildError::DuplicateItem(id),
                None => r matches Ok(info) && info@.units == units_view(units@) && info@.wf(),
            },
    {
        broadcast use vstd::std_specs::hash::group_hash_axioms;

        let ghost models = units_view(units@);
        let ghost indices = Seq::new(models.len(), |u: int| u);
        let ghost colliding = |u: int| collision_in(models, u) is Some;
        let mut mapping: HashMap<u64, usize> = HashMap::new();
        let mut u: usize = 0;
        while u < units.len()
            invariant
                u <= units.len(),
                models == units_view(units@),
                indices == Seq::new(models.len(), |u: int| u),
                colliding == (|u: int| collision_in(models, u) is Some),
                forall|k: int| 0 <= k < u ==> (#[trigger] models[k]).wf() && models[k].names_wf(),
                forall|key: u64| #[trigger]
                    mapping@.contains_key(key) ==> mapping@[key] < u
                        && models[mapping@[key] as int].contains(DebugItem { offset: key }),
                forall|k: int, id: DebugItem|
                    0 <= k < u && #[trigger] models[k].contains(id) ==> mapping@.contains_key(
                        id.offset,
                    ) && mapping@[id.offset] == k,
                forall|k: int| 0 <= k < u ==> !colliding(#[trigger] indices[k]),
            decreases units.len() - u,
        {
            let symbols = units[u].all_symbols();
            let ghost before = |id: DebugItem| registered_before(models, u as int, id);
            proof {
                assert(models[u as int] == units@[u as int]@);
                lemma_all_symbols(models[u as int]);
            }
            let mut j: usize = 0;
            while j < symbols.len()
                invariant
                    j <= symbols.len(),
                    u < units.len(),
                    models == units_view(units@),
                    indices == Seq::new(models.len(), |u: int| u),
                    colliding == (|u: int| collision_in(models, u) is Some),
                    before == (|id: DebugItem| registered_before(models, u as int, id)),
                    symbols@ == models[u as int].all_symbols(),
                    symbols@.no_duplicates(),
                    forall|x: DebugItem| #[trigger]
                        symbols@.contains(x) == models[u as int].contains(x),
                    forall|key: u64| #[trigger]
                        mapping@.contains_key(key) ==> (mapping@[key] < u
                            && models[mapping@[key] as int].contains(
                            DebugItem { offset: key },
                        )) || (mapping@[key] == u && exists|i: int|
                            0 <= i < j && symbols@[i] == (DebugItem { offset: key })),
                    forall|k: int, id: DebugItem|
                        0 <= k < u && #[trigger] models[k].contains(id)
                            ==> mapping@.contains_key(id.offset) && mapping@[id.offset] == k,
                    forall|i: int|
                        0 <= i < j ==> mapping@.contains_key((#[trigger] symbols@[i]).offset)
                            && mapping@[symbols@[i].offset] == u,
                    forall|i: int| 0 <= i < j ==> !before(#[trigger] symbols@[i]),
                    forall|k: int| 0 <= k < u ==> !colliding(#[trigger] indices[k]),
                decreases symbols.len() - j,
            {
                let id = symbols[j];
                if mapping.get(&id.offset).is_some() {
                    proof {
                        let owner = mapping@[id.offset];
                        if owner == u {
                            let i = choose|i: int| 0 <= i < j && symbols@[i] == id;
                            assert(symbols@[i] == symbols@[j as int]);
                        }
                        assert(models[owner as int].contains(id));
                        assert(before(symbols@[j as int]));
                        lemma_first_where_found(symbols@, before, j as int);
                        assert(collision_in(models, u as int) == Some(id));
                        assert(indices[u as int] == u);
                        assert(colliding(indices[u as int]));
                        lemma_first_where_found(indices, colliding, u as int);
                    }
                    return Err(BuildError::DuplicateItem(id));
                }
                proof {
                    if before(id) {
                        let k = choose|k: int| 0 <= k < u && (#[trigger] models[k]).contains(id);
                        assert(mapping@.contains_key(id.offset));
                    }
                }
                mapping.insert(id.offset, u);
                j += 1;
            }
            proof {
                lemma_first_where_absent(symbols@, before);
                assert(!colliding(indices[u as int]));
                assert forall|id: DebugItem| (#[trigger] models[u as int].contains(id))
                    implies mapping@.contains_key(id.offset) && mapping@[id.offset] == u by {
                    assert(symbols@.contains(id));
                    let i = choose|i: int| 0 <= i < symbols@.len() && symbols@[i] == id;
                    assert(mapping@.contains_key(symbols@[i].offset));
                }
                assert forall|key: u64| #[trigger] mapping@.contains_key(key) implies mapping@[key]
                    < u + 1 && models[mapping@[key] as int].contains(DebugItem { offset: key }) by {
                    if mapping@[key] == u {
                        let i = choose|i: int|
                            0 <= i < j && symbols@[i] == (DebugItem { offset: key });
                        assert(symbols@.contains(symbols@[i]));
                    }
                }
            }
            u += 1;
        }
        proof {
            lemma_first_where_absent(indices, colliding);
        }
        let info = DebugInfo { units, symbol_unit_mapping: mapping };
        proof {
            assert forall|u1: int, u2: int, id: DebugItem|
                0 <= u1 < models.len() && 0 <= u2 < models.len() && #[trigger] models[u1].contains(
                    id,
                ) && #[trigger] models[u2].contains(id) implies u1 == u2 by {
                assert(mapping@[id.offset] == u1);
                assert(mapping@[id.offset] == u2);
            }
        }
        Ok(info)
    }

    /// The unit that registers an item. A registry is always well formed.
    pub fn lookup_unit(&self, item: DebugItem) -> (r: Option<&UnitInfo>)
        ensures
            self@.wf(),
            match self@.unit_of(item) {
                Some(u) => r matches Some(unit) && unit@ == self@.units[u],
                None => r is None,
            },
    {
        match self.unit_index(item) {
            Some(u) => Some(&self.units[u]),
            None => None,
        }
    }

    /// Get the size of the specified debug item. Any debug item may be specified here,
    /// though some types may return `None` if their size couldn't be determined.
    pub fn size_from_item(&self, item: DebugItem) -> (r: Option<StructOffset>)
        ensures
            r == self@.size_from_item(item),
    {
        match self.unit_index(item) {
            Some(u) => self.units[u].size_from_item(item),
            None => None,
        }
    }

    /// Given an item, return the Variable object. If the item is not a Variable, or couldn't
    /// be located, return `None`.
    pub fn variable_from_item(&self, item: DebugItem) -> (r: Option<&Variable>)
        ensures
            match self@.variable_from_item(item) {
                Some(v) => r matches Some(x) && x@ == v,
                None => r is None,
            },
    {
        match self.unit_index(item) {
            Some(u) => self.units[u].variable_from_item(item),
            None => None,
        }
    }

    /// Given an item, return the Structure object. If the item is not a Structure, or couldn't
    /// be located, return `None`.
    pub fn structure_from_item(&self, item: DebugItem) -> (r: Option<&Structure>)
        ensures
            match self@.structure_from_item(item) {
                Some(v) => r matches Some(x) && x@ == v,
                None => r is None,
            },
    {
        match self.unit_index(item) {
            Some(u) => self.units[u].structure_from_item(item),
            None => None,
        }
    }

    /// Given an item, return the Enumeration object. If the item is not an Enumeration, or couldn't
    /// be located, return `None`.
    pub fn enumeration_from_item(&self, item: DebugItem) -> (r: Option<&Enumeration>)
        ensures
            match self@.enumeration_from_item(item) {
                Some(v) => r matches Some(x) && x@ == v,
                None => r is None,
            },
    {
        match self.unit_index(item) {
            Some(u) => self.units[u].enumeration_from_item(item),
            None => None,
        }
    }

    /// Given an item, return the Pointer object. If the item is not a Pointer, or couldn't
    /// be located, return `None`.
    pub fn pointer_from_item(&self, item: DebugItem) -> (r: Option<&Pointer>)
        ensures
            match self@.pointer_from_item(item) {
                Some(v) => r matches Some(x) && x@ == v,
                None => r is None,
            },
    {
        match self.unit_index(item) {
            Some(u) => self.units[u].pointer_from_item(item),
            None => None,
        }
    }

    /// Given an item, return the Array object. If the item is not an Array, or couldn't
    /// be located, return `None`.
    pub fn array_from_item(&self, item: DebugItem) -> (r: Option<&Array>)
        ensures
            match self@.array_from_item(item) {
                Some(v) => r matches Some(x) && *x == v,
                None => r is None,
            },
    {
        match self.unit_index(item) {
            Some(u) => self.units[u].array_from_item(item),
            None => None,
        }
    }

    /// Given an item, return the Union object. If the item is not a Union, or couldn't
    /// be located, return `None`.
    pub fn union_from_item(&self, item: DebugItem) -> (r: Option<&Union>)
        ensures
            match self@.union_from_item(item) {
                Some(v) => r matches Some(x) && x@ == v,
                None => r is None,
            },
    {
        match self.unit_index(item) {
            Some(u) => self.units[u].union_from_item(item),
            None => None,
        }
    }

    /// Given an item, return the BaseType object. If the item is not a BaseType, or couldn't
    /// be located, return `None`.
    pub fn base_type_from_item(&self, item: DebugItem) -> (r: Option<&BaseType>)
        ensures
            match self@.base_type_from_item(item) {
                Some(v) => r matches Some(x) && x@ == v,
                None => r is None,
            },
    {
        match self.unit_index(item) {
            Some(u) => self.units[u].base_type_from_item(item),
            None => None,
        }
    }
}

/// Whether a name can begin with this character: a letter of the basic
/// alphabet, or an underscore.
pub open spec fn is_name_start(c: char) -> bool {
    ('a' <= c && c <= 'z') || ('A' <= c && c <= 'Z') || c == '_'
}

/// Whether the four characters `dyn` and a space begin the name.
pub open spec fn starts_with_dyn(name: Seq<char>) -> bool {
    name.len() >= 4 && name[0] == 'd' && name[1] == 'y' && name[2] == 'n' && name[3] == ' '
}

/// The length of the part of a name that comes before its generic
/// arguments: the position of the first `<`, or the whole length.
pub open spec fn head_len(name: Seq<char>) -> int {
    match first_where(name, |c: char| c == '<') {
        Some(i) => i,
        None => name.len() as int,
    }
}

/// Whether two colons stand at `i` and after it.
pub open spec fn separator_at(name: Seq<char>, i: int) -> bool {
    0 <= i && i + 1 < name.len() && name[i] == ':' && name[i + 1] == ':'
}

/// Whether `i` is where the last `::` begins that ends within the first
/// `limit` characters.
pub open spec fn is_last_separator(name: Seq<char>, limit: int, i: int) -> bool {
    &&& separator_at(name, i)
    &&& i + 2 <= limit
    &&& forall|j: int| i < j && j + 2 <= limit ==> !#[trigger] separator_at(name, j)
}

/// Where the last `::` begins that ends within the first `limit` characters.
pub open spec fn last_separator(name: Seq<char>, limit: int) -> Option<int> {
    if exists|i: int| is_last_separator(name, limit, i) {
        Some(choose|i: int| is_last_separator(name, limit, i))
    } else {
        None
    }
}

/// A qualified type name split into its namespace and its own name.
///
/// A name that does not begin like a name, and one that begins with `dyn`
/// and a space, has no namespace. Else the name is split at the last `::`
/// before its generic arguments; without one it has no namespace either.
pub open spec fn split_name(name: Seq<char>) -> (Seq<char>, Seq<char>) {
    if name.len() > 0 && !is_name_start(name[0]) {
        (Seq::empty(), name)
    } else if starts_with_dyn(name) {
        (Seq::empty(), name)
    } else {
        match last_separator(name, head_len(name)) {
            Some(i) => (name.subrange(0, i), name.subrange(i + 2, name.len() as int)),
            None => (Seq::empty(), name),
        }
    }
}

/// Splitting a name and joining the parts with `::` gives the name back,
/// where the split found a namespace; where it found none, the name is the
/// whole of what was split.
pub proof fn lemma_split_then_join(name: Seq<char>)
    ensures
        split_name(name).0.len() > 0 ==> split_name(name).0 + "::"@ + split_name(name).1 == name,
        split_name(name).0.len() == 0 ==> split_name(name).1 == name,
{
    reveal_strlit("::");
    let (namespace, rest) = split_name(name);
    if name.len() > 0 && !is_name_start(name[0]) {
    } else if starts_with_dyn(name) {
    } else {
        match last_separator(name, head_len(name)) {
            Some(i) => {
                assert(is_last_separator(name, head_len(name), i));
                assert(separator_at(name, i));
                assert(i != 0);
                assert("::"@ =~= seq![':', ':']);
                assert(namespace + "::"@ + rest =~= name);
            },
            None => {},
        }
    }
}

fn is_name_start_char(c: char) -> (r: bool)
    ensures
        r == is_name_start(c),
{
    ('a' <= c && c <= 'z') || ('A' <= c && c <= 'Z') || c == '_'
}

/// Splits a qualified type name into its namespace and its own name.
pub fn split_namespace_and_name(kind: &str) -> (r: (&str, &str))
    ensures
        r.0@ == split_name(kind@).0,
        r.1@ == split_name(kind@).1,
{
    proof {
        reveal_strlit("");
    }
    let n = kind.unicode_len();
    if n > 0 && !is_name_start_char(kind.get_char(0)) {
        return ("", kind);
    }
    if n >= 4 && kind.get_char(0) == 'd' && kind.get_char(1) == 'y' && kind.get_char(2) == 'n'
        && kind.get_char(3) == ' ' {
        return ("", kind);
    }
    let ghost is_open = |c: char| c == '<';
    let mut head: usize = 0;
    while head < n && kind.get_char(head) != '<'
        invariant
            head <= n,
            n == kind@.len(),
            is_open == (|c: char| c == '<'),
            forall|j: int| 0 <= j < head ==> !is_open(#[trigger] kind@[j]),
        decreases n - head,
    {
        assert(!is_open(kind@[head as int]));
        head += 1;
    }
    proof {
        if head < n {
            assert(is_open(kind@[head as int]));
            lemma_first_where_found(kind@, is_open, head as int);
        } else {
            lemma_first_where_absent(kind@, is_open);
        }
        assert(head == head_len(kind@));
    }
    let mut end: usize = head;
    while end >= 2
        invariant
            end <= head <= n,
            n == kind@.len(),
            head == head_len(kind@),
            !(kind@.len() > 0 && !is_name_start(kind@[0])),
            !starts_with_dyn(kind@),
            forall|j: int| end - 2 < j && j + 2 <= head ==> !#[trigger] separator_at(kind@, j),
        decreases end,
    {
        let i = end - 2;
        if kind.get_char(i) == ':' && kind.get_char(i + 1) == ':' {
            proof {
                assert(separator_at(kind@, i as int));
                assert(is_last_separator(kind@, head as int, i as int));
                let c = choose|k: int| is_last_separator(kind@, head as int, k);
                assert(is_last_separator(kind@, head as int, c));
                if c < i {
                    assert(!separator_at(kind@, i as int));
                } else if i < c {
                    assert(!separator_at(kind@, c));
                }
                assert(last_separator(kind@, head as int) == Some(i as int));
            }
            return (kind.substring_char(0, i), kind.substring_char(i + 2, n));
        }
        assert(!separator_at(kind@, i as int));
        end -= 1;
    }
    proof {
        assert forall|k: int| !is_last_separator(kind@, head as int, k) by {
            if is_last_separator(kind@, head as int, k) {
                assert(separator_at(kind@, k));
                assert(!separator_at(kind@, k));
            }
        }
        assert(last_separator(kind@, head as int) is None);
    }
    ("", kind)
}

impl DebugInfoModel {
    /// The variable that a demangled name denotes: the one that the first
    /// unit which knows the name has for it.
    pub open spec fn variable_from_demangled_name(self, name: Seq<char>) -> Option<VariableView> {
        match first_where(
            self.units,
            |u: UnitModel| u.variable_at(u.demangled_variable_names, name) is Some,
        ) {
            Some(u) => self.units[u].variable_at(self.units[u].demangled_variable_names, name),
            None => None,
        }
    }

    /// The variable that a linkage name or a qualified name denotes: the
    /// one that the first unit which knows the name has for it.
    pub open spec fn variable_from_name(self, name: Seq<char>) -> Option<VariableView> {
        match first_where(
            self.units,
            |u: UnitModel| u.variable_at(u.variable_names, name) is Some,
        ) {
            Some(u) => self.units[u].variable_at(self.units[u].variable_names, name),
            None => None,
        }
    }

    /// The first structure with this namespace and name: of the first unit
    /// that has one, the first in the order of registration.
    pub open spec fn structure_called(self, namespace: Seq<char>, name: Seq<char>) -> Option<
        StructureView,
    > {
        let called = |s: StructureView| is_called(namespace, name, s.namespace, s.name);
        match first_where(self.units, |u: UnitModel| first_where(u.structures, called) is Some) {
            Some(u) => Some(
                self.units[u].structures[first_where(self.units[u].structures, called).unwrap()],
            ),
            None => None,
        }
    }

    /// The first enumeration with this namespace and name.
    pub open spec fn enumeration_called(self, namespace: Seq<char>, name: Seq<char>) -> Option<
        EnumerationView,
    > {
        let called = |e: EnumerationView| is_called(namespace, name, e.namespace, e.name);
        match first_where(self.units, |u: UnitModel| first_where(u.enumerations, called) is Some) {
            Some(u) => Some(
                self.units[u].enumerations[first_where(
                    self.units[u].enumerations,
                    called,
                ).unwrap()],
            ),
            None => None,
        }
    }

    /// The first union with this namespace and name.
    pub open spec fn union_called(self, namespace: Seq<char>, name: Seq<char>) -> Option<
        UnionView,
    > {
        let called = |u: UnionView| is_called(namespace, name, u.namespace, u.name);
        match first_where(self.units, |unit: UnitModel| first_where(unit.unions, called) is Some) {
            Some(i) => Some(
                self.units[i].unions[first_where(self.units[i].unions, called).unwrap()],
            ),
            None => None,
        }
    }
}

/// The structure of a type name at an address: the first structure with
/// the namespace and the name that the type name splits into. A type name
/// without a namespace names no structure.
pub open spec fn structure_at(info: DebugInfoModel, kind: Seq<char>, address: u64) -> Result<
    DebugStructureView,
    DebugTypeErrorView,
> {
    let (namespace, name) = split_name(kind);
    if namespace.len() == 0 {
        Err(DebugTypeErrorView::StructureNotFound { owner: kind })
    } else {
        match info.structure_called(namespace, name) {
            Some(structure) => Ok(
                DebugStructureView {
                    info,
                    location: Some(MemoryLocation(address)),
                    offset: StructOffset(0),
                    structure,
                },
            ),
            None => Err(DebugTypeErrorView::StructureNotFound { owner: kind }),
        }
    }
}

/// The enumeration of a type name at an address: the first enumeration
/// with the namespace and the name that the type name splits into. A type
/// name without a namespace names no enumeration.
pub open spec fn enumeration_at(info: DebugInfoModel, kind: Seq<char>, address: u64) -> Result<
    DebugEnumerationView,
    DebugTypeErrorView,
> {
    let (namespace, name) = split_name(kind);
    if namespace.len() == 0 {
        Err(DebugTypeErrorView::EnumerationNotFound { owner: kind })
    } else {
        match info.enumeration_called(namespace, name) {
            Some(enumeration) => Ok(
                DebugEnumerationView {
                    info,
                    location: Some(MemoryLocation(address)),
                    offset: StructOffset(0),
                    enumeration,
                },
            ),
            None => Err(DebugTypeErrorView::EnumerationNotFound { owner: kind }),
        }
    }
}

/// The union of a type name at an address: the first union with the
/// namespace and the name that the type name splits into. A type name
/// without a namespace names no union.
pub open spec fn union_at(info: DebugInfoModel, kind: Seq<char>, address: u64) -> Result<
    DebugUnionView,
    DebugTypeErrorView,
> {
    let (namespace, name) = split_name(kind);
    if namespace.len() == 0 {
        Err(DebugTypeErrorView::UnionNotFound { owner: kind })
    } else {
        match info.union_called(namespace, name) {
            Some(union) => Ok(
                DebugUnionView {
                    info,
                    location: Some(MemoryLocation(address)),
                    offset: StructOffset(0),
                    union,
                },
            ),
            None => Err(DebugTypeErrorView::UnionNotFound { owner: kind }),
        }
    }
}

/// The symbols that the entries of the first `n` units build, or the
/// first error on the way.
pub open spec fn all_built(units: Seq<UnitEntries>, n: int) -> Result<Seq<UnitModel>, BuildError>
    decreases n,
{
    if n <= 0 {
        Ok(Seq::empty())
    } else {
        match all_built(units, n - 1) {
            Err(e) => Err(e),
            Ok(models) => match built(units[n - 1].header, units[n - 1].dies@) {
                Ok(state) => Ok(models.push(state.unit)),
                Err(e) => Err(e),
            },
        }
    }
}

/// An error among the first units is the error of all units.
pub proof fn lemma_all_built_error(units: Seq<UnitEntries>, k: int)
    requires
        0 <= k <= units.len(),
        all_built(units, k) is Err,
    ensures
        all_built(units, units.len() as int) == all_built(units, k),
    decreases units.len() - k,
{
    if k < units.len() {
        assert(all_built(units, k + 1) == all_built(units, k));
        lemma_all_built_error(units, k + 1);
    }
}

/// What loading the entries of some units gives: the symbols of every unit,
/// unless a unit cannot be built or two units register the same item.
pub open spec fn loaded(units: Seq<UnitEntries>) -> Result<Seq<UnitModel>, BuildError> {
    match all_built(units, units.len() as int) {
        Err(e) => Err(e),
        Ok(models) => match first_collision(models) {
            Some(id) => Err(BuildError::DuplicateItem(id)),
            None => Ok(models),
        },
    }
}

impl DebugInfo {
    /// Builds the symbols of every unit from its entries, and indexes the
    /// units. The first unit that cannot be built, and else the first item
    /// that two units register, is an error.
    pub fn load(units: &Vec<UnitEntries>) -> (r: Result<DebugInfo, BuildError>)
        ensures
            match loaded(units@) {
                Ok(models) => r matches Ok(info) && info@.units == models && info@.wf(),
                Err(e) => r matches Err(x) && x == e,
            },
    {
        let mut built_units: Vec<UnitInfo> = Vec::new();
        let mut u: usize = 0;
        assert(units_view(built_units@) =~= Seq::empty());
        while u < units.len()
            invariant
                u <= units.len(),
                all_built(units@, u as int) == Ok::<Seq<UnitModel>, BuildError>(
                    units_view(built_units@),
                ),
            decreases units.len() - u,
        {
            let ghost before = units_view(built_units@);
            match UnitInfo::new(&units[u].header, &units[u].dies) {
                Ok(unit) => {
                    built_units.push(unit);
                    assert(units_view(built_units@) =~= before.push(unit@));
                },
                Err(e) => {
                    proof {
                        assert(all_built(units@, u as int + 1) == Err::<
                            Seq<UnitModel>,
                            BuildError,
                        >(e));
                        lemma_all_built_error(units@, u as int + 1);
                    }
                    return Err(e);
                },
            }
            u += 1;
        }
        DebugInfo::from_units(built_units)
    }
}

/// Whether the predicate rejects every variable that comes before the
/// variable at position `i` of the unit at `u`: all variables of the units
/// before that unit, and the variables of that unit before that position.
pub open spec fn rejected_before<P: Fn(&&Variable) -> bool>(
    units: Seq<UnitInfo>,
    predicate: P,
    u: int,
    i: int,
) -> bool {
    forall|k: int, j: int|
        0 <= k < units.len() && 0 <= j < units[k].variables().len() && (k < u || (k == u && j < i))
            ==> predicate.ensures((&&#[trigger] units[k].variables()[j],), false)
}

impl DebugInfo {
    /// The units, in order.
    pub closed spec fn units(&self) -> Seq<UnitInfo> {
        self.units@
    }

    /// Consult all units to look for a variable with the specified name. If the variable
    /// cannot be found, return an error. Note that only rustc name mangling is supported.
    pub fn variable_from_demangled_name(&self, path: &str) -> (r: Result<
        DebugVariable<'_>,
        DebugTypeError,
    >)
        ensures
            match self@.variable_from_demangled_name(path@) {
                Some(variable) => gives(r, DebugVariableView { info: self@, variable }),
                None => fails_with(r, DebugTypeErrorView::VariableNotFound(path@)),
            },
    {
        let ghost models = self@.units;
        let ghost known = |u: UnitModel| u.variable_at(u.demangled_variable_names, path@) is Some;
        let mut i: usize = 0;
        while i < self.units.len()
            invariant
                i <= self.units.len(),
                models == self@.units,
                known == (|u: UnitModel|
                    u.variable_at(u.demangled_variable_names, path@) is Some),
                forall|k: int| 0 <= k < i ==> !known(#[trigger] models[k]),
            decreases self.units.len() - i,
        {
            let unit = &self.units[i];
            assert(models[i as int] == unit@);
            match unit.variable_from_demangled_name(path) {
                Some(variable) => {
                    proof {
                        assert(known(models[i as int]));
                        lemma_first_where_found(models, known, i as int);
                    }
                    return Ok(DebugVariable::new(self, variable));
                },
                None => {},
            }
            assert(!known(models[i as int]));
            i += 1;
        }
        proof {
            lemma_first_where_absent(models, known);
        }
        Err(DebugTypeError::VariableNotFound(String::from_str(path)))
    }

    /// Consult all units to look for a variable with the specified name. If the variable
    /// cannot be found, return an error. The variable name will not be demangled.
    pub fn variable_from_name(&self, path: &str) -> (r: Result<DebugVariable<'_>, DebugTypeError>)
        ensures
            match self@.variable_from_name(path@) {
                Some(variable) => gives(r, DebugVariableView { info: self@, variable }),
                None => fails_with(r, DebugTypeErrorView::VariableNotFound(path@)),
            },
    {
        let ghost models = self@.units;
        let ghost known = |u: UnitModel| u.variable_at(u.variable_names, path@) is Some;
        let mut i: usize = 0;
        while i < self.units.len()
            invariant
                i <= self.units.len(),
                models == self@.units,
                known == (|u: UnitModel| u.variable_at(u.variable_names, path@) is Some),
                forall|k: int| 0 <= k < i ==> !known(#[trigger] models[k]),
            decreases self.units.len() - i,
        {
            let unit = &self.units[i];
            assert(models[i as int] == unit@);
            match unit.variable_from_name(path) {
                Some(variable) => {
                    proof {
                        assert(known(models[i as int]));
                        lemma_first_where_found(models, known, i as int);
                    }
                    return Ok(DebugVariable::new(self, variable));
                },
                None => {},
            }
            assert(!known(models[i as int]));
            i += 1;
        }
        proof {
            lemma_first_where_absent(models, known);
        }
        Err(DebugTypeError::VariableNotFound(String::from_str(path)))
    }

    /// The first variable that the predicate accepts: the units are taken
    /// in order, and the variables of a unit in the order of registration.
    pub fn find_variable<P>(&self, predicate: P) -> (r: Result<
        DebugVariable<'_>,
        DebugTypeError,
    >) where P: Fn(&&Variable) -> bool,

        requires
            forall|v: &&Variable| #[trigger] predicate.requires((v,)),
        ensures
            match r {
                Ok(found) => exists|u: int, i: int|
                    0 <= u < self.units().len() && 0 <= i < self.units()[u].variables().len()
                        && found@ == (DebugVariableView {
                        info: self@,
                        variable: (#[trigger] self.units()[u].variables()[i])@,
                    }) && predicate.ensures((&&self.units()[u].variables()[i],), true)
                        && rejected_before(self.units(), predicate, u, i),
                Err(e) => e@ == DebugTypeErrorView::VariableNotFound(Seq::empty())
                    && rejected_before(self.units(), predicate, self.units().len() as int, 0),
            },
    {
        let mut u: usize = 0;
        while u < self.units.len()
            invariant
                u <= self.units.len(),
                forall|v: &&Variable| #[trigger] predicate.requires((v,)),
                rejected_before(self.units(), predicate, u as int, 0),
            decreases self.units.len() - u,
        {
            let unit = &self.units[u];
            match unit.find_variable(&predicate) {
                Some(variable) => {
                    let found = DebugVariable::new(self, variable);
                    proof {
                        let i = choose|i: int|
                            0 <= i < unit.variables().len() && #[trigger] unit.variables()[i]
                                == *variable && predicate.ensures((&&unit.variables()[i],), true)
                                && forall|j: int|
                                0 <= j < i ==> predicate.ensures(
                                    (&&#[trigger] unit.variables()[j],),
                                    false,
                                );
                        assert(found@ == (DebugVariableView {
                            info: self@,
                            variable: self.units()[u as int].variables()[i]@,
                        }));
                    }
                    return Ok(found);
                },
                None => {},
            }
            u += 1;
        }
        Err(DebugTypeError::VariableNotFound(String::new()))
    }

    /// Consult all units to look for a structure with the specified name. If the structure
    /// cannot be found, return an error. If it's found, construct a new structure
    /// cursor at the specified address.
    pub fn structure_from_type_at_address(&self, kind: &str, address: u64) -> (r: Result<
        DebugStructure<'_>,
        DebugTypeError,
    >)
        ensures
            agrees(r, structure_at(self@, kind@, address)),
    {
        let (namespace, name) = split_namespace_and_name(kind);
        if namespace.unicode_len() == 0 {
            return Err(DebugTypeError::StructureNotFound { owner: String::from_str(kind) });
        }
        let ghost models = self@.units;
        let ghost called = |s: StructureView| is_called(namespace@, name@, s.namespace, s.name);
        let ghost holds = |u: UnitModel| first_where(u.structures, called) is Some;
        let mut i: usize = 0;
        while i < self.units.len()
            invariant
                i <= self.units.len(),
                models == self@.units,
                namespace@ == split_name(kind@).0,
                name@ == split_name(kind@).1,
                namespace@.len() > 0,
                called == (|s: StructureView| is_called(namespace@, name@, s.namespace, s.name)),
                holds == (|u: UnitModel| first_where(u.structures, called) is Some),
                forall|k: int| 0 <= k < i ==> !holds(#[trigger] models[k]),
            decreases self.units.len() - i,
        {
            let unit = &self.units[i];
            assert(models[i as int] == unit@);
            match unit.find_structure(namespace, name) {
                Some(structure) => {
                    proof {
                        assert(holds(models[i as int]));
                        lemma_first_where_found(models, holds, i as int);
                    }
                    return Ok(DebugStructure::new(self, structure, MemoryLocation(address)));
                },
                None => {},
            }
            assert(!holds(models[i as int]));
            i += 1;
        }
        proof {
            lemma_first_where_absent(models, holds);
        }
        Err(DebugTypeError::StructureNotFound { owner: String::from_str(kind) })
    }

    /// The structure registered under an item, as a cursor at an address.
    pub fn structure_from_item_at_address(&self, target_item: &DebugItem, address: u64) -> (r:
        Result<DebugStructure<'_>, DebugTypeError>)
        ensures
            match self@.structure_from_item(*target_item) {
                Some(structure) => gives(
                    r,
                    DebugStructureView {
                        info: self@,
                        location: Some(MemoryLocation(address)),
                        offset: StructOffset(0),
                        structure,
                    },
                ),
                None => fails_with(
                    r,
                    DebugTypeErrorView::StructureNotFound { owner: Seq::empty() },
                ),
            },
    {
        match self.unit_index(*target_item) {
            Some(u) => {
                let unit = &self.units[u];
                match unit.structure_from_item(*target_item) {
                    Some(structure) => {
                        return Ok(
                            DebugStructure::new(self, structure, MemoryLocation(address)),
                        );
                    },
                    None => {},
                }
            },
            None => {},
        }
        Err(DebugTypeError::StructureNotFound { owner: String::new() })
    }

    /// Consult all units to look for an enumeration with the specified name. If the enumeration
    /// cannot be found, return an error. If it's found, construct a new enumeration
    /// cursor at the specified address.
    pub fn enumeration_from_type_at_address(&self, kind: &str, address: u64) -> (r: Result<
        DebugEnumeration<'_>,
        DebugTypeError,
    >)
        ensures
            agrees(r, enumeration_at(self@, kind@, address)),
    {
        let (namespace, name) = split_namespace_and_name(kind);
        if namespace.unicode_len() == 0 {
            return Err(DebugTypeError::EnumerationNotFound { owner: String::from_str(kind) });
        }
        let ghost models = self@.units;
        let ghost called = |e: EnumerationView| is_called(namespace@, name@, e.namespace, e.name);
        let ghost holds = |u: UnitModel| first_where(u.enumerations, called) is Some;
        let mut i: usize = 0;
        while i < self.units.len()
            invariant
                i <= self.units.len(),
                models == self@.units,
                namespace@ == split_name(kind@).0,
                name@ == split_name(kind@).1,
                namespace@.len() > 0,
                called == (|e: EnumerationView|
                    is_called(namespace@, name@, e.namespace, e.name)),
                holds == (|u: UnitModel| first_where(u.enumerations, called) is Some),
                forall|k: int| 0 <= k < i ==> !holds(#[trigger] models[k]),
            decreases self.units.len() - i,
        {
            let unit = &self.units[i];
            assert(models[i as int] == unit@);
            match unit.find_enumeration(namespace, name) {
                Some(enumeration) => {
                    proof {
                        assert(holds(models[i as int]));
                        lemma_first_where_found(models, holds, i as int);
                    }
                    return Ok(
                        DebugEnumeration::new(self, enumeration, MemoryLocation(address)),
                    );
                },
                None => {},
            }
            assert(!holds(models[i as int]));
            i += 1;
        }
        proof {
            lemma_first_where_absent(models, holds);
        }
        Err(DebugTypeError::EnumerationNotFound { owner: String::from_str(kind) })
    }

    /// Consult all units to look for a union with the specified name. If the union
    /// cannot be found, return an error. If it's found, construct a new union
    /// cursor at the specified address.
    pub fn union_from_type_at_address(&self, kind: &str, address: u64) -> (r: Result<
        DebugUnion<'_>,
        DebugTypeError,
    >)
        ensures
            agrees(r, union_at(self@, kind@, address)),
    {
        let (namespace, name) = split_namespace_and_name(kind);
        if namespace.unicode_len() == 0 {
            return Err(DebugTypeError::UnionNotFound { owner: String::from_str(kind) });
        }
        let ghost models = self@.units;
        let ghost called = |u: UnionView| is_called(namespace@, name@, u.namespace, u.name);
        let ghost holds = |unit: UnitModel| first_where(unit.unions, called) is Some;
        let mut i: usize = 0;
        while i < self.units.len()
            invariant
                i <= self.units.len(),
                models == self@.units,
                namespace@ == split_name(kind@).0,
                name@ == split_name(kind@).1,
                namespace@.len() > 0,
                called == (|u: UnionView| is_called(namespace@, name@, u.namespace, u.name)),
                holds == (|unit: UnitModel| first_where(unit.unions, called) is Some),
                forall|k: int| 0 <= k < i ==> !holds(#[trigger] models[k]),
            decreases self.units.len() - i,
        {
            let unit = &self.units[i];
            assert(models[i as int] == unit@);
            match unit.find_union(namespace, name) {
                Some(union) => {
                    proof {
                        assert(holds(models[i as int]));
                        lemma_first_where_found(models, holds, i as int);
                    }
                    return Ok(DebugUnion::new(self, union, MemoryLocation(address)));
                },
                None => {},
            }
            assert(!holds(models[i as int]));
            i += 1;
        }
        proof {
            lemma_first_where_absent(models, holds);
        }
        Err(DebugTypeError::UnionNotFound { owner: String::from_str(kind) })
    }
}

/// An item that a unit of a well-formed registry registers is looked up in
/// that unit.
pub proof fn lemma_unit_of(info: DebugInfoModel, u: int, id: DebugItem)
    requires
        info.wf(),
        0 <= u < info.units.len(),
        info.units[u].contains(id),
    ensures
        info.unit_of(id) == Some(u),
{
    let p = |unit: UnitModel| unit.contains(id);
    assert(p(info.units[u]));
    assert forall|k: int| 0 <= k < u implies !p(#[trigger] info.units[k]) by {
        if info.units[k].contains(id) {
            assert(k == u);
        }
    }
    lemma_first_where_found(info.units, p, u);
}

/// Every registered item is looked up in a unit that registers it under
/// exactly one kind, and no other unit registers it.
pub proof fn lemma_registered_once(info: DebugInfoModel, id: DebugItem)
    requires
        info.wf(),
        info.unit_of(id) is Some,
    ensures
        0 <= info.unit_of(id).unwrap() < info.units.len(),
        exists|kind: SymbolKind|
            (#[trigger] info.units[info.unit_of(id).unwrap()].index_of(kind, id)) is Some
                && forall|other: SymbolKind|
                other != kind ==> (#[trigger] info.units[info.unit_of(id).unwrap()].index_of(
                    other,
                    id,
                )) is None,
        forall|k: int|
            0 <= k < info.units.len() && k != info.unit_of(id).unwrap() ==> !(
            #[trigger] info.units[k]).contains(id),
{
    let u = info.unit_of(id).unwrap();
    lemma_first_where_is_first(info.units, |unit: UnitModel| unit.contains(id));
    assert(info.units[u].contains(id));
    assert(info.units[u].wf());
    lemma_one_kind(info.units[u], id);
}

/// The size that the registry gives for an item agrees with the size that
/// the record registered under it stores, for a structure, an enumeration, a
/// union and a base type; an array and a pointer have no size.
pub proof fn lemma_registry_size(info: DebugInfoModel, id: DebugItem)
    requires
        info.wf(),
    ensures
        info.structure_from_item(id) matches Some(s) ==> info.size_from_item(id) == Some(
            StructOffset(s.size),
        ),
        info.enumeration_from_item(id) matches Some(e) ==> info.size_from_item(id) == Some(
            StructOffset(e.size),
        ),
        info.union_from_item(id) matches Some(u) ==> info.size_from_item(id) == Some(
            StructOffset(u.size),
        ),
        info.base_type_from_item(id) matches Some(b) ==> info.size_from_item(id) == Some(
            StructOffset(b.size),
        ),
        info.array_from_item(id) is Some ==> info.size_from_item(id) is None,
        info.pointer_from_item(id) is Some ==> info.size_from_item(id) is None,
{
    match info.unit_of(id) {
        Some(u) => {
            lemma_first_where_is_first(info.units, |unit: UnitModel| unit.contains(id));
            assert(info.units[u].wf());
            lemma_size_from_item(info.units[u], id);
        },
        None => {},
    }
}

/// A variable with a linkage name is found under the demangled form of its
/// linkage name, unless a unit before its own knows a variable of that name.
pub proof fn lemma_found_by_demangled_linkage_name(info: DebugInfoModel, u: int, i: int)
    requires
        info.wf(),
        0 <= u < info.units.len(),
        0 <= i < info.units[u].variables.len(),
        info.units[u].variables[i].linkage_name is Some,
        forall|k: int|
            0 <= k < u ==> (#[trigger] info.units[k]).variable_at(
                info.units[k].demangled_variable_names,
                demangled(info.units[u].variables[i].linkage_name.unwrap()),
            ) is None,
    ensures
        info.variable_from_demangled_name(
            demangled(info.units[u].variables[i].linkage_name.unwrap()),
        ) == Some(info.units[u].variables[i]),
{
    let name = demangled(info.units[u].variables[i].linkage_name.unwrap());
    let known = |unit: UnitModel| unit.variable_at(unit.demangled_variable_names, name) is Some;
    assert(info.units[u].names_wf());
    lemma_variable_found_by_names(info.units[u], i);
    assert(known(info.units[u]));
    lemma_first_where_found(info.units, known, u);
}

/// `std::io::Error`, the error of reading a file, as an opaque value.
#[verifier::external_type_specification]
#[verifier::external_body]
pub struct ExIoError(std::io::Error);

/// Why the debugging information of a file cannot be had.
#[derive(Debug)]
pub enum DebugInfoError {
    /// The object file could not be parsed
    ObjectError(object::Error),
    /// An error occured reading the file off disk
    IoError(std::io::Error),
    /// A format error occurred in the debugging sections
    GimliError(gimli::Error),
    /// The requested variable could not be found
    VariableNotFound(String),
    /// The entries of the file do not build a consistent set of symbols
    BuildError(BuildError),
}

impl From<object::Error> for DebugInfoError {
    fn from(value: object::Error) -> (r: Self) {
        DebugInfoError::ObjectError(value)
    }
}

impl vstd::std_specs::convert::FromSpecImpl<object::Error> for DebugInfoError {
    open spec fn obeys_from_spec() -> bool {
        true
    }

    open spec fn from_spec(value: object::Error) -> Self {
        DebugInfoError::ObjectError(value)
    }
}

impl From<std::io::Error> for DebugInfoError {
    fn from(value: std::io::Error) -> (r: Self) {
        DebugInfoError::IoError(value)
    }
}

impl vstd::std_specs::convert::FromSpecImpl<std::io::Error> for DebugInfoError {
    open spec fn obeys_from_spec() -> bool {
        true
    }

    open spec fn from_spec(value: std::io::Error) -> Self {
        DebugInfoError::IoError(value)
    }
}

impl From<gimli::Error> for DebugInfoError {
    fn from(value: gimli::Error) -> (r: Self) {
        DebugInfoError::GimliError(value)
    }
}

impl vstd::std_specs::convert::FromSpecImpl<gimli::Error> for DebugInfoError {
    open spec fn obeys_from_spec() -> bool {
        true
    }

    open spec fn from_spec(value: gimli::Error) -> Self {
        DebugInfoError::GimliError(value)
    }
}

impl From<BuildError> for DebugInfoError {
    fn from(value: BuildError) -> (r: Self) {
        DebugInfoError::BuildError(value)
    }
}

impl vstd::std_specs::convert::FromSpecImpl<BuildError> for DebugInfoError {
    open spec fn obeys_from_spec() -> bool {
        true
    }

    open spec fn from_spec(value: BuildError) -> Self {
        DebugInfoError::BuildError(value)
    }
}

/// What `object` says of an error (its `Display` text).
#[verifier::external_body]
fn object_error_text(error: &object::Error) -> (r: String) {
    error.to_string()
}

/// What the standard library says of an error of input or output (its
/// `Display` text).
#[verifier::external_body]
fn io_error_text(error: &std::io::Error) -> (r: String) {
    error.to_string()
}

/// What `gimli` says of an error (its `Display` text).
#[verifier::external_body]
fn gimli_error_text(error: &gimli::Error) -> (r: String) {
    error.to_string()
}

/// Whether a text begins with the given characters.
pub open spec fn begins_with(text: Seq<char>, start: Seq<char>) -> bool {
    text.len() >= start.len() && text.take(start.len() as int) == start
}

impl DebugInfoError {
    /// The message that describes the error to a user: the kind of error,
    /// then what the library that found it says of it.
    pub fn to_string(&self) -> (r: String)
        ensures
            match self {
                DebugInfoError::ObjectError(_) => begins_with(r@, "Object Error: "@),
                DebugInfoError::IoError(_) => begins_with(r@, "IO Error: "@),
                DebugInfoError::GimliError(_) => begins_with(r@, "Gimli Error: "@),
                DebugInfoError::VariableNotFound(name) => r@ == "Variable "@ + name@
                    + " not found"@,
                DebugInfoError::BuildError(e) => r@ == "Build Error: "@
                    + crate::walk::build_error_message(*e),
            },
    {
        match self {
            DebugInfoError::ObjectError(error) => {
                let mut s = String::from_str("Object Error: ");
                let text = object_error_text(error);
                s.append(text.as_str());
                assert(s@.take("Object Error: "@.len() as int) =~= "Object Error: "@);
                s
            },
            DebugInfoError::IoError(error) => {
                let mut s = String::from_str("IO Error: ");
                let text = io_error_text(error);
                s.append(text.as_str());
                assert(s@.take("IO Error: "@.len() as int) =~= "IO Error: "@);
                s
            },
            DebugInfoError::GimliError(error) => {
                let mut s = String::from_str("Gimli Error: ");
                let text = gimli_error_text(error);
                s.append(text.as_str());
                assert(s@.take("Gimli Error: "@.len() as int) =~= "Gimli Error: "@);
                s
            },
            DebugInfoError::VariableNotFound(name) => {
                let mut s = String::from_str("Variable ");
                s.append(name.as_str());
                s.append(" not found");
                s
            },
            DebugInfoError::BuildError(error) => {
                let mut s = String::from_str("Build Error: ");
                let text = error.to_string();
                s.append(text.as_str());
                s
            },
        }
    }
}

/// Whether `r` is what reading the debugging information of an object file
/// gives. Bytes that are no object file give the error of the parser, and
/// sections that cannot be gathered give the error of gathering them. Else
/// the result is what loading the entries gives that are read of the units
/// of the file: the registry of their symbols, or the error of the builder.
pub open spec fn opened(data: &[u8], r: Result<DebugInfo, DebugInfoError>) -> bool {
    match parsed_object(data) {
        Err(e) => (r matches Err(DebugInfoError::ObjectError(x)) && x == e),
        Ok(object) => match gathered_sections(object, object_byte_order(object)) {
            Err(e) => (r matches Err(DebugInfoError::GimliError(x)) && x == e),
            Ok(dwarf) => exists|units: Seq<UnitEntries>| #[trigger]
                units_read(dwarf, units, parsed(dwarf_units(dwarf))) && match loaded(units) {
                    Ok(models) => (r matches Ok(info) && info@.units == models && info@.wf()),
                    Err(e) => (r matches Err(DebugInfoError::BuildError(x)) && x == e),
                },
        },
    }
}

impl DebugInfo {
    /// Reads the debugging information of an object file that is held in
    /// memory: parses the file, gathers its debugging sections in the byte
    /// order of the file, walks the entries of every unit, and builds and
    /// indexes the symbols.
    ///
    /// A file that cannot be parsed gives the error of the parser; entries
    /// that build no consistent set of symbols give the error of the builder.
    pub fn new(data: &[u8]) -> (r: Result<DebugInfo, DebugInfoError>)
        ensures
            opened(data, r),
    {
        let object = match parse_object(data) {
            Ok(object) => object,
            Err(e) => {
                return Err(DebugInfoError::ObjectError(e));
            },
        };
        let dwarf = match load_dwarf(&object, byte_order(&object)) {
            Ok(dwarf) => dwarf,
            Err(e) => {
                return Err(DebugInfoError::GimliError(e));
            },
        };
        let units = read_units(&dwarf);
        assert(units_read(dwarf, units@, parsed(dwarf_units(dwarf))));
        match DebugInfo::load(&units) {
            Ok(info) => Ok(info),
            Err(e) => Err(DebugInfoError::BuildError(e)),
        }
    }
}

} // verus!
