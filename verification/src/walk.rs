//! The rules by which a depth-first walk over the entries of a compilation
//! unit builds the unit's symbols, as functions on plain values.
//!
//! [`stepped`] says what one entry does to the state of the walk, and
//! [`built`] what a whole list of entries gives. The executable builder in
//! [`crate::unit_info`] is proved to compute exactly these.
//!
//! An attribute that cannot be read is passed over, and an entry that lacks
//! what its record needs gives no record. A walk fails only where an item or
//! a name is registered twice, and where the entries do not fit together: a
//! depth that no tree has, a subrange without its array, variants without
//! their structure.
use crate::demangle::demangled;
use crate::dwarf::{
    Die, UnitHeader, DW_TAG_ARRAY_TYPE, DW_TAG_BASE_TYPE, DW_TAG_MEMBER, DW_TAG_NAMESPACE,
    DW_TAG_NULL, DW_TAG_POINTER_TYPE, DW_TAG_STRUCTURE_TYPE, DW_TAG_SUBRANGE_TYPE,
    DW_TAG_UNION_TYPE, DW_TAG_VARIABLE, DW_TAG_VARIANT, DW_TAG_VARIANT_PART,
};
use crate::parse::{
    array_element, base_type_of, discriminant_of, item_at_unit_offset, member_of,
    namespace_name, pointer_of, structure_of, subrange_of, union_of, variable_of,
    variant_discriminant, variant_updated,
};
use crate::text::spec_join;
use crate::unit_info::{
    Array, DebugItem, EnumerationVariantView, EnumerationView, StructOffset, StructureView,
    UnionView, UnitModel, VariableView,
};
use vstd::prelude::*;
use vstd::string::*;

verus! {

/// Why the entries of a unit cannot be built into a symbol cache.
#[derive(Debug, PartialEq, Eq, Clone, Copy, Structural)]
pub enum BuildError {
    /// An item was registered twice.
    DuplicateItem(DebugItem),
    /// The linkage name or the qualified name of the variable registered
    /// under this item is the name of a variable already.
    DuplicateName(DebugItem),
    /// A demangled name of the variable registered under this item is the
    /// demangled name of a variable already.
    DuplicateDemangledName(DebugItem),
    /// A subrange came without an array type before it that waits for one.
    SubrangeWithoutArray,
    /// The variants of an enumeration came without the structure that holds them.
    VariantPartWithoutStructure,
    /// An entry claims to lie above the root of the tree.
    DepthUnderflow,
    /// An entry lies more than one level below the entry before it, which
    /// no depth-first walk does, or deeper than a path can be long.
    DepthOverflow,
}

/// The message that describes a build error to a user.
pub open spec fn build_error_message(e: BuildError) -> Seq<char> {
    match e {
        BuildError::DuplicateItem(id) => "Item "@ + crate::unit_info::bracketed(id.offset)
            + " is registered twice"@,
        BuildError::DuplicateName(id) => "A name of the variable at "@
            + crate::unit_info::bracketed(id.offset) + " is taken already"@,
        BuildError::DuplicateDemangledName(id) => "A demangled name of the variable at "@
            + crate::unit_info::bracketed(id.offset) + " is taken already"@,
        BuildError::SubrangeWithoutArray => "A subrange has no array type that waits for it"@,
        BuildError::VariantPartWithoutStructure =>
            "A variant part has no structure that holds it"@,
        BuildError::DepthUnderflow => "An entry lies above the root of the tree"@,
        BuildError::DepthOverflow => "An entry lies too deep in the tree"@,
    }
}

impl BuildError {
    /// The message that describes the error to a user.
    pub fn to_string(&self) -> (r: String)
        ensures
            r@ == build_error_message(*self),
    {
        match self {
            BuildError::DuplicateItem(id) => {
                let mut s = String::from_str("Item ");
                let place = crate::unit_info::StructOffset(id.offset).to_string();
                s.append(place.as_str());
                s.append(" is registered twice");
                s
            },
            BuildError::DuplicateName(id) => {
                let mut s = String::from_str("A name of the variable at ");
                let place = crate::unit_info::StructOffset(id.offset).to_string();
                s.append(place.as_str());
                s.append(" is taken already");
                s
            },
            BuildError::DuplicateDemangledName(id) => {
                let mut s = String::from_str("A demangled name of the variable at ");
                let place = crate::unit_info::StructOffset(id.offset).to_string();
                s.append(place.as_str());
                s.append(" is taken already");
                s
            },
            BuildError::SubrangeWithoutArray => String::from_str(
                "A subrange has no array type that waits for it",
            ),
            BuildError::VariantPartWithoutStructure => String::from_str(
                "A variant part has no structure that holds it",
            ),
            BuildError::DepthUnderflow => String::from_str(
                "An entry lies above the root of the tree",
            ),
            BuildError::DepthOverflow => String::from_str("An entry lies too deep in the tree"),
        }
    }
}

/// The state of a walk over the entries of a unit.
pub struct BuildState {
    /// The symbols registered so far.
    pub unit: UnitModel,
    /// The tags of the entries on the path from the root to the current entry.
    pub tags: Seq<u16>,
    /// The names of the namespaces that enclose the current entry.
    pub namespaces: Seq<Seq<char>>,
    /// An array type that waits for its subrange: the type of its elements,
    /// and the item of the array.
    pub array_in_progress: Option<(DebugItem, DebugItem)>,
    /// The item of the structure registered last, until it turns out to be
    /// an enumeration.
    pub last_structure: Option<DebugItem>,
    /// The depth of the current entry.
    pub depth: nat,
}

impl BuildState {
    /// The state before the first entry.
    pub open spec fn initial() -> BuildState {
        BuildState {
            unit: UnitModel::empty(),
            tags: Seq::empty(),
            namespaces: Seq::empty(),
            array_in_progress: None,
            last_structure: None,
            depth: 0,
        }
    }

    /// The symbols are well formed, and the structure remembered as the last
    /// one is the last one.
    pub open spec fn wf(self) -> bool {
        &&& self.unit.wf()
        &&& self.last_structure matches Some(id) ==> self.unit.structure_ids.len() > 0
            && self.unit.structure_ids.last() == id
    }
}

/// A path cut down to at most `depth` entries. Each namespace that is cut
/// off takes the innermost namespace name with it.
pub open spec fn path_truncated(tags: Seq<u16>, namespaces: Seq<Seq<char>>, depth: nat) -> (
    Seq<u16>,
    Seq<Seq<char>>,
)
    decreases tags.len(),
{
    if tags.len() <= depth {
        (tags, namespaces)
    } else {
        let rest = if tags.last() == DW_TAG_NAMESPACE && namespaces.len() > 0 {
            namespaces.drop_last()
        } else {
            namespaces
        };
        path_truncated(tags.drop_last(), rest, depth)
    }
}

/// A path of at most `depth` entries, filled up to `depth` entries with
/// null tags and then extended by `tag`.
pub open spec fn path_extended(tags: Seq<u16>, depth: nat, tag: u16) -> Seq<u16> {
    (tags + Seq::new((depth - tags.len()) as nat, |i: int| DW_TAG_NULL)).push(tag)
}

/// The tag of the parent of the entry at the end of a path. The root is
/// taken to be its own parent.
pub open spec fn parent_tag(tags: Seq<u16>) -> u16 {
    if tags.len() >= 2 {
        tags[tags.len() - 2]
    } else if tags.len() == 1 {
        tags[0]
    } else {
        DW_TAG_NULL
    }
}

/// The depth of an entry that lies `delta` deeper than one at `depth`; none
/// where that is above the root. Depths saturate at the largest `usize`.
pub open spec fn depth_moved(depth: nat, delta: int) -> Option<nat> {
    if delta < 0 {
        if -delta > depth {
            None
        } else {
            Some((depth + delta) as nat)
        }
    } else if depth + delta > usize::MAX {
        Some(usize::MAX as nat)
    } else {
        Some((depth + delta) as nat)
    }
}

/// The state once the walk has moved to an entry: the path ends in its tag.
/// A walk moves up by any number of levels, and down by one level at most.
pub open spec fn entered(state: BuildState, die: Die) -> Result<BuildState, BuildError> {
    match depth_moved(state.depth, die.depth_delta as int) {
        None => Err(BuildError::DepthUnderflow),
        Some(depth) => if die.depth_delta > 1 || depth >= usize::MAX {
            Err(BuildError::DepthOverflow)
        } else {
            let (tags, namespaces) = path_truncated(state.tags, state.namespaces, depth);
            Ok(
                BuildState {
                    depth,
                    tags: path_extended(tags, depth, die.tag),
                    namespaces,
                    ..state
                },
            )
        },
    }
}

/// The names under which a variable with a linkage name is entered, after
/// those that are entered already. The linkage name is entered with its
/// demangled form; where the qualified name differs from the linkage name,
/// it is entered too, with its demangled form unless that is the demangled
/// linkage name, which is entered once. A name that is entered already is
/// an error.
pub open spec fn names_with_variable(
    m: UnitModel,
    v: VariableView,
    linkage_name: Seq<char>,
    id: DebugItem,
) -> Result<(Map<Seq<char>, usize>, Map<Seq<char>, usize>), BuildError> {
    let index = m.variables.len() as usize;
    let demangled_name = demangled(v.name);
    let demangled_linkage_name = demangled(linkage_name);
    if m.variable_names.contains_key(linkage_name) {
        Err(BuildError::DuplicateName(id))
    } else if m.demangled_variable_names.contains_key(demangled_linkage_name) {
        Err(BuildError::DuplicateDemangledName(id))
    } else {
        let names = m.variable_names.insert(linkage_name, index);
        let demangled_names = m.demangled_variable_names.insert(demangled_linkage_name, index);
        if v.name == linkage_name {
            Ok((names, demangled_names))
        } else if names.contains_key(v.name) {
            Err(BuildError::DuplicateName(id))
        } else if demangled_name == demangled_linkage_name {
            Ok((names.insert(v.name, index), demangled_names))
        } else if demangled_names.contains_key(demangled_name) {
            Err(BuildError::DuplicateDemangledName(id))
        } else {
            Ok((names.insert(v.name, index), demangled_names.insert(demangled_name, index)))
        }
    }
}

/// The symbols after a variable has been registered under an item.
pub open spec fn with_variable(m: UnitModel, v: VariableView, id: DebugItem) -> Result<
    UnitModel,
    BuildError,
> {
    let names = match v.linkage_name {
        Some(linkage_name) => names_with_variable(m, v, linkage_name, id),
        None => Ok((m.variable_names, m.demangled_variable_names)),
    };
    match names {
        Err(e) => Err(e),
        Ok((variable_names, demangled_variable_names)) => if m.contains(id) {
            Err(BuildError::DuplicateItem(id))
        } else {
            Ok(
                UnitModel {
                    variables: m.variables.push(v),
                    variable_ids: m.variable_ids.push(id),
                    variable_names,
                    demangled_variable_names,
                    ..m
                },
            )
        },
    }
}

/// The enumeration that a structure becomes when its variants are met: it
/// keeps name, namespace and size, has no variants yet, and its discriminant
/// is not known yet (its type is the item at offset zero, which is no type).
pub open spec fn enumeration_from(s: StructureView) -> EnumerationView {
    EnumerationView {
        name: s.name,
        namespace: s.namespace,
        discriminant_offset: StructOffset(0),
        discriminant_kind: DebugItem { offset: 0 },
        size: s.size,
        variants: Seq::empty(),
    }
}

/// The state after the variants of the last structure have been met: the
/// structure leaves the structures and is registered, under the same item,
/// as an enumeration. Without any structure nothing happens.
pub open spec fn promoted(state: BuildState) -> Result<BuildState, BuildError> {
    let m = state.unit;
    if m.structures.len() == 0 {
        Ok(state)
    } else {
        match state.last_structure {
            None => Err(BuildError::VariantPartWithoutStructure),
            Some(id) => Ok(
                BuildState {
                    unit: UnitModel {
                        structures: m.structures.drop_last(),
                        structure_ids: m.structure_ids.drop_last(),
                        enumerations: m.enumerations.push(enumeration_from(m.structures.last())),
                        enumeration_ids: m.enumeration_ids.push(id),
                        ..m
                    },
                    last_structure: None,
                    ..state
                },
            ),
        }
    }
}

/// A list of enumerations with the last one replaced.
pub open spec fn with_last_enumeration(
    enumerations: Seq<EnumerationView>,
    last: EnumerationView,
) -> Seq<EnumerationView> {
    enumerations.drop_last().push(last)
}

/// What an entry does to the state of a walk that has moved to it.
pub open spec fn dispatched(state: BuildState, die: Die, header: UnitHeader) -> Result<
    BuildState,
    BuildError,
> {
    let tag = die.tag;
    let parent = parent_tag(state.tags);
    let attrs = die.attributes@;
    let item = item_at_unit_offset(die.offset, header.unit_start);
    let m = state.unit;
    let namespace = spec_join(state.namespaces, "::"@);
    if tag == DW_TAG_VARIABLE {
        match (variable_of(attrs, state.namespaces, header), item) {
                (Some(v), Some(id)) => match with_variable(m, v, id) {
                    Ok(unit) => Ok(BuildState { unit, ..state }),
                    Err(e) => Err(e),
                },
                _ => Ok(state),
            }
    } else if tag == DW_TAG_VARIANT_PART && parent == DW_TAG_STRUCTURE_TYPE {
        promoted(state)
    } else if tag == DW_TAG_MEMBER && parent == DW_TAG_VARIANT_PART {
        if m.enumerations.len() == 0 {
            Ok(state)
        } else {
            {
                    let last = m.enumerations.last();
                    let (offset, kind) = discriminant_of(attrs, header);
                    let updated = EnumerationView {
                        discriminant_offset: offset,
                        discriminant_kind: match kind {
                            Some(kind) => kind,
                            None => last.discriminant_kind,
                        },
                        ..last
                    };
                    Ok(
                        BuildState {
                            unit: UnitModel {
                                enumerations: with_last_enumeration(m.enumerations, updated),
                                ..m
                            },
                            ..state
                        },
                    )
                }
        }
    } else if tag == DW_TAG_VARIANT && parent == DW_TAG_VARIANT_PART {
        if m.enumerations.len() == 0 {
                Ok(state)
            } else {
                let last = m.enumerations.last();
                let variant = EnumerationVariantView {
                    name: Seq::empty(),
                    discriminant: variant_discriminant(attrs),
                    kind: DebugItem { offset: 0 },
                    offset: StructOffset(0),
                };
                let updated = EnumerationView { variants: last.variants.push(variant), ..last };
                Ok(
                    BuildState {
                        unit: UnitModel {
                            enumerations: with_last_enumeration(m.enumerations, updated),
                            ..m
                        },
                        ..state
                    },
                )
            }
    } else if tag == DW_TAG_MEMBER && parent == DW_TAG_VARIANT {
        if m.enumerations.len() == 0 || m.enumerations.last().variants.len() == 0 {
            Ok(state)
        } else {
            {
                    let last = m.enumerations.last();
                    let variant = variant_updated(last.variants.last(), attrs, header);
                    let updated = EnumerationView {
                        variants: last.variants.drop_last().push(variant),
                        ..last
                    };
                    Ok(
                        BuildState {
                            unit: UnitModel {
                                enumerations: with_last_enumeration(m.enumerations, updated),
                                ..m
                            },
                            ..state
                        },
                    )
                }
        }
    } else if tag == DW_TAG_MEMBER && parent == DW_TAG_STRUCTURE_TYPE {
        match member_of(attrs, header) {
                Some(member) if m.structures.len() > 0 => {
                    let last = m.structures.last();
                    let updated = StructureView { members: last.members.push(member), ..last };
                    Ok(
                        BuildState {
                            unit: UnitModel {
                                structures: m.structures.drop_last().push(updated),
                                ..m
                            },
                            ..state
                        },
                    )
                },
                _ => Ok(state),
            }
    } else if tag == DW_TAG_MEMBER && parent == DW_TAG_UNION_TYPE {
        match member_of(attrs, header) {
                Some(member) if m.unions.len() > 0 => {
                    let last = m.unions.last();
                    let updated = UnionView { members: last.members.push(member), ..last };
                    Ok(
                        BuildState {
                            unit: UnitModel { unions: m.unions.drop_last().push(updated), ..m },
                            ..state
                        },
                    )
                },
                _ => Ok(state),
            }
    } else if tag == DW_TAG_STRUCTURE_TYPE {
        match (structure_of(attrs, namespace, header), item) {
                (Some(s), Some(id)) => if m.contains(id) {
                    Err(BuildError::DuplicateItem(id))
                } else {
                    Ok(
                        BuildState {
                            unit: UnitModel {
                                structures: m.structures.push(s),
                                structure_ids: m.structure_ids.push(id),
                                ..m
                            },
                            last_structure: Some(id),
                            ..state
                        },
                    )
                },
                _ => Ok(state),
            }
    } else if tag == DW_TAG_UNION_TYPE {
        match (union_of(attrs, namespace), item) {
            (Some(u), Some(id)) => if m.contains(id) {
                Err(BuildError::DuplicateItem(id))
            } else {
                Ok(
                    BuildState {
                        unit: UnitModel {
                            unions: m.unions.push(u),
                            union_ids: m.union_ids.push(id),
                            ..m
                        },
                        ..state
                    },
                )
            },
            _ => Ok(state),
        }
    } else if tag == DW_TAG_ARRAY_TYPE {
        match item {
            None => Ok(state),
            Some(id) => Ok(
                    BuildState {
                        array_in_progress: match array_element(attrs, header) {
                            Some(kind) => Some((kind, id)),
                            None => None,
                        },
                        ..state
                    },
                ),
        }
    } else if tag == DW_TAG_SUBRANGE_TYPE && parent == DW_TAG_ARRAY_TYPE {
        match subrange_of(attrs) {
            None => Ok(state),
            Some((lower_bound, count)) => match state.array_in_progress {
                None => Err(BuildError::SubrangeWithoutArray),
                Some((kind, id)) => if m.contains(id) {
                    Err(BuildError::DuplicateItem(id))
                } else {
                    Ok(
                        BuildState {
                            unit: UnitModel {
                                arrays: m.arrays.push(Array { kind, lower_bound, count }),
                                array_ids: m.array_ids.push(id),
                                ..m
                            },
                            array_in_progress: None,
                            ..state
                        },
                    )
                },
            },
        }
    } else if tag == DW_TAG_POINTER_TYPE {
        match (pointer_of(attrs, header), item) {
                (Some(p), Some(id)) => if m.contains(id) {
                    Err(BuildError::DuplicateItem(id))
                } else {
                    Ok(
                        BuildState {
                            unit: UnitModel {
                                pointers: m.pointers.push(p),
                                pointer_ids: m.pointer_ids.push(id),
                                ..m
                            },
                            ..state
                        },
                    )
                },
                _ => Ok(state),
            }
    } else if tag == DW_TAG_BASE_TYPE {
        match (base_type_of(attrs), item) {
                (Some(b), Some(id)) => if m.contains(id) {
                    Err(BuildError::DuplicateItem(id))
                } else {
                    Ok(
                        BuildState {
                            unit: UnitModel {
                                base_types: m.base_types.push(b),
                                base_type_ids: m.base_type_ids.push(id),
                                ..m
                            },
                            ..state
                        },
                    )
                },
                _ => Ok(state),
            }
    } else if tag == DW_TAG_NAMESPACE {
        match namespace_name(attrs) {
            Some(name) => Ok(BuildState { namespaces: state.namespaces.push(name), ..state }),
            None => Ok(state),
        }
    } else {
        Ok(state)
    }
}

/// What one entry does to the state of a walk.
pub open spec fn stepped(state: BuildState, die: Die, header: UnitHeader) -> Result<
    BuildState,
    BuildError,
> {
    match entered(state, die) {
        Ok(moved) => dispatched(moved, die, header),
        Err(e) => Err(e),
    }
}

/// The state after a walk over `dies`, or the first error on the way.
pub open spec fn built(header: UnitHeader, dies: Seq<Die>) -> Result<BuildState, BuildError>
    decreases dies.len(),
{
    if dies.len() == 0 {
        Ok(BuildState::initial())
    } else {
        match built(header, dies.drop_last()) {
            Ok(state) => stepped(state, dies.last(), header),
            Err(e) => Err(e),
        }
    }
}

} // verus!
