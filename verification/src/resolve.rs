//! Which set of enumerated values serves a field for reading and which for
//! writing, with sets that derive from another one followed to their target.

use crate::model::{EnumeratedValueSet, Field, GenError, Register, Usage};
use crate::text::{
    is_qualified,
    qualified_name,
    qualifier,
    same_text,
    split_reference,
};
use vstd::prelude::*;

verus! {

/// The two views of a field: what is read from it, and what is written to it.
#[derive(Clone, Copy, Debug, PartialEq, Eq, Structural)]
pub enum Side {
    Read,
    Write,
}

/// A set of enumerated values chosen for one view of a field.
#[derive(Debug, PartialEq, Eq)]
pub struct Resolved<'a> {
    /// The set whose values count: the target, where the field's own set
    /// derives from another.
    pub set: &'a EnumeratedValueSet,
    /// Whether the set was reached through a derivation.
    pub derived: bool,
    /// The register named by a qualified derivation.
    pub base: Option<String>,
}

/// The mathematical content of a [`Resolved`].
pub struct ResolvedView {
    pub set: EnumeratedValueSet,
    pub derived: bool,
    pub base: Option<Seq<char>>,
}

impl<'a> DeepView for Resolved<'a> {
    type V = ResolvedView;

    open spec fn deep_view(&self) -> ResolvedView {
        ResolvedView { set: *self.set, derived: self.derived, base: self.base.deep_view() }
    }
}

/// Whether a set with the given usage tag may serve a view: any set may,
/// unless it is tagged for the other view alone.
pub open spec fn eligible(usage: Option<Usage>, side: Side) -> bool {
    match side {
        Side::Read => usage != Some(Usage::Write),
        Side::Write => usage != Some(Usage::Read),
    }
}

/// Whether a usage tag names a view: the tag of that view, or the tag of both.
pub open spec fn tagged_for(usage: Option<Usage>, side: Side) -> bool {
    match side {
        Side::Read => usage == Some(Usage::Read) || usage == Some(Usage::ReadWrite),
        Side::Write => usage == Some(Usage::Write) || usage == Some(Usage::ReadWrite),
    }
}

/// Whether a set bears the name `needle`.
pub open spec fn named(set: EnumeratedValueSet, needle: Seq<char>) -> bool {
    set.name matches Some(name) && name@ == needle
}

/// The first set at or after `from` that bears the name `needle` and may
/// serve the view.
pub open spec fn find_in_sets(
    sets: Seq<EnumeratedValueSet>,
    needle: Seq<char>,
    side: Side,
    from: int,
) -> Option<EnumeratedValueSet>
    decreases sets.len() - from,
{
    if from < 0 || from >= sets.len() {
        None
    } else if named(sets[from], needle) && eligible(sets[from].usage, side) {
        Some(sets[from])
    } else {
        find_in_sets(sets, needle, side, from + 1)
    }
}

/// The first set, among those of the fields at or after `from` taken in
/// order, that bears the name `needle` and may serve the view.
pub open spec fn find_in_fields(
    fields: Seq<Field>,
    needle: Seq<char>,
    side: Side,
    from: int,
) -> Option<EnumeratedValueSet>
    decreases fields.len() - from,
{
    if from < 0 || from >= fields.len() {
        None
    } else {
        match find_in_sets(fields[from].enumerated_value_sets@, needle, side, 0) {
            Some(set) => Some(set),
            None => find_in_fields(fields, needle, side, from + 1),
        }
    }
}

/// The first register at or after `from` that is declared under `name`.
pub open spec fn find_register(registers: Seq<Register>, name: Seq<char>, from: int) -> Option<
    Register,
>
    decreases registers.len() - from,
{
    if from < 0 || from >= registers.len() {
        None
    } else if registers[from].spec_info().name@ == name {
        Some(registers[from])
    } else {
        find_register(registers, name, from + 1)
    }
}

/// The first set at or after `from` whose usage tag names the view.
pub open spec fn first_tagged(sets: Seq<EnumeratedValueSet>, side: Side, from: int) -> Option<
    EnumeratedValueSet,
>
    decreases sets.len() - from,
{
    if from < 0 || from >= sets.len() {
        None
    } else if tagged_for(sets[from].usage, side) {
        Some(sets[from])
    } else {
        first_tagged(sets, side, from + 1)
    }
}

/// The target of a derivation. A qualified reference `R.S` names the set `S`
/// among the fields of the register `R` of the same peripheral; a bare one
/// names a set among the fields of the register at hand. The target is the
/// first set of that name that may serve the view.
pub open spec fn derivation_target(
    reference: Seq<char>,
    fields: Seq<Field>,
    registers: Seq<Register>,
    side: Side,
) -> Result<ResolvedView, GenError> {
    if is_qualified(reference) {
        match find_register(registers, qualifier(reference), 0) {
            None => Err(GenError::BaseRegisterNotFound),
            Some(register) => match register.spec_info().fields {
                None => Err(GenError::BaseFieldsNotFound),
                Some(others) => match find_in_fields(others@, qualified_name(reference), side, 0) {
                    None => Err(GenError::BaseSetNotFound),
                    Some(set) => Ok(
                        ResolvedView { set, derived: true, base: Some(qualifier(reference)) },
                    ),
                },
            },
        }
    } else {
        match find_in_fields(fields, reference, side, 0) {
            None => Err(GenError::BaseSetNotFound),
            Some(set) => Ok(ResolvedView { set, derived: true, base: None }),
        }
    }
}

/// The set of enumerated values that serves one view of a field, if any.
///
/// A field with exactly one set uses it for each view that its usage tag
/// allows, and follows its derivation where it has one. A field with another
/// number of sets uses the first one whose usage tag names the view.
pub open spec fn resolved_set(
    field: Field,
    fields: Seq<Field>,
    registers: Seq<Register>,
    side: Side,
) -> Result<Option<ResolvedView>, GenError> {
    let sets = field.enumerated_value_sets@;
    if sets.len() == 1 {
        let only = sets[0];
        if !eligible(only.usage, side) {
            Ok(None)
        } else {
            match only.derived_from {
                Some(reference) => match derivation_target(reference@, fields, registers, side) {
                    Err(e) => Err(e),
                    Ok(target) => Ok(Some(target)),
                },
                None => Ok(Some(ResolvedView { set: only, derived: false, base: None })),
            }
        }
    } else {
        match first_tagged(sets, side, 0) {
            Some(set) => Ok(Some(ResolvedView { set, derived: false, base: None })),
            None => Ok(None),
        }
    }
}

fn is_eligible(usage: &Option<Usage>, side: Side) -> (r: bool)
    ensures
        r == eligible(*usage, side),
{
    match (side, usage) {
        (Side::Read, Some(Usage::Write)) => false,
        (Side::Write, Some(Usage::Read)) => false,
        _ => true,
    }
}

fn is_tagged_for(usage: &Option<Usage>, side: Side) -> (r: bool)
    ensures
        r == tagged_for(*usage, side),
{
    match (side, usage) {
        (Side::Read, Some(Usage::Read)) => true,
        (Side::Write, Some(Usage::Write)) => true,
        (_, Some(Usage::ReadWrite)) => true,
        _ => false,
    }
}

fn search_sets<'a>(sets: &'a Vec<EnumeratedValueSet>, needle: &str, side: Side) -> (r: Option<
    &'a EnumeratedValueSet,
>)
    ensures
        match (r, find_in_sets(sets@, needle@, side, 0)) {
            (Some(found), Some(set)) => *found == set,
            (None, None) => true,
            _ => false,
        },
{
    let mut i: usize = 0;
    while i < sets.len()
        invariant
            i <= sets.len(),
            find_in_sets(sets@, needle@, side, i as int) == find_in_sets(sets@, needle@, side, 0),
        decreases sets.len() - i,
    {
        let set = &sets[i];
        let same = match &set.name {
            Some(name) => same_text(name.as_str(), needle),
            None => false,
        };
        if same && is_eligible(&set.usage, side) {
            return Some(set);
        }
        i += 1;
    }
    None
}

fn search_fields<'a>(fields: &'a [Field], needle: &str, side: Side) -> (r: Option<
    &'a EnumeratedValueSet,
>)
    ensures
        match (r, find_in_fields(fields@, needle@, side, 0)) {
            (Some(found), Some(set)) => *found == set,
            (None, None) => true,
            _ => false,
        },
{
    let mut i: usize = 0;
    while i < fields.len()
        invariant
            i <= fields.len(),
            find_in_fields(fields@, needle@, side, i as int) == find_in_fields(
                fields@,
                needle@,
                side,
                0,
            ),
        decreases fields.len() - i,
    {
        match search_sets(&fields[i].enumerated_value_sets, needle, side) {
            Some(set) => {
                return Some(set);
            },
            None => {},
        }
        i += 1;
    }
    None
}

fn search_registers<'a>(registers: &'a [Register], name: &str) -> (r: Option<&'a Register>)
    ensures
        match (r, find_register(registers@, name@, 0)) {
            (Some(found), Some(register)) => *found == register,
            (None, None) => true,
            _ => false,
        },
{
    let mut i: usize = 0;
    while i < registers.len()
        invariant
            i <= registers.len(),
            find_register(registers@, name@, i as int) == find_register(registers@, name@, 0),
        decreases registers.len() - i,
    {
        if same_text(registers[i].info().name.as_str(), name) {
            return Some(&registers[i]);
        }
        i += 1;
    }
    None
}

fn search_tagged<'a>(sets: &'a Vec<EnumeratedValueSet>, side: Side) -> (r: Option<
    &'a EnumeratedValueSet,
>)
    ensures
        match (r, first_tagged(sets@, side, 0)) {
            (Some(found), Some(set)) => *found == set,
            (None, None) => true,
            _ => false,
        },
{
    let mut i: usize = 0;
    while i < sets.len()
        invariant
            i <= sets.len(),
            first_tagged(sets@, side, i as int) == first_tagged(sets@, side, 0),
        decreases sets.len() - i,
    {
        if is_tagged_for(&sets[i].usage, side) {
            return Some(&sets[i]);
        }
        i += 1;
    }
    None
}

/// Whether a result of resolution holds what was expected of it.
pub open spec fn resolved_is(r: Result<Option<Resolved<'_>>, GenError>, expected: Result<
    Option<ResolvedView>,
    GenError,
>) -> bool {
    match (r, expected) {
        (Ok(Some(found)), Ok(Some(view))) => found.deep_view() == view,
        (Ok(None), Ok(None)) => true,
        (Err(e), Err(f)) => e == f,
        _ => false,
    }
}

fn follow<'a>(
    reference: &str,
    fields: &'a [Field],
    registers: &'a [Register],
    side: Side,
) -> (r: Result<Resolved<'a>, GenError>)
    ensures
        match (r, derivation_target(reference@, fields@, registers@, side)) {
            (Ok(found), Ok(view)) => found.deep_view() == view,
            (Err(e), Err(f)) => e == f,
            _ => false,
        },
{
    match split_reference(reference) {
        Some((register_name, set_name)) => {
            let register = match search_registers(registers, register_name.as_str()) {
                Some(register) => register,
                None => {
                    return Err(GenError::BaseRegisterNotFound);
                },
            };
            let others = match &register.info().fields {
                Some(others) => others,
                None => {
                    return Err(GenError::BaseFieldsNotFound);
                },
            };
            match search_fields(others.as_slice(), set_name.as_str(), side) {
                Some(set) => Ok(Resolved { set, derived: true, base: Some(register_name) }),
                None => Err(GenError::BaseSetNotFound),
            }
        },
        None => match search_fields(fields, reference, side) {
            Some(set) => Ok(Resolved { set, derived: true, base: None }),
            None => Err(GenError::BaseSetNotFound),
        },
    }
}

/// Chooses the set of enumerated values that serves one view of a field.
/// `fields` are the fields of the register at hand, `registers` the
/// registers of its peripheral.
pub fn resolve<'a>(
    field: &'a Field,
    fields: &'a [Field],
    registers: &'a [Register],
    side: Side,
) -> (r: Result<Option<Resolved<'a>>, GenError>)
    ensures
        resolved_is(r, resolved_set(*field, fields@, registers@, side)),
{
    let sets = &field.enumerated_value_sets;
    if sets.len() == 1 {
        let only = &sets[0];
        if !is_eligible(&only.usage, side) {
            return Ok(None);
        }
        match &only.derived_from {
            Some(reference) => match follow(reference.as_str(), fields, registers, side) {
                Ok(target) => Ok(Some(target)),
                Err(e) => Err(e),
            },
            None => Ok(Some(Resolved { set: only, derived: false, base: None })),
        }
    } else {
        match search_tagged(sets, side) {
            Some(set) => Ok(Some(Resolved { set, derived: false, base: None })),
            None => Ok(None),
        }
    }
}

} // verus!
