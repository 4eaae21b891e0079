//! The effective access mode of a register.

use crate::model::{Access, Field, Register, RegisterInfo};
use vstd::prelude::*;

verus! {

/// Whether every field states the access mode `mode`.
pub open spec fn all_fields_are(fields: Seq<Field>, mode: Access) -> bool {
    forall|i: int| 0 <= i < fields.len() ==> (#[trigger] fields[i]).access == Some(mode)
}

/// The access mode that the fields of a register imply: read-only or
/// write-only where every field says so, read-write otherwise.
pub open spec fn inferred_access(fields: Seq<Field>) -> Access {
    if all_fields_are(fields, Access::ReadOnly) {
        Access::ReadOnly
    } else if all_fields_are(fields, Access::WriteOnly) {
        Access::WriteOnly
    } else {
        Access::ReadWrite
    }
}

/// The effective access mode of a register: its own where it states one,
/// else what its fields imply, else read-write.
pub open spec fn access_of(info: RegisterInfo) -> Access {
    match info.access {
        Some(mode) => mode,
        None => match info.fields {
            Some(fields) => inferred_access(fields@),
            None => Access::ReadWrite,
        },
    }
}

fn every_field_is(fields: &Vec<Field>, mode: Access) -> (r: bool)
    ensures
        r == all_fields_are(fields@, mode),
{
    let mut i: usize = 0;
    while i < fields.len()
        invariant
            i <= fields.len(),
            forall|j: int| 0 <= j < i ==> (#[trigger] fields@[j]).access == Some(mode),
        decreases fields.len() - i,
    {
        match fields[i].access {
            Some(a) => {
                if a != mode {
                    return false;
                }
            },
            None => {
                return false;
            },
        }
        i += 1;
    }
    true
}

/// Determines the effective access mode of a register.
pub fn access(r: &Register) -> (mode: Access)
    ensures
        mode == access_of(r.spec_info()),
{
    let info = r.info();
    match info.access {
        Some(mode) => mode,
        None => match &info.fields {
            Some(fields) => {
                if every_field_is(fields, Access::ReadOnly) {
                    Access::ReadOnly
                } else if every_field_is(fields, Access::WriteOnly) {
                    Access::WriteOnly
                } else {
                    Access::ReadWrite
                }
            },
            None => Access::ReadWrite,
        },
    }
}

} // verus!
