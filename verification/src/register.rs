//! The wrapper type of a register and the operations it offers.

use crate::access::{access, access_of};
use crate::expand::{type_name_of, type_of};
use crate::fragment::{Item, ItemView, Operation};
use crate::model::{
    reset_of,
    resolved_reset,
    resolved_size,
    size_of,
    Access,
    Defaults,
    GenError,
    Register,
};
use crate::views::push_view;
use crate::width::{storage_for, to_ty, BitsTy};
use vstd::prelude::*;

verus! {

/// The operations of a register, by its access mode, by whether it is split
/// into fields, and by whether a reset value is known for it. Only a register
/// with a known reset value gets the write that takes a builder.
pub open spec fn operation_set(mode: Access, fields: bool, reset: bool) -> Seq<Operation> {
    let builder = if reset {
        seq![Operation::WriteBuilder]
    } else {
        Seq::empty()
    };
    if fields {
        match mode {
            Access::ReadOnly => seq![Operation::ReadBits, Operation::ReadProxy],
            Access::ReadWrite => seq![
                Operation::ReadBits,
                Operation::ModifyBits,
                Operation::WriteBits,
                Operation::Modify,
                Operation::ReadProxy,
            ] + builder,
            Access::WriteOnly => seq![Operation::WriteBits] + builder,
        }
    } else {
        match mode {
            Access::ReadOnly => seq![Operation::ReadValue],
            Access::ReadWrite => seq![Operation::ReadValue, Operation::WriteValue],
            Access::WriteOnly => seq![Operation::WriteValue],
        }
    }
}

/// The storage size of a register: that of its own size in bits, else of the
/// default; an error where there is neither, or where it is zero or above 32.
pub open spec fn register_bits(r: Register, defaults: Defaults) -> Result<BitsTy, GenError> {
    match resolved_size(r.spec_info(), defaults) {
        None => Err(GenError::MissingSize),
        Some(size) => storage_for(size),
    }
}

/// The items generated for a register itself: its wrapper type, then the
/// operations of that type.
pub open spec fn register_items(r: Register, defaults: Defaults) -> Result<
    Seq<ItemView>,
    GenError,
> {
    match register_bits(r, defaults) {
        Err(e) => Err(e),
        Ok(bits) => {
            let info = r.spec_info();
            let mode = access_of(info);
            Ok(
                seq![
                    ItemView::Register { name: type_name_of(r), access: mode, bits },
                    ItemView::RegisterApi {
                        name: type_name_of(r),
                        ops: operation_set(
                            mode,
                            info.has_fields(),
                            resolved_reset(info, defaults) is Some,
                        ),
                    },
                ],
            )
        },
    }
}

/// Whether a result of generation holds what was expected of it: the same
/// error, or items with the expected content.
pub open spec fn items_are(r: Result<Vec<Item>, GenError>, expected: Result<
    Seq<ItemView>,
    GenError,
>) -> bool {
    match (r, expected) {
        (Ok(items), Ok(views)) => items.deep_view() == views,
        (Err(e), Err(f)) => e == f,
        _ => false,
    }
}

/// Determines the storage size of a register.
pub fn bits_of(r: &Register, defaults: &Defaults) -> (bits: Result<BitsTy, GenError>)
    ensures
        bits == register_bits(*r, *defaults),
{
    match size_of(r.info(), defaults) {
        None => Err(GenError::MissingSize),
        Some(size) => to_ty(size),
    }
}

fn operations(mode: Access, fields: bool, reset: bool) -> (ops: Vec<Operation>)
    ensures
        ops@ == operation_set(mode, fields, reset),
{
    let mut ops: Vec<Operation> = Vec::new();
    if fields {
        match mode {
            Access::ReadOnly => {
                ops.push(Operation::ReadBits);
                ops.push(Operation::ReadProxy);
            },
            Access::ReadWrite => {
                ops.push(Operation::ReadBits);
                ops.push(Operation::ModifyBits);
                ops.push(Operation::WriteBits);
                ops.push(Operation::Modify);
                ops.push(Operation::ReadProxy);
                if reset {
                    ops.push(Operation::WriteBuilder);
                }
            },
            Access::WriteOnly => {
                ops.push(Operation::WriteBits);
                if reset {
                    ops.push(Operation::WriteBuilder);
                }
            },
        }
    } else {
        match mode {
            Access::ReadOnly => {
                ops.push(Operation::ReadValue);
            },
            Access::ReadWrite => {
                ops.push(Operation::ReadValue);
                ops.push(Operation::WriteValue);
            },
            Access::WriteOnly => {
                ops.push(Operation::WriteValue);
            },
        }
    }
    assert(ops@ =~= operation_set(mode, fields, reset));
    ops
}

/// Generates the wrapper type of a register and its operations.
pub fn gen_register(r: &Register, d: &Defaults) -> (items: Result<Vec<Item>, GenError>)
    ensures
        items_are(items, register_items(*r, *d)),
{
    let bits = match bits_of(r, d) {
        Ok(bits) => bits,
        Err(e) => {
            return Err(e);
        },
    };
    let info = r.info();
    let mode = access(r);
    let ops = operations(mode, info.fields.is_some(), reset_of(info, d).is_some());
    let mut items: Vec<Item> = Vec::new();
    push_view(&mut items, Item::Register { name: type_of(r), access: mode, bits });
    push_view(&mut items, Item::RegisterApi { name: type_of(r), ops });
    assert(items.deep_view() =~= register_items(*r, *d)->Ok_0);
    Ok(items)
}

} // verus!
