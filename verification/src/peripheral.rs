//! Generation for a whole peripheral: its memory layout, then what each of
//! its registers needs.

use crate::access::{access, access_of};
use crate::expand::{expand, expanded};
use crate::field::Registry;
use crate::fragment::{Item, ItemView};
use crate::layout::{layout, layout_of, Overlap, OverlapView};
use crate::model::{Access, Defaults, GenError, Peripheral, Register};
use crate::reader::{gen_register_r, read_items};
use crate::register::{gen_register, register_items};
use crate::text::{respace, respaced, sanitized_pascal, to_sanitized_pascal_case};
use crate::views::{append_view, push_view};
use crate::writer::{gen_register_w, write_items};
use vstd::prelude::*;

verus! {

/// What was generated for a peripheral.
#[derive(Debug, PartialEq, Eq)]
pub struct Generated {
    /// The items, in the order in which they are to be written.
    pub items: Vec<Item>,
    /// The registers that were left out of the layout because they overlap.
    pub warnings: Vec<Overlap>,
}

/// What has been generated for the registers of a peripheral so far.
pub struct UnitState {
    /// The items given out.
    pub items: Seq<ItemView>,
    /// The names of the enumerated types and aliases given out.
    pub registry: Seq<Seq<char>>,
}

/// The read side of a register with fields: nothing for a write-only one.
pub open spec fn read_part(
    r: Register,
    defaults: Defaults,
    registers: Seq<Register>,
    registry: Seq<Seq<char>>,
) -> Result<(Seq<ItemView>, Seq<Seq<char>>), GenError> {
    if access_of(r.spec_info()) != Access::WriteOnly {
        read_items(r, defaults, r.spec_info().field_seq(), registers, registry)
    } else {
        Ok((Seq::empty(), registry))
    }
}

/// The write side of a register with fields: nothing for a read-only one.
pub open spec fn write_part(
    r: Register,
    defaults: Defaults,
    registers: Seq<Register>,
    registry: Seq<Seq<char>>,
) -> Result<(Seq<ItemView>, Seq<Seq<char>>), GenError> {
    if access_of(r.spec_info()) != Access::ReadOnly {
        write_items(r, defaults, r.spec_info().field_seq(), registers, registry)
    } else {
        Ok((Seq::empty(), registry))
    }
}

/// The items of a peripheral with one more register taken into account: its
/// wrapper type and operations, and for a register with fields its read
/// side, then its write side.
pub open spec fn register_unit(
    before: UnitState,
    r: Register,
    defaults: Defaults,
    registers: Seq<Register>,
) -> Result<UnitState, GenError> {
    match register_items(r, defaults) {
        Err(e) => Err(e),
        Ok(own) => if r.spec_info().has_fields() {
            match read_part(r, defaults, registers, before.registry) {
                Err(e) => Err(e),
                Ok((read, seen)) => match write_part(r, defaults, registers, seen) {
                    Err(e) => Err(e),
                    Ok((write, registry)) => Ok(
                        UnitState { items: before.items + own + read + write, registry },
                    ),
                },
            }
        } else {
            Ok(UnitState { items: before.items + own, ..before })
        },
    }
}

/// The items of a peripheral after its first `n` registers, in the order of
/// declaration.
pub open spec fn register_units(
    start: UnitState,
    registers: Seq<Register>,
    n: int,
    defaults: Defaults,
) -> Result<UnitState, GenError>
    decreases n,
{
    if n <= 0 {
        Ok(start)
    } else {
        match register_units(start, registers, n - 1, defaults) {
            Err(e) => Err(e),
            Ok(before) => register_unit(before, registers[n - 1], defaults, registers),
        }
    }
}

/// The items that open the unit of a peripheral: its description, where it
/// has one, and its memory layout.
pub open spec fn peripheral_head(p: Peripheral, elements: Seq<crate::fragment::LayoutElementView>) -> Seq<ItemView> {
    let block = ItemView::Block { name: sanitized_pascal(p.name@), elements };
    match p.description {
        Some(text) => seq![ItemView::Doc(respaced(text@)), block],
        None => seq![block],
    }
}

/// The unit generated for a peripheral: its items, and the registers left
/// out of its layout. A peripheral that still derives from another one is
/// refused. The registry of type names starts empty for each peripheral.
pub open spec fn peripheral_unit(p: Peripheral, defaults: Defaults) -> Result<
    (Seq<ItemView>, Seq<OverlapView>),
    GenError,
> {
    if p.derived_from is Some {
        Err(GenError::UnresolvedDerivation)
    } else {
        match layout_of(expanded(p.registers@), defaults) {
            Err(e) => Err(e),
            Ok(l) => {
                let start = UnitState {
                    items: peripheral_head(p, l.elements),
                    registry: Seq::empty(),
                };
                match register_units(start, p.registers@, p.registers@.len() as int, defaults) {
                    Err(e) => Err(e),
                    Ok(end) => Ok((end.items, l.dropped)),
                }
            },
        }
    }
}

fn gen_unit<'a>(
    items: &mut Vec<Item>,
    registry: &mut Registry,
    r: &'a Register,
    d: &Defaults,
    registers: &'a [Register],
) -> (out: Result<(), GenError>)
    ensures
        match (
            out,
            register_unit(
                UnitState { items: old(items).deep_view(), registry: old(registry)@ },
                *r,
                *d,
                registers@,
            ),
        ) {
            (Ok(_), Ok(after)) => final(items).deep_view() == after.items && final(registry)@
                == after.registry,
            (Err(e), Err(f)) => e == f,
            _ => false,
        },
{
    let own = match gen_register(r, d) {
        Ok(own) => own,
        Err(e) => {
            return Err(e);
        },
    };
    let mode = access(r);
    match &r.info().fields {
        None => {
            append_view(items, own);
        },
        Some(fields) => {
            let read = if mode != Access::WriteOnly {
                match gen_register_r(r, d, fields.as_slice(), registers, registry) {
                    Ok(read) => read,
                    Err(e) => {
                        return Err(e);
                    },
                }
            } else {
                let none: Vec<Item> = Vec::new();
                proof {
                    crate::views::lemma_empty_view(none);
                }
                none
            };
            let write = if mode != Access::ReadOnly {
                match gen_register_w(r, d, fields.as_slice(), registers, registry) {
                    Ok(write) => write,
                    Err(e) => {
                        return Err(e);
                    },
                }
            } else {
                let none: Vec<Item> = Vec::new();
                proof {
                    crate::views::lemma_empty_view(none);
                }
                none
            };
            append_view(items, own);
            append_view(items, read);
            append_view(items, write);
        },
    }
    Ok(())
}

/// Generates the unit of a peripheral: its description and memory layout,
/// then for each register, in the order of declaration, its wrapper type and
/// operations and, for a register with fields, its read and write proxies.
///
/// Registers that overlap an earlier one are left out of the layout and
/// reported in `warnings`; generation goes on.
pub fn gen_peripheral(p: &Peripheral, d: &Defaults) -> (out: Result<Generated, GenError>)
    ensures
        match (out, peripheral_unit(*p, *d)) {
            (Ok(unit), Ok((items, dropped))) => unit.items.deep_view() == items
                && unit.warnings.deep_view() == dropped,
            (Err(e), Err(f)) => e == f,
            _ => false,
        },
{
    if p.derived_from.is_some() {
        return Err(GenError::UnresolvedDerivation);
    }
    let registers = p.registers.as_slice();
    let instances = expand(registers);
    let (elements, warnings) = match layout(&instances, d) {
        Ok(made) => made,
        Err(e) => {
            return Err(e);
        },
    };
    let ghost l = layout_of(expanded(p.registers@), *d)->Ok_0;
    let mut items: Vec<Item> = Vec::new();
    proof {
        crate::views::lemma_empty_view(items);
    }
    match &p.description {
        Some(text) => {
            push_view(&mut items, Item::Doc(respace(text.as_str())));
        },
        None => {},
    }
    push_view(
        &mut items,
        Item::Block { name: to_sanitized_pascal_case(p.name.as_str()), elements },
    );
    let ghost start = UnitState { items: peripheral_head(*p, l.elements), registry: Seq::empty() };
    assert(items.deep_view() =~= start.items);
    let mut registry = Registry::new();
    let mut i: usize = 0;
    while i < registers.len()
        invariant
            i <= registers.len(),
            registers@ == p.registers@,
            p.derived_from is None,
            layout_of(expanded(p.registers@), *d) == Ok::<crate::layout::Layout, GenError>(l),
            start == (UnitState { items: peripheral_head(*p, l.elements), registry: Seq::empty() }),
            register_units(start, registers@, i as int, *d) matches Ok(st) && st.items
                == items.deep_view() && st.registry == registry@,
        decreases registers.len() - i,
    {
        match gen_unit(&mut items, &mut registry, &registers[i], d, registers) {
            Ok(_) => {},
            Err(e) => {
                proof {
                    assert(register_units(start, registers@, i + 1, *d) == Err::<
                        UnitState,
                        GenError,
                    >(e));
                    lemma_unit_error_stays(start, registers@, i + 1, registers.len() as int, *d);
                }
                return Err(e);
            },
        }
        i += 1;
    }
    Ok(Generated { items, warnings })
}

proof fn lemma_unit_error_stays(
    start: UnitState,
    registers: Seq<Register>,
    n: int,
    m: int,
    defaults: Defaults,
)
    requires
        0 <= n <= m,
        register_units(start, registers, n, defaults) is Err,
    ensures
        register_units(start, registers, m, defaults) == register_units(
            start,
            registers,
            n,
            defaults,
        ),
    decreases m - n,
{
    if n < m {
        lemma_unit_error_stays(start, registers, n, m - 1, defaults);
    }
}

proof fn lemma_units_keep_head(
    start: UnitState,
    registers: Seq<Register>,
    n: int,
    defaults: Defaults,
)
    requires
        register_units(start, registers, n, defaults) is Ok,
    ensures
        ({
            let end = register_units(start, registers, n, defaults)->Ok_0;
            &&& start.items.len() <= end.items.len()
            &&& forall|i: int| 0 <= i < start.items.len() ==> end.items[i] == start.items[i]
        }),
    decreases n,
{
    if n > 0 {
        lemma_units_keep_head(start, registers, n - 1, defaults);
    }
}

/// The position of the memory layout among the items of a peripheral: behind
/// its description, where it has one.
pub open spec fn block_position(p: Peripheral) -> int {
    if p.description is Some {
        1
    } else {
        0
    }
}

/// For any peripheral that can be generated, the sizes of all elements of
/// its memory layout, padding included and left-out registers excluded, add
/// up to the highest end among the registers that were kept.
pub proof fn lemma_peripheral_layout_size(p: Peripheral, defaults: Defaults)
    requires
        peripheral_unit(p, defaults) is Ok,
    ensures
        ({
            let regs = expanded(p.registers@);
            let l = layout_of(regs, defaults)->Ok_0;
            let items = peripheral_unit(p, defaults)->Ok_0.0;
            &&& layout_of(regs, defaults) is Ok
            &&& block_position(p) < items.len()
            &&& items[block_position(p)] == (ItemView::Block {
                name: sanitized_pascal(p.name@),
                elements: l.elements,
            })
            &&& crate::layout::total_size(l.elements) == crate::layout::highest_end(
                regs,
                l.kept,
                defaults,
            )
        }),
{
    let regs = expanded(p.registers@);
    let l = layout_of(regs, defaults)->Ok_0;
    let start = UnitState { items: peripheral_head(p, l.elements), registry: Seq::empty() };
    crate::layout::lemma_layout_size(regs, defaults);
    lemma_units_keep_head(start, p.registers@, p.registers@.len() as int, defaults);
}

} // verus!
