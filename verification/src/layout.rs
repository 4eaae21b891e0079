//! The memory layout of a peripheral: its registers in offset order, with
//! padding in the gaps between them.

use crate::expand::{ExpandedRegister, ExpandedView};
use crate::fragment::{LayoutElement, LayoutElementView};
use crate::model::{resolved_size, size_of, Defaults, GenError};
use crate::text::{
    decimal,
    decimal_text,
    hex,
    hex_text,
    join2,
    respace,
    respaced,
    sanitized_snake,
    to_sanitized_snake_case,
};
use crate::views::push_view;
use vstd::prelude::*;

verus! {

/// A register that was left out of the layout because its offset lies in
/// space that an earlier register already covers.
#[derive(Debug, PartialEq, Eq)]
pub struct Overlap {
    pub name: String,
    pub offset: u128,
}

/// The mathematical content of an [`Overlap`].
pub struct OverlapView {
    pub name: Seq<char>,
    pub offset: nat,
}

impl DeepView for Overlap {
    type V = OverlapView;

    open spec fn deep_view(&self) -> OverlapView {
        OverlapView { name: self.name@, offset: self.offset as nat }
    }
}

/// A layout under construction.
pub struct Layout {
    /// The elements laid out so far.
    pub elements: Seq<LayoutElementView>,
    /// The first byte that no element covers.
    pub cursor: nat,
    /// The number of padding elements among them.
    pub pads: nat,
    /// The registers that were left out.
    pub dropped: Seq<OverlapView>,
    /// The positions, in the list of registers, of those that were kept.
    pub kept: Seq<int>,
}

/// The name of the padding element with the given number.
pub open spec fn padding_name(number: nat) -> Seq<char> {
    seq!['_', 'r', 'e', 's', 'e', 'r', 'v', 'e', 'd'] + decimal_text(number)
}

/// The description of a register with its whitespace normalised; empty where
/// the register has none.
pub open spec fn description_text(description: Option<String>) -> Seq<char> {
    match description {
        Some(text) => respaced(text@),
        None => Seq::empty(),
    }
}

/// The documentation of a register in the layout: its offset in hexadecimal
/// and its description.
pub open spec fn register_doc(r: ExpandedView) -> Seq<char> {
    seq!['0', 'x'] + hex_text(r.offset) + seq![' ', '-', ' '] + description_text(
        r.info.description,
    )
}

/// The number of bytes that a register of `size` bits takes in the layout.
pub open spec fn byte_size(size: u32) -> nat {
    (size / 8) as nat
}

/// The layout with one more register taken into account. A register whose
/// offset lies below the cursor is left out; any other is placed, behind
/// padding where there is a gap, and moves the cursor to its end.
pub open spec fn place(before: Layout, r: ExpandedView, index: int, defaults: Defaults) -> Result<
    Layout,
    GenError,
> {
    if r.offset < before.cursor {
        Ok(
            Layout {
                dropped: before.dropped.push(OverlapView { name: r.name, offset: r.offset }),
                ..before
            },
        )
    } else {
        match resolved_size(r.info, defaults) {
            None => Err(GenError::MissingSize),
            Some(size) => {
                let gap = (r.offset - before.cursor) as nat;
                let padded = if gap > 0 {
                    before.elements.push(
                        LayoutElementView::Padding { name: padding_name(before.pads), size: gap },
                    )
                } else {
                    before.elements
                };
                Ok(
                    Layout {
                        elements: padded.push(
                            LayoutElementView::Register {
                                doc: register_doc(r),
                                name: sanitized_snake(r.name),
                                ty: r.ty,
                                offset: r.offset,
                                size: byte_size(size),
                            },
                        ),
                        cursor: r.offset + byte_size(size),
                        pads: if gap > 0 {
                            before.pads + 1
                        } else {
                            before.pads
                        },
                        dropped: before.dropped,
                        kept: before.kept.push(index),
                    },
                )
            },
        }
    }
}

/// The layout of a list of registers, taken in order from a cursor at zero.
pub open spec fn layout_of(regs: Seq<ExpandedView>, defaults: Defaults) -> Result<Layout, GenError>
    decreases regs.len(),
{
    if regs.len() == 0 {
        Ok(
            Layout {
                elements: Seq::empty(),
                cursor: 0,
                pads: 0,
                dropped: Seq::empty(),
                kept: Seq::empty(),
            },
        )
    } else {
        match layout_of(regs.drop_last(), defaults) {
            Err(e) => Err(e),
            Ok(before) => place(before, regs.last(), regs.len() - 1, defaults),
        }
    }
}

/// The number of bytes of one layout element.
pub open spec fn element_size(e: LayoutElementView) -> nat {
    match e {
        LayoutElementView::Padding { size, .. } => size,
        LayoutElementView::Register { size, .. } => size,
    }
}

/// The number of bytes of all elements of a layout together.
pub open spec fn total_size(elements: Seq<LayoutElementView>) -> nat
    decreases elements.len(),
{
    if elements.len() == 0 {
        0
    } else {
        total_size(elements.drop_last()) + element_size(elements.last())
    }
}

/// The first byte behind a register: its offset plus its size in bytes.
pub open spec fn end_of(r: ExpandedView, defaults: Defaults) -> nat {
    match resolved_size(r.info, defaults) {
        Some(size) => r.offset + byte_size(size),
        None => r.offset,
    }
}

/// The highest end among the registers at the positions `kept`; zero where
/// there are none.
pub open spec fn highest_end(regs: Seq<ExpandedView>, kept: Seq<int>, defaults: Defaults) -> nat
    decreases kept.len(),
{
    if kept.len() == 0 {
        0
    } else {
        let rest = highest_end(regs, kept.drop_last(), defaults);
        let end = end_of(regs[kept.last()], defaults);
        if end >= rest {
            end
        } else {
            rest
        }
    }
}

proof fn lemma_highest_end_prefix(
    regs: Seq<ExpandedView>,
    shorter: Seq<ExpandedView>,
    kept: Seq<int>,
    defaults: Defaults,
)
    requires
        shorter.len() <= regs.len(),
        forall|i: int| 0 <= i < shorter.len() ==> shorter[i] == regs[i],
        forall|j: int| 0 <= j < kept.len() ==> 0 <= #[trigger] kept[j] < shorter.len(),
    ensures
        highest_end(regs, kept, defaults) == highest_end(shorter, kept, defaults),
    decreases kept.len(),
{
    if kept.len() > 0 {
        lemma_highest_end_prefix(regs, shorter, kept.drop_last(), defaults);
    }
}

/// The sizes of all elements of a layout, padding included and left-out
/// registers excluded, add up to the highest end among the registers that
/// were kept.
pub proof fn lemma_layout_size(regs: Seq<ExpandedView>, defaults: Defaults)
    requires
        layout_of(regs, defaults) is Ok,
    ensures
        ({
            let layout = layout_of(regs, defaults)->Ok_0;
            &&& total_size(layout.elements) == layout.cursor
            &&& layout.cursor == highest_end(regs, layout.kept, defaults)
            &&& forall|j: int| 0 <= j < layout.kept.len() ==> 0 <= #[trigger] layout.kept[j] < regs.len()
        }),
    decreases regs.len(),
{
    if regs.len() > 0 {
        let shorter = regs.drop_last();
        let r = regs.last();
        lemma_layout_size(shorter, defaults);
        let before = layout_of(shorter, defaults)->Ok_0;
        let after = layout_of(regs, defaults)->Ok_0;
        lemma_highest_end_prefix(regs, shorter, before.kept, defaults);
        if r.offset >= before.cursor {
            let size = resolved_size(r.info, defaults)->Some_0;
            let gap = (r.offset - before.cursor) as nat;
            if gap > 0 {
                let padded = before.elements.push(
                    LayoutElementView::Padding { name: padding_name(before.pads), size: gap },
                );
                assert(padded.drop_last() =~= before.elements);
                assert(total_size(padded) == total_size(before.elements) + gap);
                assert(after.elements.drop_last() =~= padded);
            } else {
                assert(after.elements.drop_last() =~= before.elements);
            }
            assert(after.kept.drop_last() =~= before.kept);
        }
    }
}

/// Lays out registers in the order given, from a cursor at zero. A register
/// whose offset the cursor has passed is left out and reported; the others
/// are placed, behind padding where there is a gap. Fails where a register to
/// be placed has no size and there is no default.
pub fn layout(expanded: &Vec<ExpandedRegister<'_>>, defaults: &Defaults) -> (r: Result<
    (Vec<LayoutElement>, Vec<Overlap>),
    GenError,
>)
    ensures
        match (r, layout_of(expanded.deep_view(), *defaults)) {
            (Ok((elements, dropped)), Ok(l)) => elements.deep_view() == l.elements
                && dropped.deep_view() == l.dropped,
            (Err(e), Err(f)) => e == f,
            _ => false,
        },
{
    let mut elements: Vec<LayoutElement> = Vec::new();
    let mut dropped: Vec<Overlap> = Vec::new();
    let mut last_offset: u128 = 0;
    let mut last_size: u128 = 0;
    let mut pads: usize = 0;
    let mut i: usize = 0;
    let ghost regs = expanded.deep_view();
    proof {
        assert(regs.take(0) =~= Seq::<ExpandedView>::empty());
        assert(elements.deep_view() =~= Seq::<LayoutElementView>::empty());
        assert(dropped.deep_view() =~= Seq::<OverlapView>::empty());
    }
    while i < expanded.len()
        invariant
            i <= expanded.len(),
            regs == expanded.deep_view(),
            pads <= i,
            last_size <= u32::MAX,
            layout_of(regs.take(i as int), *defaults) matches Ok(l) && l.elements
                == elements.deep_view() && l.dropped == dropped.deep_view() && l.cursor
                == last_offset + last_size && l.pads == pads,
        decreases expanded.len() - i,
    {
        let r = &expanded[i];
        proof {
            assert(regs.take(i + 1).drop_last() =~= regs.take(i as int));
            assert(regs.take(i + 1).last() == r.deep_view());
        }
        if r.offset < last_offset || r.offset - last_offset < last_size {
            push_view(&mut dropped, Overlap { name: r.name.as_str().to_owned(), offset: r.offset });
        } else {
            let size = match size_of(r.info, defaults) {
                Some(size) => size,
                None => {
                    proof {
                        assert(regs.take(expanded.len() as int) =~= regs);
                        lemma_layout_error_stays(regs, i + 1, *defaults);
                    }
                    return Err(GenError::MissingSize);
                },
            };
            let gap = r.offset - last_offset - last_size;
            if gap > 0 {
                proof {
                    reveal_strlit("_reserved");
                }
                let number = decimal(pads as u128);
                let name = join2("_reserved", number.as_str());
                assert(name@ =~= padding_name(pads as nat));
                push_view(&mut elements, LayoutElement::Padding { name, size: gap });
                pads += 1;
            }
            proof {
                reveal_strlit("0x");
                reveal_strlit(" - ");
                reveal_strlit("");
            }
            let description = match &r.info.description {
                Some(text) => respace(text.as_str()),
                None => String::from_str(""),
            };
            assert(description@ =~= description_text(r.info.description));
            let mut doc = join2("0x", hex(r.offset).as_str());
            doc.append(" - ");
            doc.append(description.as_str());
            assert(doc@ =~= register_doc(r.deep_view()));
            push_view(
                &mut elements,
                LayoutElement::Register {
                    doc,
                    name: to_sanitized_snake_case(r.name.as_str()),
                    ty: r.ty.as_str().to_owned(),
                    offset: r.offset,
                    size: (size / 8) as u128,
                },
            );
            last_offset = r.offset;
            last_size = (size / 8) as u128;
        }
        i += 1;
    }
    assert(regs.take(expanded.len() as int) =~= regs);
    Ok((elements, dropped))
}

proof fn lemma_layout_error_stays(regs: Seq<ExpandedView>, n: int, defaults: Defaults)
    requires
        0 <= n <= regs.len(),
        layout_of(regs.take(n), defaults) is Err,
    ensures
        layout_of(regs, defaults) == layout_of(regs.take(n), defaults),
    decreases regs.len() - n,
{
    if n < regs.len() {
        assert(regs.take(n + 1).drop_last() =~= regs.take(n));
        lemma_layout_error_stays(regs, n + 1, defaults);
    } else {
        assert(regs.take(n) =~= regs);
    }
}

} // verus!
