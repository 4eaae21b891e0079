//! What the generated accessors compute: how a field is read out of the bits
//! of a register and written into them, and how a code is decoded into a
//! variant of an enumerated type.

use crate::field::{code_count, mask_of};
use crate::fragment::{
    Operation,
    ReadMember,
    ReadMemberView,
    ReadVariant,
    ReadVariantView,
    WriteMember,
    WriteMemberView,
};
use crate::model::{resolved_reset, Defaults, EnumeratedValue, Field, Register};
use crate::reader::{read_accessor, read_variants};
use crate::resolve::ResolvedView;
use crate::width::BitsTy;
use crate::writer::{write_fields, write_items, write_start, WriteState};
use vstd::prelude::*;

verus! {

/// The value of a field: the bits of the register shifted down by the
/// offset of the field and cut to its mask. A field that begins beyond the
/// 32 bits of a register holds nothing.
pub open spec fn field_value(bits: u32, offset: u32, mask: u64) -> u64 {
    if offset < 32 {
        ((bits as u64) >> (offset as u64)) & mask
    } else {
        0
    }
}

/// The bits of a register after a field was written: the field is cleared,
/// then the value, cut to the mask and shifted up by the offset, is put in
/// its place. What does not fit in the 32 bits of a register is lost.
pub open spec fn with_field(bits: u32, offset: u32, mask: u64, value: u64) -> u32 {
    if offset < 32 {
        ((((bits as u64) & !(mask << (offset as u64))) | ((value & mask) << (offset as u64)))
            & 0xffff_ffff) as u32
    } else {
        bits
    }
}

/// Reads a field out of the bits of a register.
pub fn extract(bits: u32, offset: u32, mask: u64) -> (value: u64)
    ensures
        value == field_value(bits, offset, mask),
{
    if offset < 32 {
        ((bits as u64) >> (offset as u64)) & mask
    } else {
        0
    }
}

/// Writes a field into the bits of a register.
pub fn insert(bits: u32, offset: u32, mask: u64, value: u64) -> (stored: u32)
    ensures
        stored == with_field(bits, offset, mask, value),
{
    if offset < 32 {
        let all: u64 = ((bits as u64) & !(mask << (offset as u64))) | ((value & mask) << (
        offset as u64));
        assert(all & 0xffff_ffff <= 0xffff_ffff) by (bit_vector);
        (all & 0xffff_ffff) as u32
    } else {
        bits
    }
}

/// What an accessor of a read proxy returns for the bits of a register: the
/// value of its field. Documentation reads nothing.
pub open spec fn value_read(member: ReadMemberView, bits: u32) -> Option<u64> {
    match member {
        ReadMemberView::Doc(_) => None,
        ReadMemberView::Bit { offset, .. } => Some(field_value(bits, offset as u32, 1)),
        ReadMemberView::Bits { offset, mask, .. } => Some(
            field_value(bits, offset as u32, mask as u64),
        ),
        ReadMemberView::Variant { offset, mask, .. } => Some(
            field_value(bits, offset as u32, mask as u64),
        ),
    }
}

/// What a setter of a write proxy makes of the bits of a register: the bits
/// with its field written. The other members leave the bits as they are.
pub open spec fn value_written(member: WriteMemberView, bits: u32, value: u64) -> u32 {
    match member {
        WriteMemberView::Bit { offset, .. } => with_field(bits, offset as u32, 1, value),
        WriteMemberView::Bits { offset, mask, .. } => with_field(
            bits,
            offset as u32,
            mask as u64,
            value,
        ),
        WriteMemberView::Variant { offset, mask, .. } => with_field(
            bits,
            offset as u32,
            mask as u64,
            value,
        ),
        _ => bits,
    }
}

/// Evaluates an accessor of a read proxy on the bits of a register.
pub fn read_member(member: &ReadMember, bits: u32) -> (value: Option<u64>)
    ensures
        value == value_read(member.deep_view(), bits),
{
    match member {
        ReadMember::Doc(_) => None,
        ReadMember::Bit { offset, .. } => Some(extract(bits, *offset, 1)),
        ReadMember::Bits { offset, mask, .. } => Some(extract(bits, *offset, *mask)),
        ReadMember::Variant { offset, mask, .. } => Some(extract(bits, *offset, *mask)),
    }
}

/// Applies a setter of a write proxy to the bits of a register.
pub fn write_member(member: &WriteMember, bits: u32, value: u64) -> (stored: u32)
    ensures
        stored == value_written(member.deep_view(), bits, value),
{
    match member {
        WriteMember::Bit { offset, .. } => insert(bits, *offset, 1, value),
        WriteMember::Bits { offset, mask, .. } => insert(bits, *offset, *mask, value),
        WriteMember::Variant { offset, mask, .. } => insert(bits, *offset, *mask, value),
        _ => bits,
    }
}

/// A field that was written is read back: reading a field right after it
/// was written gives the value, cut to the mask, provided the field lies
/// within the 32 bits of a register.
pub proof fn lemma_written_field_is_read(bits: u32, offset: u32, mask: u64, value: u64)
    requires
        offset < 32,
        (mask << (offset as u64)) >> (offset as u64) == mask,
        mask << (offset as u64) <= 0xffff_ffff,
    ensures
        field_value(with_field(bits, offset, mask, value), offset, mask) == value & mask,
{
    let o = offset as u64;
    let b = bits as u64;
    assert(((((b & !(mask << o)) | ((value & mask) << o)) & 0xffff_ffff) >> o) & mask == value
        & mask) by (bit_vector)
        requires
            o < 32,
            (mask << o) >> o == mask,
            mask << o <= 0xffff_ffff,
    ;
    let stored = with_field(bits, offset, mask, value);
    assert(stored as u64 == ((b & !(mask << o)) | ((value & mask) << o)) & 0xffff_ffff) by {
        let all = (b & !(mask << o)) | ((value & mask) << o);
        assert(all & 0xffff_ffff <= 0xffff_ffff) by (bit_vector);
    }
}

/// Writing a field leaves every other field as it was: a field whose bits
/// the written field does not share reads the same before and after.
pub proof fn lemma_other_fields_are_kept(
    bits: u32,
    offset: u32,
    mask: u64,
    value: u64,
    other_offset: u32,
    other_mask: u64,
)
    requires
        offset < 32,
        other_offset < 32,
        (mask << (offset as u64)) & (other_mask << (other_offset as u64)) == 0,
        (other_mask << (other_offset as u64)) >> (other_offset as u64) == other_mask,
        other_mask << (other_offset as u64) <= 0xffff_ffff,
    ensures
        field_value(with_field(bits, offset, mask, value), other_offset, other_mask)
            == field_value(bits, other_offset, other_mask),
{
    let o = offset as u64;
    let p = other_offset as u64;
    let b = bits as u64;
    assert(((((b & !(mask << o)) | ((value & mask) << o)) & 0xffff_ffff) >> p) & other_mask == (b
        >> p) & other_mask) by (bit_vector)
        requires
            o < 32,
            p < 32,
            (mask << o) & (other_mask << p) == 0,
            (other_mask << p) >> p == other_mask,
            other_mask << p <= 0xffff_ffff,
    ;
    let stored = with_field(bits, offset, mask, value);
    assert(stored as u64 == ((b & !(mask << o)) | ((value & mask) << o)) & 0xffff_ffff) by {
        let all = (b & !(mask << o)) | ((value & mask) << o);
        assert(all & 0xffff_ffff <= 0xffff_ffff) by (bit_vector);
    }
}

/// The bits that a builder hands back: the seed with the updates applied in
/// order. An update is one call of a setter: the member called and the value
/// given to it.
pub open spec fn built(seed: u32, updates: Seq<(WriteMemberView, u64)>) -> u32
    decreases updates.len(),
{
    if updates.len() == 0 {
        seed
    } else {
        value_written(updates.last().0, built(seed, updates.drop_last()), updates.last().1)
    }
}

/// Applies the updates of a builder to a seed, in order.
pub fn build(seed: u32, updates: &Vec<(WriteMember, u64)>) -> (bits: u32)
    ensures
        bits == built(seed, updates.deep_view()),
{
    let mut bits = seed;
    let mut i: usize = 0;
    let ghost all = updates.deep_view();
    assert(all.take(0) =~= Seq::empty());
    while i < updates.len()
        invariant
            i <= updates.len(),
            all == updates.deep_view(),
            bits == built(seed, all.take(i as int)),
        decreases updates.len() - i,
    {
        proof {
            assert(all.take(i + 1).drop_last() =~= all.take(i as int));
            assert(all.take(i + 1).last() == all[i as int]);
        }
        bits = write_member(&updates[i].0, bits, updates[i].1);
        i += 1;
    }
    assert(all.take(updates.len() as int) =~= all);
    bits
}

/// Whether a field at `at` under `own` shares a bit with the field at
/// `offset` under `mask`.
pub open spec fn overlapping(at: u32, own: u64, offset: u32, mask: u64) -> bool {
    at < 32 && ((own << (at as u64)) & (mask << (offset as u64))) != 0
}

/// Whether a setter writes a bit of the field at `offset` under `mask`.
pub open spec fn touches(member: WriteMemberView, offset: u32, mask: u64) -> bool {
    match member {
        WriteMemberView::Bit { offset: at, .. } => overlapping(at as u32, 1, offset, mask),
        WriteMemberView::Bits { offset: at, mask: own, .. } => overlapping(
            at as u32,
            own as u64,
            offset,
            mask,
        ),
        WriteMemberView::Variant { offset: at, mask: own, .. } => overlapping(
            at as u32,
            own as u64,
            offset,
            mask,
        ),
        _ => false,
    }
}

/// A builder keeps the fields that it does not touch: a field within the 32
/// bits of a register, of which no update writes a bit, reads the same from
/// what was built as from the seed.
pub proof fn lemma_untouched_fields_are_kept(
    seed: u32,
    updates: Seq<(WriteMemberView, u64)>,
    offset: u32,
    mask: u64,
)
    requires
        offset < 32,
        (mask << (offset as u64)) >> (offset as u64) == mask,
        mask << (offset as u64) <= 0xffff_ffff,
        forall|i: int| 0 <= i < updates.len() ==> !touches(#[trigger] updates[i].0, offset, mask),
    ensures
        field_value(built(seed, updates), offset, mask) == field_value(seed, offset, mask),
    decreases updates.len(),
{
    if updates.len() > 0 {
        let before = built(seed, updates.drop_last());
        let (member, value) = updates.last();
        assert forall|i: int| 0 <= i < updates.drop_last().len() implies !touches(
            #[trigger] updates.drop_last()[i].0,
            offset,
            mask,
        ) by {
            assert(updates.drop_last()[i] == updates[i]);
        }
        lemma_untouched_fields_are_kept(seed, updates.drop_last(), offset, mask);
        assert(!touches(updates[updates.len() - 1].0, offset, mask));
        match member {
            WriteMemberView::Bit { offset: at, .. } => {
                lemma_field_kept(before, at as u32, 1, value, offset, mask);
            },
            WriteMemberView::Bits { offset: at, mask: own, .. } => {
                lemma_field_kept(before, at as u32, own as u64, value, offset, mask);
            },
            WriteMemberView::Variant { offset: at, mask: own, .. } => {
                lemma_field_kept(before, at as u32, own as u64, value, offset, mask);
            },
            _ => {},
        }
    }
}

proof fn lemma_field_kept(bits: u32, at: u32, own: u64, value: u64, offset: u32, mask: u64)
    requires
        offset < 32,
        (mask << (offset as u64)) >> (offset as u64) == mask,
        mask << (offset as u64) <= 0xffff_ffff,
        !overlapping(at, own, offset, mask),
    ensures
        field_value(with_field(bits, at, own, value), offset, mask) == field_value(
            bits,
            offset,
            mask,
        ),
{
    if at < 32 {
        lemma_other_fields_are_kept(bits, at, own, value, offset, mask);
    }
}

/// What one operation of a register does: whether it reads the register,
/// what it stores in it, and what it hands to the caller. No operation reads
/// more than once or stores more than once.
#[derive(Clone, Copy, Debug, PartialEq, Eq, Structural)]
pub struct Effect {
    pub reads: bool,
    pub stored: Option<u32>,
    pub seen: Option<u32>,
}

/// The effect of an operation on a register that holds `current`.
///
/// A read hands out the bits of the register. A write of a raw value stores
/// `value`. The write that takes a builder stores what the builder makes of
/// the reset value. `modify` reads the register once and stores once what the
/// builder makes of the bits it read, whatever the number of updates;
/// `modify_bits` does so with the raw value, of which the caller makes
/// `value`.
pub open spec fn effect(
    op: Operation,
    current: u32,
    reset: u32,
    value: u32,
    updates: Seq<(WriteMemberView, u64)>,
) -> Effect {
    match op {
        Operation::ReadValue | Operation::ReadProxy | Operation::ReadBits => Effect {
            reads: true,
            stored: None,
            seen: Some(current),
        },
        Operation::WriteValue | Operation::WriteBits => Effect {
            reads: false,
            stored: Some(value),
            seen: None,
        },
        Operation::WriteBuilder => Effect {
            reads: false,
            stored: Some(built(reset, updates)),
            seen: None,
        },
        Operation::Modify => Effect {
            reads: true,
            stored: Some(built(current, updates)),
            seen: None,
        },
        Operation::ModifyBits => Effect { reads: true, stored: Some(value), seen: None },
    }
}

/// Works out the effect of an operation on a register that holds `current`.
pub fn effect_of(
    op: Operation,
    current: u32,
    reset: u32,
    value: u32,
    updates: &Vec<(WriteMember, u64)>,
) -> (e: Effect)
    ensures
        e == effect(op, current, reset, value, updates.deep_view()),
{
    match op {
        Operation::ReadValue | Operation::ReadProxy | Operation::ReadBits => Effect {
            reads: true,
            stored: None,
            seen: Some(current),
        },
        Operation::WriteValue | Operation::WriteBits => Effect {
            reads: false,
            stored: Some(value),
            seen: None,
        },
        Operation::WriteBuilder => Effect {
            reads: false,
            stored: Some(build(reset, updates)),
            seen: None,
        },
        Operation::Modify => Effect {
            reads: true,
            stored: Some(build(current, updates)),
            seen: None,
        },
        Operation::ModifyBits => Effect { reads: true, stored: Some(value), seen: None },
    }
}

/// The value that the write proxy of a register starts from: the first of
/// its members, where that is the constructor from the reset value.
pub open spec fn seed_of(members: Seq<WriteMemberView>) -> Option<nat> {
    if members.len() > 0 {
        match members[0] {
            WriteMemberView::ResetValue(value) => Some(value),
            _ => None,
        }
    } else {
        None
    }
}

/// The variant that a code is decoded into: the one at its position.
pub open spec fn decoded(variants: Seq<ReadVariantView>, code: nat) -> Option<ReadVariantView> {
    if code < variants.len() {
        Some(variants[code as int])
    } else {
        None
    }
}

/// The code that a variant is encoded as.
pub open spec fn encoded(variant: ReadVariantView) -> nat {
    variant.value
}

/// Decodes a code into a variant of an enumerated type for reading.
pub fn decode<'a>(variants: &'a Vec<ReadVariant>, code: u64) -> (r: Option<&'a ReadVariant>)
    ensures
        r.deep_view() == decoded(variants.deep_view(), code as nat),
{
    if code < variants.len() as u64 {
        Some(&variants[code as usize])
    } else {
        None
    }
}

/// Decoding is total and undoes encoding: every code of a field of `width`
/// bits is decoded into a variant, that variant is encoded as the same code,
/// and every variant is the one that its own code is decoded into.
pub proof fn lemma_decoding_total(values: Seq<EnumeratedValue>, width: nat)
    ensures
        read_variants(values, width).len() == code_count(width),
        forall|code: nat|
            code < code_count(width) ==> (#[trigger] decoded(read_variants(values, width), code))
                is Some && encoded(decoded(read_variants(values, width), code)->Some_0) == code,
        forall|i: int|
            0 <= i < read_variants(values, width).len() ==> decoded(
                read_variants(values, width),
                encoded(#[trigger] read_variants(values, width)[i]),
            ) == Some(read_variants(values, width)[i]),
{
}

/// A declared value is decoded under its own name: where `value` is the
/// first one declared for a code of the field, that code is decoded into a
/// variant that is not reserved.
pub proof fn lemma_declared_decoded(values: Seq<EnumeratedValue>, width: nat, code: nat)
    requires
        code < code_count(width),
        crate::field::declared_for(values, code, 0) is Some,
    ensures
        decoded(read_variants(values, width), code) is Some,
        !decoded(read_variants(values, width), code)->Some_0.reserved,
        decoded(read_variants(values, width), code)->Some_0.predicate is Some,
{
}

/// The accessor generated for a field reads the bits of that field: the
/// register shifted down by the offset of the field and cut to the mask of
/// its width.
pub proof fn lemma_accessor_reads_field(
    chosen: Option<ResolvedView>,
    register: Seq<char>,
    field: Field,
    ty: BitsTy,
    bits: u32,
)
    requires
        field.bit_width <= 32,
    ensures
        value_read(read_accessor(chosen, register, field, ty), bits) == Some(
            field_value(bits, field.bit_offset, mask_of(field.bit_width as nat) as u64),
        ),
{
    crate::field::lemma_code_count_bound(field.bit_width as nat);
    vstd::arithmetic::power2::lemma2_to64();
}

proof fn lemma_write_keeps_seed(
    start: WriteState,
    register: Seq<char>,
    fields: Seq<Field>,
    n: int,
    registers: Seq<Register>,
)
    requires
        start.members.len() > 0,
        write_fields(start, register, fields, n, registers) is Ok,
    ensures
        ({
            let end = write_fields(start, register, fields, n, registers)->Ok_0;
            end.members.len() > 0 && end.members[0] == start.members[0]
        }),
    decreases n,
{
    if n > 0 {
        lemma_write_keeps_seed(start, register, fields, n - 1, registers);
    }
}

/// A write with a builder that changes nothing, followed by a read, gives
/// back the reset value, and the accessor of every field then reads what the
/// reset value holds in that field.
///
/// For a register with a known reset value, the write proxy starts from that
/// value; the write stores it unchanged; the read that follows sees it; and
/// from what was seen the accessor generated for a field reads the bits of
/// the reset value at the offset and under the mask of the field.
pub proof fn lemma_identity_write_reads_reset(
    r: Register,
    defaults: Defaults,
    fields: Seq<Field>,
    registers: Seq<Register>,
    registry: Seq<Seq<char>>,
    reset: u32,
    before: u32,
    chosen: Option<ResolvedView>,
    field: Field,
    ty: BitsTy,
)
    requires
        resolved_reset(r.spec_info(), defaults) == Some(reset),
        write_items(r, defaults, fields, registers, registry) is Ok,
        field.bit_width <= 32,
    ensures
        write_items(r, defaults, fields, registers, registry)->Ok_0.0.last() is WriteApi,
        seed_of(write_items(r, defaults, fields, registers, registry)->Ok_0.0.last()->WriteApi_members)
            == Some(reset as nat),
        effect(Operation::WriteBuilder, before, reset, 0, Seq::empty()).stored == Some(reset),
        effect(Operation::ReadProxy, reset, reset, 0, Seq::empty()).seen == Some(reset),
        value_read(read_accessor(chosen, crate::expand::type_name_of(r), field, ty), reset)
            == Some(field_value(reset, field.bit_offset, mask_of(field.bit_width as nat) as u64)),
{
    let bits = crate::register::register_bits(r, defaults)->Ok_0;
    let start = write_start(r, defaults, bits, registry);
    lemma_write_keeps_seed(
        start,
        crate::expand::type_name_of(r),
        fields,
        fields.len() as int,
        registers,
    );
    lemma_accessor_reads_field(chosen, crate::expand::type_name_of(r), field, ty, reset);
}

} // verus!
