//! The read proxy of a register: one accessor for each readable field, and
//! the enumerated types that those accessors return.

use crate::expand::{type_name_of, type_of};
use crate::field::{
    code_count,
    count_codes,
    declared_for,
    document_field,
    enum_name,
    field_doc,
    field_mask,
    find_declared,
    is_passed_over,
    label_of,
    mask_of,
    name_enum,
    origin_name,
    passed_over,
    set_label,
    Registry,
};
use crate::fragment::{Item, ItemView, ReadMember, ReadMemberView, ReadVariant, ReadVariantView};
use crate::model::{Defaults, EnumeratedValue, Field, GenError, Register};
use crate::register::{bits_of, register_bits};
use crate::resolve::{resolve, resolved_set, ResolvedView, Side};
use crate::text::{
    binary,
    binary_text,
    inflect_snake,
    join2,
    sanitized_pascal,
    sanitized_snake,
    snake_case,
    to_sanitized_pascal_case,
    to_sanitized_snake_case,
};
use crate::views::push_view;
use crate::width::{storage_for, to_ty, BitsTy};
use vstd::prelude::*;

verus! {

/// The name of the hidden variant that stands for an undeclared code.
pub open spec fn reserved_variant(code: nat) -> Seq<char> {
    seq!['_', 'R', 'e', 's', 'e', 'r', 'v', 'e', 'd'] + binary_text(code)
}

/// The name of the predicate that tells whether a value is the variant
/// declared under `name`.
pub open spec fn predicate_name(name: Seq<char>) -> Seq<char> {
    seq!['i', 's', '_'] + snake_case(name)
}

/// The variant that a code is read as: the first value declared for it, else
/// a hidden variant of its own.
pub open spec fn read_variant(values: Seq<EnumeratedValue>, code: nat) -> ReadVariantView {
    match declared_for(values, code, 0) {
        Some(value) => ReadVariantView {
            name: sanitized_pascal(value.name@),
            doc: value.description.deep_view(),
            reserved: false,
            value: code,
            predicate: Some(predicate_name(value.name@)),
        },
        None => ReadVariantView {
            name: reserved_variant(code),
            doc: None,
            reserved: true,
            value: code,
            predicate: None,
        },
    }
}

/// The variants of an enumerated type for reading a field of `width` bits:
/// one for every code, in ascending order.
pub open spec fn read_variants(values: Seq<EnumeratedValue>, width: nat) -> Seq<ReadVariantView> {
    Seq::new(code_count(width), |code: int| read_variant(values, code as nat))
}

/// What has been generated for the read side of a register so far.
pub struct ReadState {
    /// The items given out.
    pub items: Seq<ItemView>,
    /// The members of the read proxy.
    pub members: Seq<ReadMemberView>,
    /// The names of the enumerated types and aliases given out.
    pub registry: Seq<Seq<char>>,
}

/// The item that makes the enumerated type of a field known under `name`:
/// the type itself for a set of the field's own, an alias for a set of
/// another register, nothing for a derived set of the same register.
pub open spec fn read_type_item(
    chosen: ResolvedView,
    register: Seq<char>,
    field: Field,
    ty: BitsTy,
) -> Option<ItemView> {
    let label = set_label(chosen.set, field, Side::Read);
    let name = enum_name(register, Side::Read, label);
    if !chosen.derived {
        Some(
            ItemView::ReadEnum {
                name,
                ty,
                variants: read_variants(chosen.set.values@, field.bit_width as nat),
            },
        )
    } else {
        match chosen.base {
            Some(base) => Some(
                ItemView::Alias { name, origin: origin_name(base, Side::Read, label) },
            ),
            None => None,
        }
    }
}

/// The accessor of a field: of its enumerated type where a set was chosen,
/// else a boolean for one bit and an integer for more.
pub open spec fn read_accessor(
    chosen: Option<ResolvedView>,
    register: Seq<char>,
    field: Field,
    ty: BitsTy,
) -> ReadMemberView {
    let name = sanitized_snake(field.name@);
    let offset = field.bit_offset as nat;
    let mask = mask_of(field.bit_width as nat);
    match chosen {
        Some(set) => ReadMemberView::Variant {
            name,
            ty,
            offset,
            mask,
            enum_name: enum_name(register, Side::Read, set_label(set.set, field, Side::Read)),
        },
        None => if field.bit_width == 1 {
            ReadMemberView::Bit { name, offset }
        } else {
            ReadMemberView::Bits { name, ty, offset, mask }
        },
    }
}

/// The read side with one more field taken into account.
///
/// A field that is passed over changes nothing. Any other adds its
/// documentation, where it has any, and its accessor to the proxy. Where a
/// set of enumerated values was chosen, its type or alias is given out once:
/// a name that the registry holds already is not given out again.
pub open spec fn read_field(
    before: ReadState,
    register: Seq<char>,
    field: Field,
    fields: Seq<Field>,
    registers: Seq<Register>,
) -> Result<ReadState, GenError> {
    if passed_over(field, Side::Read) {
        Ok(before)
    } else {
        match storage_for(field.bit_width) {
            Err(e) => Err(e),
            Ok(ty) => match resolved_set(field, fields, registers, Side::Read) {
                Err(e) => Err(e),
                Ok(chosen) => {
                    let documented = match field_doc(field) {
                        Some(doc) => before.members.push(ReadMemberView::Doc(doc)),
                        None => before.members,
                    };
                    let members = documented.push(read_accessor(chosen, register, field, ty));
                    let item = match chosen {
                        Some(set) => read_type_item(set, register, field, ty),
                        None => None,
                    };
                    match (chosen, item) {
                        (Some(set), Some(item)) => {
                            let name = enum_name(
                                register,
                                Side::Read,
                                set_label(set.set, field, Side::Read),
                            );
                            if before.registry.contains(name) {
                                Ok(ReadState { members, ..before })
                            } else {
                                Ok(
                                    ReadState {
                                        items: before.items.push(item),
                                        members,
                                        registry: before.registry.push(name),
                                    },
                                )
                            }
                        },
                        _ => Ok(ReadState { members, ..before }),
                    }
                },
            },
        }
    }
}

/// The read side after the first `n` fields, taken in order.
pub open spec fn read_fields(
    start: ReadState,
    register: Seq<char>,
    fields: Seq<Field>,
    n: int,
    registers: Seq<Register>,
) -> Result<ReadState, GenError>
    decreases n,
{
    if n <= 0 {
        Ok(start)
    } else {
        match read_fields(start, register, fields, n - 1, registers) {
            Err(e) => Err(e),
            Ok(before) => read_field(before, register, fields[n - 1], fields, registers),
        }
    }
}

/// The name of a register's read proxy.
pub open spec fn read_proxy_name(register: Seq<char>) -> Seq<char> {
    register + seq!['R']
}

/// The items generated for the read side of a register, and the registry
/// after them: the proxy type, the enumerated types and aliases of the
/// fields in order, and last the members of the proxy.
pub open spec fn read_items(
    r: Register,
    defaults: Defaults,
    fields: Seq<Field>,
    registers: Seq<Register>,
    registry: Seq<Seq<char>>,
) -> Result<(Seq<ItemView>, Seq<Seq<char>>), GenError> {
    match register_bits(r, defaults) {
        Err(e) => Err(e),
        Ok(bits) => {
            let register = type_name_of(r);
            let proxy = read_proxy_name(register);
            let start = ReadState {
                items: seq![ItemView::Proxy { name: proxy, bits }],
                members: Seq::empty(),
                registry,
            };
            match read_fields(start, register, fields, fields.len() as int, registers) {
                Err(e) => Err(e),
                Ok(end) => Ok(
                    (
                        end.items.push(ItemView::ReadApi { name: proxy, members: end.members }),
                        end.registry,
                    ),
                ),
            }
        },
    }
}

fn copy_text(text: &Option<String>) -> (r: Option<String>)
    ensures
        r.deep_view() == text.deep_view(),
{
    match text {
        Some(s) => Some(s.as_str().to_owned()),
        None => None,
    }
}

fn make_read_variant(values: &Vec<EnumeratedValue>, code: u64) -> (r: ReadVariant)
    ensures
        r.deep_view() == read_variant(values@, code as nat),
{
    match find_declared(values, code) {
        Some(value) => {
            proof {
                reveal_strlit("is_");
            }
            let predicate = join2("is_", inflect_snake(value.name.as_str()).as_str());
            assert(predicate@ =~= predicate_name(value.name@));
            ReadVariant {
                name: to_sanitized_pascal_case(value.name.as_str()),
                doc: copy_text(&value.description),
                reserved: false,
                value: code,
                predicate: Some(predicate),
            }
        },
        None => {
            proof {
                reveal_strlit("_Reserved");
            }
            let name = join2("_Reserved", binary(code as u128).as_str());
            assert(name@ =~= reserved_variant(code as nat));
            ReadVariant { name, doc: None, reserved: true, value: code, predicate: None }
        },
    }
}

fn make_read_variants(values: &Vec<EnumeratedValue>, width: u32) -> (r: Vec<ReadVariant>)
    requires
        width <= 32,
    ensures
        r.deep_view() == read_variants(values@, width as nat),
{
    let count = count_codes(width);
    let mut variants: Vec<ReadVariant> = Vec::new();
    let mut code: u64 = 0;
    while code < count
        invariant
            code <= count,
            count == code_count(width as nat),
            variants@.len() == code,
            forall|c: int|
                0 <= c < code ==> (#[trigger] variants@[c]).deep_view() == read_variant(
                    values@,
                    c as nat,
                ),
        decreases count - code,
    {
        let variant = make_read_variant(values, code);
        variants.push(variant);
        code += 1;
    }
    assert(variants.deep_view() =~= read_variants(values@, width as nat));
    variants
}

fn read_one<'a>(
    items: &mut Vec<Item>,
    members: &mut Vec<ReadMember>,
    registry: &mut Registry,
    register: &str,
    field: &'a Field,
    fields: &'a [Field],
    registers: &'a [Register],
) -> (r: Result<(), GenError>)
    ensures
        match (
            r,
            read_field(
                ReadState {
                    items: old(items).deep_view(),
                    members: old(members).deep_view(),
                    registry: old(registry)@,
                },
                register@,
                *field,
                fields@,
                registers@,
            ),
        ) {
            (Ok(_), Ok(after)) => {
                &&& final(items).deep_view() == after.items
                &&& final(members).deep_view() == after.members
                &&& final(registry)@ == after.registry
            },
            (Err(e), Err(f)) => e == f,
            _ => false,
        },
{
    if is_passed_over(field, Side::Read) {
        return Ok(());
    }
    let ty = match to_ty(field.bit_width) {
        Ok(ty) => ty,
        Err(e) => {
            return Err(e);
        },
    };
    let chosen = match resolve(field, fields, registers, Side::Read) {
        Ok(chosen) => chosen,
        Err(e) => {
            return Err(e);
        },
    };
    match document_field(field) {
        Some(doc) => {
            push_view(members, ReadMember::Doc(doc));
        },
        None => {},
    }
    let name = to_sanitized_snake_case(field.name.as_str());
    let offset = field.bit_offset;
    let mask = field_mask(field.bit_width);
    match chosen {
        Some(set) => {
            let label = label_of(set.set, field, Side::Read);
            let enum_name = name_enum(register, Side::Read, label.as_str());
            if !registry.contains(enum_name.as_str()) {
                if !set.derived {
                    let variants = make_read_variants(&set.set.values, field.bit_width);
                    push_view(
                        items,
                        Item::ReadEnum { name: enum_name.as_str().to_owned(), ty, variants },
                    );
                    registry.insert(enum_name.as_str());
                } else {
                    match &set.base {
                        Some(base) => {
                            let origin = name_enum(
                                to_sanitized_pascal_case(base.as_str()).as_str(),
                                Side::Read,
                                label.as_str(),
                            );
                            push_view(
                                items,
                                Item::Alias { name: enum_name.as_str().to_owned(), origin },
                            );
                            registry.insert(enum_name.as_str());
                        },
                        None => {},
                    }
                }
            }
            push_view(members, ReadMember::Variant { name, ty, offset, mask, enum_name });
        },
        None => {
            if field.bit_width == 1 {
                push_view(members, ReadMember::Bit { name, offset });
            } else {
                push_view(members, ReadMember::Bits { name, ty, offset, mask });
            }
        },
    }
    Ok(())
}

/// Generates the read proxy of a register: the proxy type, the enumerated
/// types and aliases that its fields need, and its accessors.
///
/// `fields` are the fields of the register, `all_registers` the registers of
/// its peripheral. The names of the enumerated types and aliases given out
/// are added to `registry`; a name that it holds already is not given out
/// again. On an error the registry is left as it was.
pub fn gen_register_r<'a>(
    r: &'a Register,
    d: &Defaults,
    fields: &'a [Field],
    all_registers: &'a [Register],
    registry: &mut Registry,
) -> (out: Result<Vec<Item>, GenError>)
    ensures
        match (out, read_items(*r, *d, fields@, all_registers@, old(registry)@)) {
            (Ok(items), Ok((views, names))) => items.deep_view() == views && final(registry)@
                == names,
            (Err(e), Err(f)) => e == f && final(registry)@ == old(registry)@,
            _ => false,
        },
{
    let bits = match bits_of(r, d) {
        Ok(bits) => bits,
        Err(e) => {
            return Err(e);
        },
    };
    proof {
        reveal_strlit("R");
    }
    let register = type_of(r);
    let proxy = join2(register.as_str(), "R");
    assert(proxy@ =~= read_proxy_name(register@));
    let mut work = registry.duplicate();
    let mut items: Vec<Item> = Vec::new();
    let mut members: Vec<ReadMember> = Vec::new();
    push_view(&mut items, Item::Proxy { name: proxy.as_str().to_owned(), bits });
    let ghost start = ReadState {
        items: seq![ItemView::Proxy { name: proxy@, bits }],
        members: Seq::empty(),
        registry: registry@,
    };
    proof {
        assert(items.deep_view() =~= start.items);
        assert(members.deep_view() =~= start.members);
    }
    let mut i: usize = 0;
    while i < fields.len()
        invariant
            i <= fields.len(),
            *registry == *old(registry),
            register@ == type_name_of(*r),
            register_bits(*r, *d) == Ok::<BitsTy, GenError>(bits),
            start == (ReadState {
                items: seq![ItemView::Proxy { name: read_proxy_name(register@), bits }],
                members: Seq::empty(),
                registry: old(registry)@,
            }),
            read_fields(start, register@, fields@, i as int, all_registers@) matches Ok(st)
                && st.items == items.deep_view() && st.members == members.deep_view()
                && st.registry == work@,
        decreases fields.len() - i,
    {
        match read_one(
            &mut items,
            &mut members,
            &mut work,
            register.as_str(),
            &fields[i],
            fields,
            all_registers,
        ) {
            Ok(_) => {},
            Err(e) => {
                proof {
                    assert(read_fields(start, register@, fields@, i + 1, all_registers@)
                        == Err::<ReadState, GenError>(e));
                    lemma_read_error_stays(
                        start,
                        register@,
                        fields@,
                        i + 1,
                        fields.len() as int,
                        all_registers@,
                    );
                }
                return Err(e);
            },
        }
        i += 1;
    }
    push_view(&mut items, Item::ReadApi { name: proxy, members });
    *registry = work;
    Ok(items)
}

proof fn lemma_read_error_stays(
    start: ReadState,
    register: Seq<char>,
    fields: Seq<Field>,
    n: int,
    m: int,
    registers: Seq<Register>,
)
    requires
        0 <= n <= m,
        read_fields(start, register, fields, n, registers) is Err,
    ensures
        read_fields(start, register, fields, m, registers) == read_fields(
            start,
            register,
            fields,
            n,
            registers,
        ),
    decreases m - n,
{
    if n < m {
        lemma_read_error_stays(start, register, fields, n, m - 1, registers);
    }
}

} // verus!
