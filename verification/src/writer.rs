//! The write proxy of a register: the setters of each writable field, the
//! enumerated types that they take, and the sub-proxies that offer one method
//! for each named value.

use crate::expand::{type_name_of, type_of};
use crate::field::{
    code_count,
    count_codes,
    declared_for,
    document_field,
    enum_name,
    field_doc,
    field_mask,
    find_declared,
    is_passed_over,
    label_of,
    mask_of,
    name_enum,
    origin_name,
    passed_over,
    set_label,
    Registry,
};
use crate::fragment::{
    Item,
    ItemView,
    ProxyMethod,
    ProxyMethodView,
    WriteMember,
    WriteMemberView,
    WriteVariant,
    WriteVariantView,
};
use crate::model::{
    reset_of,
    resolved_reset,
    Defaults,
    EnumeratedValue,
    Field,
    GenError,
    Register,
};
use crate::register::{bits_of, register_bits};
use crate::resolve::{resolve, resolved_set, ResolvedView, Side};
use crate::text::{
    join2,
    join3,
    sanitized_pascal,
    sanitized_snake,
    to_sanitized_pascal_case,
    to_sanitized_snake_case,
};
use crate::views::push_view;
use crate::width::{storage_for, to_ty, BitsTy};
use vstd::prelude::*;

verus! {

/// Whether every value of a set states its number.
pub open spec fn all_numbered(values: Seq<EnumeratedValue>) -> bool {
    forall|i: int| 0 <= i < values.len() ==> (#[trigger] values[i]).value is Some
}

/// The methods of a field's sub-proxy: one for each value, in order.
pub open spec fn proxy_methods(values: Seq<EnumeratedValue>) -> Seq<ProxyMethodView> {
    Seq::new(
        values.len(),
        |i: int|
            ProxyMethodView {
                name: sanitized_snake(values[i].name@),
                value: values[i].value->Some_0 as nat,
            },
    )
}

/// The variants of an enumerated type for writing: one for each value, in
/// order.
pub open spec fn write_variants(values: Seq<EnumeratedValue>) -> Seq<WriteVariantView> {
    Seq::new(
        values.len(),
        |i: int|
            WriteVariantView {
                name: sanitized_pascal(values[i].name@),
                value: values[i].value->Some_0 as nat,
            },
    )
}

/// Whether a value is declared for every code of a field of `width` bits.
pub open spec fn covers(values: Seq<EnumeratedValue>, width: nat) -> bool {
    forall|code: nat| code < code_count(width) ==> #[trigger] declared_for(values, code, 0) is Some
}

/// The name of a register's write proxy.
pub open spec fn write_proxy_name(register: Seq<char>) -> Seq<char> {
    register + seq!['W']
}

/// The name of the sub-proxy of a field.
pub open spec fn field_proxy_name(register: Seq<char>, field: Seq<char>) -> Seq<char> {
    seq!['_'] + register + seq!['W'] + sanitized_pascal(field)
}

/// The name of the setter that takes the raw bits of a field with
/// enumerated values.
pub open spec fn bits_setter_name(field: Seq<char>) -> Seq<char> {
    sanitized_snake(field) + seq!['_', 'b', 'i', 't', 's']
}

/// The name of the setter that takes a value of a field's enumerated type.
pub open spec fn enum_setter_name(field: Seq<char>) -> Seq<char> {
    sanitized_snake(field) + seq!['_', 'e', 'n', 'u', 'm']
}

/// What has been generated for the write side of a register so far.
pub struct WriteState {
    /// The items given out.
    pub items: Seq<ItemView>,
    /// The members of the write proxy.
    pub members: Seq<WriteMemberView>,
    /// The names of the enumerated types and aliases given out.
    pub registry: Seq<Seq<char>>,
}

/// The item that makes the enumerated type of a field known under its name:
/// the type itself for a set of the field's own, an alias for a set of
/// another register, nothing for a derived set of the same register.
pub open spec fn write_type_item(
    chosen: ResolvedView,
    register: Seq<char>,
    field: Field,
    ty: BitsTy,
) -> Option<ItemView> {
    let label = set_label(chosen.set, field, Side::Write);
    let name = enum_name(register, Side::Write, label);
    if !chosen.derived {
        Some(ItemView::WriteEnum { name, ty, variants: write_variants(chosen.set.values@) })
    } else {
        match chosen.base {
            Some(base) => Some(
                ItemView::Alias { name, origin: origin_name(base, Side::Write, label) },
            ),
            None => None,
        }
    }
}

/// The write side with a field that has no enumerated values for writing: a
/// boolean setter for one bit, an integer setter for more.
pub open spec fn write_plain(before: WriteState, documented: Seq<WriteMemberView>, field: Field, ty: BitsTy) -> WriteState {
    let name = sanitized_snake(field.name@);
    let offset = field.bit_offset as nat;
    let member = if field.bit_width == 1 {
        WriteMemberView::Bit { name, offset }
    } else {
        WriteMemberView::Bits { name, ty, offset, mask: mask_of(field.bit_width as nat), safe: true }
    };
    WriteState { members: documented.push(member), ..before }
}

/// The write side with a field that has enumerated values for writing: the
/// field's sub-proxy and its methods; the enumerated type or its alias,
/// unless the registry holds its name already; and on the proxy the way into
/// the sub-proxy, the setter of raw bits, which is safe only where every code
/// is declared, and the setter that takes the enumerated type.
pub open spec fn write_enumerated(
    before: WriteState,
    documented: Seq<WriteMemberView>,
    chosen: ResolvedView,
    register: Seq<char>,
    field: Field,
    ty: BitsTy,
) -> WriteState {
    let values = chosen.set.values@;
    let offset = field.bit_offset as nat;
    let mask = mask_of(field.bit_width as nat);
    let name = enum_name(register, Side::Write, set_label(chosen.set, field, Side::Write));
    let proxy = field_proxy_name(register, field.name@);
    let target = write_proxy_name(register);
    let items = before.items.push(ItemView::FieldProxy { name: proxy, target }).push(
        ItemView::FieldProxyApi {
            name: proxy,
            target,
            ty,
            offset,
            mask,
            methods: proxy_methods(values),
        },
    );
    let members = documented.push(
        WriteMemberView::Proxy { name: sanitized_snake(field.name@), proxy },
    ).push(
        WriteMemberView::Bits {
            name: bits_setter_name(field.name@),
            ty,
            offset,
            mask,
            safe: covers(values, field.bit_width as nat),
        },
    ).push(
        WriteMemberView::Variant { name: enum_setter_name(field.name@), ty, offset, mask, enum_name: name },
    );
    match write_type_item(chosen, register, field, ty) {
        Some(item) => if before.registry.contains(name) {
            WriteState { items, members, registry: before.registry }
        } else {
            WriteState { items: items.push(item), members, registry: before.registry.push(name) }
        },
        None => WriteState { items, members, registry: before.registry },
    }
}

/// The write side with one more field taken into account. A field that is
/// passed over changes nothing. Generation fails where a chosen set holds a
/// value without a number.
pub open spec fn write_field(
    before: WriteState,
    register: Seq<char>,
    field: Field,
    fields: Seq<Field>,
    registers: Seq<Register>,
) -> Result<WriteState, GenError> {
    if passed_over(field, Side::Write) {
        Ok(before)
    } else {
        match storage_for(field.bit_width) {
            Err(e) => Err(e),
            Ok(ty) => match resolved_set(field, fields, registers, Side::Write) {
                Err(e) => Err(e),
                Ok(chosen) => {
                    let documented = match field_doc(field) {
                        Some(doc) => before.members.push(WriteMemberView::Doc(doc)),
                        None => before.members,
                    };
                    match chosen {
                        None => Ok(write_plain(before, documented, field, ty)),
                        Some(set) => if all_numbered(set.set.values@) {
                            Ok(write_enumerated(before, documented, set, register, field, ty))
                        } else {
                            Err(GenError::MissingValue)
                        },
                    }
                },
            },
        }
    }
}

/// The write side after the first `n` fields, taken in order.
pub open spec fn write_fields(
    start: WriteState,
    register: Seq<char>,
    fields: Seq<Field>,
    n: int,
    registers: Seq<Register>,
) -> Result<WriteState, GenError>
    decreases n,
{
    if n <= 0 {
        Ok(start)
    } else {
        match write_fields(start, register, fields, n - 1, registers) {
            Err(e) => Err(e),
            Ok(before) => write_field(before, register, fields[n - 1], fields, registers),
        }
    }
}

/// The write side before any field: the proxy type, and on the proxy the
/// constructor from the reset value where one is known.
pub open spec fn write_start(
    r: Register,
    defaults: Defaults,
    bits: BitsTy,
    registry: Seq<Seq<char>>,
) -> WriteState {
    WriteState {
        items: seq![ItemView::Proxy { name: write_proxy_name(type_name_of(r)), bits }],
        members: match resolved_reset(r.spec_info(), defaults) {
            Some(value) => seq![WriteMemberView::ResetValue(value as nat)],
            None => Seq::empty(),
        },
        registry,
    }
}

/// The items generated for the write side of a register, and the registry
/// after them: the proxy type, what the fields need in order, and last the
/// members of the proxy.
pub open spec fn write_items(
    r: Register,
    defaults: Defaults,
    fields: Seq<Field>,
    registers: Seq<Register>,
    registry: Seq<Seq<char>>,
) -> Result<(Seq<ItemView>, Seq<Seq<char>>), GenError> {
    match register_bits(r, defaults) {
        Err(e) => Err(e),
        Ok(bits) => {
            let register = type_name_of(r);
            match write_fields(
                write_start(r, defaults, bits, registry),
                register,
                fields,
                fields.len() as int,
                registers,
            ) {
                Err(e) => Err(e),
                Ok(end) => Ok(
                    (
                        end.items.push(
                            ItemView::WriteApi {
                                name: write_proxy_name(register),
                                members: end.members,
                            },
                        ),
                        end.registry,
                    ),
                ),
            }
        },
    }
}

fn every_code_declared(values: &Vec<EnumeratedValue>, width: u32) -> (r: bool)
    requires
        width <= 32,
    ensures
        r == covers(values@, width as nat),
{
    let count = count_codes(width);
    let mut code: u64 = 0;
    while code < count
        invariant
            code <= count,
            count == code_count(width as nat),
            forall|c: nat| c < code ==> #[trigger] declared_for(values@, c, 0) is Some,
        decreases count - code,
    {
        if find_declared(values, code).is_none() {
            assert(declared_for(values@, code as nat, 0) is None);
            return false;
        }
        code += 1;
    }
    true
}

fn make_methods(values: &Vec<EnumeratedValue>) -> (r: Option<(Vec<ProxyMethod>, Vec<WriteVariant>)>)
    ensures
        r is Some <==> all_numbered(values@),
        r matches Some((methods, variants)) ==> methods.deep_view() == proxy_methods(values@)
            && variants.deep_view() == write_variants(values@),
{
    let mut methods: Vec<ProxyMethod> = Vec::new();
    let mut variants: Vec<WriteVariant> = Vec::new();
    let mut i: usize = 0;
    while i < values.len()
        invariant
            i <= values.len(),
            methods@.len() == i,
            variants@.len() == i,
            forall|j: int| 0 <= j < i ==> (#[trigger] values@[j]).value is Some,
            forall|j: int|
                0 <= j < i ==> (#[trigger] methods@[j]).deep_view() == proxy_methods(values@)[j],
            forall|j: int|
                0 <= j < i ==> (#[trigger] variants@[j]).deep_view() == write_variants(values@)[j],
        decreases values.len() - i,
    {
        let value = match values[i].value {
            Some(value) => value,
            None => {
                return None;
            },
        };
        methods.push(
            ProxyMethod { name: to_sanitized_snake_case(values[i].name.as_str()), value },
        );
        variants.push(
            WriteVariant { name: to_sanitized_pascal_case(values[i].name.as_str()), value },
        );
        i += 1;
    }
    assert(methods.deep_view() =~= proxy_methods(values@));
    assert(variants.deep_view() =~= write_variants(values@));
    Some((methods, variants))
}

fn write_one<'a>(
    items: &mut Vec<Item>,
    members: &mut Vec<WriteMember>,
    registry: &mut Registry,
    register: &str,
    field: &'a Field,
    fields: &'a [Field],
    registers: &'a [Register],
) -> (r: Result<(), GenError>)
    ensures
        match (
            r,
            write_field(
                WriteState {
                    items: old(items).deep_view(),
                    members: old(members).deep_view(),
                    registry: old(registry)@,
                },
                register@,
                *field,
                fields@,
                registers@,
            ),
        ) {
            (Ok(_), Ok(after)) => {
                &&& final(items).deep_view() == after.items
                &&& final(members).deep_view() == after.members
                &&& final(registry)@ == after.registry
            },
            (Err(e), Err(f)) => e == f,
            _ => false,
        },
{
    if is_passed_over(field, Side::Write) {
        return Ok(());
    }
    let ty = match to_ty(field.bit_width) {
        Ok(ty) => ty,
        Err(e) => {
            return Err(e);
        },
    };
    let chosen = match resolve(field, fields, registers, Side::Write) {
        Ok(chosen) => chosen,
        Err(e) => {
            return Err(e);
        },
    };
    let name = to_sanitized_snake_case(field.name.as_str());
    let offset = field.bit_offset;
    let mask = field_mask(field.bit_width);
    match chosen {
        None => {
            match document_field(field) {
                Some(doc) => {
                    push_view(members, WriteMember::Doc(doc));
                },
                None => {},
            }
            if field.bit_width == 1 {
                push_view(members, WriteMember::Bit { name, offset });
            } else {
                push_view(members, WriteMember::Bits { name, ty, offset, mask, safe: true });
            }
        },
        Some(set) => {
            let (methods, variants) = match make_methods(&set.set.values) {
                Some(made) => made,
                None => {
                    return Err(GenError::MissingValue);
                },
            };
            match document_field(field) {
                Some(doc) => {
                    push_view(members, WriteMember::Doc(doc));
                },
                None => {},
            }
            proof {
                reveal_strlit("_");
                reveal_strlit("W");
                reveal_strlit("_bits");
                reveal_strlit("_enum");
            }
            let label = label_of(set.set, field, Side::Write);
            let enum_name = name_enum(register, Side::Write, label.as_str());
            let mut proxy = join3("_", register, "W");
            proxy.append(to_sanitized_pascal_case(field.name.as_str()).as_str());
            assert(proxy@ =~= field_proxy_name(register@, field.name@));
            let target = join2(register, "W");
            assert(target@ =~= write_proxy_name(register@));
            push_view(
                items,
                Item::FieldProxy {
                    name: proxy.as_str().to_owned(),
                    target: target.as_str().to_owned(),
                },
            );
            push_view(
                items,
                Item::FieldProxyApi {
                    name: proxy.as_str().to_owned(),
                    target,
                    ty,
                    offset,
                    mask,
                    methods,
                },
            );
            let safe = every_code_declared(&set.set.values, field.bit_width);
            if !registry.contains(enum_name.as_str()) {
                if !set.derived {
                    push_view(
                        items,
                        Item::WriteEnum { name: enum_name.as_str().to_owned(), ty, variants },
                    );
                    registry.insert(enum_name.as_str());
                } else {
                    match &set.base {
                        Some(base) => {
                            let origin = name_enum(
                                to_sanitized_pascal_case(base.as_str()).as_str(),
                                Side::Write,
                                label.as_str(),
                            );
                            push_view(
                                items,
                                Item::Alias { name: enum_name.as_str().to_owned(), origin },
                            );
                            registry.insert(enum_name.as_str());
                        },
                        None => {},
                    }
                }
            }
            let bits_name = join2(name.as_str(), "_bits");
            assert(bits_name@ =~= bits_setter_name(field.name@));
            let setter_name = join2(name.as_str(), "_enum");
            assert(setter_name@ =~= enum_setter_name(field.name@));
            push_view(members, WriteMember::Proxy { name, proxy });
            push_view(members, WriteMember::Bits { name: bits_name, ty, offset, mask, safe });
            push_view(
                members,
                WriteMember::Variant { name: setter_name, ty, offset, mask, enum_name },
            );
        },
    }
    Ok(())
}

/// Generates the write proxy of a register: the proxy type, for each field
/// with enumerated values its sub-proxy and enumerated type or alias, and
/// the setters.
///
/// `fields` are the fields of the register, `all_registers` the registers of
/// its peripheral. The names of the enumerated types and aliases given out
/// are added to `registry`; a name that it holds already is not given out
/// again. On an error the registry is left as it was.
pub fn gen_register_w<'a>(
    r: &'a Register,
    d: &Defaults,
    fields: &'a [Field],
    all_registers: &'a [Register],
    registry: &mut Registry,
) -> (out: Result<Vec<Item>, GenError>)
    ensures
        match (out, write_items(*r, *d, fields@, all_registers@, old(registry)@)) {
            (Ok(items), Ok((views, names))) => items.deep_view() == views && final(registry)@
                == names,
            (Err(e), Err(f)) => e == f && final(registry)@ == old(registry)@,
            _ => false,
        },
{
    let bits = match bits_of(r, d) {
        Ok(bits) => bits,
        Err(e) => {
            return Err(e);
        },
    };
    proof {
        reveal_strlit("W");
    }
    let register = type_of(r);
    let proxy = join2(register.as_str(), "W");
    assert(proxy@ =~= write_proxy_name(register@));
    let mut work = registry.duplicate();
    let mut items: Vec<Item> = Vec::new();
    let mut members: Vec<WriteMember> = Vec::new();
    push_view(&mut items, Item::Proxy { name: proxy.as_str().to_owned(), bits });
    match reset_of(r.info(), d) {
        Some(value) => {
            push_view(&mut members, WriteMember::ResetValue(value));
        },
        None => {},
    }
    let ghost start = write_start(*r, *d, bits, registry@);
    proof {
        assert(items.deep_view() =~= start.items);
        assert(members.deep_view() =~= start.members);
    }
    let mut i: usize = 0;
    while i < fields.len()
        invariant
            i <= fields.len(),
            *registry == *old(registry),
            register@ == type_name_of(*r),
            proxy@ == write_proxy_name(register@),
            register_bits(*r, *d) == Ok::<BitsTy, GenError>(bits),
            start == write_start(*r, *d, bits, old(registry)@),
            write_fields(start, register@, fields@, i as int, all_registers@) matches Ok(st)
                && st.items == items.deep_view() && st.members == members.deep_view()
                && st.registry == work@,
        decreases fields.len() - i,
    {
        match write_one(
            &mut items,
            &mut members,
            &mut work,
            register.as_str(),
            &fields[i],
            fields,
            all_registers,
        ) {
            Ok(_) => {},
            Err(e) => {
                proof {
                    assert(write_fields(start, register@, fields@, i + 1, all_registers@)
                        == Err::<WriteState, GenError>(e));
                    lemma_write_error_stays(
                        start,
                        register@,
                        fields@,
                        i + 1,
                        fields.len() as int,
                        all_registers@,
                    );
                }
                return Err(e);
            },
        }
        i += 1;
    }
    push_view(&mut items, Item::WriteApi { name: proxy, members });
    *registry = work;
    Ok(items)
}

proof fn lemma_write_error_stays(
    start: WriteState,
    register: Seq<char>,
    fields: Seq<Field>,
    n: int,
    m: int,
    registers: Seq<Register>,
)
    requires
        0 <= n <= m,
        write_fields(start, register, fields, n, registers) is Err,
    ensures
        write_fields(start, register, fields, m, registers) == write_fields(
            start,
            register,
            fields,
            n,
            registers,
        ),
    decreases m - n,
{
    if n < m {
        lemma_write_error_stays(start, register, fields, n, m - 1, registers);
    }
}

} // verus!
