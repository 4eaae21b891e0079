//! What the read and the write side of a register share: the mask and the
//! documentation of a field, the names of its enumerated types, and the
//! registry of the type names that were given out.

use crate::model::{Access, EnumeratedValue, EnumeratedValueSet, Field};
use crate::resolve::Side;
use crate::text::{
    decimal,
    decimal_text,
    inflect_pascal,
    is_reserved,
    is_reserved_name,
    join2,
    pascal_case,
    respace,
    respaced,
    same_text,
    sanitized_pascal,
    to_sanitized_pascal_case,
};
use vstd::arithmetic::power2::{lemma2_to64, lemma_pow2_strictly_increases, pow2};
use vstd::bits::lemma_u64_shl_is_mul;
use vstd::prelude::*;

verus! {

/// The number of codes that a field of `width` bits can hold.
pub open spec fn code_count(width: nat) -> nat {
    pow2(width)
}

/// The mask of a field of `width` bits, before it is shifted into place.
pub open spec fn mask_of(width: nat) -> nat {
    (pow2(width) - 1) as nat
}

/// A width of at most 32 bits has fewer than 2^33 codes.
pub proof fn lemma_code_count_bound(width: nat)
    requires
        width <= 32,
    ensures
        0 < code_count(width) <= 0x1_0000_0000,
{
    lemma2_to64();
    if width < 32 {
        lemma_pow2_strictly_increases(width, 32);
    }
    vstd::arithmetic::power2::lemma_pow2_pos(width);
}

/// Counts the codes of a field.
pub(crate) fn count_codes(width: u32) -> (n: u64)
    requires
        width <= 32,
    ensures
        n == code_count(width as nat),
{
    proof {
        lemma_code_count_bound(width as nat);
        lemma_u64_shl_is_mul(1, width as u64);
    }
    1u64 << (width as u64)
}

/// Computes the mask of a field.
pub(crate) fn field_mask(width: u32) -> (m: u64)
    requires
        width <= 32,
    ensures
        m == mask_of(width as nat),
{
    proof {
        lemma_code_count_bound(width as nat);
    }
    count_codes(width) - 1
}

/// The bits that a field covers, as its documentation names them.
pub open spec fn bits_text(offset: nat, width: nat) -> Seq<char> {
    if width == 1 {
        seq!['B', 'i', 't', ' '] + decimal_text(offset)
    } else {
        seq!['B', 'i', 't', 's', ' '] + decimal_text(offset) + seq![':'] + decimal_text(
            (offset + width - 1) as nat,
        )
    }
}

/// The documentation of a field: the bits it covers and its description.
pub open spec fn field_doc(field: Field) -> Option<Seq<char>> {
    match field.description {
        Some(text) => Some(
            bits_text(field.bit_offset as nat, field.bit_width as nat) + seq![' ', '-', ' ']
                + respaced(text@),
        ),
        None => None,
    }
}

/// Writes the documentation of a field, where it has a description.
pub(crate) fn document_field(field: &Field) -> (doc: Option<String>)
    requires
        field.bit_width > 0,
    ensures
        doc.deep_view() == field_doc(*field),
{
    match &field.description {
        None => None,
        Some(text) => {
            proof {
                reveal_strlit("Bit ");
                reveal_strlit("Bits ");
                reveal_strlit(":");
                reveal_strlit(" - ");
            }
            let low = decimal(field.bit_offset as u128);
            let mut doc = if field.bit_width == 1 {
                join2("Bit ", low.as_str())
            } else {
                let high = decimal(field.bit_offset as u128 + field.bit_width as u128 - 1);
                let mut range = join2("Bits ", low.as_str());
                range.append(":");
                range.append(high.as_str());
                range
            };
            assert(doc@ =~= bits_text(field.bit_offset as nat, field.bit_width as nat));
            doc.append(" - ");
            doc.append(respace(text.as_str()).as_str());
            assert(doc@ =~= field_doc(*field)->Some_0);
            Some(doc)
        },
    }
}

/// Whether a field is passed over on one side: a field whose name marks it as
/// reserved on both, a write-only field on the read side, a read-only field
/// on the write side.
pub open spec fn passed_over(field: Field, side: Side) -> bool {
    is_reserved_name(field.name@) || match side {
        Side::Read => field.access == Some(Access::WriteOnly),
        Side::Write => field.access == Some(Access::ReadOnly),
    }
}

/// Decides whether a field is passed over on one side.
pub fn is_passed_over(field: &Field, side: Side) -> (r: bool)
    ensures
        r == passed_over(*field, side),
{
    if is_reserved(field.name.as_str()) {
        return true;
    }
    match (side, &field.access) {
        (Side::Read, Some(Access::WriteOnly)) => true,
        (Side::Write, Some(Access::ReadOnly)) => true,
        _ => false,
    }
}

/// The letter that marks a view in the names of its types.
pub open spec fn side_letter(side: Side) -> char {
    match side {
        Side::Read => 'R',
        Side::Write => 'W',
    }
}

/// The part that a set of enumerated values gives to the name of its type:
/// its own name, else the name of the field, in pascal case. On the write
/// side the name is sanitized as well.
pub open spec fn set_label(set: EnumeratedValueSet, field: Field, side: Side) -> Seq<char> {
    let source = match set.name {
        Some(name) => name@,
        None => field.name@,
    };
    match side {
        Side::Read => pascal_case(source),
        Side::Write => sanitized_pascal(source),
    }
}

/// The name of an enumerated type: that of the register's type, the letter
/// of the view, and the label of the set.
pub open spec fn enum_name(register: Seq<char>, side: Side, label: Seq<char>) -> Seq<char> {
    register + seq![side_letter(side)] + label
}

/// The name of the enumerated type that an alias stands for: as
/// [`enum_name`], under the type of the register that defines it.
pub open spec fn origin_name(base: Seq<char>, side: Side, label: Seq<char>) -> Seq<char> {
    enum_name(sanitized_pascal(base), side, label)
}

/// Computes the label of a set.
pub fn label_of(set: &EnumeratedValueSet, field: &Field, side: Side) -> (label: String)
    ensures
        label@ == set_label(*set, *field, side),
{
    let source = match &set.name {
        Some(name) => name.as_str(),
        None => field.name.as_str(),
    };
    match side {
        Side::Read => inflect_pascal(source),
        Side::Write => to_sanitized_pascal_case(source),
    }
}

/// Composes the name of an enumerated type.
pub fn name_enum(register: &str, side: Side, label: &str) -> (name: String)
    ensures
        name@ == enum_name(register@, side, label@),
{
    proof {
        reveal_strlit("R");
        reveal_strlit("W");
    }
    let letter = match side {
        Side::Read => "R",
        Side::Write => "W",
    };
    let mut name = join2(register, letter);
    name.append(label);
    assert(name@ =~= enum_name(register@, side, label@));
    name
}

/// The names of the enumerated types and aliases given out so far, in the
/// order in which they were given out.
#[derive(Debug, PartialEq, Eq)]
pub struct Registry {
    pub names: Vec<String>,
}

impl View for Registry {
    type V = Seq<Seq<char>>;

    open spec fn view(&self) -> Seq<Seq<char>> {
        self.names.deep_view()
    }
}

impl Registry {
    /// A registry that holds no name.
    pub fn new() -> (r: Registry)
        ensures
            r@ == Seq::<Seq<char>>::empty(),
    {
        let r = Registry { names: Vec::new() };
        assert(r@ =~= Seq::<Seq<char>>::empty());
        r
    }

    /// Whether `name` was given out.
    pub fn contains(&self, name: &str) -> (r: bool)
        ensures
            r == self@.contains(name@),
    {
        let mut i: usize = 0;
        while i < self.names.len()
            invariant
                i <= self.names.len(),
                forall|j: int| 0 <= j < i ==> self@[j] != name@,
            decreases self.names.len() - i,
        {
            if same_text(self.names[i].as_str(), name) {
                assert(self@[i as int] == name@);
                return true;
            }
            i += 1;
        }
        false
    }

    /// A registry that holds the same names.
    pub fn duplicate(&self) -> (r: Registry)
        ensures
            r@ == self@,
    {
        let mut r = Registry { names: Vec::new() };
        let mut i: usize = 0;
        assert(r@ =~= self@.take(0));
        while i < self.names.len()
            invariant
                i <= self.names.len(),
                r@ == self@.take(i as int),
            decreases self.names.len() - i,
        {
            let ghost before = r@;
            let name = self.names[i].as_str().to_owned();
            r.names.push(name);
            assert(r@ =~= before.push(self@[i as int]));
            assert(self@.take(i + 1) =~= self@.take(i as int).push(self@[i as int]));
            i += 1;
        }
        assert(self@.take(self.names.len() as int) =~= self@);
        r
    }

    /// Records that `name` was given out.
    pub fn insert(&mut self, name: &str)
        ensures
            final(self)@ == old(self)@.push(name@),
    {
        self.names.push(name.to_owned());
        assert(self@ =~= old(self)@.push(name@));
    }
}


/// The first value at or after `from` that is declared for `code`.
pub open spec fn declared_for(values: Seq<EnumeratedValue>, code: nat, from: int) -> Option<
    EnumeratedValue,
>
    decreases values.len() - from,
{
    if from < 0 || from >= values.len() {
        None
    } else if values[from].value matches Some(v) && v == code {
        Some(values[from])
    } else {
        declared_for(values, code, from + 1)
    }
}

/// Finds the first value that is declared for `code`.
pub(crate) fn find_declared<'a>(values: &'a Vec<EnumeratedValue>, code: u64) -> (r: Option<
    &'a EnumeratedValue,
>)
    ensures
        match (r, declared_for(values@, code as nat, 0)) {
            (Some(found), Some(value)) => *found == value,
            (None, None) => true,
            _ => false,
        },
{
    let mut i: usize = 0;
    while i < values.len()
        invariant
            i <= values.len(),
            declared_for(values@, code as nat, i as int) == declared_for(values@, code as nat, 0),
        decreases values.len() - i,
    {
        match values[i].value {
            Some(v) => {
                if v as u64 == code {
                    return Some(&values[i]);
                }
            },
            None => {},
        }
        i += 1;
    }
    None
}

} // verus!
