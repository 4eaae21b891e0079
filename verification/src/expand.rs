//! Expansion of register arrays into single registers, ordered by offset.

use crate::model::{ArrayInfo, Register, RegisterInfo};
use crate::text::{
    decimal,
    decimal_text,
    fill_placeholder,
    sanitized_pascal,
    sanitized_snake,
    to_sanitized_pascal_case,
    to_sanitized_snake_case,
    with_placeholder,
};
use std::rc::Rc;
use vstd::prelude::*;

verus! {

/// The name of a register's generated type: held by the one register that has
/// it, or one handle shared by every instance of an array.
#[derive(Debug, PartialEq, Eq)]
pub enum TypeName {
    Owned(String),
    Shared(Rc<String>),
}

/// One register at one offset: a single register, or one instance of an array.
#[derive(Debug, PartialEq, Eq)]
pub struct ExpandedRegister<'a> {
    pub info: &'a RegisterInfo,
    pub name: String,
    pub offset: u128,
    pub ty: TypeName,
}

/// The mathematical content of an [`ExpandedRegister`].
pub struct ExpandedView {
    pub info: RegisterInfo,
    pub name: Seq<char>,
    pub offset: nat,
    pub ty: Seq<char>,
    pub shared: bool,
}

impl TypeName {
    /// The characters of the name.
    pub open spec fn text(&self) -> Seq<char> {
        match self {
            TypeName::Owned(s) => s@,
            TypeName::Shared(s) => s@,
        }
    }

    /// The name as text.
    pub fn as_str(&self) -> (r: &str)
        ensures
            r@ == self.text(),
    {
        match self {
            TypeName::Owned(s) => s.as_str(),
            TypeName::Shared(s) => s.as_str(),
        }
    }
}

impl<'a> DeepView for ExpandedRegister<'a> {
    type V = ExpandedView;

    open spec fn deep_view(&self) -> ExpandedView {
        ExpandedView {
            info: *self.info,
            name: self.name@,
            offset: self.offset as nat,
            ty: self.ty.text(),
            shared: self.ty is Shared,
        }
    }
}

/// Calls `Rc::clone`, which returns another handle to the same value.
#[verifier::external_body]
fn share(handle: &Rc<String>) -> (r: Rc<String>)
    ensures
        r == *handle,
{
    Rc::clone(handle)
}

/// The name of the type generated for a register: its name in pascal case,
/// for an array without the repetition placeholder.
pub open spec fn type_name_of(r: Register) -> Seq<char> {
    match r {
        Register::Single(info) => sanitized_pascal(info.name@),
        Register::Array(info, _) => sanitized_pascal(with_placeholder(info.name@, Seq::empty())),
    }
}

/// The labels of the instances of an array: those it lists, else the numbers
/// from zero up to its count in decimal.
pub open spec fn labels_of(array: ArrayInfo) -> Seq<Seq<char>> {
    match array.index_labels {
        Some(labels) => labels.deep_view(),
        None => Seq::new(array.count as nat, |i: int| decimal_text(i as nat)),
    }
}

/// The instance of an array that stands at position `i` under `label`.
pub open spec fn instance_of(
    info: RegisterInfo,
    array: ArrayInfo,
    i: int,
    label: Seq<char>,
) -> ExpandedView {
    ExpandedView {
        info,
        name: sanitized_snake(with_placeholder(info.name@, label)),
        offset: (info.address_offset + i * array.increment) as nat,
        ty: sanitized_pascal(with_placeholder(info.name@, Seq::empty())),
        shared: true,
    }
}

/// The registers that one declared register stands for, in the order of
/// their labels.
pub open spec fn instances_of(r: Register) -> Seq<ExpandedView> {
    match r {
        Register::Single(info) => seq![
            ExpandedView {
                info,
                name: sanitized_snake(info.name@),
                offset: info.address_offset as nat,
                ty: sanitized_pascal(info.name@),
                shared: false,
            },
        ],
        Register::Array(info, array) => Seq::new(
            labels_of(array).len(),
            |i: int| instance_of(info, array, i, labels_of(array)[i]),
        ),
    }
}

/// The registers that a list of declared registers stands for, in the order
/// of declaration.
pub open spec fn all_instances(registers: Seq<Register>) -> Seq<ExpandedView>
    decreases registers.len(),
{
    if registers.len() == 0 {
        Seq::empty()
    } else {
        all_instances(registers.drop_last()) + instances_of(registers.last())
    }
}

/// Where a register at `offset` joins a list: behind every register that the
/// scan from the end finds at that offset or below.
pub open spec fn insertion_point(s: Seq<ExpandedView>, offset: nat) -> int
    decreases s.len(),
{
    if s.len() == 0 {
        0
    } else if s.last().offset <= offset {
        s.len() as int
    } else {
        insertion_point(s.drop_last(), offset)
    }
}

/// The list ordered by ascending offset; registers at one offset keep the
/// order they had.
pub open spec fn sorted_by_offset(s: Seq<ExpandedView>) -> Seq<ExpandedView>
    decreases s.len(),
{
    if s.len() == 0 {
        s
    } else {
        let front = sorted_by_offset(s.drop_last());
        front.insert(insertion_point(front, s.last().offset), s.last())
    }
}

/// The expansion of a list of declared registers.
pub open spec fn expanded(registers: Seq<Register>) -> Seq<ExpandedView> {
    sorted_by_offset(all_instances(registers))
}

/// Whether the offsets of a list never fall.
pub open spec fn ascending(s: Seq<ExpandedView>) -> bool {
    forall|i: int, j: int| 0 <= i <= j < s.len() ==> s[i].offset <= s[j].offset
}

proof fn lemma_insertion_point(s: Seq<ExpandedView>, offset: nat)
    ensures
        0 <= insertion_point(s, offset) <= s.len(),
        forall|j: int| insertion_point(s, offset) <= j < s.len() ==> s[j].offset > offset,
        insertion_point(s, offset) > 0 ==> s[insertion_point(s, offset) - 1].offset <= offset,
    decreases s.len(),
{
    if s.len() > 0 && s.last().offset > offset {
        let front = s.drop_last();
        lemma_insertion_point(front, offset);
        let p = insertion_point(s, offset);
        assert forall|j: int| p <= j < s.len() implies s[j].offset > offset by {
            if j < front.len() {
                assert(s[j] == front[j]);
            }
        }
        if p > 0 {
            assert(s[p - 1] == front[p - 1]);
        }
    }
}

/// An expansion is in ascending order of offset.
pub proof fn lemma_sorted_ascending(s: Seq<ExpandedView>)
    ensures
        ascending(sorted_by_offset(s)),
        sorted_by_offset(s).len() == s.len(),
    decreases s.len(),
{
    if s.len() > 0 {
        let front = sorted_by_offset(s.drop_last());
        let x = s.last();
        let p = insertion_point(front, x.offset);
        lemma_sorted_ascending(s.drop_last());
        lemma_insertion_point(front, x.offset);
        let out = front.insert(p, x);
        assert forall|i: int, j: int| 0 <= i <= j < out.len() implies out[i].offset
            <= out[j].offset by {
            if i < p && j < p {
                assert(out[i] == front[i] && out[j] == front[j]);
            } else if i < p && j == p {
                assert(out[i] == front[i]);
                assert(front[i].offset <= front[p - 1].offset);
            } else if i < p && j > p {
                assert(out[i] == front[i] && out[j] == front[j - 1]);
            } else if i == p && j > p {
                assert(out[j] == front[j - 1]);
            } else if i > p {
                assert(out[i] == front[i - 1] && out[j] == front[j - 1]);
            }
        }
    }
}


/// The registers of a list that stand at `offset`, in the order of the list.
pub open spec fn at_offset(s: Seq<ExpandedView>, offset: nat) -> Seq<ExpandedView>
    decreases s.len(),
{
    if s.len() == 0 {
        s
    } else if s.last().offset == offset {
        at_offset(s.drop_last(), offset).push(s.last())
    } else {
        at_offset(s.drop_last(), offset)
    }
}

proof fn lemma_insert_at_offset(s: Seq<ExpandedView>, p: int, x: ExpandedView, offset: nat)
    requires
        0 <= p <= s.len(),
        forall|j: int| p <= j < s.len() ==> s[j].offset != x.offset,
    ensures
        at_offset(s.insert(p, x), offset) == if x.offset == offset {
            at_offset(s, offset).push(x)
        } else {
            at_offset(s, offset)
        },
    decreases s.len() - p,
{
    let out = s.insert(p, x);
    if p == s.len() {
        assert(out.drop_last() =~= s);
        assert(out.last() == x);
    } else {
        assert(out.last() == s.last());
        assert(out.drop_last() =~= s.drop_last().insert(p, x));
        lemma_insert_at_offset(s.drop_last(), p, x, offset);
    }
}

/// Expansion neither loses nor invents a register, and it is stable: at each
/// offset the ordered list holds the same registers as the list it was made
/// from, in the same order.
pub proof fn lemma_sort_is_stable(s: Seq<ExpandedView>, offset: nat)
    ensures
        at_offset(sorted_by_offset(s), offset) == at_offset(s, offset),
    decreases s.len(),
{
    if s.len() > 0 {
        let front = sorted_by_offset(s.drop_last());
        let x = s.last();
        lemma_sort_is_stable(s.drop_last(), offset);
        lemma_insertion_point(front, x.offset);
        lemma_insert_at_offset(front, insertion_point(front, x.offset), x, offset);
    }
}

proof fn lemma_sorted_push(s: Seq<ExpandedView>, x: ExpandedView)
    ensures
        sorted_by_offset(s.push(x)) == sorted_by_offset(s).insert(
            insertion_point(sorted_by_offset(s), x.offset),
            x,
        ),
{
    assert(s.push(x).drop_last() =~= s);
}

fn insert_sorted<'a>(out: &mut Vec<ExpandedRegister<'a>>, x: ExpandedRegister<'a>)
    ensures
        final(out).deep_view() == old(out).deep_view().insert(
            insertion_point(old(out).deep_view(), x.deep_view().offset),
            x.deep_view(),
        ),
{
    let ghost s = out.deep_view();
    let ghost offset = x.offset as nat;
    let mut p = out.len();
    assert(s.take(p as int) =~= s);
    while p > 0 && out[p - 1].offset > x.offset
        invariant
            p <= out.len(),
            s == out.deep_view(),
            offset == x.offset,
            insertion_point(s, offset) == insertion_point(s.take(p as int), offset),
        decreases p,
    {
        assert(s.take(p as int).last() == s[p - 1]);
        assert(s.take(p as int).drop_last() =~= s.take(p - 1));
        p -= 1;
    }
    proof {
        if p > 0 {
            assert(s.take(p as int).last() == s[p - 1]);
        }
        assert(insertion_point(s, offset) == p);
    }
    out.insert(p, x);
    assert(out.deep_view() =~= s.insert(p as int, x.deep_view()));
}

/// The name of the type generated for a register.
pub fn type_of(r: &Register) -> (ty: String)
    ensures
        ty@ == type_name_of(*r),
{
    match r {
        Register::Single(info) => to_sanitized_pascal_case(info.name.as_str()),
        Register::Array(info, _) => {
            proof {
                reveal_strlit("");
                assert(""@ =~= Seq::<char>::empty());
            }
            let bare = fill_placeholder(info.name.as_str(), "");
            to_sanitized_pascal_case(bare.as_str())
        },
    }
}

proof fn lemma_offset_fits(base: u32, i: usize, increment: u32)
    ensures
        base + i * increment <= u128::MAX,
        i * increment >= 0,
{
    assert(i * increment <= 0xffff_ffff_ffff_ffff * 0xffff_ffff) by (nonlinear_arith)
        requires
            0 <= i <= 0xffff_ffff_ffff_ffff,
            0 <= increment <= 0xffff_ffff,
    ;
    assert(i * increment >= 0) by (nonlinear_arith)
        requires
            0 <= i,
            0 <= increment,
    ;
}

fn expand_array<'a>(
    out: &mut Vec<ExpandedRegister<'a>>,
    info: &'a RegisterInfo,
    array: &ArrayInfo,
    Ghost(before): Ghost<Seq<ExpandedView>>,
)
    requires
        old(out).deep_view() == sorted_by_offset(before),
    ensures
        final(out).deep_view() == sorted_by_offset(
            before + instances_of(Register::Array(*info, *array)),
        ),
{
    proof {
        reveal_strlit("");
        assert(""@ =~= Seq::<char>::empty());
    }
    let ghost all = instances_of(Register::Array(*info, *array));
    let bare = fill_placeholder(info.name.as_str(), "");
    let ty = Rc::new(to_sanitized_pascal_case(bare.as_str()));
    let n: usize = match &array.index_labels {
        Some(labels) => labels.len(),
        None => array.count as usize,
    };
    let mut i: usize = 0;
    assert(before + all.take(0) =~= before);
    while i < n
        invariant
            i <= n,
            n == labels_of(*array).len(),
            all == instances_of(Register::Array(*info, *array)),
            all.len() == n,
            ty@ == sanitized_pascal(with_placeholder(info.name@, Seq::empty())),
            out.deep_view() == sorted_by_offset(before + all.take(i as int)),
        decreases n - i,
    {
        let label = match &array.index_labels {
            Some(labels) => labels[i].as_str().to_owned(),
            None => decimal(i as u128),
        };
        assert(label@ == labels_of(*array)[i as int]);
        let filled = fill_placeholder(info.name.as_str(), label.as_str());
        proof {
            lemma_offset_fits(info.address_offset, i, array.increment);
        }
        let offset = info.address_offset as u128 + (i as u128) * (array.increment as u128);
        let x = ExpandedRegister {
            info,
            name: to_sanitized_snake_case(filled.as_str()),
            offset,
            ty: TypeName::Shared(share(&ty)),
        };
        proof {
            assert(x.deep_view() == all[i as int]);
            assert(before + all.take(i + 1) =~= (before + all.take(i as int)).push(all[i as int]));
            lemma_sorted_push(before + all.take(i as int), all[i as int]);
        }
        insert_sorted(out, x);
        i += 1;
    }
    assert(all.take(n as int) =~= all);
}

/// Turns a list of declared registers, some of them arrays, into the list of
/// single registers they stand for, ordered by ascending offset. Registers at
/// one offset keep the order of their declaration.
pub fn expand<'a>(registers: &'a [Register]) -> (out: Vec<ExpandedRegister<'a>>)
    ensures
        out.deep_view() == expanded(registers@),
        ascending(out.deep_view()),
{
    let mut out: Vec<ExpandedRegister<'a>> = Vec::new();
    let mut k: usize = 0;
    proof {
        assert(registers@.take(0) =~= Seq::<Register>::empty());
        assert(out.deep_view() =~= Seq::<ExpandedView>::empty());
    }
    while k < registers.len()
        invariant
            k <= registers.len(),
            out.deep_view() == expanded(registers@.take(k as int)),
        decreases registers.len() - k,
    {
        let ghost before = all_instances(registers@.take(k as int));
        proof {
            assert(registers@.take(k + 1).drop_last() =~= registers@.take(k as int));
            assert(registers@.take(k + 1).last() == registers@[k as int]);
        }
        match &registers[k] {
            Register::Single(info) => {
                let x = ExpandedRegister {
                    info,
                    name: to_sanitized_snake_case(info.name.as_str()),
                    offset: info.address_offset as u128,
                    ty: TypeName::Owned(to_sanitized_pascal_case(info.name.as_str())),
                };
                proof {
                    assert(before + instances_of(registers@[k as int]) =~= before.push(
                        x.deep_view(),
                    ));
                    lemma_sorted_push(before, x.deep_view());
                }
                insert_sorted(&mut out, x);
            },
            Register::Array(info, array) => {
                expand_array(&mut out, info, array, Ghost(before));
            },
        }
        k += 1;
    }
    proof {
        assert(registers@.take(k as int) =~= registers@);
        lemma_sorted_ascending(all_instances(registers@));
    }
    out
}

} // verus!
