//! The input tree: a peripheral, its registers, their fields and the
//! enumerated values of those fields.

use vstd::prelude::*;

verus! {

/// Hardware access permission of a register or field.
#[derive(Clone, Copy, Debug, PartialEq, Eq, Structural)]
pub enum Access {
    ReadOnly,
    ReadWrite,
    WriteOnly,
}

/// The view that a set of enumerated values is meant for.
#[derive(Clone, Copy, Debug, PartialEq, Eq, Structural)]
pub enum Usage {
    Read,
    Write,
    ReadWrite,
}

/// One symbolic value of a field.
#[derive(Debug, PartialEq, Eq)]
pub struct EnumeratedValue {
    pub name: String,
    pub description: Option<String>,
    pub value: Option<u32>,
}

/// A set of symbolic values of a field, possibly taken over from another set.
#[derive(Debug, PartialEq, Eq)]
pub struct EnumeratedValueSet {
    pub name: Option<String>,
    pub derived_from: Option<String>,
    pub usage: Option<Usage>,
    pub values: Vec<EnumeratedValue>,
}

/// A named bit range of a register.
#[derive(Debug, PartialEq, Eq)]
pub struct Field {
    pub name: String,
    pub description: Option<String>,
    pub bit_offset: u32,
    pub bit_width: u32,
    pub access: Option<Access>,
    pub enumerated_value_sets: Vec<EnumeratedValueSet>,
}

/// What is known of one register, or of each instance of a register array.
#[derive(Debug, PartialEq, Eq)]
pub struct RegisterInfo {
    pub name: String,
    pub description: Option<String>,
    pub address_offset: u32,
    pub size: Option<u32>,
    pub access: Option<Access>,
    pub reset_value: Option<u32>,
    pub fields: Option<Vec<Field>>,
}

/// How a register array repeats: the number of instances, the distance in
/// bytes between them, and the labels that name them.
#[derive(Debug, PartialEq, Eq)]
pub struct ArrayInfo {
    pub count: u32,
    pub increment: u32,
    pub index_labels: Option<Vec<String>>,
}

/// A register, or an array of registers of one shape.
#[derive(Debug, PartialEq, Eq)]
pub enum Register {
    Single(RegisterInfo),
    Array(RegisterInfo, ArrayInfo),
}

/// A peripheral: a named block of registers.
#[derive(Debug, PartialEq, Eq)]
pub struct Peripheral {
    pub name: String,
    pub description: Option<String>,
    pub derived_from: Option<String>,
    pub registers: Vec<Register>,
}

/// Values that hold for every register that does not state its own.
#[derive(Clone, Copy, Debug, PartialEq, Eq)]
pub struct Defaults {
    pub size: Option<u32>,
    pub reset_value: Option<u32>,
}

/// Why generation stopped.
#[derive(Clone, Copy, Debug, PartialEq, Eq, Structural)]
pub enum GenError {
    /// The peripheral still refers to another one that it derives from.
    UnresolvedDerivation,
    /// A register states no size and there is no default.
    MissingSize,
    /// A register or field is wider than 32 bits.
    WidthTooLarge,
    /// A register or field has no bits at all.
    ZeroWidth,
    /// A set of enumerated values derives from a register that is not there.
    BaseRegisterNotFound,
    /// A set of enumerated values derives from a register without fields.
    BaseFieldsNotFound,
    /// A set of enumerated values derives from a set that is not there.
    BaseSetNotFound,
    /// An enumerated value for writing states no number.
    MissingValue,
}

impl Register {
    /// The description shared by every instance of this register.
    pub open spec fn spec_info(&self) -> RegisterInfo {
        match *self {
            Register::Single(info) => info,
            Register::Array(info, _) => info,
        }
    }

    /// The description shared by every instance of this register.
    pub fn info(&self) -> (r: &RegisterInfo)
        ensures
            *r == self.spec_info(),
    {
        match self {
            Register::Single(info) => info,
            Register::Array(info, _) => info,
        }
    }
}

impl RegisterInfo {
    /// Whether the register is split into fields.
    pub open spec fn has_fields(&self) -> bool {
        self.fields is Some
    }

    /// The fields of the register; none where it is not split into fields.
    pub open spec fn field_seq(&self) -> Seq<Field> {
        match self.fields {
            Some(fields) => fields@,
            None => Seq::empty(),
        }
    }
}

/// The size in bits of a register: its own, else the default.
pub open spec fn resolved_size(info: RegisterInfo, defaults: Defaults) -> Option<u32> {
    match info.size {
        Some(size) => Some(size),
        None => defaults.size,
    }
}

/// The reset value of a register: its own, else the default.
pub open spec fn resolved_reset(info: RegisterInfo, defaults: Defaults) -> Option<u32> {
    match info.reset_value {
        Some(value) => Some(value),
        None => defaults.reset_value,
    }
}

/// The size in bits of a register: its own, else the default.
pub fn size_of(info: &RegisterInfo, defaults: &Defaults) -> (r: Option<u32>)
    ensures
        r == resolved_size(*info, *defaults),
{
    match info.size {
        Some(size) => Some(size),
        None => defaults.size,
    }
}

/// The reset value of a register: its own, else the default.
pub fn reset_of(info: &RegisterInfo, defaults: &Defaults) -> (r: Option<u32>)
    ensures
        r == resolved_reset(*info, *defaults),
{
    match info.reset_value {
        Some(value) => Some(value),
        None => defaults.reset_value,
    }
}

} // verus!
