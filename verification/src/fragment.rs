//! The fragments that generation hands out: an abstract description of the
//! types, aliases and operations to be written as source text.

use crate::model::Access;
use crate::width::BitsTy;
use vstd::prelude::*;

verus! {

/// One element of a peripheral's memory layout, in offset order.
#[derive(Debug, PartialEq, Eq)]
#[allow(inconsistent_fields)]
pub enum LayoutElement {
    /// Unused bytes between two registers.
    Padding { name: String, size: u128 },
    /// A register: a documented field of the layout.
    Register { doc: String, name: String, ty: String, offset: u128, size: u128 },
}

/// The mathematical content of a [`LayoutElement`].
#[allow(inconsistent_fields)]
pub enum LayoutElementView {
    Padding { name: Seq<char>, size: nat },
    Register { doc: Seq<char>, name: Seq<char>, ty: Seq<char>, offset: nat, size: nat },
}

/// An operation of a register's wrapper type.
#[derive(Clone, Copy, Debug, PartialEq, Eq, Structural)]
pub enum Operation {
    /// `read()`, returning the raw value.
    ReadValue,
    /// `read()`, returning the read proxy.
    ReadProxy,
    /// `read_bits()`, returning the raw value.
    ReadBits,
    /// `write(value)`, storing a raw value.
    WriteValue,
    /// `write(builder)`, storing what a builder makes of the reset value.
    WriteBuilder,
    /// `write_bits(value)`, storing a raw value unchecked.
    WriteBits,
    /// `modify(f)`: one read, then one write of what `f` makes of it.
    Modify,
    /// `modify_bits(f)`: one read, then one write, on the raw value.
    ModifyBits,
}

/// One variant of an enumerated type for reading.
#[derive(Debug, PartialEq, Eq)]
pub struct ReadVariant {
    pub name: String,
    pub doc: Option<String>,
    pub reserved: bool,
    pub value: u64,
    pub predicate: Option<String>,
}

/// The mathematical content of a [`ReadVariant`].
pub struct ReadVariantView {
    pub name: Seq<char>,
    pub doc: Option<Seq<char>>,
    pub reserved: bool,
    pub value: nat,
    pub predicate: Option<Seq<char>>,
}

/// One variant of an enumerated type for writing.
#[derive(Debug, PartialEq, Eq)]
pub struct WriteVariant {
    pub name: String,
    pub value: u32,
}

/// The mathematical content of a [`WriteVariant`].
pub struct WriteVariantView {
    pub name: Seq<char>,
    pub value: nat,
}

/// One method of a field's write sub-proxy: it stores one named value.
#[derive(Debug, PartialEq, Eq)]
pub struct ProxyMethod {
    pub name: String,
    pub value: u32,
}

/// The mathematical content of a [`ProxyMethod`].
pub struct ProxyMethodView {
    pub name: Seq<char>,
    pub value: nat,
}

/// One member of a read proxy.
#[derive(Debug, PartialEq, Eq)]
#[allow(inconsistent_fields)]
pub enum ReadMember {
    /// Documentation of the member that follows.
    Doc(String),
    /// A one-bit field, read as a boolean.
    Bit { name: String, offset: u32 },
    /// A field read as an integer.
    Bits { name: String, ty: BitsTy, offset: u32, mask: u64 },
    /// A field read as a value of an enumerated type.
    Variant { name: String, ty: BitsTy, offset: u32, mask: u64, enum_name: String },
}

/// The mathematical content of a [`ReadMember`].
#[allow(inconsistent_fields)]
pub enum ReadMemberView {
    Doc(Seq<char>),
    Bit { name: Seq<char>, offset: nat },
    Bits { name: Seq<char>, ty: BitsTy, offset: nat, mask: nat },
    Variant { name: Seq<char>, ty: BitsTy, offset: nat, mask: nat, enum_name: Seq<char> },
}

/// One member of a write proxy.
#[derive(Debug, PartialEq, Eq)]
#[allow(inconsistent_fields)]
pub enum WriteMember {
    /// Documentation of the member that follows.
    Doc(String),
    /// The constructor that starts from the reset value.
    ResetValue(u32),
    /// A one-bit field, set or cleared by a boolean.
    Bit { name: String, offset: u32 },
    /// A field written as an integer; `safe` where every code is defined.
    Bits { name: String, ty: BitsTy, offset: u32, mask: u64, safe: bool },
    /// A field written as a value of an enumerated type.
    Variant { name: String, ty: BitsTy, offset: u32, mask: u64, enum_name: String },
    /// The way into a field's sub-proxy.
    Proxy { name: String, proxy: String },
}

/// The mathematical content of a [`WriteMember`].
#[allow(inconsistent_fields)]
pub enum WriteMemberView {
    Doc(Seq<char>),
    ResetValue(nat),
    Bit { name: Seq<char>, offset: nat },
    Bits { name: Seq<char>, ty: BitsTy, offset: nat, mask: nat, safe: bool },
    Variant { name: Seq<char>, ty: BitsTy, offset: nat, mask: nat, enum_name: Seq<char> },
    Proxy { name: Seq<char>, proxy: Seq<char> },
}

/// One generated item.
#[derive(Debug, PartialEq, Eq)]
#[allow(inconsistent_fields)]
pub enum Item {
    /// Documentation of the item that follows.
    Doc(String),
    /// The memory layout of a peripheral.
    Block { name: String, elements: Vec<LayoutElement> },
    /// The wrapper type of a register.
    Register { name: String, access: Access, bits: BitsTy },
    /// The operations of a register's wrapper type.
    RegisterApi { name: String, ops: Vec<Operation> },
    /// A read or write proxy: a copy of a register's bits.
    Proxy { name: String, bits: BitsTy },
    /// An enumerated type for reading, with one variant for every code.
    ReadEnum { name: String, ty: BitsTy, variants: Vec<ReadVariant> },
    /// An enumerated type for writing.
    WriteEnum { name: String, ty: BitsTy, variants: Vec<WriteVariant> },
    /// Another name for an enumerated type defined elsewhere.
    Alias { name: String, origin: String },
    /// The members of a read proxy.
    ReadApi { name: String, members: Vec<ReadMember> },
    /// The members of a write proxy.
    WriteApi { name: String, members: Vec<WriteMember> },
    /// A field's write sub-proxy, which borrows the write proxy `target`.
    FieldProxy { name: String, target: String },
    /// The methods of a field's write sub-proxy.
    FieldProxyApi {
        name: String,
        target: String,
        ty: BitsTy,
        offset: u32,
        mask: u64,
        methods: Vec<ProxyMethod>,
    },
}

/// The mathematical content of an [`Item`].
#[allow(inconsistent_fields)]
pub enum ItemView {
    Doc(Seq<char>),
    Block { name: Seq<char>, elements: Seq<LayoutElementView> },
    Register { name: Seq<char>, access: Access, bits: BitsTy },
    RegisterApi { name: Seq<char>, ops: Seq<Operation> },
    Proxy { name: Seq<char>, bits: BitsTy },
    ReadEnum { name: Seq<char>, ty: BitsTy, variants: Seq<ReadVariantView> },
    WriteEnum { name: Seq<char>, ty: BitsTy, variants: Seq<WriteVariantView> },
    Alias { name: Seq<char>, origin: Seq<char> },
    ReadApi { name: Seq<char>, members: Seq<ReadMemberView> },
    WriteApi { name: Seq<char>, members: Seq<WriteMemberView> },
    FieldProxy { name: Seq<char>, target: Seq<char> },
    FieldProxyApi {
        name: Seq<char>,
        target: Seq<char>,
        ty: BitsTy,
        offset: nat,
        mask: nat,
        methods: Seq<ProxyMethodView>,
    },
}

impl DeepView for LayoutElement {
    type V = LayoutElementView;

    open spec fn deep_view(&self) -> LayoutElementView {
        match self {
            LayoutElement::Padding { name, size } => LayoutElementView::Padding {
                name: name@,
                size: *size as nat,
            },
            LayoutElement::Register { doc, name, ty, offset, size } => LayoutElementView::Register {
                doc: doc@,
                name: name@,
                ty: ty@,
                offset: *offset as nat,
                size: *size as nat,
            },
        }
    }
}

impl DeepView for ReadVariant {
    type V = ReadVariantView;

    open spec fn deep_view(&self) -> ReadVariantView {
        ReadVariantView {
            name: self.name@,
            doc: self.doc.deep_view(),
            reserved: self.reserved,
            value: self.value as nat,
            predicate: self.predicate.deep_view(),
        }
    }
}

impl DeepView for WriteVariant {
    type V = WriteVariantView;

    open spec fn deep_view(&self) -> WriteVariantView {
        WriteVariantView { name: self.name@, value: self.value as nat }
    }
}

impl DeepView for ProxyMethod {
    type V = ProxyMethodView;

    open spec fn deep_view(&self) -> ProxyMethodView {
        ProxyMethodView { name: self.name@, value: self.value as nat }
    }
}

impl DeepView for ReadMember {
    type V = ReadMemberView;

    open spec fn deep_view(&self) -> ReadMemberView {
        match self {
            ReadMember::Doc(text) => ReadMemberView::Doc(text@),
            ReadMember::Bit { name, offset } => ReadMemberView::Bit {
                name: name@,
                offset: *offset as nat,
            },
            ReadMember::Bits { name, ty, offset, mask } => ReadMemberView::Bits {
                name: name@,
                ty: *ty,
                offset: *offset as nat,
                mask: *mask as nat,
            },
            ReadMember::Variant { name, ty, offset, mask, enum_name } => ReadMemberView::Variant {
                name: name@,
                ty: *ty,
                offset: *offset as nat,
                mask: *mask as nat,
                enum_name: enum_name@,
            },
        }
    }
}

impl DeepView for WriteMember {
    type V = WriteMemberView;

    open spec fn deep_view(&self) -> WriteMemberView {
        match self {
            WriteMember::Doc(text) => WriteMemberView::Doc(text@),
            WriteMember::ResetValue(value) => WriteMemberView::ResetValue(*value as nat),
            WriteMember::Bit { name, offset } => WriteMemberView::Bit {
                name: name@,
                offset: *offset as nat,
            },
            WriteMember::Bits { name, ty, offset, mask, safe } => WriteMemberView::Bits {
                name: name@,
                ty: *ty,
                offset: *offset as nat,
                mask: *mask as nat,
                safe: *safe,
            },
            WriteMember::Variant { name, ty, offset, mask, enum_name } => WriteMemberView::Variant {
                name: name@,
                ty: *ty,
                offset: *offset as nat,
                mask: *mask as nat,
                enum_name: enum_name@,
            },
            WriteMember::Proxy { name, proxy } => WriteMemberView::Proxy {
                name: name@,
                proxy: proxy@,
            },
        }
    }
}

impl DeepView for Item {
    type V = ItemView;

    open spec fn deep_view(&self) -> ItemView {
        match self {
            Item::Doc(text) => ItemView::Doc(text@),
            Item::Block { name, elements } => ItemView::Block {
                name: name@,
                elements: elements.deep_view(),
            },
            Item::Register { name, access, bits } => ItemView::Register {
                name: name@,
                access: *access,
                bits: *bits,
            },
            Item::RegisterApi { name, ops } => ItemView::RegisterApi { name: name@, ops: ops@ },
            Item::Proxy { name, bits } => ItemView::Proxy { name: name@, bits: *bits },
            Item::ReadEnum { name, ty, variants } => ItemView::ReadEnum {
                name: name@,
                ty: *ty,
                variants: variants.deep_view(),
            },
            Item::WriteEnum { name, ty, variants } => ItemView::WriteEnum {
                name: name@,
                ty: *ty,
                variants: variants.deep_view(),
            },
            Item::Alias { name, origin } => ItemView::Alias { name: name@, origin: origin@ },
            Item::ReadApi { name, members } => ItemView::ReadApi {
                name: name@,
                members: members.deep_view(),
            },
            Item::WriteApi { name, members } => ItemView::WriteApi {
                name: name@,
                members: members.deep_view(),
            },
            Item::FieldProxy { name, target } => ItemView::FieldProxy {
                name: name@,
                target: target@,
            },
            Item::FieldProxyApi { name, target, ty, offset, mask, methods } => {
                ItemView::FieldProxyApi {
                    name: name@,
                    target: target@,
                    ty: *ty,
                    offset: *offset as nat,
                    mask: *mask as nat,
                    methods: methods.deep_view(),
                }
            },
        }
    }
}

} // verus!
