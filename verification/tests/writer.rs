use svd2rust::field::Registry;
use svd2rust::fragment::{Item, ProxyMethod, WriteMember, WriteVariant};
use svd2rust::model::{
    Access, Defaults, EnumeratedValue, EnumeratedValueSet, Field, GenError, Register,
    RegisterInfo, Usage,
};
use svd2rust::width::BitsTy;
use svd2rust::writer::gen_register_w;

const NO_DEFAULTS: Defaults = Defaults { size: None, reset_value: None };

fn value(name: &str, value: Option<u32>) -> EnumeratedValue {
    EnumeratedValue { name: name.to_string(), description: None, value }
}

fn set(
    name: Option<&str>,
    derived_from: Option<&str>,
    usage: Option<Usage>,
    values: Vec<EnumeratedValue>,
) -> EnumeratedValueSet {
    EnumeratedValueSet {
        name: name.map(|n| n.to_string()),
        derived_from: derived_from.map(|n| n.to_string()),
        usage,
        values,
    }
}

fn field(name: &str, offset: u32, width: u32, sets: Vec<EnumeratedValueSet>) -> Field {
    Field {
        name: name.to_string(),
        description: None,
        bit_offset: offset,
        bit_width: width,
        access: None,
        enumerated_value_sets: sets,
    }
}

fn register(name: &str, reset: Option<u32>, fields: Vec<Field>) -> Register {
    Register::Single(RegisterInfo {
        name: name.to_string(),
        description: None,
        address_offset: 0,
        size: Some(16),
        access: None,
        reset_value: reset,
        fields: Some(fields),
    })
}

fn run(r: &Register, all: &[Register], registry: &mut Registry) -> Result<Vec<Item>, GenError> {
    let fields = r.info().fields.as_ref().unwrap();
    gen_register_w(r, &NO_DEFAULTS, fields, all, registry)
}

fn names(registry: &Registry) -> Vec<&str> {
    registry.names.iter().map(|n| n.as_str()).collect()
}

fn method(name: &str, value: u32) -> ProxyMethod {
    ProxyMethod { name: name.to_string(), value }
}

fn variant(name: &str, value: u32) -> WriteVariant {
    WriteVariant { name: name.to_string(), value }
}

#[test]
fn plain_fields_are_written_as_booleans_and_integers() {
    let mut en = field("EN", 3, 1, vec![]);
    en.description = Some("Enable".to_string());
    let div = field("DIV", 4, 9, vec![]);
    let r = register("CR1", Some(0x00ff), vec![en, div]);
    let mut registry = Registry::new();
    assert_eq!(
        run(&r, &[], &mut registry),
        Ok(vec![
            Item::Proxy { name: "Cr1W".to_string(), bits: BitsTy::U16 },
            Item::WriteApi {
                name: "Cr1W".to_string(),
                members: vec![
                    WriteMember::ResetValue(0x00ff),
                    WriteMember::Doc("Bit 3 - Enable".to_string()),
                    WriteMember::Bit { name: "en".to_string(), offset: 3 },
                    WriteMember::Bits {
                        name: "div".to_string(),
                        ty: BitsTy::U16,
                        offset: 4,
                        mask: 0x1ff,
                        safe: true,
                    },
                ],
            },
        ])
    );
}

#[test]
fn reset_value_comes_from_the_defaults() {
    let r = register("CR", None, vec![]);
    let defaults = Defaults { size: None, reset_value: Some(7) };
    let mut registry = Registry::new();
    assert_eq!(
        gen_register_w(&r, &defaults, &[], &[], &mut registry),
        Ok(vec![
            Item::Proxy { name: "CrW".to_string(), bits: BitsTy::U16 },
            Item::WriteApi { name: "CrW".to_string(), members: vec![WriteMember::ResetValue(7)] },
        ])
    );
    assert_eq!(
        run(&r, &[], &mut registry),
        Ok(vec![
            Item::Proxy { name: "CrW".to_string(), bits: BitsTy::U16 },
            Item::WriteApi { name: "CrW".to_string(), members: vec![] },
        ])
    );
}

#[test]
fn enumerated_field_gets_a_sub_proxy() {
    let mut mode = field(
        "MODE",
        4,
        2,
        vec![set(Some("mode_sel"), None, None, vec![value("FAST", Some(3)), value("match", Some(0))])],
    );
    mode.description = Some("Mode".to_string());
    let r = register("CR", None, vec![mode]);
    let mut registry = Registry::new();
    assert_eq!(
        run(&r, &[], &mut registry),
        Ok(vec![
            Item::Proxy { name: "CrW".to_string(), bits: BitsTy::U16 },
            Item::FieldProxy { name: "_CrWMode".to_string(), target: "CrW".to_string() },
            Item::FieldProxyApi {
                name: "_CrWMode".to_string(),
                target: "CrW".to_string(),
                ty: BitsTy::U8,
                offset: 4,
                mask: 3,
                methods: vec![method("fast", 3), method("match_", 0)],
            },
            Item::WriteEnum {
                name: "CrWModeSel".to_string(),
                ty: BitsTy::U8,
                variants: vec![variant("Fast", 3), variant("Match", 0)],
            },
            Item::WriteApi {
                name: "CrW".to_string(),
                members: vec![
                    WriteMember::Doc("Bits 4:5 - Mode".to_string()),
                    WriteMember::Proxy { name: "mode".to_string(), proxy: "_CrWMode".to_string() },
                    WriteMember::Bits {
                        name: "mode_bits".to_string(),
                        ty: BitsTy::U8,
                        offset: 4,
                        mask: 3,
                        safe: false,
                    },
                    WriteMember::Variant {
                        name: "mode_enum".to_string(),
                        ty: BitsTy::U8,
                        offset: 4,
                        mask: 3,
                        enum_name: "CrWModeSel".to_string(),
                    },
                ],
            },
        ])
    );
    assert_eq!(names(&registry), vec!["CrWModeSel"]);
}

fn bits_setter_is_safe(width: u32, values: Vec<EnumeratedValue>) -> bool {
    let r = register("CR", None, vec![field("F", 0, width, vec![set(None, None, None, values)])]);
    let mut registry = Registry::new();
    let items = run(&r, &[], &mut registry).unwrap();
    match items.last() {
        Some(Item::WriteApi { members, .. }) => match &members[1] {
            WriteMember::Bits { safe, .. } => *safe,
            other => panic!("unexpected member {:?}", other),
        },
        other => panic!("unexpected item {:?}", other),
    }
}

#[test]
fn raw_bits_are_safe_only_where_every_code_is_declared() {
    assert!(bits_setter_is_safe(1, vec![value("A", Some(0)), value("B", Some(1))]));
    assert!(bits_setter_is_safe(1, vec![value("B", Some(1)), value("A", Some(0)), value("C", Some(1))]));
    assert!(bits_setter_is_safe(
        2,
        vec![value("D", Some(3)), value("A", Some(0)), value("C", Some(2)), value("B", Some(1))]
    ));
    assert!(!bits_setter_is_safe(1, vec![value("A", Some(0))]));
    assert!(!bits_setter_is_safe(1, vec![value("A", Some(0)), value("B", Some(0))]));
    assert!(!bits_setter_is_safe(1, vec![value("A", Some(0)), value("B", Some(2))]));
    assert!(!bits_setter_is_safe(2, vec![value("A", Some(0)), value("B", Some(1)), value("C", Some(3))]));
    assert!(!bits_setter_is_safe(32, vec![value("A", Some(0)), value("B", Some(1))]));
    assert!(!bits_setter_is_safe(3, vec![]));
}

#[test]
fn derived_sets_share_one_write_alias() {
    let a = register(
        "A",
        None,
        vec![
            field("F1", 0, 1, vec![set(None, Some("B.G"), None, vec![])]),
            field("F2", 1, 1, vec![set(None, Some("B.G"), None, vec![])]),
        ],
    );
    let b = register(
        "B",
        None,
        vec![field("H", 0, 1, vec![set(Some("G"), None, None, vec![value("SET", Some(1))])])],
    );
    let all = vec![a, b];
    let mut registry = Registry::new();
    let items = run(&all[0], &all, &mut registry).unwrap();
    assert_eq!(
        items,
        vec![
            Item::Proxy { name: "AW".to_string(), bits: BitsTy::U16 },
            Item::FieldProxy { name: "_AWF1".to_string(), target: "AW".to_string() },
            Item::FieldProxyApi {
                name: "_AWF1".to_string(),
                target: "AW".to_string(),
                ty: BitsTy::U8,
                offset: 0,
                mask: 1,
                methods: vec![method("set", 1)],
            },
            Item::Alias { name: "AWG".to_string(), origin: "BWG".to_string() },
            Item::FieldProxy { name: "_AWF2".to_string(), target: "AW".to_string() },
            Item::FieldProxyApi {
                name: "_AWF2".to_string(),
                target: "AW".to_string(),
                ty: BitsTy::U8,
                offset: 1,
                mask: 1,
                methods: vec![method("set", 1)],
            },
            Item::WriteApi {
                name: "AW".to_string(),
                members: vec![
                    WriteMember::Proxy { name: "f1".to_string(), proxy: "_AWF1".to_string() },
                    WriteMember::Bits {
                        name: "f1_bits".to_string(),
                        ty: BitsTy::U8,
                        offset: 0,
                        mask: 1,
                        safe: false,
                    },
                    WriteMember::Variant {
                        name: "f1_enum".to_string(),
                        ty: BitsTy::U8,
                        offset: 0,
                        mask: 1,
                        enum_name: "AWG".to_string(),
                    },
                    WriteMember::Proxy { name: "f2".to_string(), proxy: "_AWF2".to_string() },
                    WriteMember::Bits {
                        name: "f2_bits".to_string(),
                        ty: BitsTy::U8,
                        offset: 1,
                        mask: 1,
                        safe: false,
                    },
                    WriteMember::Variant {
                        name: "f2_enum".to_string(),
                        ty: BitsTy::U8,
                        offset: 1,
                        mask: 1,
                        enum_name: "AWG".to_string(),
                    },
                ],
            },
        ]
    );
    assert_eq!(names(&registry), vec!["AWG"]);
}

#[test]
fn reserved_and_read_only_fields_are_passed_over() {
    let mut ro = field("RX", 0, 8, vec![]);
    ro.access = Some(Access::ReadOnly);
    let mut wo = field("TX", 8, 8, vec![]);
    wo.access = Some(Access::WriteOnly);
    let r = register("DR", None, vec![ro, field("RESERVED", 0, 99, vec![]), wo]);
    let mut registry = Registry::new();
    assert_eq!(
        run(&r, &[], &mut registry),
        Ok(vec![
            Item::Proxy { name: "DrW".to_string(), bits: BitsTy::U16 },
            Item::WriteApi {
                name: "DrW".to_string(),
                members: vec![WriteMember::Bits {
                    name: "tx".to_string(),
                    ty: BitsTy::U8,
                    offset: 8,
                    mask: 0xff,
                    safe: true,
                }],
            },
        ])
    );
}

#[test]
fn a_single_set_for_reading_is_not_written() {
    let r = register(
        "CR",
        None,
        vec![field("ST", 0, 1, vec![set(None, None, Some(Usage::Read), vec![value("X", None)])])],
    );
    let mut registry = Registry::new();
    assert_eq!(
        run(&r, &[], &mut registry),
        Ok(vec![
            Item::Proxy { name: "CrW".to_string(), bits: BitsTy::U16 },
            Item::WriteApi {
                name: "CrW".to_string(),
                members: vec![WriteMember::Bit { name: "st".to_string(), offset: 0 }],
            },
        ])
    );
}

#[test]
fn of_several_sets_the_first_for_writing_is_taken() {
    let r = register(
        "CR",
        None,
        vec![field(
            "CMD",
            0,
            1,
            vec![
                set(Some("r"), None, Some(Usage::Read), vec![]),
                set(Some("w"), None, Some(Usage::Write), vec![value("GO", Some(1))]),
                set(Some("rw"), None, Some(Usage::ReadWrite), vec![]),
            ],
        )],
    );
    let mut registry = Registry::new();
    let items = run(&r, &[], &mut registry).unwrap();
    assert_eq!(
        items[3],
        Item::WriteEnum {
            name: "CrWW".to_string(),
            ty: BitsTy::U8,
            variants: vec![variant("Go", 1)],
        }
    );
}

#[test]
fn value_without_a_number_is_fatal() {
    let r = register(
        "CR",
        None,
        vec![field("F", 0, 1, vec![set(None, None, None, vec![value("A", Some(0)), value("B", None)])])],
    );
    let mut registry = Registry::new();
    assert_eq!(run(&r, &[], &mut registry), Err(GenError::MissingValue));
    assert_eq!(names(&registry), Vec::<&str>::new());
}

#[test]
fn derivation_errors_are_fatal() {
    let b = Register::Single(RegisterInfo {
        name: "B".to_string(),
        description: None,
        address_offset: 4,
        size: Some(32),
        access: None,
        reset_value: None,
        fields: None,
    });
    let c = register(
        "C",
        None,
        vec![field("G", 0, 1, vec![set(Some("G"), None, Some(Usage::Read), vec![])])],
    );
    let all = vec![b, c];
    let mut registry = Registry::new();
    let a = register("A", None, vec![field("F", 0, 1, vec![set(None, Some("X.G"), None, vec![])])]);
    assert_eq!(run(&a, &all, &mut registry), Err(GenError::BaseRegisterNotFound));
    let a = register("A", None, vec![field("F", 0, 1, vec![set(None, Some("B.G"), None, vec![])])]);
    assert_eq!(run(&a, &all, &mut registry), Err(GenError::BaseFieldsNotFound));
    let a = register("A", None, vec![field("F", 0, 1, vec![set(None, Some("C.G"), None, vec![])])]);
    assert_eq!(run(&a, &all, &mut registry), Err(GenError::BaseSetNotFound));
}

#[test]
fn field_of_unsupported_width_is_fatal() {
    let mut registry = Registry::new();
    let r = register("CR", None, vec![field("WIDE", 0, 33, vec![])]);
    assert_eq!(run(&r, &[], &mut registry), Err(GenError::WidthTooLarge));
    let r = register("CR", None, vec![field("NONE", 0, 0, vec![])]);
    assert_eq!(run(&r, &[], &mut registry), Err(GenError::ZeroWidth));
}
