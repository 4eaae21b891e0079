use svd2rust::field::Registry;
use svd2rust::fragment::{Item, ReadMember, ReadVariant};
use svd2rust::model::{
    Access, Defaults, EnumeratedValue, EnumeratedValueSet, Field, GenError, Register,
    RegisterInfo, Usage,
};
use svd2rust::reader::gen_register_r;
use svd2rust::width::BitsTy;

const NO_DEFAULTS: Defaults = Defaults { size: None, reset_value: None };

fn value(name: &str, description: Option<&str>, value: Option<u32>) -> EnumeratedValue {
    EnumeratedValue {
        name: name.to_string(),
        description: description.map(|d| d.to_string()),
        value,
    }
}

fn set(
    name: Option<&str>,
    derived_from: Option<&str>,
    usage: Option<Usage>,
    values: Vec<EnumeratedValue>,
) -> EnumeratedValueSet {
    EnumeratedValueSet {
        name: name.map(|n| n.to_string()),
        derived_from: derived_from.map(|n| n.to_string()),
        usage,
        values,
    }
}

fn field(name: &str, offset: u32, width: u32, sets: Vec<EnumeratedValueSet>) -> Field {
    Field {
        name: name.to_string(),
        description: None,
        bit_offset: offset,
        bit_width: width,
        access: None,
        enumerated_value_sets: sets,
    }
}

fn register(name: &str, fields: Vec<Field>) -> Register {
    Register::Single(RegisterInfo {
        name: name.to_string(),
        description: None,
        address_offset: 0,
        size: Some(32),
        access: None,
        reset_value: None,
        fields: Some(fields),
    })
}

fn named(name: &str, doc: Option<&str>, value: u64, predicate: &str) -> ReadVariant {
    ReadVariant {
        name: name.to_string(),
        doc: doc.map(|d| d.to_string()),
        reserved: false,
        value,
        predicate: Some(predicate.to_string()),
    }
}

fn hidden(name: &str, value: u64) -> ReadVariant {
    ReadVariant { name: name.to_string(), doc: None, reserved: true, value, predicate: None }
}

fn run(r: &Register, all: &[Register], registry: &mut Registry) -> Result<Vec<Item>, GenError> {
    let fields = r.info().fields.as_ref().unwrap();
    gen_register_r(r, &NO_DEFAULTS, fields, all, registry)
}

fn names(registry: &Registry) -> Vec<&str> {
    registry.names.iter().map(|n| n.as_str()).collect()
}

#[test]
fn plain_fields_are_read_as_booleans_and_integers() {
    let mut en = field("EN", 0, 1, vec![]);
    en.description = Some("Enable  the\nunit".to_string());
    let mut div = field("DIV", 8, 12, vec![]);
    div.description = Some("Divider".to_string());
    let wide = field("ALL", 0, 32, vec![]);
    let r = register("CR1", vec![en, div, wide]);
    let mut registry = Registry::new();
    let items = run(&r, &[], &mut registry).unwrap();
    assert_eq!(
        items,
        vec![
            Item::Proxy { name: "Cr1R".to_string(), bits: BitsTy::U32 },
            Item::ReadApi {
                name: "Cr1R".to_string(),
                members: vec![
                    ReadMember::Doc("Bit 0 - Enable the unit".to_string()),
                    ReadMember::Bit { name: "en".to_string(), offset: 0 },
                    ReadMember::Doc("Bits 8:19 - Divider".to_string()),
                    ReadMember::Bits {
                        name: "div".to_string(),
                        ty: BitsTy::U16,
                        offset: 8,
                        mask: 0xfff,
                    },
                    ReadMember::Bits {
                        name: "all".to_string(),
                        ty: BitsTy::U32,
                        offset: 0,
                        mask: 0xffff_ffff,
                    },
                ],
            },
        ]
    );
    assert_eq!(names(&registry), Vec::<&str>::new());
}

#[test]
fn enumerated_field_gets_a_total_type() {
    let mut mode = field(
        "MODE",
        4,
        2,
        vec![set(
            None,
            None,
            None,
            vec![
                value("on_demand", None, Some(2)),
                value("OFF", Some("Switched off"), Some(0)),
                value("AGAIN", None, Some(2)),
                value("FAR", None, Some(9)),
                value("UNSET", None, None),
            ],
        )],
    );
    mode.description = Some("Operating mode".to_string());
    let r = register("CR", vec![mode]);
    let mut registry = Registry::new();
    let items = run(&r, &[], &mut registry).unwrap();
    assert_eq!(
        items,
        vec![
            Item::Proxy { name: "CrR".to_string(), bits: BitsTy::U32 },
            Item::ReadEnum {
                name: "CrRMode".to_string(),
                ty: BitsTy::U8,
                variants: vec![
                    named("Off", Some("Switched off"), 0, "is_off"),
                    hidden("_Reserved1", 1),
                    named("OnDemand", None, 2, "is_on_demand"),
                    hidden("_Reserved11", 3),
                ],
            },
            Item::ReadApi {
                name: "CrR".to_string(),
                members: vec![
                    ReadMember::Doc("Bits 4:5 - Operating mode".to_string()),
                    ReadMember::Variant {
                        name: "mode".to_string(),
                        ty: BitsTy::U8,
                        offset: 4,
                        mask: 3,
                        enum_name: "CrRMode".to_string(),
                    },
                ],
            },
        ]
    );
    assert_eq!(names(&registry), vec!["CrRMode"]);
}

#[test]
fn one_bit_enumerated_field_has_two_variants() {
    let r = register(
        "SR",
        vec![field("busy", 31, 1, vec![set(Some("busy_state"), None, None, vec![value("1st", None, Some(1))])])],
    );
    let mut registry = Registry::new();
    let items = run(&r, &[], &mut registry).unwrap();
    assert_eq!(
        items[1],
        Item::ReadEnum {
            name: "SrRBusyState".to_string(),
            ty: BitsTy::U8,
            variants: vec![hidden("_Reserved0", 0), named("_1st", None, 1, "is_1st")],
        }
    );
    assert_eq!(
        items[2],
        Item::ReadApi {
            name: "SrR".to_string(),
            members: vec![ReadMember::Variant {
                name: "busy".to_string(),
                ty: BitsTy::U8,
                offset: 31,
                mask: 1,
                enum_name: "SrRBusyState".to_string(),
            }],
        }
    );
}

#[test]
fn reserved_and_write_only_fields_are_passed_over() {
    let mut wo = field("TX", 0, 8, vec![]);
    wo.access = Some(Access::WriteOnly);
    let mut ro = field("RX", 8, 8, vec![]);
    ro.access = Some(Access::ReadOnly);
    let mut broken = field("Reserved", 16, 40, vec![]);
    broken.description = Some("not looked at".to_string());
    let r = register("DR", vec![wo, ro, broken]);
    let mut registry = Registry::new();
    let items = run(&r, &[], &mut registry).unwrap();
    assert_eq!(
        items,
        vec![
            Item::Proxy { name: "DrR".to_string(), bits: BitsTy::U32 },
            Item::ReadApi {
                name: "DrR".to_string(),
                members: vec![ReadMember::Bits {
                    name: "rx".to_string(),
                    ty: BitsTy::U8,
                    offset: 8,
                    mask: 0xff,
                }],
            },
        ]
    );
}

#[test]
fn derived_sets_share_one_alias() {
    let a = register(
        "A",
        vec![
            field("F1", 0, 1, vec![set(None, Some("B.G"), None, vec![])]),
            field("F2", 1, 1, vec![set(None, Some("B.G"), None, vec![])]),
        ],
    );
    let b = register(
        "B",
        vec![field("H", 0, 1, vec![set(Some("G"), None, None, vec![value("SET", None, Some(1))])])],
    );
    let all = vec![a, b];
    let mut registry = Registry::new();
    let for_a = run(&all[0], &all, &mut registry).unwrap();
    assert_eq!(
        for_a,
        vec![
            Item::Proxy { name: "AR".to_string(), bits: BitsTy::U32 },
            Item::Alias { name: "ARG".to_string(), origin: "BRG".to_string() },
            Item::ReadApi {
                name: "AR".to_string(),
                members: vec![
                    ReadMember::Variant {
                        name: "f1".to_string(),
                        ty: BitsTy::U8,
                        offset: 0,
                        mask: 1,
                        enum_name: "ARG".to_string(),
                    },
                    ReadMember::Variant {
                        name: "f2".to_string(),
                        ty: BitsTy::U8,
                        offset: 1,
                        mask: 1,
                        enum_name: "ARG".to_string(),
                    },
                ],
            },
        ]
    );
    let for_b = run(&all[1], &all, &mut registry).unwrap();
    let bodies: Vec<&Item> =
        for_b.iter().filter(|item| matches!(item, Item::ReadEnum { .. })).collect();
    assert_eq!(
        bodies,
        vec![&Item::ReadEnum {
            name: "BRG".to_string(),
            ty: BitsTy::U8,
            variants: vec![hidden("_Reserved0", 0), named("Set", None, 1, "is_set")],
        }]
    );
    assert_eq!(names(&registry), vec!["ARG", "BRG"]);
}

#[test]
fn set_derived_within_the_register_needs_no_alias() {
    let r = register(
        "CFG",
        vec![
            field("CH0", 0, 1, vec![set(Some("state"), None, None, vec![value("ON", None, Some(1))])]),
            field("CH1", 1, 1, vec![set(None, Some("state"), None, vec![])]),
        ],
    );
    let mut registry = Registry::new();
    let items = run(&r, &[], &mut registry).unwrap();
    assert_eq!(items.len(), 3);
    assert!(matches!(&items[1], Item::ReadEnum { name, .. } if name == "CfgRState"));
    assert_eq!(
        items[2],
        Item::ReadApi {
            name: "CfgR".to_string(),
            members: vec![
                ReadMember::Variant {
                    name: "ch0".to_string(),
                    ty: BitsTy::U8,
                    offset: 0,
                    mask: 1,
                    enum_name: "CfgRState".to_string(),
                },
                ReadMember::Variant {
                    name: "ch1".to_string(),
                    ty: BitsTy::U8,
                    offset: 1,
                    mask: 1,
                    enum_name: "CfgRState".to_string(),
                },
            ],
        }
    );
    assert_eq!(names(&registry), vec!["CfgRState"]);
}

#[test]
fn a_name_in_the_registry_is_not_given_out_again() {
    let r = register(
        "CR",
        vec![
            field("A", 0, 1, vec![set(Some("level"), None, None, vec![value("LOW", None, Some(0))])]),
            field("B", 1, 1, vec![set(Some("level"), None, None, vec![value("HIGH", None, Some(1))])]),
        ],
    );
    let mut registry = Registry::new();
    let items = run(&r, &[], &mut registry).unwrap();
    let bodies = items.iter().filter(|item| matches!(item, Item::ReadEnum { .. })).count();
    assert_eq!(bodies, 1);
    assert_eq!(
        items[1],
        Item::ReadEnum {
            name: "CrRLevel".to_string(),
            ty: BitsTy::U8,
            variants: vec![named("Low", None, 0, "is_low"), hidden("_Reserved1", 1)],
        }
    );
    assert_eq!(names(&registry), vec!["CrRLevel"]);

    let mut seen = Registry::new();
    seen.insert("CrRLevel");
    let items = run(&r, &[], &mut seen).unwrap();
    assert_eq!(items.len(), 2);
    assert_eq!(names(&seen), vec!["CrRLevel"]);
}

#[test]
fn a_single_set_for_writing_is_not_read() {
    let r = register(
        "CR",
        vec![field("CMD", 0, 2, vec![set(None, None, Some(Usage::Write), vec![value("GO", None, Some(1))])])],
    );
    let mut registry = Registry::new();
    let items = run(&r, &[], &mut registry).unwrap();
    assert_eq!(
        items,
        vec![
            Item::Proxy { name: "CrR".to_string(), bits: BitsTy::U32 },
            Item::ReadApi {
                name: "CrR".to_string(),
                members: vec![ReadMember::Bits {
                    name: "cmd".to_string(),
                    ty: BitsTy::U8,
                    offset: 0,
                    mask: 3,
                }],
            },
        ]
    );
}

#[test]
fn of_several_sets_the_first_for_reading_is_taken() {
    let r = register(
        "CR",
        vec![field(
            "CMD",
            0,
            1,
            vec![
                set(Some("untagged"), None, None, vec![]),
                set(Some("w"), None, Some(Usage::Write), vec![]),
                set(Some("rw"), None, Some(Usage::ReadWrite), vec![value("X", None, Some(0))]),
                set(Some("r"), None, Some(Usage::Read), vec![]),
            ],
        )],
    );
    let mut registry = Registry::new();
    let items = run(&r, &[], &mut registry).unwrap();
    assert_eq!(
        items[1],
        Item::ReadEnum {
            name: "CrRRw".to_string(),
            ty: BitsTy::U8,
            variants: vec![named("X", None, 0, "is_x"), hidden("_Reserved1", 1)],
        }
    );
}

#[test]
fn several_sets_without_a_tag_give_a_plain_accessor() {
    let r = register(
        "CR",
        vec![field(
            "CMD",
            0,
            1,
            vec![set(Some("a"), None, None, vec![]), set(Some("b"), None, Some(Usage::Write), vec![])],
        )],
    );
    let mut registry = Registry::new();
    let items = run(&r, &[], &mut registry).unwrap();
    assert_eq!(
        items[1],
        Item::ReadApi {
            name: "CrR".to_string(),
            members: vec![ReadMember::Bit { name: "cmd".to_string(), offset: 0 }],
        }
    );
}

#[test]
fn derivation_skips_sets_for_writing() {
    let b = register(
        "B",
        vec![
            field("P", 0, 1, vec![
                set(Some("G"), None, Some(Usage::Write), vec![]),
                set(Some("G"), None, Some(Usage::Read), vec![]),
            ]),
        ],
    );
    let a = register("A", vec![field("F", 0, 1, vec![set(None, Some("B.G.more"), None, vec![])])]);
    let all = vec![a, b];
    let mut registry = Registry::new();
    let items = run(&all[0], &all, &mut registry).unwrap();
    assert_eq!(items[1], Item::Alias { name: "ARG".to_string(), origin: "BRG".to_string() });
}

#[test]
fn missing_base_register_is_fatal() {
    let a = register("A", vec![field("F", 0, 1, vec![set(None, Some("NOWHERE.G"), None, vec![])])]);
    let all = vec![a];
    let mut registry = Registry::new();
    assert_eq!(run(&all[0], &all, &mut registry), Err(GenError::BaseRegisterNotFound));
}

#[test]
fn base_register_without_fields_is_fatal() {
    let a = register("A", vec![field("F", 0, 1, vec![set(None, Some("B.G"), None, vec![])])]);
    let b = Register::Single(RegisterInfo {
        name: "B".to_string(),
        description: None,
        address_offset: 4,
        size: Some(32),
        access: None,
        reset_value: None,
        fields: None,
    });
    let all = vec![a, b];
    let mut registry = Registry::new();
    assert_eq!(run(&all[0], &all, &mut registry), Err(GenError::BaseFieldsNotFound));
}

#[test]
fn missing_base_set_is_fatal() {
    let a = register("A", vec![field("F", 0, 1, vec![set(None, Some("B.G"), None, vec![])])]);
    let b = register(
        "B",
        vec![field("G", 0, 1, vec![set(Some("G"), None, Some(Usage::Write), vec![])])],
    );
    let all = vec![a, b];
    let mut registry = Registry::new();
    assert_eq!(run(&all[0], &all, &mut registry), Err(GenError::BaseSetNotFound));
    let lone = register("C", vec![field("F", 0, 1, vec![set(None, Some("other"), None, vec![])])]);
    assert_eq!(run(&lone, &[], &mut registry), Err(GenError::BaseSetNotFound));
}

#[test]
fn field_wider_than_32_bits_is_fatal() {
    let r = register("CR", vec![field("OK", 0, 32, vec![]), field("WIDE", 0, 33, vec![])]);
    let mut registry = Registry::new();
    assert_eq!(run(&r, &[], &mut registry), Err(GenError::WidthTooLarge));
}

#[test]
fn field_without_bits_is_fatal() {
    let r = register("CR", vec![field("NONE", 0, 0, vec![])]);
    let mut registry = Registry::new();
    assert_eq!(run(&r, &[], &mut registry), Err(GenError::ZeroWidth));
}

#[test]
fn an_error_leaves_the_registry_as_it_was() {
    let r = register(
        "CR",
        vec![
            field("A", 0, 1, vec![set(Some("level"), None, None, vec![])]),
            field("B", 1, 1, vec![set(None, Some("gone"), None, vec![])]),
        ],
    );
    let mut registry = Registry::new();
    registry.insert("Earlier");
    assert_eq!(run(&r, &[], &mut registry), Err(GenError::BaseSetNotFound));
    assert_eq!(names(&registry), vec!["Earlier"]);
}

#[test]
fn read_proxy_needs_the_size_of_the_register() {
    let r = Register::Single(RegisterInfo {
        name: "CR".to_string(),
        description: None,
        address_offset: 0,
        size: None,
        access: None,
        reset_value: None,
        fields: Some(vec![]),
    });
    let mut registry = Registry::new();
    assert_eq!(run(&r, &[], &mut registry), Err(GenError::MissingSize));
    let defaults = Defaults { size: Some(8), reset_value: None };
    assert_eq!(
        gen_register_r(&r, &defaults, &[], &[], &mut registry),
        Ok(vec![
            Item::Proxy { name: "CrR".to_string(), bits: BitsTy::U8 },
            Item::ReadApi { name: "CrR".to_string(), members: vec![] },
        ])
    );
}
