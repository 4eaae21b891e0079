use svd2rust::expand::{expand, type_of, TypeName};
use svd2rust::model::{ArrayInfo, Register, RegisterInfo};

fn info(name: &str, offset: u32) -> RegisterInfo {
    RegisterInfo {
        name: name.to_string(),
        description: None,
        address_offset: offset,
        size: Some(32),
        access: None,
        reset_value: None,
        fields: None,
    }
}

fn text(ty: &TypeName) -> &str {
    ty.as_str()
}

#[test]
fn array_expands_to_numbered_registers() {
    let registers = vec![Register::Array(
        info("CH[%s]", 0x10),
        ArrayInfo { count: 4, increment: 0x4, index_labels: None },
    )];
    let out = expand(&registers);
    assert_eq!(out.len(), 4);
    let names: Vec<&str> = out.iter().map(|r| r.name.as_str()).collect();
    assert_eq!(names, vec!["ch0", "ch1", "ch2", "ch3"]);
    let offsets: Vec<u128> = out.iter().map(|r| r.offset).collect();
    assert_eq!(offsets, vec![0x10, 0x14, 0x18, 0x1c]);
    for r in out.iter() {
        assert_eq!(text(&r.ty), "Ch");
        assert!(matches!(r.ty, TypeName::Shared(_)));
        assert_eq!(r.info, registers[0].info());
    }
}

#[test]
fn instances_of_an_array_share_one_handle() {
    let registers = vec![Register::Array(
        info("CH[%s]", 0),
        ArrayInfo { count: 3, increment: 4, index_labels: None },
    )];
    let out = expand(&registers);
    match (&out[0].ty, &out[2].ty) {
        (TypeName::Shared(a), TypeName::Shared(b)) => assert!(std::rc::Rc::ptr_eq(a, b)),
        _ => panic!("an array instance holds a shared type name"),
    }
}

#[test]
fn single_register_keeps_its_offset_and_owns_its_type() {
    let registers = vec![Register::Single(info("CR1", 0x24))];
    let out = expand(&registers);
    assert_eq!(out.len(), 1);
    assert_eq!(out[0].name, "cr1");
    assert_eq!(out[0].offset, 0x24);
    assert_eq!(out[0].ty, TypeName::Owned("Cr1".to_string()));
}

#[test]
fn labels_are_placed_by_position() {
    let registers = vec![Register::Array(
        info("GPIO%s_MODE", 0x100),
        ArrayInfo {
            count: 3,
            increment: 0x10,
            index_labels: Some(vec!["C".to_string(), "A".to_string(), "7".to_string()]),
        },
    )];
    let out = expand(&registers);
    let seen: Vec<(&str, u128)> = out.iter().map(|r| (r.name.as_str(), r.offset)).collect();
    assert_eq!(seen, vec![("gpioc_mode", 0x100), ("gpioa_mode", 0x110), ("gpio7_mode", 0x120)]);
    assert_eq!(text(&out[0].ty), "GpioMode");
}

#[test]
fn explicit_labels_decide_the_number_of_instances() {
    let registers = vec![Register::Array(
        info("R%s", 0),
        ArrayInfo {
            count: 5,
            increment: 1,
            index_labels: Some(vec!["X".to_string(), "Y".to_string()]),
        },
    )];
    assert_eq!(expand(&registers).len(), 2);
}

#[test]
fn registers_are_sorted_by_offset() {
    let registers = vec![
        Register::Single(info("LAST", 0x30)),
        Register::Array(info("CH%s", 0x8), ArrayInfo { count: 2, increment: 0x20, index_labels: None }),
        Register::Single(info("FIRST", 0x0)),
        Register::Single(info("MID", 0x10)),
    ];
    let out = expand(&registers);
    let seen: Vec<(&str, u128)> = out.iter().map(|r| (r.name.as_str(), r.offset)).collect();
    assert_eq!(
        seen,
        vec![("first", 0x0), ("ch0", 0x8), ("mid", 0x10), ("ch1", 0x28), ("last", 0x30)]
    );
}

#[test]
fn ties_keep_the_order_of_declaration() {
    let registers = vec![
        Register::Single(info("B", 4)),
        Register::Single(info("A", 4)),
        Register::Single(info("Z", 0)),
        Register::Single(info("C", 4)),
    ];
    let out = expand(&registers);
    let names: Vec<&str> = out.iter().map(|r| r.name.as_str()).collect();
    assert_eq!(names, vec!["z", "b", "a", "c"]);
}

#[test]
fn zero_increment_puts_all_instances_at_one_offset() {
    let registers = vec![Register::Array(
        info("R%s", 8),
        ArrayInfo { count: 3, increment: 0, index_labels: None },
    )];
    let out = expand(&registers);
    let seen: Vec<(&str, u128)> = out.iter().map(|r| (r.name.as_str(), r.offset)).collect();
    assert_eq!(seen, vec![("r0", 8), ("r1", 8), ("r2", 8)]);
}

#[test]
fn large_offsets_do_not_wrap() {
    let registers = vec![Register::Array(
        info("R%s", u32::MAX),
        ArrayInfo { count: 2, increment: u32::MAX, index_labels: None },
    )];
    let out = expand(&registers);
    assert_eq!(out[0].offset, 4294967295);
    assert_eq!(out[1].offset, 8589934590);
}

#[test]
fn empty_list_and_empty_array_expand_to_nothing() {
    assert_eq!(expand(&[]).len(), 0);
    let registers = vec![Register::Array(
        info("R%s", 0),
        ArrayInfo { count: 0, increment: 4, index_labels: None },
    )];
    assert_eq!(expand(&registers).len(), 0);
}

#[test]
fn type_of_drops_the_placeholder() {
    let array = ArrayInfo { count: 2, increment: 4, index_labels: None };
    assert_eq!(type_of(&Register::Single(info("CR1", 0))), "Cr1");
    assert_eq!(type_of(&Register::Array(info("CH[%s]", 0), array)), "Ch");
    let array = ArrayInfo { count: 2, increment: 4, index_labels: None };
    assert_eq!(type_of(&Register::Array(info("TIM%s_CR", 0), array)), "TimCr");
    assert_eq!(type_of(&Register::Single(info("8BIT", 0))), "_8bit");
}
