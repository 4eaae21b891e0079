use svd2rust::model::{EnumeratedValueSet, Field, GenError, Register, RegisterInfo, Usage};
use svd2rust::resolve::{resolve, Resolved, Side};

fn set(name: Option<&str>, derived_from: Option<&str>, usage: Option<Usage>) -> EnumeratedValueSet {
    EnumeratedValueSet {
        name: name.map(|n| n.to_string()),
        derived_from: derived_from.map(|n| n.to_string()),
        usage,
        values: vec![],
    }
}

fn field(name: &str, sets: Vec<EnumeratedValueSet>) -> Field {
    Field {
        name: name.to_string(),
        description: None,
        bit_offset: 0,
        bit_width: 1,
        access: None,
        enumerated_value_sets: sets,
    }
}

fn register(name: &str, fields: Option<Vec<Field>>) -> Register {
    Register::Single(RegisterInfo {
        name: name.to_string(),
        description: None,
        address_offset: 0,
        size: Some(32),
        access: None,
        reset_value: None,
        fields,
    })
}

#[test]
fn untagged_single_set_serves_both_views() {
    let f = field("F", vec![set(Some("own"), None, None)]);
    let own = &f.enumerated_value_sets[0];
    for side in [Side::Read, Side::Write] {
        assert_eq!(
            resolve(&f, &[], &[], side),
            Ok(Some(Resolved { set: own, derived: false, base: None }))
        );
    }
}

#[test]
fn tagged_single_set_serves_its_view_only() {
    let f = field("F", vec![set(None, None, Some(Usage::Read))]);
    assert!(resolve(&f, &[], &[], Side::Read).unwrap().is_some());
    assert_eq!(resolve(&f, &[], &[], Side::Write), Ok(None));
    let f = field("F", vec![set(None, None, Some(Usage::Write))]);
    assert_eq!(resolve(&f, &[], &[], Side::Read), Ok(None));
    assert!(resolve(&f, &[], &[], Side::Write).unwrap().is_some());
    let f = field("F", vec![set(None, None, Some(Usage::ReadWrite))]);
    assert!(resolve(&f, &[], &[], Side::Read).unwrap().is_some());
    assert!(resolve(&f, &[], &[], Side::Write).unwrap().is_some());
}

#[test]
fn field_without_sets_resolves_to_nothing() {
    let f = field("F", vec![]);
    assert_eq!(resolve(&f, &[], &[], Side::Read), Ok(None));
    assert_eq!(resolve(&f, &[], &[], Side::Write), Ok(None));
}

#[test]
fn several_sets_are_chosen_by_tag() {
    let f = field(
        "F",
        vec![
            set(Some("plain"), None, None),
            set(Some("w"), Some("ignored"), Some(Usage::Write)),
            set(Some("r"), None, Some(Usage::Read)),
            set(Some("rw"), None, Some(Usage::ReadWrite)),
        ],
    );
    let sets = &f.enumerated_value_sets;
    assert_eq!(
        resolve(&f, &[], &[], Side::Read),
        Ok(Some(Resolved { set: &sets[2], derived: false, base: None }))
    );
    assert_eq!(
        resolve(&f, &[], &[], Side::Write),
        Ok(Some(Resolved { set: &sets[1], derived: false, base: None }))
    );
}

#[test]
fn bare_reference_is_searched_in_the_fields_at_hand() {
    let fields = vec![
        field("A", vec![set(Some("x"), None, Some(Usage::Write)), set(Some("y"), None, None)]),
        field("B", vec![set(Some("x"), None, None)]),
        field("C", vec![set(None, Some("x"), None)]),
    ];
    assert_eq!(
        resolve(&fields[2], &fields, &[], Side::Read),
        Ok(Some(Resolved { set: &fields[1].enumerated_value_sets[0], derived: true, base: None }))
    );
    assert_eq!(
        resolve(&fields[2], &fields, &[], Side::Write),
        Ok(Some(Resolved { set: &fields[0].enumerated_value_sets[0], derived: true, base: None }))
    );
}

#[test]
fn qualified_reference_is_searched_in_the_named_register() {
    let registers = vec![
        register("OTHER", Some(vec![field("P", vec![set(Some("G"), None, None)])])),
        register("B", Some(vec![field("P", vec![]), field("Q", vec![set(Some("G"), None, None)])])),
        register("B", Some(vec![field("R", vec![set(Some("G"), None, None)])])),
    ];
    let f = field("F", vec![set(None, Some("B.G"), None)]);
    let target = &registers[1].info().fields.as_ref().unwrap()[1].enumerated_value_sets[0];
    assert_eq!(
        resolve(&f, &[], &registers, Side::Read),
        Ok(Some(Resolved { set: target, derived: true, base: Some("B".to_string()) }))
    );
}

#[test]
fn failed_derivations() {
    let registers = vec![
        register("NOFIELDS", None),
        register("B", Some(vec![field("P", vec![set(Some("G"), None, Some(Usage::Read))])])),
    ];
    let f = field("F", vec![set(None, Some("MISSING.G"), None)]);
    assert_eq!(resolve(&f, &[], &registers, Side::Read), Err(GenError::BaseRegisterNotFound));
    let f = field("F", vec![set(None, Some("NOFIELDS.G"), None)]);
    assert_eq!(resolve(&f, &[], &registers, Side::Read), Err(GenError::BaseFieldsNotFound));
    let f = field("F", vec![set(None, Some("B.H"), None)]);
    assert_eq!(resolve(&f, &[], &registers, Side::Read), Err(GenError::BaseSetNotFound));
    let f = field("F", vec![set(None, Some("B.G"), None)]);
    assert!(resolve(&f, &[], &registers, Side::Read).is_ok());
    assert_eq!(resolve(&f, &[], &registers, Side::Write), Err(GenError::BaseSetNotFound));
    let f = field("F", vec![set(None, Some("G"), None)]);
    assert_eq!(resolve(&f, &[], &registers, Side::Read), Err(GenError::BaseSetNotFound));
}

#[test]
fn deriving_set_that_is_not_eligible_is_not_followed() {
    let f = field("F", vec![set(None, Some("MISSING.G"), Some(Usage::Write))]);
    assert_eq!(resolve(&f, &[], &[], Side::Read), Ok(None));
    assert_eq!(resolve(&f, &[], &[], Side::Write), Err(GenError::BaseRegisterNotFound));
}
