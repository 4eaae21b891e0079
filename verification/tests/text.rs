use svd2rust::text::{
    binary, decimal, fill_placeholder, hex, is_reserved, join2, join3, respace, same_text,
    split_reference, to_sanitized_pascal_case, to_sanitized_snake_case,
};

#[test]
fn snake_case_of_plain_names() {
    assert_eq!(to_sanitized_snake_case("CR1"), "cr1");
    assert_eq!(to_sanitized_snake_case("helloWorld"), "hello_world");
    assert_eq!(to_sanitized_snake_case("HELLO_WORLD"), "hello_world");
    assert_eq!(to_sanitized_snake_case(""), "");
}

#[test]
fn snake_case_of_names_that_start_with_a_digit() {
    assert_eq!(to_sanitized_snake_case("2nd"), "_2nd");
    assert_eq!(to_sanitized_snake_case("0"), "_0");
    assert_eq!(to_sanitized_snake_case("9LIVES"), "_9lives");
}

#[test]
fn snake_case_of_reserved_words() {
    assert_eq!(to_sanitized_snake_case("fn"), "fn_");
    assert_eq!(to_sanitized_snake_case("in"), "in_");
    assert_eq!(to_sanitized_snake_case("match"), "match_");
    assert_eq!(to_sanitized_snake_case("mod"), "mod_");
    assert_eq!(to_sanitized_snake_case("FN"), "fn");
    assert_eq!(to_sanitized_snake_case("model"), "model");
}

#[test]
fn pascal_case_of_names() {
    assert_eq!(to_sanitized_pascal_case("CR1"), "Cr1");
    assert_eq!(to_sanitized_pascal_case("hello_world"), "HelloWorld");
    assert_eq!(to_sanitized_pascal_case("1wire"), "_1wire");
    assert_eq!(to_sanitized_pascal_case("fn"), "Fn");
    assert_eq!(to_sanitized_pascal_case(""), "");
}

#[test]
fn numbers_in_decimal() {
    assert_eq!(decimal(0), "0");
    assert_eq!(decimal(7), "7");
    assert_eq!(decimal(10), "10");
    assert_eq!(decimal(4294967295), "4294967295");
    assert_eq!(decimal(u128::MAX), "340282366920938463463374607431768211455");
}

#[test]
fn numbers_in_binary() {
    assert_eq!(binary(0), "0");
    assert_eq!(binary(1), "1");
    assert_eq!(binary(5), "101");
    assert_eq!(binary(255), "11111111");
}

#[test]
fn numbers_in_hexadecimal() {
    assert_eq!(hex(0), "00");
    assert_eq!(hex(4), "04");
    assert_eq!(hex(15), "0f");
    assert_eq!(hex(16), "10");
    assert_eq!(hex(0x1c), "1c");
    assert_eq!(hex(0xabcdef), "abcdef");
}

#[test]
fn placeholder_in_brackets() {
    assert_eq!(fill_placeholder("CH[%s]", "0"), "CH0");
    assert_eq!(fill_placeholder("CH[%s]", ""), "CH");
    assert_eq!(fill_placeholder("A[%s]B[%s]", "x"), "AxBx");
    assert_eq!(fill_placeholder("A[%s]B%s", "x"), "AxB%s");
}

#[test]
fn placeholder_without_brackets() {
    assert_eq!(fill_placeholder("TIM%s_CR", "3"), "TIM3_CR");
    assert_eq!(fill_placeholder("%s%s", "ab"), "abab");
    assert_eq!(fill_placeholder("PLAIN", "3"), "PLAIN");
    assert_eq!(fill_placeholder("%", "3"), "%");
    assert_eq!(fill_placeholder("[%s", "3"), "[3");
}

#[test]
fn references_are_split_at_the_first_dot() {
    assert_eq!(split_reference("CR.MODE"), Some(("CR".to_string(), "MODE".to_string())));
    assert_eq!(split_reference("A.B.C"), Some(("A".to_string(), "B".to_string())));
    assert_eq!(split_reference("A."), Some(("A".to_string(), "".to_string())));
    assert_eq!(split_reference(".B"), Some(("".to_string(), "B".to_string())));
    assert_eq!(split_reference("MODE"), None);
    assert_eq!(split_reference(""), None);
}

#[test]
fn whitespace_is_normalised() {
    assert_eq!(respace("Clock   control\n  register"), "Clock control register");
    assert_eq!(respace("  leading and trailing \t"), "leading and trailing");
    assert_eq!(respace(""), "");
    assert_eq!(respace(" \n\t "), "");
    assert_eq!(respace("one"), "one");
    assert_eq!(respace("a\u{a0}b"), "a b");
    assert_eq!(respace("a\u{200b}b"), "a\u{200b}b");
    assert_eq!(respace("a\u{2003}b"), "a b");
}

#[test]
fn reserved_names_in_any_case() {
    assert!(is_reserved("RESERVED"));
    assert!(is_reserved("reserved"));
    assert!(is_reserved("Reserved"));
    assert!(!is_reserved("RESERVED1"));
    assert!(!is_reserved("RES"));
    assert!(!is_reserved(""));
}

#[test]
fn texts_are_compared_and_joined() {
    assert!(same_text("abc", "abc"));
    assert!(!same_text("abc", "abd"));
    assert!(!same_text("abc", "ab"));
    assert_eq!(join2("ab", "cd"), "abcd");
    assert_eq!(join3("a", "", "c"), "ac");
}
