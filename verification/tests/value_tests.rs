use ppe_core::errors::Error;
use ppe_core::ops::value_add;
use ppe_core::ops::value_div;
use ppe_core::ops::value_eq;
use ppe_core::ops::value_mod;
use ppe_core::ops::value_mul;
use ppe_core::ops::value_neg;
use ppe_core::ops::value_sub;
use ppe_core::text::i32_to_string;
use ppe_core::text::i64_to_string;
use ppe_core::text::parse_int;
use ppe_core::text::u64_to_string;
use ppe_core::values::VariableType;
use ppe_core::values::VariableValue;
use ppe_core::values::convert_to;
use ppe_core::values::get_int;
use ppe_core::values::get_string;

fn iv(v: i32) -> VariableValue {
    VariableValue::Integer(v)
}

fn as_int(v: &VariableValue) -> i32 {
    get_int(v).unwrap()
}

#[test]
fn renders_decimal_numbers() {
    assert_eq!(u64_to_string(0).as_str(), "0");
    assert_eq!(u64_to_string(907).as_str(), "907");
    assert_eq!(i32_to_string(-45).as_str(), "-45");
    assert_eq!(i32_to_string(i32::MIN).as_str(), "-2147483648");
    assert_eq!(i64_to_string(i64::MIN).as_str(), "-9223372036854775808");
}

#[test]
fn parses_decimal_prefixes() {
    assert_eq!(parse_int("42"), 42);
    assert_eq!(parse_int("-17abc"), -17);
    assert_eq!(parse_int(""), 0);
    assert_eq!(parse_int("x9"), 0);
    assert_eq!(parse_int("99999999999999"), i32::MAX);
    assert_eq!(parse_int("-99999999999999"), i32::MIN);
    assert_eq!(parse_int("2147483647"), i32::MAX);
    assert_eq!(parse_int("-2147483648"), i32::MIN);
}

#[test]
fn addition_wraps_at_32_bits() {
    let r = value_add(&iv(i32::MAX), &iv(1)).unwrap();
    assert_eq!(as_int(&r), i32::MIN);
}

#[test]
fn addition_with_string_concatenates() {
    let r = value_add(&VariableValue::Str("a".to_string()), &iv(1)).unwrap();
    assert_eq!(get_string(&r).as_str(), "a1");
}

#[test]
fn boolean_counts_as_one_in_arithmetic() {
    let r = value_add(&VariableValue::Boolean(true), &iv(2)).unwrap();
    assert_eq!(as_int(&r), 3);
}

#[test]
fn subtraction_and_negation() {
    assert_eq!(as_int(&value_sub(&iv(3), &iv(10)).unwrap()), -7);
    assert_eq!(as_int(&value_neg(&iv(5)).unwrap()), -5);
    assert_eq!(as_int(&value_neg(&iv(i32::MIN)).unwrap()), i32::MIN);
}

#[test]
fn multiplication_wraps() {
    assert_eq!(as_int(&value_mul(&iv(6), &iv(7)).unwrap()), 42);
    assert_eq!(as_int(&value_mul(&iv(65536), &iv(65536)).unwrap()), 0);
}

#[test]
fn division_truncates_toward_zero() {
    assert_eq!(as_int(&value_div(&iv(7), &iv(2)).unwrap()), 3);
    assert_eq!(as_int(&value_div(&iv(-7), &iv(2)).unwrap()), -3);
    assert_eq!(as_int(&value_div(&iv(7), &iv(-2)).unwrap()), -3);
    assert_eq!(as_int(&value_mod(&iv(7), &iv(2)).unwrap()), 1);
    assert_eq!(as_int(&value_mod(&iv(-7), &iv(2)).unwrap()), -1);
}

#[test]
fn division_by_zero_is_a_fatal_error() {
    assert_eq!(value_div(&iv(1), &iv(0)).unwrap_err(), Error::DivisionByZero);
    assert_eq!(value_mod(&iv(1), &iv(0)).unwrap_err(), Error::DivisionByZero);
}

#[test]
fn arithmetic_on_money_is_a_type_error() {
    let r = value_sub(&VariableValue::Money(100), &iv(1));
    assert_eq!(r.unwrap_err(), Error::TypeMismatch);
}

#[test]
fn equality_on_strings_and_numbers() {
    let a = VariableValue::Str("abc".to_string());
    let b = VariableValue::Str("abc".to_string());
    assert!(value_eq(&a, &b).unwrap());
    assert!(!value_eq(&a, &VariableValue::Str("abd".to_string())).unwrap());
    assert!(value_eq(&iv(3), &VariableValue::Byte(3)).unwrap());
    assert_eq!(value_eq(&a, &iv(3)).unwrap_err(), Error::TypeMismatch);
}

#[test]
fn conversion_follows_the_documented_table() {
    let v = VariableValue::Str("300".to_string());
    assert!(matches!(convert_to(VariableType::Byte, &v), VariableValue::Byte(44)));
    assert!(matches!(convert_to(VariableType::Integer, &v), VariableValue::Integer(300)));
    assert!(matches!(
        convert_to(VariableType::Boolean, &iv(0)),
        VariableValue::Boolean(false)
    ));
    assert!(matches!(
        convert_to(VariableType::Boolean, &iv(7)),
        VariableValue::Boolean(true)
    ));
    let s = convert_to(VariableType::Str, &iv(-9));
    assert_eq!(get_string(&s).as_str(), "-9");
    assert!(matches!(convert_to(VariableType::SByte, &iv(200)), VariableValue::SByte(-56)));
}

#[test]
fn get_int_rejects_non_coercible_kinds() {
    let r = get_int(&VariableValue::Str("x".to_string()));
    assert!(matches!(r.unwrap_err(), Error::IntegerExpected(_)));
    assert_eq!(get_int(&VariableValue::Unsigned(0xFFFF_FFFF)).unwrap(), -1);
    assert_eq!(get_int(&VariableValue::Boolean(true)).unwrap(), 1);
}

#[test]
fn rendering_follows_the_documented_rule() {
    assert_eq!(get_string(&VariableValue::Boolean(true)).as_str(), "1");
    assert_eq!(get_string(&VariableValue::Boolean(false)).as_str(), "0");
    assert_eq!(get_string(&VariableValue::Money(-250)).as_str(), "-250");
    assert_eq!(get_string(&VariableValue::Dim1(VariableType::Integer, Vec::new())).as_str(), "");
}

#[test]
fn error_messages_are_nonempty() {
    assert!(!Error::DivisionByZero.message().is_empty());
    assert!(!Error::NotSupported.message().is_empty());
}
