use dataframe::datatypes::{AnyType, DataType};
use dataframe::kinds::{DType, UInt16, Utf8};

#[test]
fn input_none() {
    let none: Option<u8> = None;
    let value: AnyType = none.into();
    assert!(value == AnyType::Null);
}

#[test]
fn input_u8() {
    let value: AnyType = 3u8.into();
    assert!(value == AnyType::UInt8(3));
}

#[test]
fn u8_addition() {
    let initial: AnyType = 3u8.into();
    let secondary: AnyType = 2u8.into();

    let value = initial + secondary;
    assert!(value == AnyType::UInt8(5));
}

#[test]
fn u8_subtraction() {
    let initial: AnyType = 3u8.into();
    let secondary: AnyType = 5u8.into();

    let value = initial - secondary;
    assert!(value == AnyType::ISize(-2isize));
}

#[test]
fn u8_multiplcation() {
    let initial: AnyType = 3u8.into();
    let secondary: AnyType = 2u8.into();

    let value = initial * secondary;
    assert!(value == AnyType::USize(6usize));
}

#[test]
fn u8_division() {
    let initial: AnyType = 6u8.into();
    let secondary: AnyType = 2u8.into();

    let value = initial / secondary;
    assert!(value == AnyType::UInt8(3u8));
}

#[test]
fn input_u16() {
    let value: AnyType = 3u16.into();
    assert!(value == AnyType::UInt16(3u16));
}

#[test]
fn u16_addition() {
    let initial: AnyType = 3u16.into();
    let secondary: AnyType = 2u16.into();

    let value = initial + secondary;
    assert!(value == AnyType::UInt16(5u16));
}

#[test]
fn u16_subtraction() {
    let initial: AnyType = 3u16.into();
    let secondary: AnyType = 5u16.into();

    let value = initial - secondary;
    assert!(value == AnyType::ISize(-2isize));
}

#[test]
fn u16_multiplcation() {
    let initial: AnyType = 3u16.into();
    let secondary: AnyType = 2u16.into();

    let value = initial * secondary;
    assert!(value == AnyType::USize(6usize));
}

#[test]
fn u16_division() {
    let initial: AnyType = 6u16.into();
    let secondary: AnyType = 2u16.into();

    let value = initial / secondary;
    assert!(value == AnyType::UInt16(3u16));
}

#[test]
fn from_anytype_u16() {
    let initial: AnyType = 6u16.into();
    let into: Option<u16> = initial.into();
    assert_eq!(Some(6u16), into);
}

#[test]
fn from_anytype_wrong_kind_is_none() {
    let initial: AnyType = 6u16.into();
    let into: Option<i8> = initial.into();
    assert_eq!(None, into);
}

#[test]
fn null_gives_way_in_addition() {
    assert!(AnyType::Null + AnyType::Int32(4) == AnyType::Int32(4));
    assert!(AnyType::Int32(4) + AnyType::Null == AnyType::Null);
    assert!(AnyType::Null + AnyType::Null == AnyType::Null);
}

#[test]
fn mixed_kinds_give_null() {
    assert!(AnyType::UInt8(1) + AnyType::UInt16(1) == AnyType::Null);
    assert!(AnyType::Utf8("a") - AnyType::UInt8(1) == AnyType::Null);
    assert!(AnyType::Boolean(true) * AnyType::Boolean(true) == AnyType::Null);
}

#[test]
fn overflow_gives_null() {
    assert!(AnyType::UInt8(200) + AnyType::UInt8(100) == AnyType::Null);
    assert!(AnyType::Int8(-128) / AnyType::Int8(-1) == AnyType::Null);
    assert!(AnyType::USize(usize::MAX) * AnyType::USize(2) == AnyType::Null);
}

#[test]
fn division_by_zero_gives_null() {
    assert!(AnyType::UInt16(7) / AnyType::UInt16(0) == AnyType::Null);
    assert!(AnyType::Int32(7) / AnyType::USize(0) == AnyType::Null);
}

#[test]
fn division_rounds_toward_zero() {
    assert!(AnyType::Int32(-7) / AnyType::Int32(2) == AnyType::Int32(-3));
    assert!(AnyType::Int32(7) / AnyType::Int32(-2) == AnyType::Int32(-3));
    assert!(AnyType::Int16(-7) / AnyType::USize(2) == AnyType::Int16(-3));
    assert!(AnyType::Int64(9) / AnyType::ISize(-3) == AnyType::Int64(-3));
    assert!(AnyType::UInt8(9) / AnyType::USize(300) == AnyType::UInt8(0));
}

#[test]
fn products_widen() {
    assert!(AnyType::Int8(-3) * AnyType::Int8(100) == AnyType::ISize(-300));
    assert!(AnyType::UInt32(3) * AnyType::USize(4) == AnyType::USize(12));
    assert!(AnyType::Int16(-3) * AnyType::USize(4) == AnyType::ISize(-12));
    assert!(AnyType::ISize(-3) * AnyType::USize(4) == AnyType::Null);
}

#[test]
fn text_equality_by_content() {
    let owned = String::from("whoop");
    let leaked: &'static str = Box::leak(owned.into_boxed_str());
    assert!(AnyType::Utf8("whoop") == AnyType::Utf8(leaked));
    assert!(AnyType::Utf8("whoop") != AnyType::Utf8("whoops"));
    assert!(AnyType::UInt8(1) != AnyType::UInt16(1));
}

#[test]
fn kinds_name_themselves() {
    assert_eq!(UInt16::dtype(), DataType::UInt16);
    assert_eq!(Utf8::dtype(), DataType::Utf8);
    assert_eq!(AnyType::Int64(3).dtype(), DataType::Int64);
}

#[test]
fn scalars_write_themselves() {
    assert_eq!(AnyType::Int32(-42).to_text(), "-42");
    assert_eq!(AnyType::UInt64(u64::MAX).to_text(), "18446744073709551615");
    assert_eq!(AnyType::USize(0).to_text(), "0");
    assert_eq!(AnyType::Null.to_text(), "null");
    assert_eq!(AnyType::Boolean(false).to_text(), "false");
    assert_eq!(AnyType::Utf8("whoop").to_text(), "whoop");
    assert_eq!(DataType::UInt8.name(), "u8");
    assert_eq!(DataType::Utf8.name(), "&'static str");
}
