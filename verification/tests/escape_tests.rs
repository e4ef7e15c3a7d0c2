use grapl_core::NodeProperty;
use grapl_core::Property;
use grapl_core::escape_prop;
use grapl_core::escape_quote;
use grapl_core::i64_to_decimal;
use grapl_core::u64_to_decimal;

fn chars(v: Vec<char>) -> String {
    v.into_iter().collect()
}

#[test]
fn plain_string_is_just_quoted() {
    assert_eq!(escape_quote("hello").as_str(), "\"hello\"");
    assert_eq!(escape_quote("").as_str(), "\"\"");
}

#[test]
fn quotes_and_backslashes_are_escaped() {
    assert_eq!(escape_quote("a\"b").as_str(), "\"a\\\"b\"");
    assert_eq!(escape_quote("a\\b").as_str(), "\"a\\\\b\"");
    assert_eq!(escape_quote("\\\"").as_str(), "\"\\\\\\\"\"");
}

#[test]
fn unicode_passes_through_unescaped() {
    assert_eq!(escape_quote("héllo wörld").as_str(), "\"héllo wörld\"");
}

#[test]
fn unsigned_decimal_rendering() {
    assert_eq!(chars(u64_to_decimal(0)), "0");
    assert_eq!(chars(u64_to_decimal(7)), "7");
    assert_eq!(chars(u64_to_decimal(1203)), "1203");
    assert_eq!(chars(u64_to_decimal(u64::MAX)), "18446744073709551615");
}

#[test]
fn signed_decimal_rendering() {
    assert_eq!(chars(i64_to_decimal(0)), "0");
    assert_eq!(chars(i64_to_decimal(42)), "42");
    assert_eq!(chars(i64_to_decimal(-42)), "-42");
    assert_eq!(chars(i64_to_decimal(i64::MIN)), "-9223372036854775808");
    assert_eq!(chars(i64_to_decimal(i64::MAX)), "9223372036854775807");
}

#[test]
fn integer_properties_are_rendered_then_quoted() {
    let p = NodeProperty { property: Property::ImmutableIntProp(-42) };
    assert_eq!(escape_prop(&p).as_str(), "\"-42\"");

    let p = NodeProperty { property: Property::IncrementOnlyUintProp(0) };
    assert_eq!(escape_prop(&p).as_str(), "\"0\"");

    let p = NodeProperty { property: Property::DecrementOnlyIntProp(i64::MIN) };
    assert_eq!(escape_prop(&p).as_str(), "\"-9223372036854775808\"");

    let p = NodeProperty { property: Property::ImmutableUintProp(u64::MAX) };
    assert_eq!(escape_prop(&p).as_str(), "\"18446744073709551615\"");
}

#[test]
fn string_property_is_escaped_as_it_is() {
    let p = NodeProperty { property: Property::ImmutableStrProp(String::from("C:\\dir\\\"x\"")) };
    assert_eq!(escape_prop(&p).as_str(), "\"C:\\\\dir\\\\\\\"x\\\"\"");
}
