use grpc_echo::json::{encode_response, quote};
use grpc_echo::text::{decimal, push_decimal};

#[test]
fn decimal_renders_integers() {
    assert_eq!(decimal(0), "0");
    assert_eq!(decimal(7), "7");
    assert_eq!(decimal(10), "10");
    assert_eq!(decimal(-305), "-305");
    assert_eq!(decimal(i64::MAX), "9223372036854775807");
    assert_eq!(decimal(i64::MIN), "-9223372036854775808");
}

#[test]
fn push_decimal_appends() {
    let mut s = String::from("Echo ");
    push_decimal(&mut s, 3);
    assert_eq!(s, "Echo 3");
}

#[test]
fn quote_plain_text() {
    assert_eq!(quote("echo"), "\"echo\"");
    assert_eq!(quote(""), "\"\"");
    assert_eq!(quote("héllo ✓"), "\"héllo ✓\"");
}

#[test]
fn quote_escapes_special_characters() {
    assert_eq!(quote("a\"b"), "\"a\\\"b\"");
    assert_eq!(quote("back\\slash"), "\"back\\\\slash\"");
    assert_eq!(quote("line\nbreak\ttab\r"), "\"line\\nbreak\\ttab\\r\"");
    assert_eq!(quote("\u{8}\u{c}"), "\"\\b\\f\"");
    assert_eq!(quote("\u{1}\u{1f}"), "\"\\u0001\\u001f\"");
    assert_eq!(quote("/"), "\"/\"");
}

#[test]
fn encode_response_writes_fields_in_order() {
    assert_eq!(
        encode_response("echo", "Echo: hi", 1700000000),
        "{\"method\":\"echo\",\"message\":\"Echo: hi\",\"timestamp\":1700000000}"
    );
    assert_eq!(
        encode_response("serverStream", "say \"hi\"", -1),
        "{\"method\":\"serverStream\",\"message\":\"say \\\"hi\\\"\",\"timestamp\":-1}"
    );
}
