use chat_relay::text::chat_line;
use chat_relay::text::decimal_i32;
use chat_relay::text::decimal_u32;
use chat_relay::text::join_line;

#[test]
fn decimal_of_zero() {
    assert_eq!(decimal_u32(0), "0");
    assert_eq!(decimal_i32(0), "0");
}

#[test]
fn decimal_of_small_numbers() {
    assert_eq!(decimal_u32(7), "7");
    assert_eq!(decimal_u32(10), "10");
    assert_eq!(decimal_u32(123456), "123456");
}

#[test]
fn decimal_of_negative_numbers() {
    assert_eq!(decimal_i32(-1), "-1");
    assert_eq!(decimal_i32(-45), "-45");
}

#[test]
fn decimal_of_extremes() {
    assert_eq!(decimal_i32(i32::MAX), "2147483647");
    assert_eq!(decimal_i32(i32::MIN), "-2147483648");
    assert_eq!(decimal_u32(u32::MAX), "4294967295");
}

#[test]
fn join_announcement_wire_text() {
    assert_eq!(join_line(7, 3), "User 7 joined room 3 and is online");
    assert_eq!(join_line(42, 99), "User 42 joined room 99 and is online");
}

#[test]
fn chat_message_wire_text() {
    assert_eq!(chat_line(1, "hello"), "User 1: hello");
    assert_eq!(chat_line(7, "hi"), "User 7: hi");
    assert_eq!(chat_line(3, ""), "User 3: ");
}
