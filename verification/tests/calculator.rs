use calc_core::numeral::Numeral;
use calc_core::value_handler::{KeyInput, Operation, ValueHandler, ValueWrap};

fn handler() -> ValueHandler {
    ValueHandler::default()
}

#[test]
fn single_digit_displays_itself() {
    let mut h = handler();
    h.append_digit(7);
    assert_eq!(h.main_display(), "7");
}

#[test]
fn digits_concatenate() {
    let mut h = handler();
    h.append_digit(1);
    h.append_digit(2);
    h.append_digit(3);
    assert_eq!(h.main_display(), "123");
}

#[test]
fn leading_zero_is_absorbed() {
    let mut h = handler();
    h.append_digit(0);
    h.append_digit(5);
    assert_eq!(h.main_display(), "5");
}

#[test]
fn fresh_handler_displays_zero() {
    let h = handler();
    assert_eq!(h.main_display(), "0");
    assert_eq!(h.operation_stack.len(), 0);
}

#[test]
fn digit_after_operator_starts_fresh_value() {
    let mut h = handler();
    h.append_digit(9);
    h.add();
    h.append_digit(4);
    assert_eq!(h.main_display(), "4");
    assert_eq!(h.operation_stack.len(), 2);
    match &h.operation_stack[0] {
        Operation::Value(v) => assert_eq!(v.display_string(), "9"),
        _ => panic!("expected the confirmed value at the bottom of the stack"),
    }
    assert!(matches!(h.operation_stack[1], Operation::Add));
}

#[test]
fn operator_presses_overwrite_each_other() {
    let mut h = handler();
    h.append_digit(9);
    h.add();
    h.subtract();
    h.append_digit(4);
    assert_eq!(h.main_display(), "4");
    assert_eq!(h.operation_stack.len(), 2);
    match &h.operation_stack[0] {
        Operation::Value(v) => assert_eq!(v.display_string(), "9"),
        _ => panic!("expected the confirmed value at the bottom of the stack"),
    }
    assert!(matches!(h.operation_stack[1], Operation::Subtract));
}

#[test]
fn repeated_operators_leave_stack_unchanged() {
    let mut h = handler();
    h.append_digit(6);
    h.add();
    let len_after_first = h.operation_stack.len();
    h.multiply();
    h.divide();
    h.subtract();
    assert_eq!(h.operation_stack.len(), len_after_first);
    assert!(matches!(h.current_operation, Operation::Subtract));
}

#[test]
fn clear_resets_display_and_stack() {
    let mut h = handler();
    h.append_digit(8);
    h.add();
    h.append_digit(2);
    h.multiply();
    h.clear_all();
    assert_eq!(h.main_display(), "0");
    assert_eq!(h.operation_stack.len(), 0);
    assert!(matches!(h.current_operation, Operation::Value(_)));
}

#[test]
fn display_falls_back_to_latest_stacked_value() {
    let mut h = handler();
    h.append_digit(9);
    h.append_digit(9);
    h.add();
    assert_eq!(h.main_display(), "99");
}

#[test]
fn display_is_zero_when_stack_has_no_value() {
    let h = ValueHandler {
        operation_stack: vec![],
        current_operation: Operation::Add,
    };
    assert_eq!(h.main_display(), "0");
}

#[test]
fn confirm_operation_pushes_and_resets() {
    let mut h = handler();
    h.append_digit(4);
    h.confirm_operation();
    assert_eq!(h.operation_stack.len(), 1);
    match &h.operation_stack[0] {
        Operation::Value(v) => assert_eq!(v.display_string(), "4"),
        _ => panic!("expected the confirmed value on the stack"),
    }
    assert_eq!(h.main_display(), "0");
}

#[test]
fn escape_key_clears() {
    let mut h = handler();
    h.handle_key(KeyInput::Num3);
    h.handle_key(KeyInput::Num7);
    assert_eq!(h.main_display(), "37");
    h.handle_key(KeyInput::Escape);
    assert_eq!(h.main_display(), "0");
    assert_eq!(h.operation_stack.len(), 0);
}

#[test]
fn digit_keys_append_their_digit() {
    let mut h = handler();
    h.handle_key(KeyInput::Num1);
    h.handle_key(KeyInput::Num0);
    h.handle_key(KeyInput::Num9);
    assert_eq!(h.main_display(), "109");
}

#[test]
fn wrap_default_renders_zero() {
    let w = ValueWrap::default();
    assert_eq!(w.display_string(), "0");
}

#[test]
fn wrap_append_multiplies_by_ten_and_adds() {
    let mut w = ValueWrap::new();
    w.append_digit(7);
    w.append_digit(3);
    assert_eq!(w.main_value.digits, vec![7, 3]);
    assert_eq!(w.display_string(), "73");
}

#[test]
fn wrap_fractional_digits_append_raw() {
    let mut w = ValueWrap::new();
    w.append_digit(3);
    w.append_to_sub_value();
    w.append_digit(1);
    w.append_digit(4);
    assert_eq!(w.display_string(), "3.14");
}

#[test]
fn decimal_point_alone_renders_trailing_dot() {
    let mut w = ValueWrap::new();
    w.append_digit(3);
    w.append_to_sub_value();
    assert_eq!(w.display_string(), "3.");
}

#[test]
fn second_decimal_point_resets_fraction() {
    let mut w = ValueWrap::new();
    w.append_digit(3);
    w.append_to_sub_value();
    w.append_digit(1);
    w.append_digit(4);
    w.append_to_sub_value();
    assert_eq!(w.display_string(), "3.");
}

#[test]
fn set_negative_is_idempotent() {
    let mut w = ValueWrap::new();
    w.append_digit(5);
    w.set_negative();
    assert_eq!(w.display_string(), "-5");
    w.set_negative();
    assert_eq!(w.display_string(), "-5");
}

#[test]
fn negative_zero_renders_as_minus_zero() {
    let mut w = ValueWrap::new();
    w.set_negative();
    assert_eq!(w.display_string(), "-0");
}

#[test]
fn set_value_replaces_all_fields() {
    let mut w = ValueWrap::new();
    w.set_value(Numeral::from_digits(vec![1, 2, 3]), true, Some(vec![4, 5]));
    assert_eq!(w.display_string(), "-123.45");
}

#[test]
fn wrap_clear_resets_to_zero() {
    let mut w = ValueWrap::new();
    w.append_digit(9);
    w.set_negative();
    w.append_to_sub_value();
    w.append_digit(1);
    w.clear();
    assert_eq!(w.display_string(), "0");
}

#[test]
fn numeral_renders_base_ten() {
    assert_eq!(Numeral::zero().to_decimal_string(), "0");
    assert_eq!(Numeral::from_digit(8).to_decimal_string(), "8");
    let mut n = Numeral::zero();
    n.times10_plus(1);
    n.times10_plus(0);
    n.times10_plus(9);
    assert_eq!(n.to_decimal_string(), "109");
    assert_eq!(n.digits, vec![1, 0, 9]);
}

#[test]
fn numeral_zero_absorbs_leading_zeros() {
    let mut n = Numeral::zero();
    n.times10_plus(0);
    n.times10_plus(0);
    assert_eq!(n.to_decimal_string(), "0");
    n.times10_plus(4);
    assert_eq!(n.to_decimal_string(), "4");
}

#[test]
fn display_round_trips_through_parsing() {
    let mut h = handler();
    h.append_digit(9);
    h.append_digit(8);
    h.append_digit(7);
    let shown = h.main_display();
    let parsed: u64 = shown.parse().expect("display text is a decimal integer");
    assert_eq!(parsed, 987);
}
