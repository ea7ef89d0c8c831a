use befunge_rust::interpreter::{DebugOutput, Stack};

#[test]
fn pop_on_empty_gives_zero() {
    let mut stack = Stack::new();
    assert_eq!(stack.pop(), 0);
    assert_eq!(stack.pop(), 0);
    assert!(stack.is_empty());
    stack.push(3);
    assert_eq!(stack.pop(), 3);
    assert_eq!(stack.pop(), 0);
    assert_eq!(stack.len(), 0);
    stack.swap_top();
    stack.duplicate_top();
    assert_eq!(stack.pop(), 0);
    assert_eq!(stack.len(), 0);
}

#[test]
fn push_pop_is_last_in_first_out() {
    let mut stack = Stack::default();
    assert!(stack.is_empty());
    assert_eq!(stack.peek(), None);
    stack.push(1);
    stack.push(-2);
    stack.push(3);
    assert_eq!(stack.len(), 3);
    assert!(!stack.is_empty());
    assert_eq!(stack.peek(), Some(&3));
    assert_eq!(*stack.values(), [1, -2, 3]);
    assert_eq!(stack.pop(), 3);
    assert_eq!(stack.pop(), -2);
    assert_eq!(stack.peek(), Some(&1));
    assert_eq!(stack.pop(), 1);
    assert_eq!(stack.peek(), None);
}

#[test]
fn swap_top_needs_two_values() {
    let mut stack = Stack::new();
    stack.swap_top();
    assert!(stack.is_empty());
    stack.push(1);
    stack.swap_top();
    assert_eq!(*stack.values(), [1]);
    stack.push(2);
    stack.push(3);
    stack.swap_top();
    assert_eq!(*stack.values(), [1, 3, 2]);
}

#[test]
fn duplicate_top_needs_a_value() {
    let mut stack = Stack::new();
    stack.duplicate_top();
    assert!(stack.is_empty());
    assert_eq!(stack.len(), 0);
    stack.push(0);
    stack.duplicate_top();
    assert_eq!(*stack.values(), [0, 0]);
    stack.push(9);
    stack.duplicate_top();
    assert_eq!(*stack.values(), [0, 0, 9, 9]);
}

#[test]
fn values_are_shown_in_hexadecimal() {
    assert_eq!(Stack::format_value(0), b"0x00".to_vec());
    assert_eq!(Stack::format_value(10), b"0x0A".to_vec());
    assert_eq!(Stack::format_value(0x1F), b"0x1F".to_vec());
    assert_eq!(Stack::format_value(0x20), b"0x20 (' ')".to_vec());
    assert_eq!(Stack::format_value(0x41), b"0x41 ('A')".to_vec());
    assert_eq!(Stack::format_value(0x7E), b"0x7E ('~')".to_vec());
    assert_eq!(Stack::format_value(0x7F), b"0x7F".to_vec());
    assert_eq!(Stack::format_value(0x100), b"0x100".to_vec());
    assert_eq!(Stack::format_value(0xABCDEF), b"0xABCDEF".to_vec());
    assert_eq!(Stack::format_value(-1), b"0xFFFFFFFFFFFFFFFF".to_vec());
    assert_eq!(Stack::format_value(i64::MIN), b"0x8000000000000000".to_vec());
    assert_eq!(Stack::format_value(i64::MAX), b"0x7FFFFFFFFFFFFFFF".to_vec());
}

#[test]
fn stack_is_shown_between_brackets() {
    let mut stack = Stack::new();
    assert_eq!(stack.render(), b"[]".to_vec());
    stack.push(0x41);
    assert_eq!(stack.render(), b"[0x41 ('A')]".to_vec());
    stack.push(5);
    stack.push(-1);
    assert_eq!(stack.render(), b"[0x41 ('A'), 0x05, 0xFFFFFFFFFFFFFFFF]".to_vec());
    let mut out = b"Stack: ".to_vec();
    stack.render_into(&mut out);
    assert_eq!(out, b"Stack: [0x41 ('A'), 0x05, 0xFFFFFFFFFFFFFFFF]".to_vec());
    let mut out = b"> ".to_vec();
    Stack::push_value(&mut out, 0x30);
    assert_eq!(out, b"> 0x30 ('0')".to_vec());
}

#[test]
fn debug_output_keeps_its_switch() {
    assert!(DebugOutput::new(true).is_enabled());
    assert!(!DebugOutput::new(false).is_enabled());
}
