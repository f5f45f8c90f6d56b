use sbl::{Stack, EMPTY_SLOT};

#[test]
fn new_stack_is_empty() {
    let s = Stack::new(4);
    assert_eq!(s.pointer(), 0);
    assert_eq!(s.top(), EMPTY_SLOT);
    assert_eq!(s.get_stack(), Vec::<i32>::new());
}

#[test]
fn push_does_not_move_cursor() {
    let mut s = Stack::new(4);
    s.push(7);
    s.push(9);
    assert_eq!(s.pointer(), 0);
    assert_eq!(s.top(), 9);
    assert_eq!(s.get_stack(), vec![9]);
}

#[test]
fn pop_clears_and_moves_down() {
    let mut s = Stack::new(4);
    s.push(1);
    s.increment_pointer();
    s.push(2);
    assert_eq!(s.pop(), 2);
    assert_eq!(s.pointer(), 0);
    assert_eq!(s.slot(1), EMPTY_SLOT);
    assert_eq!(s.pop(), 1);
    assert_eq!(s.pointer(), 0);
    assert_eq!(s.pop(), EMPTY_SLOT);
    assert_eq!(s.get_stack(), Vec::<i32>::new());
}

#[test]
fn cursor_is_clamped() {
    let mut s = Stack::new(2);
    s.decrement_pointer();
    assert_eq!(s.pointer(), 0);
    s.increment_pointer();
    s.increment_pointer();
    s.increment_pointer();
    assert_eq!(s.pointer(), 1);
    s.decrement_pointer();
    assert_eq!(s.pointer(), 0);
}

#[test]
fn snapshot_is_in_tape_order() {
    let mut s = Stack::new(5);
    s.increment_pointer();
    s.increment_pointer();
    s.push(30);
    s.decrement_pointer();
    s.decrement_pointer();
    s.push(10);
    assert_eq!(s.get_stack(), vec![10, 30]);
}
