use chip::stack::{Stack, STACK_SIZE};

#[test]
fn test_stack_capacity() {
    let mut stack = Stack::default();

    for _ in 0..STACK_SIZE {
        stack.push(1);
    }

    for _ in 0..STACK_SIZE {
        stack.pop();
    }
}

#[test]
fn sixteen_addresses_come_back_in_reverse() {
    let mut stack = Stack::default();
    assert_eq!(stack.len(), 0);

    for k in 0..16u16 {
        stack.push(0x200 + 2 * k);
        assert_eq!(stack.len(), k as usize + 1);
    }

    for k in (0..16u16).rev() {
        assert_eq!(stack.pop(), 0x200 + 2 * k);
        assert_eq!(stack.len(), k as usize);
    }
}

#[test]
fn pushes_and_pops_interleave() {
    let mut stack = Stack::default();

    stack.push(1);
    stack.push(2);
    assert_eq!(stack.pop(), 2);
    stack.push(3);
    stack.push(0xFFFF);
    assert_eq!(stack.pop(), 0xFFFF);
    assert_eq!(stack.pop(), 3);
    assert_eq!(stack.pop(), 1);
    assert_eq!(stack.len(), 0);
}

#[test]
fn a_full_stack_says_so() {
    let mut stack = Stack::default();

    for k in 0..STACK_SIZE {
        stack.push(k as u16);
    }

    assert_eq!(stack.len(), STACK_SIZE);
    assert_eq!(STACK_SIZE, 16);
}
