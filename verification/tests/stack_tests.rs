use lists::stack::List;

#[test]
fn basics() {
    let mut list = List::new();

    assert_eq!(list.pop(), None);

    list.push(1);
    list.push(2);
    list.push(3);

    assert_eq!(list.pop(), Some(3));
    assert_eq!(list.pop(), Some(2));

    list.push(4);
    list.push(5);

    assert_eq!(list.pop(), Some(5));
    assert_eq!(list.pop(), Some(4));
    assert_eq!(list.pop(), Some(1));
    assert_eq!(list.pop(), None);
}

#[test]
fn pop_on_fresh_stack_is_none() {
    let mut list = List::new();
    assert_eq!(list.pop(), None);
    assert_eq!(list.pop(), None);
}

#[test]
fn pops_return_pushes_in_reverse() {
    let mut list = List::new();
    let mut v: i32 = 1;
    while v <= 5 {
        list.push(v);
        v += 1;
    }
    let mut expected: i32 = 5;
    while expected >= 1 {
        assert_eq!(list.pop(), Some(expected));
        expected -= 1;
    }
    assert_eq!(list.pop(), None);
}

#[test]
fn interleaved_pops_return_latest_unpopped() {
    let mut list = List::new();
    list.push(10);
    list.push(20);
    assert_eq!(list.pop(), Some(20));
    list.push(30);
    list.push(40);
    assert_eq!(list.pop(), Some(40));
    assert_eq!(list.pop(), Some(30));
    list.push(50);
    assert_eq!(list.pop(), Some(50));
    assert_eq!(list.pop(), Some(10));
    assert_eq!(list.pop(), None);
}

#[test]
fn drained_stack_behaves_like_fresh() {
    let mut list = List::new();
    list.push(1);
    list.push(2);
    assert_eq!(list.pop(), Some(2));
    assert_eq!(list.pop(), Some(1));

    // Fully drained: from here on it answers exactly like a new stack.
    assert_eq!(list.pop(), None);
    list.push(7);
    assert_eq!(list.pop(), Some(7));
    assert_eq!(list.pop(), None);
}

#[test]
fn teardown_of_long_stack_does_not_recurse() {
    let mut list = List::new();
    let mut i: i32 = 0;
    while i < 100_000 {
        list.push(i);
        i += 1;
    }
    // Dropping the stack must release all nodes iteratively; a recursive
    // release of a chain this long would overflow the call stack.
    drop(list);
}
