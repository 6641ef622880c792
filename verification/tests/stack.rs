use toast::gss::Stack;

#[test]
fn empty_stack_has_nothing() {
    let mut s: Stack<u16> = Stack::empty();
    assert!(s.is_empty());
    assert_eq!(s.peek(), None);
    assert_eq!(s.pop(), None);
    assert_eq!(s.to_vec(), Vec::<u16>::new());
    assert_eq!(s.peek_n(3), Vec::<u16>::new());
}

#[test]
fn push_then_pop_returns_the_item() {
    let mut s: Stack<u16> = Stack::empty();
    s.push(1);
    s.push(2);
    s.push(3);
    assert_eq!(s.len, 3);
    assert_eq!(s.peek(), Some(3));
    assert_eq!(s.pop(), Some(3));
    assert_eq!(s.pop(), Some(2));
    assert_eq!(s.len, 1);
    assert_eq!(s.to_vec(), vec![1]);
}

#[test]
fn peek_n_is_bottom_first_and_leaves_the_stack() {
    let s = Stack::from(&vec![10u16, 20, 30, 40]);
    assert_eq!(s.peek_n(2), vec![30, 40]);
    assert_eq!(s.peek_n(0), Vec::<u16>::new());
    assert_eq!(s.peek_n(9), vec![10, 20, 30, 40]);
    assert_eq!(s.to_vec(), vec![10, 20, 30, 40]);
    assert_eq!(s.len, 4);
}

#[test]
fn a_clone_is_not_changed_by_its_source() {
    let mut s = Stack::from(&vec![1u16, 2]);
    let fork = s.clone();
    s.push(3);
    assert_eq!(fork.to_vec(), vec![1, 2]);
    assert_eq!(s.to_vec(), vec![1, 2, 3]);
    assert!(!s.same_items(&fork));
    assert!(s != fork);
    s.pop();
    assert!(s.same_items(&fork));
    assert!(s == fork);
    assert!(fork == Stack::from(&vec![1u16, 2]));
    assert!(fork != Stack::from(&vec![1u16, 3]));
    assert!(fork != Stack::from(&vec![2u16]));
    assert!(Stack::<u16>::empty() == Stack::empty());
}

#[test]
fn eq_vec_compares_bottom_first() {
    let s = Stack::from(&vec![1u16, 2, 3]);
    assert!(s.eq_vec(&vec![1, 2, 3]));
    assert!(!s.eq_vec(&vec![3, 2, 1]));
    assert!(!s.eq_vec(&vec![1, 2]));
}

#[test]
fn iter_walks_from_the_top() {
    let s = Stack::from(&vec![1u16, 2, 3]);
    let mut it = s.iter();
    assert_eq!(it.next(), Some(3));
    assert_eq!(it.next(), Some(2));
    assert_eq!(it.next(), Some(1));
    assert_eq!(it.next(), None);
    assert_eq!(it.next(), None);
}
