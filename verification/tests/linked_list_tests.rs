use rdiff::linked_list::LinkedList;

#[test]
fn new_list_is_empty() {
    let list: LinkedList<u32> = LinkedList::new();
    assert!(list.is_empty());
    assert_eq!(list.get_size(), 0);
}

#[test]
fn push_front_prepends_and_counts() {
    let mut list: LinkedList<u32> = LinkedList::new();
    list.push_front(1);
    assert!(!list.is_empty());
    assert_eq!(list.get_size(), 1);
    list.push_front(2);
    list.push_front(3);
    assert_eq!(list.get_size(), 3);
}

#[test]
fn pop_front_returns_last_pushed_first() {
    let mut list: LinkedList<String> = LinkedList::new();
    list.push_front("a".to_string());
    list.push_front("b".to_string());
    list.push_front("c".to_string());
    assert_eq!(list.pop_front(), Some("c".to_string()));
    assert_eq!(list.pop_front(), Some("b".to_string()));
    assert_eq!(list.get_size(), 1);
    assert_eq!(list.pop_front(), Some("a".to_string()));
    assert!(list.is_empty());
}

#[test]
fn pop_front_on_empty_list_is_none() {
    let mut list: LinkedList<u32> = LinkedList::new();
    assert_eq!(list.pop_front(), None);
    assert_eq!(list.get_size(), 0);
    list.push_front(7);
    assert_eq!(list.pop_front(), Some(7));
    assert_eq!(list.pop_front(), None);
}
