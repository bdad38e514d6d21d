//! The singly linked list.

use deet::linked_list::{LinkedList, Node};

fn list_of(values: &[u32]) -> LinkedList<u32> {
    let mut list = LinkedList::new();
    for value in values.iter().rev() {
        list.push_front(*value);
    }
    list
}

fn values_of<T: Clone>(list: &LinkedList<T>) -> Vec<T> {
    let mut walk = list.iter();
    let mut values = Vec::new();
    while let Some(value) = walk.next() {
        values.push(value.clone());
    }
    values
}

#[test]
fn new_list_is_empty() {
    let list: LinkedList<String> = LinkedList::new();
    assert!(list.is_empty());
    assert_eq!(list.get_size(), 0);
    assert_eq!(values_of(&list), Vec::<String>::new());
}

#[test]
fn push_front_puts_values_in_front() {
    let mut list: LinkedList<String> = LinkedList::new();
    for i in 1..12 {
        list.push_front(i.to_string());
    }
    assert!(!list.is_empty());
    assert_eq!(list.get_size(), 11);
    assert_eq!(
        values_of(&list),
        vec!["11", "10", "9", "8", "7", "6", "5", "4", "3", "2", "1"]
    );
}

#[test]
fn pop_front_takes_the_first_value() {
    let mut list = list_of(&[3, 2, 1]);
    assert_eq!(list.pop_front(), Some(3));
    assert_eq!(list.get_size(), 2);
    assert_eq!(values_of(&list), vec![2, 1]);
    assert_eq!(list.pop_front(), Some(2));
    assert_eq!(list.pop_front(), Some(1));
    assert!(list.is_empty());
    assert_eq!(list.pop_front(), None);
    assert_eq!(list.get_size(), 0);
    list.push_front(9);
    assert_eq!(values_of(&list), vec![9]);
}

#[test]
fn a_cell_can_be_made_alone() {
    let tail = Node::new(2u8, None);
    let _head = Node::new(1u8, Some(Box::new(tail)));
}

#[test]
fn clone_copies_every_value() {
    let list = list_of(&[5, 6, 7]);
    let mut copy = list.clone();
    assert_eq!(values_of(&copy), vec![5, 6, 7]);
    assert_eq!(copy.get_size(), 3);
    assert!(list == copy);
    copy.push_front(4);
    assert_eq!(values_of(&list), vec![5, 6, 7]);
    assert_eq!(values_of(&copy), vec![4, 5, 6, 7]);
}

#[test]
fn lists_are_equal_value_by_value() {
    assert!(list_of(&[]) == list_of(&[]));
    assert!(list_of(&[1, 2, 3]) == list_of(&[1, 2, 3]));
    assert!(list_of(&[1, 2, 3]) != list_of(&[1, 2, 4]));
    assert!(list_of(&[1, 2, 3]) != list_of(&[0, 2, 3]));
    assert!(list_of(&[1, 2, 3]) != list_of(&[1, 2]));
    assert!(list_of(&[1, 2]) != list_of(&[1, 2, 3]));
    assert!(list_of(&[]) != list_of(&[0]));
    let mut list = list_of(&[1, 2, 3]);
    let mut copy = list.clone();
    list.pop_front();
    copy.push_front(32);
    assert!(list != copy);
}

#[test]
fn a_walk_ends_and_stays_at_the_end() {
    let list = list_of(&[1, 2]);
    let mut walk = list.iter();
    assert_eq!(walk.next(), Some(&1));
    assert_eq!(walk.next(), Some(&2));
    assert_eq!(walk.next(), None);
    assert_eq!(walk.next(), None);
    assert_eq!(list.get_size(), 2);
}

#[test]
fn render_puts_a_space_before_every_value() {
    assert_eq!(list_of(&[]).render(), "");
    assert_eq!(list_of(&[7]).render(), " 7");
    assert_eq!(list_of(&[3, 2, 1]).render(), " 3 2 1");
    let mut words: LinkedList<String> = LinkedList::new();
    for i in 1..12 {
        words.push_front(i.to_string());
    }
    assert_eq!(words.render(), " 11 10 9 8 7 6 5 4 3 2 1");
    words.pop_front();
    assert_eq!(words.render(), " 10 9 8 7 6 5 4 3 2 1");
}
