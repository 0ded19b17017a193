use janked_list::list::{JankedList, Linkable};
use janked_list::node::{Nodal, Node, RawDroppable};

#[test]
fn push_runs_count_len() {
    let mut list: JankedList<u64> = JankedList::new();
    assert!(list.is_empty());
    assert!(list.len() == 0);
    list.push_back(7);
    assert!(!list.is_empty());
    assert!(list.len() == 1);
    list.push_front(8);
    list.push_back(9);
    list.push_front(10);
    assert!(!list.is_empty());
    assert!(list.len() == 4);
}

#[test]
fn pop_ends_are_swapped() {
    let mut first: JankedList<i32> = JankedList::new();
    first.push_front(1);
    first.push_front(2);
    assert!(first.pop_tail() == Some(2));

    let mut second: JankedList<i32> = JankedList::new();
    second.push_front(1);
    second.push_front(2);
    assert!(second.pop_head() == Some(1));
}

#[test]
fn pop_scenario_round() {
    let mut list: JankedList<i32> = JankedList::new();
    list.push_back(10);
    list.push_front(100);
    assert!(list.pop_head() == Some(10));
    assert!(list.pop_tail() == Some(100));
    assert!(list.is_empty());
    assert!(list.len() == 0);
}

#[test]
fn pop_on_empty_reports_absence() {
    let mut list: JankedList<i32> = JankedList::new();
    assert!(list.pop_head() == None);
    assert!(list.pop_tail() == None);
    assert!(list.remove_at(0) == None);
    assert!(list.len() == 0);
}

#[test]
fn contains_with_duplicates() {
    let mut list: JankedList<i32> = JankedList::new();
    list.push_back(5);
    list.push_back(6);
    list.push_back(5);
    assert!(list.contains(5));
    assert!(list.remove_at(0) == Some(5));
    assert!(list.contains(5));
    assert!(list.remove_at(1) == Some(5));
    assert!(!list.contains(5));
    assert!(list.contains(6));
}

#[test]
fn insert_then_remove_round_trip() {
    let mut list: JankedList<i32> = JankedList::new();
    list.push_back(1);
    list.push_back(2);
    list.push_back(3);
    for index in 0..4 {
        let before = list.len();
        list.insert_at(index, 42);
        assert!(list.remove_at(index) == Some(42));
        assert!(list.len() == before);
    }
    assert!(list.pop_tail() == Some(1));
    assert!(list.pop_tail() == Some(2));
    assert!(list.pop_tail() == Some(3));
}

#[test]
fn insert_past_end_is_ignored() {
    let mut list: JankedList<i32> = JankedList::new();
    list.push_back(1);
    list.push_back(2);
    list.insert_at(3, 9);
    assert!(list.len() == 2);
    assert!(!list.contains(9));
    list.insert_at(2, 9);
    assert!(list.len() == 3);
    assert!(list.contains(9));
}

#[test]
fn remove_past_end_is_ignored() {
    let mut list: JankedList<i32> = JankedList::new();
    list.push_back(1);
    assert!(list.remove_at(1) == None);
    assert!(list.remove_at(7) == None);
    assert!(list.len() == 1);
}

#[test]
fn cached_len_matches_traversal() {
    let mut list: JankedList<usize> = JankedList::new();
    for x in 0..500 {
        list.push_back(x % 13);
        list.push_front(x % 7);
        if x % 3 == 0 {
            list.remove_at(x % 5);
        }
        if x % 4 == 0 {
            list.insert_at(x % 9, x);
        }
        if x % 11 == 0 {
            list.pop_head();
            list.pop_tail();
        }
        assert!(list.traverse_count() == list.len());
    }
}

#[test]
fn node_accessors() {
    let node: Box<Node<i32>> = Node::new(10);
    assert!(node.value() == 10);
    assert!(node.next().is_none());
    assert!(node.prev().is_none());
    node.raw_dump_drop();
}

#[test]
fn default_is_empty() {
    let list: JankedList<i32> = JankedList::default();
    assert!(list.is_empty());
    let node: Node<i32> = Node::default();
    assert!(node.value() == 0);
    assert!(node.next().is_none());
}
