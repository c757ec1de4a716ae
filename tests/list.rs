use rust_toylock::list::{LockCoupledList, Node};
use rust_toylock::spin_lock::SpinLock;
use rust_toylock::ticket_lock::TicketLock;
use rust_toylock::CLH_lock::CLHLock;
use rust_toylock::CMS_lock::CmsLock;

#[test]
fn list_test() {
    let mut list: LockCoupledList<u32, TicketLock<Node<u32>>> = LockCoupledList::new();
    assert_eq!(list.len(), 0);
    assert_eq!(list.get(0), None);
}

#[test]
fn list_get_walks_to_index() {
    let mut list: LockCoupledList<u32, TicketLock<Node<u32>>> = LockCoupledList::new();
    for x in [10u32, 20, 30, 40] {
        list.push(x);
    }
    assert_eq!(list.len(), 4);
    assert_eq!(list.get(0), Some(10));
    assert_eq!(list.get(3), Some(40));
    assert_eq!(list.get(2), Some(30));
    assert_eq!(list.get(4), None);
    // every lock is free again: the same walk works twice
    assert_eq!(list.get(3), Some(40));
}

#[test]
fn list_over_every_lock() {
    let mut a: LockCoupledList<i64, SpinLock<Node<i64>>> = LockCoupledList::new();
    let mut b: LockCoupledList<i64, CLHLock<Node<i64>>> = LockCoupledList::new();
    let mut c: LockCoupledList<i64, CmsLock<Node<i64>>> = LockCoupledList::new();
    for x in [-1i64, 5, 9] {
        a.push(x);
        b.push(x);
        c.push(x);
    }
    for _ in 0..3 {
        assert_eq!(a.get(1), Some(5));
        assert_eq!(b.get(2), Some(9));
        assert_eq!(c.get(0), Some(-1));
        assert_eq!(c.get(2), Some(9));
    }
    assert_eq!(b.get(3), None);
}

#[test]
fn list_node_new() {
    let _n = Node::new(3u8);
}
