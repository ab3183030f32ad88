use refcell::Ref;
use refcell::RefCell;
use refcell::RefMut;
use refcell::Tracker;

#[test]
fn new_cell_is_unshared() {
    let cell = RefCell::new(7_i32);
    assert_eq!(cell.state(), Tracker::Unshared);
}

#[test]
fn shared_request_granted_from_unshared() {
    let mut cell = RefCell::new(7_i32);
    let guard: Ref = cell.borrow().unwrap();
    assert_eq!(cell.state(), Tracker::Shared(1));
    assert_eq!(*guard.get(&cell), 7);
    guard.release(&mut cell);
    assert_eq!(cell.state(), Tracker::Unshared);
}

#[test]
fn shared_requests_stack() {
    let mut cell = RefCell::new(3_u64);
    let a = cell.borrow().unwrap();
    let b = cell.borrow().unwrap();
    let c = cell.borrow().unwrap();
    assert_eq!(cell.state(), Tracker::Shared(3));
    assert_eq!(*a.get(&cell), 3);
    assert_eq!(*b.get(&cell), 3);
    assert_eq!(*c.get(&cell), 3);
    c.release(&mut cell);
    assert_eq!(cell.state(), Tracker::Shared(2));
    b.release(&mut cell);
    a.release(&mut cell);
    assert_eq!(cell.state(), Tracker::Unshared);
}

#[test]
fn exclusive_denied_while_shared_live() {
    let mut cell = RefCell::new(0_i32);
    let guard = cell.borrow().unwrap();
    assert!(cell.borrow_mut().is_none());
    assert_eq!(cell.state(), Tracker::Shared(1));
    guard.release(&mut cell);
}

#[test]
fn shared_denied_while_exclusive_live() {
    let mut cell = RefCell::new(0_i32);
    let guard = cell.borrow_mut().unwrap();
    assert!(cell.borrow().is_none());
    assert_eq!(cell.state(), Tracker::Exclusive);
    guard.release(&mut cell);
}

#[test]
fn second_exclusive_request_denied() {
    let mut cell = RefCell::new(1_u8);
    let first = cell.borrow_mut().unwrap();
    assert!(cell.borrow_mut().is_none());
    assert_eq!(cell.state(), Tracker::Exclusive);
    first.release(&mut cell);
    assert_eq!(cell.state(), Tracker::Unshared);
}

#[test]
fn releasing_all_shared_enables_exclusive() {
    let mut cell = RefCell::new(9_i32);
    let a = cell.borrow().unwrap();
    let b = cell.borrow().unwrap();
    assert!(cell.borrow_mut().is_none());
    a.release(&mut cell);
    assert!(cell.borrow_mut().is_none());
    b.release(&mut cell);
    assert_eq!(cell.state(), Tracker::Unshared);
    let writer = cell.borrow_mut().unwrap();
    assert_eq!(cell.state(), Tracker::Exclusive);
    writer.release(&mut cell);
}

#[test]
fn repeated_denials_never_corrupt_shared_count() {
    let mut cell = RefCell::new(5_i32);
    let a = cell.borrow().unwrap();
    let b = cell.borrow().unwrap();
    assert!(cell.borrow_mut().is_none());
    assert!(cell.borrow_mut().is_none());
    assert!(cell.borrow_mut().is_none());
    assert_eq!(cell.state(), Tracker::Shared(2));
    a.release(&mut cell);
    b.release(&mut cell);
    assert_eq!(cell.state(), Tracker::Unshared);
}

#[test]
fn repeated_denials_while_exclusive_live() {
    let mut cell = RefCell::new(5_i32);
    let writer: RefMut = cell.borrow_mut().unwrap();
    assert!(cell.borrow().is_none());
    assert!(cell.borrow_mut().is_none());
    assert!(cell.borrow().is_none());
    assert!(cell.borrow_mut().is_none());
    assert_eq!(cell.state(), Tracker::Exclusive);
    writer.release(&mut cell);
    assert_eq!(cell.state(), Tracker::Unshared);
}

#[test]
fn write_then_read_round_trip() {
    let mut cell = RefCell::new(1_i32);
    let writer = cell.borrow_mut().unwrap();
    *writer.get_mut(&mut cell) = 99;
    assert_eq!(*writer.get(&cell), 99);
    writer.release(&mut cell);
    let reader = cell.borrow().unwrap();
    assert_eq!(*reader.get(&cell), 99);
    reader.release(&mut cell);
}

#[test]
fn write_then_read_round_trip_string() {
    let mut cell = RefCell::new(String::from("before"));
    let writer = cell.borrow_mut().unwrap();
    *writer.get_mut(&mut cell) = String::from("after");
    writer.release(&mut cell);
    let reader = cell.borrow().unwrap();
    assert_eq!(reader.get(&cell).as_str(), "after");
    reader.release(&mut cell);
}

#[test]
fn scenario_shared_shared_exclusive_write_read() {
    let mut cell = RefCell::new(0_i32);
    let a = cell.borrow().unwrap();
    assert_eq!(cell.state(), Tracker::Shared(1));
    let b = cell.borrow().unwrap();
    assert_eq!(cell.state(), Tracker::Shared(2));
    assert!(cell.borrow_mut().is_none());
    a.release(&mut cell);
    assert_eq!(cell.state(), Tracker::Shared(1));
    b.release(&mut cell);
    assert_eq!(cell.state(), Tracker::Unshared);
    let c = cell.borrow_mut().unwrap();
    assert_eq!(cell.state(), Tracker::Exclusive);
    *c.get_mut(&mut cell) = 42;
    c.release(&mut cell);
    assert_eq!(cell.state(), Tracker::Unshared);
    let d = cell.borrow().unwrap();
    assert_eq!(*d.get(&cell), 42);
    d.release(&mut cell);
}

#[test]
fn guards_can_be_released_in_any_order() {
    let mut cell = RefCell::new(1_i32);
    let a = cell.borrow().unwrap();
    let b = cell.borrow().unwrap();
    a.release(&mut cell);
    assert_eq!(cell.state(), Tracker::Shared(1));
    assert_eq!(*b.get(&cell), 1);
    b.release(&mut cell);
    assert_eq!(cell.state(), Tracker::Unshared);
}

#[test]
fn value_survives_shared_traffic() {
    let mut cell = RefCell::new(8_i32);
    let a = cell.borrow().unwrap();
    let b = cell.borrow().unwrap();
    b.release(&mut cell);
    assert!(cell.borrow_mut().is_none());
    assert_eq!(*a.get(&cell), 8);
    a.release(&mut cell);
    let reader = cell.borrow().unwrap();
    assert_eq!(*reader.get(&cell), 8);
    reader.release(&mut cell);
}

#[test]
fn exclusive_write_twice_keeps_last_value() {
    let mut cell = RefCell::new(0_i32);
    let writer = cell.borrow_mut().unwrap();
    *writer.get_mut(&mut cell) = 10;
    *writer.get_mut(&mut cell) = 20;
    writer.release(&mut cell);
    let reader = cell.borrow().unwrap();
    assert_eq!(*reader.get(&cell), 20);
    reader.release(&mut cell);
}
