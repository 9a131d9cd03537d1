use std::cell::RefCell;
use std::rc::Rc;

use cracktorio_bot::state::{PersistedState, State};

#[test]
fn default_state_is_empty() {
    let s = State::default();
    assert_eq!(s.current_factorio_version, "");
    assert_eq!(s.latest_factorio_version, "");
    assert_eq!(s.last_chat_message, "");
    assert_eq!(s.latest_fff, "");
}

#[test]
fn write_changes_value_and_saves_it() {
    let saved: Rc<RefCell<Vec<u64>>> = Rc::new(RefCell::new(Vec::new()));
    let log = saved.clone();
    let mut st = PersistedState::new(1u64, move |v: &u64| log.borrow_mut().push(*v));
    assert_eq!(*st, 1);
    assert!(saved.borrow().is_empty());
    {
        let mut guard = st.write();
        assert_eq!(*guard, 1);
        *guard.deref_mut() = 5;
        assert_eq!(*guard, 5);
        guard.drop();
    }
    assert_eq!(*st, 5);
    assert_eq!(*saved.borrow(), vec![5]);
}

#[test]
fn only_the_final_value_of_a_write_is_saved() {
    let saved: Rc<RefCell<Vec<String>>> = Rc::new(RefCell::new(Vec::new()));
    let log = saved.clone();
    let mut st = PersistedState::new(State::default(), move |s: &State| {
        log.borrow_mut().push(s.latest_fff.clone())
    });
    let mut guard = st.write();
    guard.deref_mut().latest_fff = "a".to_string();
    guard.deref_mut().latest_fff = "b".to_string();
    guard.drop();
    assert_eq!(st.latest_fff, "b");
    assert_eq!(*saved.borrow(), vec!["b".to_string()]);
}

#[test]
fn every_dropped_guard_saves_once() {
    let saved: Rc<RefCell<Vec<u64>>> = Rc::new(RefCell::new(Vec::new()));
    let log = saved.clone();
    let mut st = PersistedState::new(0u64, move |v: &u64| log.borrow_mut().push(*v));
    for k in 1..=3u64 {
        let mut guard = st.write();
        *guard.deref_mut() = k * 10;
        guard.drop();
        assert_eq!(saved.borrow().len() as u64, k);
        assert_eq!(*saved.borrow().last().unwrap(), *st);
    }
    let guard = st.write();
    guard.drop();
    assert_eq!(*saved.borrow(), vec![10, 20, 30, 30]);
    let _ = st.write();
    assert_eq!(saved.borrow().len(), 4);
}
