use caribou::boxed::{Respond, RespondWith, Watch};
use caribou::event::{SingleArg, SingleArgFn, ZeroArg, ZeroArgFn};
use caribou::property::{Notify, NotifyFn};
use std::cell::RefCell;
use std::rc::Rc;

struct Doubles;

impl ZeroArg<u8, u32> for Doubles {
    fn call(&self, widget: &u8) -> u32 {
        u32::from(*widget) * 2
    }
}

impl SingleArg<u8, u32, u32> for Doubles {
    fn call(&self, widget: &u8, value: &u32) -> u32 {
        u32::from(*widget) * 2 + *value
    }
}

#[test]
fn a_boxed_listener_answers_as_its_listener() {
    let boxed: Respond<u8, u32> = Respond::new(Doubles);
    assert_eq!(boxed.call(&4), 8);
    assert_eq!(boxed.call(&0), 0);
    let closure: Respond<u8, u32> = Respond::new(ZeroArgFn::new(|w: &u8| u32::from(*w) + 1));
    assert_eq!(closure.call(&4), 5);
}

#[test]
fn a_boxed_listener_with_payload_answers_as_its_listener() {
    let boxed: RespondWith<u8, u32, u32> = RespondWith::new(Doubles);
    assert_eq!(boxed.call(&4, &1), 9);
    let closure: RespondWith<u8, u32, bool> =
        RespondWith::new(SingleArgFn::new(|w: &u8, v: &u32| u32::from(*w) == *v));
    assert!(closure.call(&4, &4));
    assert!(!closure.call(&4, &5));
}

#[test]
fn a_boxed_watch_shows_its_listener_every_value() {
    let seen: Rc<RefCell<Vec<i32>>> = Rc::new(RefCell::new(Vec::new()));
    let s = seen.clone();
    let boxed: Watch<i32> = Watch::new(NotifyFn::new(move |v: &i32| s.borrow_mut().push(*v)));
    boxed.notice(&3);
    boxed.notice(&-1);
    assert_eq!(*seen.borrow(), vec![3, -1]);
}
