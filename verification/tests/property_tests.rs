use caribou::handle::{Widget, WidgetRef};
use caribou::math::IntPair;
use caribou::property::{Listener, Mute, Notify, NotifyFn, Property, PropertyInit};
use std::cell::RefCell;
use std::rc::Rc;

struct Recorder<T: Clone> {
    seen: Rc<RefCell<Vec<T>>>,
}

impl<T: Clone> Notify<T> for Recorder<T> {
    fn notice(&self, value: &T) {
        self.seen.borrow_mut().push(value.clone());
    }
}

fn recorded<T: Clone>() -> (Rc<RefCell<Vec<T>>>, Recorder<T>) {
    let seen = Rc::new(RefCell::new(Vec::new()));
    (seen.clone(), Recorder { seen })
}

fn owner() -> WidgetRef {
    WidgetRef { slot: Some(1) }
}

#[test]
fn new_property_holds_its_initial_value() {
    let p: Property<i32, Mute> = Property::new(5, owner());
    assert_eq!(*p.get(), 5);
    assert_eq!(p.get_copy(), 5);
    assert_eq!(p.get_cloned(), 5);
    assert_eq!(p.back_ref(), owner());
}

#[test]
fn set_shows_the_new_value_to_every_listener_then_stores_it() {
    let (first, a) = recorded::<i32>();
    let (second, b) = recorded::<i32>();
    let mut p = Property::new(1, owner());
    p.listen(a);
    p.listen(b);
    p.set(7);
    assert_eq!(*first.borrow(), vec![7]);
    assert_eq!(*second.borrow(), vec![7]);
    assert_eq!(*p.get(), 7);
    p.set(9);
    assert_eq!(*first.borrow(), vec![7, 9]);
    assert_eq!(*p.get(), 9);
}

#[test]
fn listeners_are_told_in_subscription_order() {
    let order: Rc<RefCell<Vec<&'static str>>> = Rc::new(RefCell::new(Vec::new()));
    let mut p = Property::new(0, owner());
    let a = order.clone();
    p.listen(NotifyFn::new(move |_v: &i32| a.borrow_mut().push("first")));
    p.set(1);
    assert_eq!(*order.borrow(), vec!["first"]);
}

#[test]
fn inform_repeats_the_current_value() {
    let (seen, a) = recorded::<i32>();
    let mut p = Property::new(3, owner());
    p.listen(a);
    p.inform();
    p.inform();
    assert_eq!(*seen.borrow(), vec![3, 3]);
    assert_eq!(*p.get(), 3);
}

#[test]
fn unlisten_removes_the_listener_and_keeps_the_order() {
    let (first, a) = recorded::<i32>();
    let (second, b) = recorded::<i32>();
    let (third, c) = recorded::<i32>();
    let mut p = Property::new(0, owner());
    let ta = p.listen(a);
    let tb = p.listen(b);
    let tc = p.listen(c);
    assert_eq!((ta, tb, tc), (0, 1, 2));
    p.unlisten(tb);
    p.set(5);
    assert_eq!(*first.borrow(), vec![5]);
    assert_eq!(*second.borrow(), Vec::<i32>::new());
    assert_eq!(*third.borrow(), vec![5]);
    p.unlisten(99);
    p.set(6);
    assert_eq!(*first.borrow(), vec![5, 6]);
    assert_eq!(*third.borrow(), vec![5, 6]);
}

#[test]
fn get_mut_writes_past_the_listeners() {
    let (seen, a) = recorded::<i32>();
    let mut p = Property::new(1, owner());
    p.listen(a);
    *p.get_mut() = 2;
    assert_eq!(*p.get(), 2);
    assert_eq!(*seen.borrow(), Vec::<i32>::new());
}

#[test]
fn reset_stores_the_default() {
    let (seen, a) = recorded::<i32>();
    let mut p = Property::new(8, owner());
    p.listen(a);
    p.reset();
    assert_eq!(*p.get(), 0);
    assert_eq!(*seen.borrow(), vec![0]);
}

#[test]
fn offset_by_moves_the_pair() {
    let (seen, a) = recorded::<IntPair>();
    let mut p = Property::new(IntPair::new(10, 20), owner());
    p.listen(a);
    p.offset_by(IntPair::new(-3, 4));
    assert_eq!(*p.get(), IntPair::new(7, 24));
    assert_eq!(*seen.borrow(), vec![IntPair::new(7, 24)]);
}

#[test]
fn flags_flip() {
    let (seen, a) = recorded::<bool>();
    let mut p = Property::new(true, owner());
    p.listen(a);
    assert!(p.is_true());
    assert!(!p.is_false());
    p.flip();
    assert!(p.is_false());
    assert_eq!(*seen.borrow(), vec![false]);
}

#[test]
fn optional_put_take_clear_tell_the_state_after_the_change() {
    let (seen, a) = recorded::<Option<i32>>();
    let mut p: Property<Option<i32>, Recorder<Option<i32>>> = Property::new(None, owner());
    p.listen(a);
    assert!(!p.is_some());
    p.put(4);
    assert!(p.is_some());
    assert_eq!(p.take(), Some(4));
    assert!(!p.is_some());
    assert_eq!(p.take(), None);
    p.put(5);
    p.clear();
    assert_eq!(*p.get(), None);
    assert_eq!(*seen.borrow(), vec![Some(4), None, None, Some(5), None]);
}

#[test]
fn vec_property_tells_the_list_after_each_change() {
    let (seen, a) = recorded::<Vec<i32>>();
    let mut p: Property<Vec<i32>, Recorder<Vec<i32>>> = Property::new(Vec::new(), owner());
    p.listen(a);
    p.push(1);
    p.push(3);
    p.insert(1, 2);
    assert_eq!(p.remove(0), 1);
    assert_eq!(p.pop(), Some(3));
    p.clear();
    assert_eq!(p.pop(), None);
    assert_eq!(
        *seen.borrow(),
        vec![vec![1], vec![1, 3], vec![1, 2, 3], vec![2, 3], vec![2], vec![], vec![]]
    );
}

#[test]
fn listener_invoke_shows_the_value() {
    let (seen, a) = recorded::<i32>();
    let listener = Listener::new(a, 12);
    assert_eq!(listener.token, 12);
    listener.invoke(&41);
    listener.invoke(&42);
    assert_eq!(*seen.borrow(), vec![41, 42]);
}

#[test]
fn init_property_binds_to_the_widget() {
    let widget = Widget { id: 3 };
    let p: Property<i32, Mute> = widget.init_property(11);
    assert_eq!(*p.get(), 11);
    assert_eq!(p.back_ref(), WidgetRef { slot: Some(3) });
    let weak = WidgetRef { slot: None };
    let q: Property<bool, Mute> = weak.init_property(true);
    assert_eq!(q.back_ref(), weak);
}

#[test]
fn init_default_property_holds_the_default() {
    let widget = Widget { id: 3 };
    let p: Property<i32, Mute> = widget.init_default_property();
    assert_eq!(*p.get(), 0);
    assert_eq!(p.back_ref(), WidgetRef { slot: Some(3) });
    let q: Property<Vec<u8>, Mute> = WidgetRef { slot: None }.init_default_property();
    assert_eq!(*q.get(), Vec::<u8>::new());
}
