use caribou::event::{any, Event, EventInit, SingleArgFn, Subscriber, ZeroArg, ZeroArgFn};
use caribou::handle::{Widget, WidgetRef};
use std::cell::RefCell;
use std::rc::Rc;

struct Fixed(u32);

impl ZeroArg<u8, u32> for Fixed {
    fn call(&self, _widget: &u8) -> u32 {
        self.0
    }
}

fn numbered(n: u32) -> Event<Fixed> {
    let mut event: Event<Fixed> = Event::new(WidgetRef { slot: Some(0) });
    for i in 0..n {
        event.subscribe(Fixed(i));
    }
    event
}

#[test]
fn new_event_has_no_listener() {
    let event: Event<Fixed> = Event::new(WidgetRef { slot: Some(4) });
    assert_eq!(event.len(), 0);
    assert_eq!(event.back_ref(), WidgetRef { slot: Some(4) });
    assert_eq!(event.broadcast(&0u8), Vec::<u32>::new());
    assert!(event.has_room());
}

#[test]
fn broadcast_answers_in_subscription_order() {
    let event = numbered(6);
    assert_eq!(event.broadcast(&0u8), vec![0, 1, 2, 3, 4, 5]);
}

#[test]
fn subscribe_hands_out_fresh_tokens() {
    let mut event: Event<Fixed> = Event::new(WidgetRef { slot: None });
    let a = event.subscribe(Fixed(1));
    let b = event.subscribe(Fixed(2));
    event.unsubscribe(a);
    let c = event.subscribe(Fixed(3));
    assert_eq!(a, 0);
    assert_eq!(b, 1);
    assert_eq!(c, 2);
    assert_eq!(event.len(), 2);
}

#[test]
fn unsubscribe_moves_the_last_listener_into_the_gap() {
    let mut event = numbered(5);
    event.unsubscribe(1);
    assert_eq!(event.broadcast(&0u8), vec![0, 4, 2, 3]);
}

#[test]
fn unsubscribe_the_last_listener_keeps_the_others_in_place() {
    let mut event = numbered(3);
    event.unsubscribe(2);
    assert_eq!(event.broadcast(&0u8), vec![0, 1]);
}

#[test]
fn unsubscribe_an_unknown_token_changes_nothing() {
    let mut event = numbered(3);
    event.unsubscribe(17);
    assert_eq!(event.broadcast(&0u8), vec![0, 1, 2]);
}

#[test]
fn closures_listen_too() {
    let mut event = Event::new(WidgetRef { slot: None });
    event.subscribe(ZeroArgFn::new(|w: &u8| u32::from(*w) + 1));
    assert_eq!(event.broadcast(&4u8), vec![5]);
}

#[test]
fn broadcast_with_hands_the_payload_to_every_listener() {
    let seen: Rc<RefCell<Vec<(u8, i32)>>> = Rc::new(RefCell::new(Vec::new()));
    let first = seen.clone();
    let mut event = Event::new(WidgetRef { slot: None });
    event.subscribe(SingleArgFn::new(move |w: &u8, v: &i32| {
        first.borrow_mut().push((*w, *v));
        *v > 0
    }));
    assert_eq!(event.broadcast_with(&1u8, &5), vec![true]);
    assert_eq!(event.broadcast_with(&2u8, &-5), vec![false]);
    assert_eq!(*seen.borrow(), vec![(1, 5), (2, -5)]);
}

struct Says(bool);

impl ZeroArg<u8, bool> for Says {
    fn call(&self, _widget: &u8) -> bool {
        self.0
    }
}

fn votes(answers: &[bool]) -> Event<Says> {
    let mut event: Event<Says> = Event::new(WidgetRef { slot: None });
    for a in answers {
        event.subscribe(Says(*a));
    }
    event
}

#[test]
fn verdicts_over_the_answers() {
    let mixed = votes(&[true, false, true]);
    assert!(!mixed.none_true(&0));
    assert!(!mixed.none_false(&0));
    assert!(mixed.any_true(&0));
    assert!(mixed.any_false(&0));
    let all_yes = votes(&[true, true]);
    assert!(!all_yes.none_true(&0));
    assert!(all_yes.none_false(&0));
    assert!(all_yes.any_true(&0));
    assert!(!all_yes.any_false(&0));
    let nobody = votes(&[]);
    assert!(nobody.none_true(&0));
    assert!(nobody.none_false(&0));
    assert!(!nobody.any_true(&0));
    assert!(!nobody.any_false(&0));
}

#[test]
fn any_finds_the_wanted_answer() {
    assert!(any(&vec![true, false], false));
    assert!(!any(&vec![true, true], false));
    assert!(!any(&vec![], true));
}

#[test]
fn subscriber_keeps_listener_and_token() {
    let s = Subscriber::new(Fixed(9), 3);
    assert_eq!(s.token, 3);
    assert_eq!(s.func.0, 9);
}

#[test]
fn init_event_binds_to_the_widget() {
    let widget = Widget { id: 6 };
    let event: Event<Fixed> = widget.init_event();
    assert_eq!(event.back_ref(), WidgetRef { slot: Some(6) });
    let weak = WidgetRef { slot: Some(2) };
    let other: Event<Fixed> = weak.init_event();
    assert_eq!(other.back_ref(), weak);
    assert_eq!(other.len(), 0);
}
