use caribou::boxed::{Toolkit, Watch};
use caribou::handle::{
    Census, Widget, WidgetAcquire, WidgetRef, WidgetRefVec, WidgetRefer, WidgetVec,
};
use caribou::math::IntPair;
use caribou::property::NotifyFn;
use caribou::widgets::{Layout, WidgetData};
use std::cell::RefCell;
use std::rc::Rc;

#[test]
fn new_toolkit_has_a_placeholder_and_a_root_layout() {
    let ui = Toolkit::new();
    assert_eq!(ui.widget_count(), 2);
    let root = ui.root_component();
    assert_eq!(root, Widget { id: 1 });
    assert_eq!(ui.placeholder_widget(), Widget { id: 0 });
    assert!(ui.is_alive(&root));
    assert!(matches!(ui.widget(root).data.get(), Some(WidgetData::Layout(_))));
    assert!(ui.widget(ui.placeholder_widget()).data.get().is_none());
    assert_eq!(ui.instance_ref().manual_tab_order, vec![]);
    assert_eq!(ui.instance_ref().auto_tab_order, vec![]);
    assert_eq!(*ui.instance_ref().focused_component.get(), WidgetRef { slot: None });
    assert!(!ui.instance_ref().routing);
}

#[test]
fn a_new_widget_has_the_standard_values() {
    let mut ui = Toolkit::new();
    let w = ui.create_widget();
    assert_eq!(w, Widget { id: 2 });
    let inner = ui.widget(w);
    assert_eq!(inner.handle(), w);
    assert_eq!(*inner.position.get(), IntPair::new(0, 0));
    assert_eq!(*inner.size.get(), IntPair::new(0, 0));
    assert!(*inner.enabled.get());
    assert_eq!(*inner.parent.get(), None);
    assert_eq!(inner.font.get().family, "DengXian");
    assert!(inner.data.get().is_none());
    assert_eq!(inner.position.back_ref(), w.refer());
    assert_eq!(ui.links(w).get_children().len(), 0);
    assert_eq!(ui.links(w).get_content(), None);
    assert_eq!(ui.events(w).on_draw.len(), 0);
    assert_eq!(ui.events(w).action.back_ref(), w.refer());
}

#[test]
fn children_are_kept_in_order() {
    let mut ui = Toolkit::new();
    let root = ui.root_component();
    let a = ui.create_widget();
    let b = ui.create_widget();
    let c = ui.create_widget();
    ui.push_child(root, a);
    ui.push_child(root, c);
    ui.insert_child(root, 1, b);
    assert_eq!(*ui.links(root).get_children(), vec![a, b, c]);
    assert_eq!(ui.remove_child(root, 1), b);
    assert_eq!(*ui.links(root).get_children(), vec![a, c]);
    assert_eq!(ui.pop_child(root), Some(c));
    assert_eq!(ui.pop_child(root), Some(a));
    assert_eq!(ui.pop_child(root), None);
    ui.push_child(root, a);
    ui.clear_children(root);
    assert_eq!(*ui.links(root).get_children(), vec![]);
}

#[test]
fn the_listeners_of_the_children_hear_of_every_change() {
    let mut ui = Toolkit::new();
    let root = ui.root_component();
    let a = ui.create_widget();
    let seen: Rc<RefCell<Vec<usize>>> = Rc::new(RefCell::new(Vec::new()));
    let s = seen.clone();
    let token = ui.watch_children(
        root,
        Watch::new(NotifyFn::new(move |list: &Vec<Widget>| {
            s.borrow_mut().push(list.len());
        })),
    );
    assert_eq!(token, 0);
    ui.push_child(root, a);
    ui.push_child(root, a);
    ui.pop_child(root);
    ui.clear_children(root);
    assert_eq!(*seen.borrow(), vec![1, 2, 1, 0]);
}

#[test]
fn content_is_one_owned_widget() {
    let mut ui = Toolkit::new();
    let root = ui.root_component();
    let a = ui.create_widget();
    assert_eq!(ui.take_content(root), None);
    ui.put_content(root, a);
    assert_eq!(ui.links(root).get_content(), Some(a));
    assert!(!ui.destroy(a));
    assert_eq!(ui.take_content(root), Some(a));
    assert_eq!(ui.links(root).get_content(), None);
    ui.put_content(root, a);
    ui.clear_content(root);
    assert_eq!(ui.links(root).get_content(), None);
    assert!(ui.destroy(a));
}

#[test]
fn destroy_spares_what_the_tree_owns() {
    let mut ui = Toolkit::new();
    let root = ui.root_component();
    let placeholder = ui.placeholder_widget();
    let panel = Layout::create(&mut ui);
    let leaf = ui.create_widget();
    ui.push_child(root, panel);
    ui.push_child(panel, leaf);
    assert!(!ui.destroy(root));
    assert!(!ui.destroy(placeholder));
    assert!(!ui.destroy(panel));
    assert!(!ui.destroy(leaf));
    assert_eq!(ui.pop_child(root), Some(panel));
    assert!(ui.destroy(panel));
    assert!(!ui.is_alive(&panel));
    // The leaf outlives its owner and is free now.
    assert!(ui.is_alive(&leaf));
    assert!(ui.destroy(leaf));
    assert!(!ui.destroy(leaf));
    assert!(!ui.destroy(Widget { id: 500 }));
}

#[test]
fn numbers_are_never_given_twice() {
    let mut ui = Toolkit::new();
    let a = ui.create_widget();
    assert!(ui.destroy(a));
    let b = ui.create_widget();
    assert_ne!(a, b);
    assert_eq!(ui.acquire(&a.refer()), None);
    assert_eq!(ui.acquire(&b.refer()), Some(b));
    assert_eq!(ui.acquire(&WidgetRef::default()), None);
}

#[test]
fn the_root_can_be_replaced() {
    let mut ui = Toolkit::new();
    let old_root = ui.root_component();
    let new_root = Layout::create(&mut ui);
    ui.replace_root_component(new_root);
    assert_eq!(ui.root_component(), new_root);
    assert!(ui.destroy(old_root));
    assert!(!ui.destroy(new_root));
}

#[test]
fn redraw_requests_are_idempotent() {
    let mut ui = Toolkit::new();
    assert!(!ui.take_redraw_request());
    ui.request_redraw();
    ui.request_redraw();
    assert!(ui.take_redraw_request());
    assert!(!ui.take_redraw_request());
}

#[test]
fn census_counts_and_strikes() {
    let mut ui = Toolkit::new();
    let a = ui.create_widget();
    let census: &Census = ui.census_ref();
    assert_eq!(census.len(), 3);
    assert!(census.is_alive(&a));
    assert!(!census.is_alive(&Widget { id: 3 }));
    assert_eq!(a.refer().acquire(census), Some(a));
}

#[test]
fn handles_compare_by_widget() {
    let a = Widget { id: 1 };
    let b = Widget { id: 2 };
    assert!(a.same_as(&a));
    assert!(!a.same_as(&b));
    assert!(a.refer().same_as(&WidgetRef { slot: Some(1) }));
    assert!(!a.refer().same_as(&b.refer()));
    assert!(!a.refer().same_as(&WidgetRef::default()));
    assert!(WidgetRef::default().same_as(&WidgetRef { slot: None }));
}

#[test]
fn lists_of_observers_are_cleaned_and_searched() {
    let mut ui = Toolkit::new();
    let a = ui.create_widget();
    let b = ui.create_widget();
    let c = ui.create_widget();
    let mut refs = vec![a.refer(), b.refer(), WidgetRef::default(), c.refer(), b.refer()];
    assert!(refs.contains_ref(&b.refer()));
    assert!(refs.contains_widget(&c));
    assert!(ui.destroy(b));
    assert_eq!(refs.acquire(ui.census_ref()), vec![a, c]);
    refs.clean(ui.census_ref());
    assert_eq!(refs, vec![a.refer(), c.refer()]);
    assert!(!refs.contains_ref(&b.refer()));
    assert!(!refs.contains_widget(&b));
    let widgets = vec![a, c];
    assert!(WidgetVec::contains_widget(&widgets, &c));
    assert!(!WidgetVec::contains_widget(&widgets, &b));
}
