//! The toolkit over boxed listeners: every listener sits behind a trait object,
//! so listeners of any kind can be subscribed side by side.

use crate::batch::{Batch, Brush, Font};
use crate::caribou::Caribou;
use crate::event::{SingleArg, ZeroArg};
use crate::handle::{Widget, WidgetRef};
use crate::input::KeyEvent;
use crate::math::IntPair;
use crate::property::Notify;
use crate::widget::{Listeners, Watchers, WidgetInner};
use crate::widgets::ButtonPaint;
use vstd::prelude::*;

verus! {

/// Any payload-free listener, boxed.
#[verifier::reject_recursive_types(W)]
#[verifier::reject_recursive_types(R)]
pub struct Respond<W, R> {
    inner: Box<dyn ZeroArg<W, R>>,
}

impl<W, R> Respond<W, R> {
    /// Boxes `listener`: the box gives the answers that the listener gives,
    /// and no others.
    pub fn new<F: ZeroArg<W, R> + 'static>(listener: F) -> (boxed: Self)
        ensures
            forall|widget: &W, result: R|
                (#[trigger] boxed.responds(widget, result)) == listener.responds(widget, result),
    {
        let boxed = Respond { inner: Box::new(Carried { listener }) };
        assert forall|widget: &W, result: R| (#[trigger] boxed.responds(widget, result))
            == listener.responds(widget, result) by {
            assert((*boxed.inner).responds(widget, result) == listener.responds(widget, result));
        }
        boxed
    }
}

impl<W, R> ZeroArg<W, R> for Respond<W, R> {
    closed spec fn responds(&self, widget: &W, result: R) -> bool {
        (*self.inner).responds(widget, result)
    }

    fn call(&self, widget: &W) -> (result: R) {
        (*self.inner).call(widget)
    }
}

/// Any listener with a payload, boxed.
#[verifier::reject_recursive_types(W)]
#[verifier::reject_recursive_types(A)]
#[verifier::reject_recursive_types(R)]
pub struct RespondWith<W, A, R> {
    inner: Box<dyn SingleArg<W, A, R>>,
}

impl<W, A, R> RespondWith<W, A, R> {
    /// Boxes `listener`: the box gives the answers that the listener gives,
    /// and no others.
    pub fn new<F: SingleArg<W, A, R> + 'static>(listener: F) -> (boxed: Self)
        ensures
            forall|widget: &W, value: &A, result: R|
                (#[trigger] boxed.responds(widget, value, result)) == listener.responds(
                    widget,
                    value,
                    result,
                ),
    {
        let boxed = RespondWith { inner: Box::new(Carried { listener }) };
        assert forall|widget: &W, value: &A, result: R| (#[trigger] boxed.responds(
            widget,
            value,
            result,
        )) == listener.responds(widget, value, result) by {
            assert((*boxed.inner).responds(widget, value, result) == listener.responds(
                widget,
                value,
                result,
            ));
        }
        boxed
    }
}

impl<W, A, R> SingleArg<W, A, R> for RespondWith<W, A, R> {
    closed spec fn responds(&self, widget: &W, value: &A, result: R) -> bool {
        (*self.inner).responds(widget, value, result)
    }

    fn call(&self, widget: &W, value: &A) -> (result: R) {
        (*self.inner).call(widget, value)
    }
}

/// Any property listener, boxed.
#[verifier::reject_recursive_types(T)]
pub struct Watch<T> {
    inner: Box<dyn Notify<T>>,
}

impl<T> Watch<T> {
    /// Boxes `listener`: the box has been shown a value exactly when the
    /// listener has.
    pub fn new<F: Notify<T> + 'static>(listener: F) -> (boxed: Self)
        ensures
            forall|value: &T| (#[trigger] boxed.noticed(value)) == listener.noticed(value),
    {
        let boxed = Watch { inner: Box::new(Carried { listener }) };
        assert forall|value: &T| (#[trigger] boxed.noticed(value)) == listener.noticed(
            value,
        ) by {
            assert((*boxed.inner).noticed(value) == listener.noticed(value));
        }
        boxed
    }
}

impl<T> Notify<T> for Watch<T> {
    closed spec fn noticed(&self, value: &T) -> bool {
        (*self.inner).noticed(value)
    }

    fn notice(&self, value: &T) {
        (*self.inner).notice(value)
    }
}

/// The family of boxed listener types.
pub struct Boxed;

impl Watchers for Boxed {
    type OnPair = Watch<IntPair>;

    type OnFlag = Watch<bool>;

    type OnParent = Watch<Option<WidgetRef>>;

    type OnContent = Watch<Option<Widget>>;

    type OnChildren = Watch<Vec<Widget>>;

    type OnBrush = Watch<Brush>;

    type OnFont = Watch<Font>;

    type OnText = Watch<String>;

    type OnFocus = Watch<WidgetRef>;
}

impl Listeners<Boxed> for Boxed {
    type Signal = Respond<WidgetInner<Boxed>, ()>;

    type Draw = Respond<WidgetInner<Boxed>, Batch>;

    type Veto = Respond<WidgetInner<Boxed>, bool>;

    type Motion = RespondWith<WidgetInner<Boxed>, IntPair, ()>;

    type Keys = RespondWith<WidgetInner<Boxed>, KeyEvent, ()>;

    type Text = RespondWith<WidgetInner<Boxed>, String, ()>;

    type Action = RespondWith<WidgetInner<Boxed>, u64, ()>;

    fn stock(paint: ButtonPaint) -> (listener: Self::Draw) {
        let listener = Respond { inner: Box::new(paint) };
        assert forall|widget: &WidgetInner<Boxed>, batch: Batch|
            (#[trigger] listener.responds(widget, batch)) implies paint.paints(
            widget,
            batch@,
        ) by {
            assert((*listener.inner).responds(widget, batch));
        }
        listener
    }
}

/// A user interface whose listeners are boxed.
pub type Toolkit = Caribou<Boxed, Boxed>;

/// A listener on its way into a box. It listens as the listener it carries.
struct Carried<F> {
    listener: F,
}

impl<W, R, F: ZeroArg<W, R>> ZeroArg<W, R> for Carried<F> {
    closed spec fn responds(&self, widget: &W, result: R) -> bool {
        self.listener.responds(widget, result)
    }

    fn call(&self, widget: &W) -> (result: R) {
        self.listener.call(widget)
    }
}

impl<W, A, R, F: SingleArg<W, A, R>> SingleArg<W, A, R> for Carried<F> {
    closed spec fn responds(&self, widget: &W, value: &A, result: R) -> bool {
        self.listener.responds(widget, value, result)
    }

    fn call(&self, widget: &W, value: &A) -> (result: R) {
        self.listener.call(widget, value)
    }
}

impl<T, F: Notify<T>> Notify<T> for Carried<F> {
    closed spec fn noticed(&self, value: &T) -> bool {
        self.listener.noticed(value)
    }

    fn notice(&self, value: &T) {
        self.listener.notice(value)
    }
}

} // verus!
