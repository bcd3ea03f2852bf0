//! Events: ordered lists of listeners bound to a widget, broadcast to all of
//! them in the order of their subscription.

use crate::handle::{Widget, WidgetRef};
use core::marker::PhantomData;
use vstd::prelude::*;

verus! {

/// A listener of an event that carries no payload. `W` is what the listener is
/// shown of the widget, `R` what it answers.
pub trait ZeroArg<W, R> {
    /// Whether `result` is an answer this listener may give for `widget`. Unless
    /// a listener says more of itself, any answer is taken to be possible.
    open spec fn responds(&self, widget: &W, result: R) -> bool {
        true
    }

    fn call(&self, widget: &W) -> (result: R)
        ensures
            self.responds(widget, result),
    ;
}

/// A listener of an event that carries a payload of type `A`.
pub trait SingleArg<W, A, R> {
    /// Whether `result` is an answer this listener may give for `widget` and
    /// `value`. Unless a listener says more of itself, any answer is taken to be
    /// possible.
    open spec fn responds(&self, widget: &W, value: &A, result: R) -> bool {
        true
    }

    fn call(&self, widget: &W, value: &A) -> (result: R)
        ensures
            self.responds(widget, value, result),
    ;
}

/// A function or closure as a payload-free listener. It must accept every widget.
#[verifier::reject_recursive_types(W)]
#[verifier::reject_recursive_types(R)]
#[verifier::reject_recursive_types(F)]
pub struct ZeroArgFn<W, R, F: Fn(&W) -> R> {
    func: F,
    shown: PhantomData<W>,
    answer: PhantomData<R>,
}

impl<W, R, F: Fn(&W) -> R> ZeroArgFn<W, R, F> {
    #[verifier::type_invariant]
    spec fn total(self) -> bool {
        forall|widget: &W| call_requires(self.func, (widget,))
    }

    pub closed spec fn func(self) -> F {
        self.func
    }

    pub fn new(func: F) -> (listener: Self)
        requires
            forall|widget: &W| call_requires(func, (widget,)),
        ensures
            listener.func() == func,
            forall|widget: &W, result: R|
                (#[trigger] listener.responds(widget, result)) == call_ensures(
                    func,
                    (widget,),
                    result,
                ),
    {
        ZeroArgFn { func, shown: PhantomData, answer: PhantomData }
    }
}

impl<W, R, F: Fn(&W) -> R> ZeroArg<W, R> for ZeroArgFn<W, R, F> {
    closed spec fn responds(&self, widget: &W, result: R) -> bool {
        call_ensures(self.func, (widget,), result)
    }

    fn call(&self, widget: &W) -> (result: R) {
        proof {
            use_type_invariant(self);
        }
        (self.func)(widget)
    }
}

/// A function or closure as a listener with a payload. It must accept every
/// widget and every payload.
#[verifier::reject_recursive_types(W)]
#[verifier::reject_recursive_types(A)]
#[verifier::reject_recursive_types(R)]
#[verifier::reject_recursive_types(F)]
pub struct SingleArgFn<W, A, R, F: Fn(&W, &A) -> R> {
    func: F,
    shown: PhantomData<W>,
    given: PhantomData<A>,
    answer: PhantomData<R>,
}

impl<W, A, R, F: Fn(&W, &A) -> R> SingleArgFn<W, A, R, F> {
    #[verifier::type_invariant]
    spec fn total(self) -> bool {
        forall|widget: &W, value: &A| call_requires(self.func, (widget, value))
    }

    pub closed spec fn func(self) -> F {
        self.func
    }

    pub fn new(func: F) -> (listener: Self)
        requires
            forall|widget: &W, value: &A| call_requires(func, (widget, value)),
        ensures
            listener.func() == func,
            forall|widget: &W, value: &A, result: R|
                (#[trigger] listener.responds(widget, value, result)) == call_ensures(
                    func,
                    (widget, value),
                    result,
                ),
    {
        SingleArgFn { func, shown: PhantomData, given: PhantomData, answer: PhantomData }
    }
}

impl<W, A, R, F: Fn(&W, &A) -> R> SingleArg<W, A, R> for SingleArgFn<W, A, R, F> {
    closed spec fn responds(&self, widget: &W, value: &A, result: R) -> bool {
        call_ensures(self.func, (widget, value), result)
    }

    fn call(&self, widget: &W, value: &A) -> (result: R) {
        proof {
            use_type_invariant(self);
        }
        (self.func)(widget, value)
    }
}

/// A subscribed listener together with the token that identifies the subscription.
pub struct Subscriber<F> {
    pub token: u64,
    pub func: F,
}

impl<F> Subscriber<F> {
    pub fn new(func: F, token: u64) -> (subscriber: Subscriber<F>)
        ensures
            subscriber.func == func,
            subscriber.token == token,
    {
        Subscriber { token, func }
    }
}

/// The tokens of `subscribers`, in order.
pub open spec fn tokens_of<F>(subscribers: Seq<Subscriber<F>>) -> Seq<u64> {
    subscribers.map_values(|s: Subscriber<F>| s.token)
}

/// Whether `results` can be what the payload-free `subscribers` answer for
/// `widget`: one answer from each listener, in the listeners' order.
pub open spec fn answered<W, R, F: ZeroArg<W, R>>(
    subscribers: Seq<Subscriber<F>>,
    widget: &W,
    results: Seq<R>,
) -> bool {
    &&& results.len() == subscribers.len()
    &&& forall|i: int|
        0 <= i < subscribers.len() ==> (#[trigger] subscribers[i]).func.responds(widget, results[i])
}

/// Whether `results` can be what `subscribers` answer for `widget` and `value`.
pub open spec fn answered_with<W, A, R, F: SingleArg<W, A, R>>(
    subscribers: Seq<Subscriber<F>>,
    widget: &W,
    value: &A,
    results: Seq<R>,
) -> bool {
    &&& results.len() == subscribers.len()
    &&& forall|i: int|
        0 <= i < subscribers.len() ==> (#[trigger] subscribers[i]).func.responds(
            widget,
            value,
            results[i],
        )
}

/// A multi-listener broadcast channel bound to one widget.
pub struct Event<F> {
    listeners: Vec<Subscriber<F>>,
    back_ref: WidgetRef,
    issued: u64,
}

impl<F> View for Event<F> {
    type V = Seq<Subscriber<F>>;

    closed spec fn view(&self) -> Seq<Subscriber<F>> {
        self.listeners@
    }
}

impl<F> Event<F> {
    /// Every token in use was handed out by this event, and no two listeners
    /// carry the same one.
    pub closed spec fn wf(&self) -> bool {
        &&& forall|i: int|
            0 <= i < self.listeners@.len() ==> (#[trigger] self.listeners@[i]).token < self.issued
        &&& forall|i: int, j: int|
            0 <= i < j < self.listeners@.len() ==> (#[trigger] self.listeners@[i]).token != (
            #[trigger] self.listeners@[j]).token
    }

    /// The widget the event belongs to.
    pub closed spec fn owner(&self) -> WidgetRef {
        self.back_ref
    }

    /// How many subscriptions the event has handed out so far.
    pub closed spec fn issued(&self) -> nat {
        self.issued as nat
    }

    pub fn new(back_ref: WidgetRef) -> (event: Self)
        ensures
            event@ == Seq::<Subscriber<F>>::empty(),
            event.owner() == back_ref,
            event.issued() == 0,
            event.wf(),
    {
        Self { listeners: Vec::new(), back_ref, issued: 0 }
    }

    pub fn back_ref(&self) -> (owner: WidgetRef)
        ensures
            owner == self.owner(),
    {
        self.back_ref
    }

    pub fn len(&self) -> (n: usize)
        ensures
            n == self@.len(),
    {
        self.listeners.len()
    }

    /// Whether another subscription can be handed out.
    pub fn has_room(&self) -> (room: bool)
        ensures
            room == (self.issued() < u64::MAX),
    {
        self.issued < u64::MAX
    }

    /// Registers `listener` behind all listeners already there and returns the
    /// token of the subscription, which no listener of this event carried before.
    pub fn subscribe(&mut self, listener: F) -> (token: u64)
        requires
            old(self).issued() < u64::MAX,
        ensures
            final(self)@ == old(self)@.push(Subscriber { token, func: listener }),
            token == old(self).issued(),
            final(self).issued() == old(self).issued() + 1,
            final(self).owner() == old(self).owner(),
            old(self).wf() ==> final(self).wf() && !tokens_of(old(self)@).contains(token),
    {
        let token = self.issued;
        proof {
            if self.wf() {
                assert forall|i: int| 0 <= i < tokens_of(self@).len() implies tokens_of(
                    self@,
                )[i] != token by {
                    assert(self.listeners@[i].token < self.issued);
                }
            }
        }
        self.issued = token + 1;
        self.listeners.push(Subscriber { token, func: listener });
        token
    }

    /// Removes the first listener that carries `token`, moving the last listener
    /// into its place. Without such a listener nothing changes.
    pub fn unsubscribe(&mut self, token: u64)
        ensures
            !tokens_of(old(self)@).contains(token) ==> final(self)@ == old(self)@,
            forall|i: int|
                0 <= i < old(self)@.len() && (#[trigger] old(self)@[i]).token == token && (forall|
                    k: int,
                | 0 <= k < i ==> (#[trigger] old(self)@[k]).token != token) ==> final(self)@ == old(self)@.update(i, old(self)@.last()).drop_last(),
            final(self).issued() == old(self).issued(),
            final(self).owner() == old(self).owner(),
            old(self).wf() ==> final(self).wf(),
    {
        let mut i: usize = 0;
        while i < self.listeners.len()
            invariant
                i <= self.listeners@.len(),
                self.listeners@ == old(self).listeners@,
                self.issued == old(self).issued,
                self.back_ref == old(self).back_ref,
                forall|k: int| 0 <= k < i ==> (#[trigger] self.listeners@[k]).token != token,
            decreases self.listeners@.len() - i,
        {
            if self.listeners[i].token == token {
                let ghost before = self.listeners@;
                self.listeners.swap_remove(i);
                assert forall|k: int|
                    0 <= k < before.len() && (#[trigger] before[k]).token == token && (forall|
                        m: int,
                    | 0 <= m < k ==> (#[trigger] before[m]).token != token) implies k == i by {
                    if k > i {
                        assert(before[i as int].token == token);
                    }
                }
                proof {
                    if old(self).wf() {
                        let last = before.len() - 1;
                        assert forall|a: int, b: int|
                            0 <= a < b < self.listeners@.len() implies (
                        #[trigger] self.listeners@[a]).token != (
                        #[trigger] self.listeners@[b]).token by {
                            let ia = if a == i { last } else { a };
                            let ib = if b == i { last } else { b };
                            assert(self.listeners@[a] == before[ia]);
                            assert(self.listeners@[b] == before[ib]);
                            if ia < ib {
                                assert(before[ia].token != before[ib].token);
                            } else {
                                assert(before[ib].token != before[ia].token);
                            }
                        }
                        assert forall|a: int| 0 <= a < self.listeners@.len() implies (
                        #[trigger] self.listeners@[a]).token < self.issued by {
                            let ia = if a == i { last } else { a };
                            assert(self.listeners@[a] == before[ia]);
                        }
                    }
                }
                assert(tokens_of(before)[i as int] == token);
                return ;
            }
            i += 1;
        }
        assert forall|k: int| 0 <= k < tokens_of(self@).len() implies tokens_of(self@)[k]
            != token by {
            assert(self.listeners@[k].token != token);
        }
    }

    /// Calls every listener once with `widget`, first subscribed first, and
    /// returns their answers in that order.
    pub fn broadcast<W, R>(&self, widget: &W) -> (results: Vec<R>) where F: ZeroArg<W, R>
        ensures
            answered(self@, widget, results@),
    {
        let mut results: Vec<R> = Vec::new();
        let mut i: usize = 0;
        while i < self.listeners.len()
            invariant
                i <= self.listeners@.len(),
                results@.len() == i,
                forall|k: int|
                    0 <= k < i ==> (#[trigger] self.listeners@[k]).func.responds(
                        widget,
                        results@[k],
                    ),
            decreases self.listeners@.len() - i,
        {
            let answer = self.listeners[i].func.call(widget);
            results.push(answer);
            i += 1;
        }
        results
    }

    /// Calls every listener once with `widget` and `value`, first subscribed
    /// first, and returns their answers in that order.
    pub fn broadcast_with<W, A, R>(&self, widget: &W, value: &A) -> (results: Vec<R>) where
        F: SingleArg<W, A, R>,

        ensures
            answered_with(self@, widget, value, results@),
    {
        let mut results: Vec<R> = Vec::new();
        let mut i: usize = 0;
        while i < self.listeners.len()
            invariant
                i <= self.listeners@.len(),
                results@.len() == i,
                forall|k: int|
                    0 <= k < i ==> (#[trigger] self.listeners@[k]).func.responds(
                        widget,
                        value,
                        results@[k],
                    ),
            decreases self.listeners@.len() - i,
        {
            let answer = self.listeners[i].func.call(widget, value);
            results.push(answer);
            i += 1;
        }
        results
    }

    /// Broadcasts, and reports whether no listener answered `true`.
    pub fn none_true<W>(&self, widget: &W) -> (verdict: bool) where F: ZeroArg<W, bool>
        ensures
            exists|results: Seq<bool>|
                answered(self@, widget, results) && verdict == !results.contains(true),
    {
        let results = self.broadcast(widget);
        !any(&results, true)
    }

    /// Broadcasts, and reports whether no listener answered `false`.
    pub fn none_false<W>(&self, widget: &W) -> (verdict: bool) where F: ZeroArg<W, bool>
        ensures
            exists|results: Seq<bool>|
                answered(self@, widget, results) && verdict == !results.contains(false),
    {
        let results = self.broadcast(widget);
        !any(&results, false)
    }

    /// Broadcasts, and reports whether some listener answered `true`.
    pub fn any_true<W>(&self, widget: &W) -> (verdict: bool) where F: ZeroArg<W, bool>
        ensures
            exists|results: Seq<bool>|
                answered(self@, widget, results) && verdict == results.contains(true),
    {
        let results = self.broadcast(widget);
        any(&results, true)
    }

    /// Broadcasts, and reports whether some listener answered `false`.
    pub fn any_false<W>(&self, widget: &W) -> (verdict: bool) where F: ZeroArg<W, bool>
        ensures
            exists|results: Seq<bool>|
                answered(self@, widget, results) && verdict == results.contains(false),
    {
        let results = self.broadcast(widget);
        any(&results, false)
    }
}

/// Whether `wanted` is among the collected answers.
pub fn any(results: &Vec<bool>, wanted: bool) -> (found: bool)
    ensures
        found == results@.contains(wanted),
{
    let mut i: usize = 0;
    while i < results.len()
        invariant
            i <= results@.len(),
            forall|k: int| 0 <= k < i ==> results@[k] != wanted,
        decreases results@.len() - i,
    {
        if results[i] == wanted {
            return true;
        }
        i += 1;
    }
    false
}

/// Making the events of a widget.
pub trait EventInit<F> {
    /// The widget the made events will belong to.
    spec fn bound_to(&self) -> WidgetRef;

    fn init_event(&self) -> (event: Event<F>)
        ensures
            event@.len() == 0,
            event.owner() == self.bound_to(),
            event.issued() == 0,
            event.wf(),
    ;
}

impl<F> EventInit<F> for WidgetRef {
    open spec fn bound_to(&self) -> WidgetRef {
        *self
    }

    fn init_event(&self) -> (event: Event<F>) {
        Event::new(*self)
    }
}

impl<F> EventInit<F> for Widget {
    open spec fn bound_to(&self) -> WidgetRef {
        self.observer()
    }

    fn init_event(&self) -> (event: Event<F>) {
        Event::new(WidgetRef { slot: Some(self.id) })
    }
}

} // verus!
