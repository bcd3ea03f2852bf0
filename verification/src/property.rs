//! Properties: observable cells that tell their listeners of every change.

use crate::handle::{Widget, WidgetRef};
use crate::math::IntPair;
use vstd::prelude::*;

verus! {

/// A listener of a property with values of type `T`.
pub trait Notify<T> {
    /// Whether this listener has been shown `value`. Unless a listener says
    /// more of itself, this says nothing.
    open spec fn noticed(&self, value: &T) -> bool {
        true
    }

    fn notice(&self, value: &T)
        ensures
            self.noticed(value),
    ;
}

/// A function or closure as a property listener. It must accept every value.
#[verifier::reject_recursive_types(T)]
#[verifier::reject_recursive_types(F)]
pub struct NotifyFn<T, F: Fn(&T)> {
    func: F,
    shown: core::marker::PhantomData<T>,
}

impl<T, F: Fn(&T)> NotifyFn<T, F> {
    #[verifier::type_invariant]
    spec fn total(self) -> bool {
        forall|value: &T| call_requires(self.func, (value,))
    }

    pub closed spec fn func(self) -> F {
        self.func
    }

    pub fn new(func: F) -> (listener: Self)
        requires
            forall|value: &T| call_requires(func, (value,)),
        ensures
            listener.func() == func,
            forall|value: &T|
                (#[trigger] listener.noticed(value)) == call_ensures(func, (value,), ()),
    {
        NotifyFn { func, shown: core::marker::PhantomData }
    }
}

impl<T, F: Fn(&T)> Notify<T> for NotifyFn<T, F> {
    closed spec fn noticed(&self, value: &T) -> bool {
        call_ensures(self.func, (value,), ())
    }

    fn notice(&self, value: &T) {
        proof {
            use_type_invariant(self);
        }
        (self.func)(value)
    }
}

/// The listener that looks at nothing.
pub struct Mute;

impl<T> Notify<T> for Mute {
    open spec fn noticed(&self, value: &T) -> bool {
        true
    }

    fn notice(&self, value: &T) {
    }
}

/// A subscribed property listener with the token that identifies it.
pub struct Listener<N> {
    pub token: u64,
    pub func: N,
}

impl<N> Listener<N> {
    pub fn new(func: N, token: u64) -> (listener: Listener<N>)
        ensures
            listener.func == func,
            listener.token == token,
    {
        Listener { token, func }
    }

    /// Shows `value` to the listener.
    pub fn invoke<T>(&self, value: &T) where N: Notify<T>
        ensures
            self.func.noticed(value),
    {
        self.func.notice(value);
    }
}

/// Whether every one of `listeners` has been shown `value`.
pub open spec fn informed<T, N: Notify<T>>(listeners: Seq<Listener<N>>, value: &T) -> bool {
    forall|i: int| 0 <= i < listeners.len() ==> (#[trigger] listeners[i]).func.noticed(value)
}

/// The listeners that do not carry `token`, in their order.
pub open spec fn without<N>(listeners: Seq<Listener<N>>, token: u64) -> Seq<Listener<N>> {
    listeners.filter(|l: Listener<N>| l.token != token)
}

/// An observable cell bound to one widget.
pub struct Property<T, N> {
    value: T,
    listeners: Vec<Listener<N>>,
    back_ref: WidgetRef,
    issued: u64,
}

impl<T, N> View for Property<T, N> {
    type V = T;

    closed spec fn view(&self) -> T {
        self.value
    }
}

impl<T, N> Property<T, N> {
    /// The subscribed listeners, first subscribed first.
    pub closed spec fn listeners(&self) -> Seq<Listener<N>> {
        self.listeners@
    }

    /// The widget the property belongs to.
    pub closed spec fn owner(&self) -> WidgetRef {
        self.back_ref
    }

    /// How many subscriptions the property has handed out so far.
    pub closed spec fn issued(&self) -> nat {
        self.issued as nat
    }

    /// Every token in use was handed out by this property.
    pub closed spec fn wf(&self) -> bool {
        forall|i: int|
            0 <= i < self.listeners@.len() ==> (#[trigger] self.listeners@[i]).token < self.issued
    }

    /// Whether `other` differs from `self` in the value at most.
    pub open spec fn same_watch(&self, other: &Self) -> bool {
        &&& self.listeners() == other.listeners()
        &&& self.owner() == other.owner()
        &&& self.issued() == other.issued()
    }

    pub fn new(initial: T, back_ref: WidgetRef) -> (property: Property<T, N>)
        ensures
            property@ == initial,
            property.listeners() == Seq::<Listener<N>>::empty(),
            property.owner() == back_ref,
            property.issued() == 0,
            property.wf(),
    {
        Property { value: initial, listeners: Vec::new(), back_ref, issued: 0 }
    }

    pub fn back_ref(&self) -> (owner: WidgetRef)
        ensures
            owner == self.owner(),
    {
        self.back_ref
    }

    /// Whether another listener can subscribe.
    pub fn has_room(&self) -> (room: bool)
        ensures
            room == (self.issued() < u64::MAX),
    {
        self.issued < u64::MAX
    }

    pub fn get(&self) -> (value: &T)
        ensures
            *value == self@,
    {
        &self.value
    }

    pub fn get_cloned(&self) -> (value: T) where T: Clone
        ensures
            cloned(self@, value),
    {
        self.value.clone()
    }

    pub fn get_copy(&self) -> (value: T) where T: Copy
        ensures
            value == self@,
    {
        self.value
    }

    /// Direct access to the value; writes through it reach no listener.
    pub fn get_mut(&mut self) -> (value: &mut T)
        ensures
            *value == old(self)@,
            final(self)@ == *final(value),
            old(self).same_watch(final(self)),
    {
        &mut self.value
    }

    /// Shows `value` to every listener, first subscribed first, and then stores
    /// it: while the listeners run the property still holds its earlier value.
    pub fn set(&mut self, value: T) where N: Notify<T>
        ensures
            final(self)@ == value,
            informed(old(self).listeners(), &value),
            old(self).same_watch(final(self)),
    {
        self.tell(&value);
        self.value = value;
    }

    /// Shows the current value to every listener, without changing it.
    pub fn inform(&self) where N: Notify<T>
        ensures
            informed(self.listeners(), &self@),
    {
        self.tell(&self.value);
    }

    fn tell(&self, value: &T) where N: Notify<T>
        ensures
            informed(self.listeners(), value),
    {
        let mut i: usize = 0;
        while i < self.listeners.len()
            invariant
                i <= self.listeners@.len(),
                forall|k: int| 0 <= k < i ==> (#[trigger] self.listeners@[k]).func.noticed(value),
            decreases self.listeners@.len() - i,
        {
            self.listeners[i].invoke(value);
            i += 1;
        }
    }

    /// Subscribes `listener` behind the listeners already there and returns the
    /// token of the subscription.
    pub fn listen(&mut self, listener: N) -> (token: u64)
        requires
            old(self).issued() < u64::MAX,
        ensures
            final(self).listeners() == old(self).listeners().push(
                Listener { token, func: listener },
            ),
            token == old(self).issued(),
            final(self).issued() == old(self).issued() + 1,
            final(self)@ == old(self)@,
            final(self).owner() == old(self).owner(),
            old(self).wf() ==> final(self).wf() && forall|i: int|
                0 <= i < old(self).listeners().len() ==> (#[trigger] old(self).listeners()[i]).token != token,
    {
        let token = self.issued;
        self.issued = token + 1;
        self.listeners.push(Listener { token, func: listener });
        token
    }

    /// Removes every listener that carries `token`; the others keep their order.
    pub fn unlisten(&mut self, token: u64)
        ensures
            final(self).listeners() == without(old(self).listeners(), token),
            final(self)@ == old(self)@,
            final(self).owner() == old(self).owner(),
            final(self).issued() == old(self).issued(),
            old(self).wf() ==> final(self).wf(),
    {
        let ghost given = self.listeners@;
        let ghost keep = |l: Listener<N>| l.token != token;
        let ghost mut seen: int = 0;
        let mut i: usize = 0;
        while i < self.listeners.len()
            invariant
                0 <= seen <= given.len(),
                i == given.take(seen).filter(keep).len(),
                self.listeners@ == given.take(seen).filter(keep) + given.skip(seen),
                self.value == old(self).value,
                self.back_ref == old(self).back_ref,
                self.issued == old(self).issued,
                given == old(self).listeners@,
                keep == |l: Listener<N>| l.token != token,
            decreases given.len() - seen,
        {
            proof {
                given.take(seen).lemma_filter_push(given[seen], keep);
                assert(given.take(seen).push(given[seen]) =~= given.take(seen + 1));
                assert(self.listeners@[i as int] == given[seen]);
            }
            if self.listeners[i].token == token {
                self.listeners.remove(i);
                proof {
                    assert(self.listeners@ =~= given.take(seen + 1).filter(keep) + given.skip(
                        seen + 1,
                    ));
                    seen = seen + 1;
                }
            } else {
                proof {
                    assert(self.listeners@ =~= given.take(seen + 1).filter(keep) + given.skip(
                        seen + 1,
                    ));
                    seen = seen + 1;
                }
                i += 1;
            }
        }
        proof {
            assert(given.skip(seen).len() == 0);
            assert(seen == given.len());
            assert(given.take(seen) =~= given);
            assert(self.listeners@ =~= given.filter(keep));
            if old(self).wf() {
                assert forall|k: int| 0 <= k < self.listeners@.len() implies (
                #[trigger] self.listeners@[k]).token < self.issued by {
                    let l = self.listeners@[k];
                    assert(given.filter(keep).contains(l));
                    given.lemma_filter_contains_rev(keep, l);
                    let m = choose|m: int| 0 <= m < given.len() && given[m] == l;
                    assert(given[m].token < old(self).issued);
                }
            }
        }
    }

    /// Stores the default value, telling the listeners first.
    pub fn reset(&mut self) where N: Notify<T>, T: Default
        ensures
            T::default.ensures((), final(self)@),
            informed(old(self).listeners(), &final(self)@),
            old(self).same_watch(final(self)),
    {
        self.set(T::default());
    }
}

impl<N: Notify<IntPair>> Property<IntPair, N> {
    /// Moves the value by `offset`, telling the listeners of the moved value first.
    pub fn offset_by(&mut self, offset: IntPair)
        requires
            i32::MIN <= old(self)@.x + offset.x <= i32::MAX,
            i32::MIN <= old(self)@.y + offset.y <= i32::MAX,
        ensures
            final(self)@.x == old(self)@.x + offset.x,
            final(self)@.y == old(self)@.y + offset.y,
            informed(old(self).listeners(), &final(self)@),
            old(self).same_watch(final(self)),
    {
        let moved = self.value + offset;
        self.set(moved);
    }
}

impl<N: Notify<bool>> Property<bool, N> {
    pub fn flip(&mut self)
        ensures
            final(self)@ == !old(self)@,
            informed(old(self).listeners(), &final(self)@),
            old(self).same_watch(final(self)),
    {
        let turned = !self.value;
        self.set(turned);
    }

    pub fn is_true(&self) -> (answer: bool)
        ensures
            answer == self@,
    {
        self.value
    }

    pub fn is_false(&self) -> (answer: bool)
        ensures
            answer == !self@,
    {
        !self.value
    }
}

impl<T, N: Notify<Option<T>>> Property<Option<T>, N> {
    pub fn is_some(&self) -> (answer: bool)
        ensures
            answer == self@.is_some(),
    {
        self.value.is_some()
    }

    /// Stores `value`, then tells the listeners of the stored value.
    pub fn put(&mut self, value: T)
        ensures
            final(self)@ == Some(value),
            informed(old(self).listeners(), &final(self)@),
            old(self).same_watch(final(self)),
    {
        self.value = Some(value);
        self.inform();
    }

    /// Empties the property and hands out what it held, then tells the
    /// listeners that it is empty.
    pub fn take(&mut self) -> (value: Option<T>)
        ensures
            value == old(self)@,
            final(self)@ is None,
            informed(old(self).listeners(), &final(self)@),
            old(self).same_watch(final(self)),
    {
        let value = self.value.take();
        self.inform();
        value
    }

    /// Empties the property, then tells the listeners that it is empty.
    pub fn clear(&mut self)
        ensures
            final(self)@ is None,
            informed(old(self).listeners(), &final(self)@),
            old(self).same_watch(final(self)),
    {
        self.value = None;
        self.inform();
    }
}

impl<T, N: Notify<Vec<T>>> Property<Vec<T>, N> {
    /// Appends `value`, then tells the listeners of the grown list.
    pub fn push(&mut self, value: T)
        ensures
            final(self)@@ == old(self)@@.push(value),
            informed(old(self).listeners(), &final(self)@),
            old(self).same_watch(final(self)),
    {
        self.value.push(value);
        self.inform();
    }

    /// Removes the last item, if there is one, then tells the listeners.
    pub fn pop(&mut self) -> (value: Option<T>)
        ensures
            old(self)@@.len() == 0 ==> value is None && final(self)@@ == old(self)@@,
            old(self)@@.len() > 0 ==> value == Some(old(self)@@.last()) && final(self)@@ == old(self)@@.drop_last(),
            informed(old(self).listeners(), &final(self)@),
            old(self).same_watch(final(self)),
    {
        let value = self.value.pop();
        self.inform();
        value
    }

    /// Removes the item at `index`, closing the gap, then tells the listeners.
    pub fn remove(&mut self, index: usize) -> (value: T)
        requires
            index < old(self)@@.len(),
        ensures
            value == old(self)@@[index as int],
            final(self)@@ == old(self)@@.remove(index as int),
            informed(old(self).listeners(), &final(self)@),
            old(self).same_watch(final(self)),
    {
        let value = self.value.remove(index);
        self.inform();
        value
    }

    /// Puts `value` at `index`, moving the later items up, then tells the listeners.
    pub fn insert(&mut self, index: usize, value: T)
        requires
            index <= old(self)@@.len(),
        ensures
            final(self)@@ == old(self)@@.insert(index as int, value),
            informed(old(self).listeners(), &final(self)@),
            old(self).same_watch(final(self)),
    {
        self.value.insert(index, value);
        self.inform();
    }

    /// Removes every item, then tells the listeners of the empty list.
    pub fn clear(&mut self)
        ensures
            final(self)@@ == Seq::<T>::empty(),
            informed(old(self).listeners(), &final(self)@),
            old(self).same_watch(final(self)),
    {
        self.value.clear();
        self.inform();
    }
}

/// Making the properties of a widget.
pub trait PropertyInit<T, N> {
    /// The widget the made properties will belong to.
    spec fn bound_to(&self) -> WidgetRef;

    fn init_property(&self, initial: T) -> (property: Property<T, N>)
        ensures
            property@ == initial,
            property.listeners().len() == 0,
            property.owner() == self.bound_to(),
            property.issued() == 0,
            property.wf(),
    ;

    /// A property of the widget that holds the default value of its type.
    fn init_default_property(&self) -> (property: Property<T, N>) where T: Default
        ensures
            T::default.ensures((), property@),
            property.listeners().len() == 0,
            property.owner() == self.bound_to(),
            property.issued() == 0,
            property.wf(),
    {
        self.init_property(T::default())
    }
}

impl<T, N> PropertyInit<T, N> for WidgetRef {
    open spec fn bound_to(&self) -> WidgetRef {
        *self
    }

    fn init_property(&self, initial: T) -> (property: Property<T, N>) {
        Property::new(initial, *self)
    }
}

impl<T, N> PropertyInit<T, N> for Widget {
    open spec fn bound_to(&self) -> WidgetRef {
        self.observer()
    }

    fn init_property(&self, initial: T) -> (property: Property<T, N>) {
        Property::new(initial, WidgetRef { slot: Some(self.id) })
    }
}

} // verus!
