//! Widget handles and the census that knows which widgets still exist.
//!
//! A `Widget` is an owning handle: whoever stores one keeps the widget in the
//! tree. A `WidgetRef` is an observing handle: it may outlast its widget and
//! has to be checked against the census before use.

use vstd::prelude::*;

verus! {

/// An owning handle to a widget.
#[derive(Debug, Clone, Copy, PartialEq, Eq, Structural)]
pub struct Widget {
    pub id: usize,
}

/// An observing handle to a widget, or to nothing at all.
#[derive(Debug, Clone, Copy, PartialEq, Eq, Structural)]
pub struct WidgetRef {
    pub slot: Option<usize>,
}

impl WidgetRef {
    /// The handle that observes nothing.
    pub open spec fn nothing() -> WidgetRef {
        WidgetRef { slot: None }
    }

    /// Whether both handles observe the same widget, or both nothing.
    pub fn same_as(&self, other: &WidgetRef) -> (same: bool)
        ensures
            same == (*self == *other),
    {
        match (self.slot, other.slot) {
            (Some(a), Some(b)) => a == b,
            (None, None) => true,
            _ => false,
        }
    }
}

impl Default for WidgetRef {
    fn default() -> (r: Self)
        ensures
            r == WidgetRef::nothing(),
    {
        WidgetRef { slot: None }
    }
}

impl Widget {
    /// The observing handle of this widget.
    pub open spec fn observer(self) -> WidgetRef {
        WidgetRef { slot: Some(self.id) }
    }

    pub fn same_as(&self, other: &Widget) -> (same: bool)
        ensures
            same == (*self == *other),
    {
        self.id == other.id
    }
}

pub trait WidgetRefer {
    fn refer(&self) -> WidgetRef;
}

impl WidgetRefer for Widget {
    fn refer(&self) -> (r: WidgetRef)
        ensures
            r == self.observer(),
    {
        WidgetRef { slot: Some(self.id) }
    }
}

/// The record of every widget ever made and whether it still exists. Widgets
/// are numbered in the order of their making and a number is never given twice,
/// so an observing handle can never come to mean another widget.
pub struct Census {
    alive: Vec<bool>,
}

impl Census {
    /// How many widgets were ever made.
    pub closed spec fn size(&self) -> nat {
        self.alive@.len()
    }

    /// Whether the widget numbered `id` was made and still exists.
    pub closed spec fn lives(&self, id: int) -> bool {
        0 <= id < self.alive@.len() && self.alive@[id]
    }

    pub open spec fn holds(&self, widget: Widget) -> bool {
        self.lives(widget.id as int)
    }

    pub open spec fn reaches(&self, r: WidgetRef) -> bool {
        r.slot matches Some(id) && self.lives(id as int)
    }

    pub proof fn lives_in_range(&self, id: int)
        requires
            self.lives(id),
        ensures
            0 <= id < self.size(),
    {
    }

    pub fn new() -> (census: Census)
        ensures
            census.size() == 0,
    {
        Census { alive: Vec::new() }
    }

    pub fn len(&self) -> (n: usize)
        ensures
            n == self.size(),
    {
        self.alive.len()
    }

    pub fn is_alive(&self, widget: &Widget) -> (alive: bool)
        ensures
            alive == self.holds(*widget),
    {
        widget.id < self.alive.len() && self.alive[widget.id]
    }

    /// Records a new widget and hands out its owning handle.
    pub(crate) fn enroll(&mut self) -> (widget: Widget)
        ensures
            widget.id == old(self).size(),
            final(self).size() == old(self).size() + 1,
            final(self).holds(widget),
            forall|id: int| id != widget.id ==> final(self).lives(id) == old(self).lives(id),
    {
        let id = self.alive.len();
        self.alive.push(true);
        Widget { id }
    }

    /// Records that `widget` exists no longer.
    pub(crate) fn strike(&mut self, widget: Widget)
        requires
            old(self).holds(widget),
        ensures
            final(self).size() == old(self).size(),
            !final(self).holds(widget),
            forall|id: int| id != widget.id ==> final(self).lives(id) == old(self).lives(id),
    {
        self.alive[widget.id] = false;
    }
}

pub trait WidgetAcquire {
    fn acquire(&self, census: &Census) -> Option<Widget>;
}

impl WidgetAcquire for WidgetRef {
    /// The owning handle of the observed widget, if it still exists.
    fn acquire(&self, census: &Census) -> (widget: Option<Widget>)
        ensures
            widget is Some <==> census.reaches(*self),
            widget matches Some(w) ==> w.observer() == *self,
    {
        match self.slot {
            Some(id) => {
                let w = Widget { id };
                if census.is_alive(&w) {
                    Some(w)
                } else {
                    None
                }
            },
            None => None,
        }
    }
}

/// The entries of `refs` whose widgets still exist, in their order.
pub open spec fn surviving(refs: Seq<WidgetRef>, census: Census) -> Seq<WidgetRef> {
    refs.filter(|r: WidgetRef| census.reaches(r))
}

/// Every survivor reaches a living widget, and was among the entries.
pub proof fn surviving_reach(refs: Seq<WidgetRef>, census: Census, i: int)
    requires
        0 <= i < surviving(refs, census).len(),
    ensures
        census.reaches(surviving(refs, census)[i]),
        refs.contains(surviving(refs, census)[i]),
{
    let pred = |r: WidgetRef| census.reaches(r);
    refs.lemma_filter_pred(pred, i);
    let s = surviving(refs, census);
    assert(s.contains(s[i]));
    refs.lemma_filter_contains_rev(pred, s[i]);
}

/// A copy of `refs`.
pub fn copy_refs(refs: &Vec<WidgetRef>) -> (copy: Vec<WidgetRef>)
    ensures
        copy@ == refs@,
{
    let mut copy: Vec<WidgetRef> = Vec::new();
    let mut i: usize = 0;
    while i < refs.len()
        invariant
            i <= refs@.len(),
            copy@ == refs@.take(i as int),
        decreases refs@.len() - i,
    {
        copy.push(refs[i]);
        assert(refs@.take(i as int).push(refs@[i as int]) =~= refs@.take(i as int + 1));
        i += 1;
    }
    assert(refs@.take(refs@.len() as int) =~= refs@);
    copy
}

/// The widgets behind `refs`, one for each entry whose widget still exists.
pub open spec fn acquired(refs: Seq<WidgetRef>, census: Census) -> Seq<Widget> {
    surviving(refs, census).map_values(|r: WidgetRef| Widget { id: r.slot->0 })
}

pub trait WidgetRefVec {
    fn clean(&mut self, census: &Census);

    fn acquire(&self, census: &Census) -> Vec<Widget>;

    fn contains_widget(&self, widget: &Widget) -> bool;

    fn contains_ref(&self, widget: &WidgetRef) -> bool;
}

impl WidgetRefVec for Vec<WidgetRef> {
    /// Drops every entry whose widget exists no longer; the others keep their order.
    fn clean(&mut self, census: &Census)
        ensures
            final(self)@ == surviving(old(self)@, *census),
    {
        let mut kept: Vec<WidgetRef> = Vec::new();
        let mut i: usize = 0;
        while i < self.len()
            invariant
                i <= self@.len(),
                self@ == old(self)@,
                kept@ == surviving(self@.take(i as int), *census),
            decreases self@.len() - i,
        {
            let r = self[i];
            proof {
                let pred = |r: WidgetRef| census.reaches(r);
                self@.take(i as int).lemma_filter_push(r, pred);
                assert(self@.take(i as int).push(r) =~= self@.take(i as int + 1));
            }
            if r.acquire(census).is_some() {
                kept.push(r);
            }
            i += 1;
        }
        assert(self@.take(self@.len() as int) =~= self@);
        *self = kept;
    }

    /// The owning handles behind the entries that still have a widget.
    fn acquire(&self, census: &Census) -> (widgets: Vec<Widget>)
        ensures
            widgets@ == acquired(self@, *census),
    {
        let mut found: Vec<Widget> = Vec::new();
        let mut i: usize = 0;
        while i < self.len()
            invariant
                i <= self@.len(),
                found@ == acquired(self@.take(i as int), *census),
            decreases self@.len() - i,
        {
            let r = self[i];
            proof {
                let pred = |r: WidgetRef| census.reaches(r);
                self@.take(i as int).lemma_filter_push(r, pred);
                assert(self@.take(i as int).push(r) =~= self@.take(i as int + 1));
                let before = surviving(self@.take(i as int), *census);
                let f = |r: WidgetRef| Widget { id: r.slot->0 };
                assert(before.push(r).map_values(f) =~= before.map_values(f).push(f(r)));
            }
            match r.acquire(census) {
                Some(w) => {
                    found.push(w);
                },
                None => {},
            }
            i += 1;
        }
        assert(self@.take(self@.len() as int) =~= self@);
        found
    }

    /// Whether some entry observes `widget`.
    fn contains_widget(&self, widget: &Widget) -> (found: bool)
        ensures
            found == self@.contains(widget.observer()),
    {
        let r = widget.refer();
        self.contains_ref(&r)
    }

    /// Whether some entry equals `widget`.
    fn contains_ref(&self, widget: &WidgetRef) -> (found: bool)
        ensures
            found == self@.contains(*widget),
    {
        let mut i: usize = 0;
        while i < self.len()
            invariant
                i <= self@.len(),
                forall|k: int| 0 <= k < i ==> self@[k] != *widget,
            decreases self@.len() - i,
        {
            if self[i].same_as(widget) {
                return true;
            }
            i += 1;
        }
        false
    }
}

pub trait WidgetVec {
    fn contains_widget(&self, widget: &Widget) -> bool;
}

impl WidgetVec for Vec<Widget> {
    fn contains_widget(&self, widget: &Widget) -> (found: bool)
        ensures
            found == self@.contains(*widget),
    {
        let mut i: usize = 0;
        while i < self.len()
            invariant
                i <= self@.len(),
                forall|k: int| 0 <= k < i ==> self@[k] != *widget,
            decreases self@.len() - i,
        {
            if self[i].same_as(widget) {
                return true;
            }
            i += 1;
        }
        false
    }
}

} // verus!
