//! The messages that pass between the thread that dispatches input and the
//! thread of the rendering backend.

use crate::batch::Batch;
use crate::caribou::Caribou;
use crate::handle::{Widget, WidgetRef};
use crate::math::IntPair;
use crate::property::{Mute, Property};
use crate::widget::{Listeners, Watchers};
use std::collections::VecDeque;
use vstd::prelude::*;

verus! {

/// A window on the screen: its title, its extent and the widget it shows.
pub struct Window<P: Watchers> {
    pub marker: Widget,
    pub title: Property<String, P::OnText>,
    pub size: Property<IntPair, P::OnPair>,
    pub root: Property<Widget, Mute>,
}

impl<P: Watchers> Window<P> {
    /// A window without title and extent that shows a new widget. The window
    /// makes two widgets in `ui`: the marker its properties belong to, and
    /// the widget it shows.
    pub fn new<L: Listeners<P>>(ui: &mut Caribou<P, L>) -> (window: Window<P>)
        requires
            old(ui).wf(),
        ensures
            final(ui).wf(),
            window.marker.id == old(ui)@.nodes.len(),
            window.root@.id == old(ui)@.nodes.len() + 1,
            final(ui).holds(window.marker),
            final(ui).holds(window.root@),
            final(ui)@.nodes == old(ui)@.nodes.push(Caribou::<P, L>::blank()).push(
                Caribou::<P, L>::blank(),
            ),
            final(ui)@.focused == old(ui)@.focused,
            final(ui)@.redraw == old(ui)@.redraw,
            final(ui).instance() == old(ui).instance(),
            final(ui).root() == old(ui).root(),
            window.title@@ == Seq::<char>::empty(),
            window.size@ == (IntPair { x: 0, y: 0 }),
            window.title.owner() == window.marker.observer(),
            window.size.owner() == window.marker.observer(),
            window.root.owner() == window.marker.observer(),
            window.title.listeners().len() == 0,
            window.size.listeners().len() == 0,
    {
        let marker = ui.create_widget();
        let shown = ui.create_widget();
        let back = WidgetRef { slot: Some(marker.id) };
        Window {
            marker,
            title: Property::new(String::new(), back),
            size: Property::new(IntPair::new(0, 0), back),
            root: Property::new(shown, back),
        }
    }
}

/// What the backend tells the dispatching side.
#[derive(Debug, Clone, Copy, PartialEq, Eq, Structural)]
pub enum DispatchMessage {
    BackendInitialized,
    RequestRedraw,
}

/// What the dispatching side tells the backend.
pub enum BackendMessage {
    PerformRedraw(Batch),
}

/// The two mailboxes between the dispatching side and the backend.
pub struct Handshake {
    dispatch_queue: VecDeque<DispatchMessage>,
    backend_queue: VecDeque<BackendMessage>,
}

impl Handshake {
    /// The messages for the dispatching side, oldest first.
    pub closed spec fn for_dispatch(&self) -> Seq<DispatchMessage> {
        self.dispatch_queue@
    }

    /// The messages for the backend, oldest first.
    pub closed spec fn for_backend(&self) -> Seq<BackendMessage> {
        self.backend_queue@
    }

    pub fn create() -> (handshake: Handshake)
        ensures
            handshake.for_dispatch() == Seq::<DispatchMessage>::empty(),
            handshake.for_backend() == Seq::<BackendMessage>::empty(),
    {
        Handshake { dispatch_queue: VecDeque::new(), backend_queue: VecDeque::new() }
    }

    /// Posts `message` to the dispatching side.
    pub fn notify_dispatch(&mut self, message: DispatchMessage)
        ensures
            final(self).for_dispatch() == old(self).for_dispatch().push(message),
            final(self).for_backend() == old(self).for_backend(),
    {
        self.dispatch_queue.push_back(message);
    }

    /// Posts `message` to the backend.
    pub fn notify_backend(&mut self, message: BackendMessage)
        ensures
            final(self).for_backend() == old(self).for_backend().push(message),
            final(self).for_dispatch() == old(self).for_dispatch(),
    {
        self.backend_queue.push_back(message);
    }

    /// Takes the oldest message for the dispatching side, if there is one.
    pub fn next_for_dispatch(&mut self) -> (message: Option<DispatchMessage>)
        ensures
            final(self).for_backend() == old(self).for_backend(),
            old(self).for_dispatch().len() == 0 ==> message is None && final(self).for_dispatch() == old(self).for_dispatch(),
            old(self).for_dispatch().len() > 0 ==> message == Some(old(self).for_dispatch()[0])
                && final(self).for_dispatch() == old(self).for_dispatch().skip(1),
    {
        let message = self.dispatch_queue.pop_front();
        assert(old(self).dispatch_queue@.len() > 0 ==> old(self).dispatch_queue@.subrange(
            1,
            old(self).dispatch_queue@.len() as int,
        ) =~= old(self).dispatch_queue@.skip(1));
        message
    }

    /// Takes the oldest message for the backend, if there is one.
    pub fn next_for_backend(&mut self) -> (message: Option<BackendMessage>)
        ensures
            final(self).for_dispatch() == old(self).for_dispatch(),
            old(self).for_backend().len() == 0 ==> message is None && final(self).for_backend()
                == old(self).for_backend(),
            old(self).for_backend().len() > 0 ==> message == Some(old(self).for_backend()[0])
                && final(self).for_backend() == old(self).for_backend().skip(1),
    {
        let message = self.backend_queue.pop_front();
        assert(old(self).backend_queue@.len() > 0 ==> old(self).backend_queue@.subrange(
            1,
            old(self).backend_queue@.len() as int,
        ) =~= old(self).backend_queue@.skip(1));
        message
    }
}

} // verus!
