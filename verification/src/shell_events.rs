//! Events of windows and of navigations, as the system delivers them.

use vstd::prelude::*;

verus! {

/// The event for an object that was created.
pub const EVENT_OBJECT_CREATE: u32 = 0x8000;

/// The event for an object that is shown.
pub const EVENT_OBJECT_SHOW: u32 = 0x8002;

/// The object that is a window itself, not something on it.
pub const OBJID_WINDOW: i32 = 0;

/// The event of a browser that has arrived at a location.
pub const DISPID_NAVIGATE_COMPLETE_2: i32 = 252;

/// An event that the program acts on.
#[derive(PartialEq, Eq, Structural, Clone, Copy)]
pub enum WindowEvent {
    Created,
    Shown,
}

/// What an event of the hook means: only windows themselves count, not what is on them, and
/// only their creation and their showing. The hook also delivers the events between these two,
/// such as that of an object that was destroyed.
pub open spec fn meaning(event: u32, id_object: i32) -> Option<WindowEvent> {
    if id_object != OBJID_WINDOW {
        None
    } else if event == EVENT_OBJECT_CREATE {
        Some(WindowEvent::Created)
    } else if event == EVENT_OBJECT_SHOW {
        Some(WindowEvent::Shown)
    } else {
        None
    }
}

/// Tell what an event of the hook means.
pub fn win_event_proc(event: u32, id_object: i32) -> (r: Option<WindowEvent>)
    ensures
        r == meaning(event, id_object),
        r == Some(WindowEvent::Created) <==> id_object == OBJID_WINDOW && event
            == EVENT_OBJECT_CREATE,
        r == Some(WindowEvent::Shown) <==> id_object == OBJID_WINDOW && event == EVENT_OBJECT_SHOW,
{
    if id_object != OBJID_WINDOW {
        return None;
    }
    if event == EVENT_OBJECT_CREATE {
        Some(WindowEvent::Created)
    } else if event == EVENT_OBJECT_SHOW {
        Some(WindowEvent::Shown)
    } else {
        None
    }
}

/// A hook that is installed.
pub struct Subscription {
    pub hook: usize,
}

/// Subscribe to window events: the callback is in place while the hook is. `hook` is what the
/// system returned for it; zero means that it could not be installed, and the failure is
/// handed on.
pub fn subscribe<C, E>(slot: &mut Option<C>, callback: C, hook: usize, failure: E) -> (r: Result<
    Subscription,
    E,
>)
    ensures
        hook != 0 ==> r == Ok::<Subscription, E>(Subscription { hook }) && *final(slot) == Some(
            callback,
        ),
        hook == 0 ==> r == Err::<Subscription, E>(failure) && *final(slot) == None::<C>,
{
    if hook == 0 {
        *slot = None;
        return Err(failure);
    }
    *slot = Some(callback);
    Ok(Subscription { hook })
}

impl Subscription {
    /// End the subscription: the callback goes, and the hook that is returned is to be removed.
    pub fn release<C>(self, slot: &mut Option<C>) -> (r: usize)
        ensures
            r == self.hook,
            *final(slot) == None::<C>,
    {
        *slot = None;
        self.hook
    }
}

/// What is known of a browser's navigation.
pub struct NavigateCompleteSink {
    pub completed: bool,
}

impl NavigateCompleteSink {
    /// Nothing has arrived yet.
    pub fn new() -> (r: Self)
        ensures
            !r.completed,
    {
        NavigateCompleteSink { completed: false }
    }

    /// Take an event of the browser.
    pub fn invoke(&mut self, dispid: i32)
        ensures
            final(self).completed == (old(self).completed || dispid == DISPID_NAVIGATE_COMPLETE_2),
    {
        if dispid == DISPID_NAVIGATE_COMPLETE_2 {
            self.completed = true;
        }
    }
}

/// A subscription to the events of one browser. What it has seen is shared with the sink that
/// the browser calls.
pub struct NavigateCompleteWatch<S> {
    pub cookie: u32,
    pub completed: S,
}

/// Watch a browser, given the sink's shared state and the outcome of the subscription.
pub fn watch_navigate_complete<S, E>(completed: S, advised: Result<u32, E>) -> (r: Result<
    NavigateCompleteWatch<S>,
    E,
>)
    ensures
        r == (match advised {
            Ok(cookie) => Ok::<NavigateCompleteWatch<S>, E>(
                NavigateCompleteWatch { cookie, completed },
            ),
            Err(e) => Err(e),
        }),
{
    match advised {
        Ok(cookie) => Ok(NavigateCompleteWatch { cookie, completed }),
        Err(e) => Err(e),
    }
}

impl<S> NavigateCompleteWatch<S> {
    /// End the subscription: the cookie that is returned is to be handed back to the browser.
    pub fn release(self) -> (r: u32)
        ensures
            r == self.cookie,
    {
        self.cookie
    }
}

/// Whether a navigation has completed after these events.
pub open spec fn completed_after(completed: bool, dispids: Seq<i32>) -> bool
    decreases dispids.len(),
{
    if dispids.len() == 0 {
        completed
    } else {
        completed_after(completed || dispids[0] == DISPID_NAVIGATE_COMPLETE_2, dispids.drop_first())
    }
}

/// A completed navigation is noticed exactly if its event came, whatever came before or after
/// it.
pub proof fn law_completion_is_noticed(completed: bool, dispids: Seq<i32>)
    ensures
        completed_after(completed, dispids) == (completed || dispids.contains(
            DISPID_NAVIGATE_COMPLETE_2,
        )),
    decreases dispids.len(),
{
    if dispids.len() > 0 {
        let rest = dispids.drop_first();
        law_completion_is_noticed(completed || dispids[0] == DISPID_NAVIGATE_COMPLETE_2, rest);
        assert(dispids == seq![dispids[0]] + rest);
        if rest.contains(DISPID_NAVIGATE_COMPLETE_2) {
            let i = choose|i: int| 0 <= i < rest.len() && rest[i] == DISPID_NAVIGATE_COMPLETE_2;
            assert(dispids[i + 1] == DISPID_NAVIGATE_COMPLETE_2);
        }
        if dispids.contains(DISPID_NAVIGATE_COMPLETE_2) && dispids[0]
            != DISPID_NAVIGATE_COMPLETE_2 {
            let i = choose|i: int|
                0 <= i < dispids.len() && dispids[i] == DISPID_NAVIGATE_COMPLETE_2;
            assert(rest[i - 1] == DISPID_NAVIGATE_COMPLETE_2);
        }
    }
}

} // verus!
