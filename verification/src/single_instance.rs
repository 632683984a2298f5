//! One instance per session, by a mutex with a name.

use vstd::prelude::*;

verus! {

/// The name of the mutex. Names under `Local` belong to one session, so that each user of the
/// machine has an instance of their own.
pub const MUTEX_NAME: &'static str = "Local\\ExplorerTabMerger.SingleInstance.v1";

/// The error for an object that existed before it was created.
pub const ERROR_ALREADY_EXISTS: u32 = 183;

/// The one instance: it holds the mutex.
pub struct Guard {
    pub handle: usize,
}

/// What came of the attempt to be the one instance.
pub struct Acquisition {
    /// There if this is the one instance.
    pub guard: Option<Guard>,
    /// A handle that is to be closed now.
    pub close: Option<usize>,
}

/// Which instance this is. `created` is the handle of the mutex, if the system gave one;
/// `last_error` tells whether another instance had created it before.
pub open spec fn acquisition(created: Option<usize>, last_error: u32) -> Acquisition {
    match created {
        Some(handle) => if last_error == ERROR_ALREADY_EXISTS {
            Acquisition { guard: None, close: Some(handle) }
        } else {
            Acquisition { guard: Some(Guard { handle }), close: None }
        },
        None => Acquisition { guard: None, close: None },
    }
}

/// Decide whether this is the one instance.
pub fn acquire(created: Option<usize>, last_error: u32) -> (r: Acquisition)
    ensures
        r == acquisition(created, last_error),
        r.guard is Some <==> created is Some && last_error != ERROR_ALREADY_EXISTS,
        r.guard matches Some(guard) ==> created == Some(guard.handle),
        r.close == (if last_error == ERROR_ALREADY_EXISTS {
            created
        } else {
            None
        }),
{
    match created {
        Some(handle) => if last_error == ERROR_ALREADY_EXISTS {
            Acquisition { guard: None, close: Some(handle) }
        } else {
            Acquisition { guard: Some(Guard { handle }), close: None }
        },
        None => Acquisition { guard: None, close: None },
    }
}

/// Whether a handle refers to nothing.
pub open spec fn invalid_handle(handle: usize) -> bool {
    handle == 0 || handle == usize::MAX
}

impl Guard {
    /// The handle to close when the instance ends.
    pub open spec fn to_close(self) -> Option<usize> {
        if invalid_handle(self.handle) {
            None
        } else {
            Some(self.handle)
        }
    }

    /// Give the mutex up: the handle that is returned is to be closed.
    pub fn release(self) -> (r: Option<usize>)
        ensures
            r == self.to_close(),
            self.handle == 0 || self.handle == usize::MAX ==> r is None,
            self.handle != 0 && self.handle != usize::MAX ==> r == Some(self.handle),
    {
        if self.handle == 0 || self.handle == usize::MAX {
            None
        } else {
            Some(self.handle)
        }
    }
}

/// The processes of a session, as far as the mutex goes.
pub struct Session {
    /// Those that hold the mutex as the one instance.
    pub instances: Seq<Guard>,
    /// How many handles of the mutex are open.
    pub handles: int,
}

/// Something that happens in a session.
pub enum SessionEvent {
    /// The program is started; the system gives it this handle, or none.
    Start(Option<usize>),
    /// The first of the instances ends.
    End,
}

/// How many handles an optional handle is.
pub open spec fn count(handle: Option<usize>) -> int {
    if handle is Some {
        1
    } else {
        0
    }
}

impl Session {
    /// The session after an event. Creating the mutex tells whether a handle of it was open
    /// before.
    pub open spec fn next(self, event: SessionEvent) -> Session {
        match event {
            SessionEvent::Start(created) => {
                let last_error = if self.handles > 0 {
                    ERROR_ALREADY_EXISTS
                } else {
                    0
                };
                let got = acquisition(created, last_error);
                Session {
                    instances: match got.guard {
                        Some(guard) => self.instances.push(guard),
                        None => self.instances,
                    },
                    handles: self.handles + count(created) - count(got.close),
                }
            },
            SessionEvent::End => if self.instances.len() > 0 {
                Session {
                    instances: self.instances.drop_first(),
                    handles: self.handles - count(self.instances[0].to_close()),
                }
            } else {
                self
            },
        }
    }

    /// The session after several events.
    pub open spec fn after(self, events: Seq<SessionEvent>) -> Session
        decreases events.len(),
    {
        if events.len() == 0 {
            self
        } else {
            self.next(events[0]).after(events.drop_first())
        }
    }

    /// At most one instance, with a handle that refers to something, and no other handle.
    pub open spec fn sound(self) -> bool {
        &&& self.instances.len() == self.handles <= 1
        &&& self.instances.len() == 1 ==> !invalid_handle(self.instances[0].handle)
    }
}

/// However often the program is started and ended, there is at most one instance, and no
/// handle stays open but its own. The system never gives a handle that refers to nothing.
pub proof fn law_one_instance(session: Session, events: Seq<SessionEvent>)
    requires
        session.sound(),
        forall|i: int|
            0 <= i < events.len() ==> (#[trigger] events[i] matches SessionEvent::Start(Some(h))
                ==> !invalid_handle(h)),
    ensures
        session.after(events).sound(),
    decreases events.len(),
{
    if events.len() > 0 {
        let rest = events.drop_first();
        assert(events[0] == events[0]);
        assert forall|i: int| 0 <= i < rest.len() implies (#[trigger] rest[i] matches
            SessionEvent::Start(Some(h)) ==> !invalid_handle(h)) by {
            assert(rest[i] == events[i + 1]);
        }
        law_one_instance(session.next(events[0]), rest);
    }
}

} // verus!
