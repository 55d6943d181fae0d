//! The subscription abstraction's release discipline. The generated
//! subscription value holds an event name, a retained callback registration
//! and an unlisten capability; its release path — whether triggered
//! explicitly or implicitly at scope end — must invoke that external
//! capability at most once. The decision of whether to invoke it is modeled
//! here; the surrounding runtime performs the call when told to.

use vstd::prelude::*;

verus! {

/// The state of one event subscription: the event name it was registered
/// for, and whether the registration is still active. Construction follows
/// a confirmed bridge registration, so a fresh subscription is active.
#[derive(Debug, PartialEq)]
pub struct Subscription {
    pub event_name: String,
    pub active: bool,
}

/// The release transition: the subscription becomes inactive, and the
/// external unlisten capability is to be invoked exactly when it was still
/// active.
pub open spec fn spec_release(s: Subscription) -> (Subscription, bool) {
    (Subscription { event_name: s.event_name, active: false }, s.active)
}

impl Subscription {
    /// A subscription whose bridge registration was just confirmed.
    pub fn new(event_name: String) -> (s: Self)
        ensures
            s.active,
            s.event_name == event_name,
    {
        Subscription { event_name, active: true }
    }

    /// Release the subscription. The result says whether the caller must
    /// invoke the external unlisten capability now: true on the first
    /// release, false on every later one.
    pub fn release(&mut self) -> (invoke_unlisten: bool)
        ensures
            *final(self) == spec_release(*old(self)).0,
            invoke_unlisten == spec_release(*old(self)).1,
            final(self).event_name == old(self).event_name,
            !final(self).active,
            invoke_unlisten == old(self).active,
    {
        let was = self.active;
        self.active = false;
        was
    }
}

/// Releasing twice — explicitly and then implicitly at scope end, or in
/// either order — invokes the external unlisten capability exactly once:
/// the first release demands the call, the second never does.
pub proof fn lemma_release_exactly_once(s0: Subscription)
    requires
        s0.active,
    ensures
        spec_release(s0).1,
        !spec_release(spec_release(s0).0).1,
{
}

} // verus!
