//! Remote-control mode of the streaming session. Enabling it while it is
//! already on first shuts the running remote-control engine down, so at most
//! one engine is ever alive.

use vstd::prelude::*;

verus! {

/// One operation on the streaming session's remote-control engine.
#[derive(Clone, Copy, Debug, PartialEq, Eq, Structural)]
pub enum SessionAction {
    /// Signal the running engine to shut down and close its event channel.
    ShutdownRemote,
    /// Start a new engine, with the software mixer as its audio filter, and
    /// make its event channel the session's.
    StartRemote,
}

pub struct RemoteControl {
    active: bool,
}

pub open spec fn enable_actions(active: bool) -> Seq<SessionAction> {
    if active {
        seq![SessionAction::ShutdownRemote, SessionAction::StartRemote]
    } else {
        seq![SessionAction::StartRemote]
    }
}

pub open spec fn disable_actions(active: bool) -> Seq<SessionAction> {
    if active {
        seq![SessionAction::ShutdownRemote]
    } else {
        Seq::empty()
    }
}

impl RemoteControl {
    pub closed spec fn spec_active(&self) -> bool {
        self.active
    }

    /// Broadcast-only: no remote-control engine running.
    pub fn new() -> (r: RemoteControl)
        ensures
            !r.spec_active(),
    {
        RemoteControl { active: false }
    }

    pub fn is_active(&self) -> (r: bool)
        ensures
            r == self.spec_active(),
    {
        self.active
    }

    /// Switches to remote-controlled mode, replacing a running engine.
    pub fn enable_connect(&mut self) -> (r: Vec<SessionAction>)
        ensures
            final(self).spec_active(),
            r@ == enable_actions(old(self).spec_active()),
    {
        let mut r = self.disable_connect();
        r.push(SessionAction::StartRemote);
        self.active = true;
        assert(r@ =~= enable_actions(old(self).spec_active()));
        r
    }

    /// Back to broadcast-only mode; does nothing when already there.
    pub fn disable_connect(&mut self) -> (r: Vec<SessionAction>)
        ensures
            !final(self).spec_active(),
            r@ == disable_actions(old(self).spec_active()),
    {
        let mut r: Vec<SessionAction> = Vec::new();
        if self.active {
            r.push(SessionAction::ShutdownRemote);
        }
        self.active = false;
        assert(r@ =~= disable_actions(old(self).spec_active()));
        r
    }
}

} // verus!
