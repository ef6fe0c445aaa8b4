//! The life cycle of the router process: which router is known, what may be
//! started, and what is left to stop.

use vstd::prelude::*;

use crate::llamacpp::session::{Endpoint, RouterInfo};

verus! {

/// A running router: where it listens, and the process behind it.
pub struct RouterHandle<P> {
    pub info: RouterInfo,
    pub process: P,
}

/// What is known of the router. The process id is kept beside the handle, so
/// that a router can still be killed while somebody else holds its handle.
pub struct RouterSlot<P> {
    router: Option<RouterHandle<P>>,
    router_pid: u32,
}

/// What is known of the router, as mathematical values.
pub ghost struct SlotView<P> {
    pub router: Option<(Endpoint, P)>,
    pub pid: u32,
}

/// What is to be killed.
pub enum KillTarget<P> {
    /// The router behind the handle, with all its children.
    Tree(RouterHandle<P>),
    /// The process with that id, with all its children.
    Pid(u32),
    /// There is nothing to kill.
    Nothing,
}

/// What is to be killed, as mathematical values.
pub ghost enum KillView<P> {
    Tree(Endpoint, P),
    Pid(u32),
    Nothing,
}

/// How a stop that waits for the models ended.
pub enum StopOutcome<P> {
    /// The router stopped.
    Stopped,
    /// The time was up while the models were busy; the router runs on.
    Busy(RouterHandle<P>, Vec<String>),
}

/// A handle as a pair.
pub open spec fn handle_view<P>(handle: RouterHandle<P>) -> (Endpoint, P) {
    (handle.info@, handle.process)
}

/// A handle that may be missing.
pub open spec fn optional_handle<P>(handle: Option<RouterHandle<P>>) -> Option<(Endpoint, P)> {
    match handle {
        Some(h) => Some(handle_view(h)),
        None => None,
    }
}

impl<P> View for RouterSlot<P> {
    type V = SlotView<P>;

    closed spec fn view(&self) -> SlotView<P> {
        SlotView { router: optional_handle(self.router), pid: self.router_pid }
    }
}

impl<P> View for KillTarget<P> {
    type V = KillView<P>;

    open spec fn view(&self) -> KillView<P> {
        match *self {
            KillTarget::Tree(handle) => KillView::Tree(handle.info@, handle.process),
            KillTarget::Pid(pid) => KillView::Pid(pid),
            KillTarget::Nothing => KillView::Nothing,
        }
    }
}

/// No router is known.
pub open spec fn vacant<P>() -> SlotView<P> {
    SlotView { router: None, pid: 0 }
}

/// The router that was started is known, and no other.
pub open spec fn after_start<P>(handle: (Endpoint, P)) -> SlotView<P> {
    SlotView { router: Some(handle), pid: handle.0.pid }
}

/// The router is no longer known. Where none was, nothing changes.
pub open spec fn after_stop<P>(slot: SlotView<P>) -> SlotView<P> {
    if slot.router is Some {
        vacant()
    } else {
        slot
    }
}

/// The handle is with whoever waits for the models; the process id stays.
pub open spec fn during_stop<P>(slot: SlotView<P>) -> SlotView<P> {
    SlotView { router: None, pid: slot.pid }
}

/// The stop that waited for the models is over: either the process is gone, or
/// its handle comes back.
pub open spec fn after_graceful_stop<P>(
    slot: SlotView<P>,
    restored: Option<(Endpoint, P)>,
) -> SlotView<P> {
    match restored {
        Some(handle) => SlotView { router: Some(handle), pid: slot.pid },
        None => SlotView { router: slot.router, pid: 0 },
    }
}

/// What a kill is aimed at: the handle where it is there, else the process id.
pub open spec fn kill_target<P>(slot: SlotView<P>) -> KillView<P> {
    match slot.router {
        Some(handle) => KillView::Tree(handle.0, handle.1),
        None => if slot.pid != 0 {
            KillView::Pid(slot.pid)
        } else {
            KillView::Nothing
        },
    }
}

impl<P> RouterSlot<P> {
    /// No router is known.
    pub fn new() -> (r: Self)
        ensures
            r@ == vacant::<P>(),
    {
        RouterSlot { router: None, router_pid: 0 }
    }

    /// Where the router listens, if it runs.
    pub fn get_router_info(&self) -> (r: Option<RouterInfo>)
        ensures
            match r {
                Some(info) => self@.router matches Some(handle) && handle.0 == info@,
                None => self@.router is None,
            },
    {
        match &self.router {
            Some(handle) => Some(handle.info.clone()),
            None => None,
        }
    }

    /// Where the router listens, for a request that needs it to run.
    pub fn router_endpoint(&self) -> (r: Result<RouterInfo, String>)
        ensures
            match r {
                Ok(info) => self@.router matches Some(handle) && handle.0 == info@,
                Err(e) => self@.router is None && e@ == "router not started"@,
            },
    {
        match &self.router {
            Some(handle) => Ok(handle.info.clone()),
            None => Err("router not started".to_owned()),
        }
    }

    /// Whether a router may be started: only one runs at a time.
    pub fn check_start(&self) -> (r: Result<(), String>)
        ensures
            match r {
                Ok(_) => self@.router is None,
                Err(e) => self@.router is Some && e@ == "Router is already running."@,
            },
    {
        match &self.router {
            Some(_) => Err("Router is already running.".to_owned()),
            None => Ok(()),
        }
    }

    /// Takes in the router that was started, and says where it listens.
    pub fn start(&mut self, handle: RouterHandle<P>) -> (r: RouterInfo)
        ensures
            r@ == handle.info@,
            final(self)@ == after_start(handle_view(handle)),
    {
        let info = handle.info.clone();
        self.router_pid = handle.info.pid;
        self.router = Some(handle);
        info
    }

    /// Gives out the router that is to be stopped, and forgets it.
    pub fn stop(&mut self) -> (r: Option<RouterHandle<P>>)
        ensures
            optional_handle(r) == old(self)@.router,
            final(self)@ == after_stop(old(self)@),
    {
        match self.router.take() {
            Some(handle) => {
                self.router_pid = 0;
                Some(handle)
            },
            None => None,
        }
    }

    /// Gives out the router that is to be stopped once its models are idle.
    pub fn begin_graceful_stop(&mut self) -> (r: Option<RouterHandle<P>>)
        ensures
            optional_handle(r) == old(self)@.router,
            final(self)@ == during_stop(old(self)@),
    {
        self.router.take()
    }

    /// Takes in how the stop ended, and says which models were busy, if it did
    /// not succeed.
    pub fn finish_graceful_stop(&mut self, outcome: StopOutcome<P>) -> (r: Option<Vec<String>>)
        ensures
            match outcome {
                StopOutcome::Stopped => {
                    &&& r is None
                    &&& final(self)@ == after_graceful_stop(old(self)@, None)
                },
                StopOutcome::Busy(handle, busy) => {
                    &&& r == Some(busy)
                    &&& final(self)@ == after_graceful_stop(old(self)@, Some(handle_view(handle)))
                },
            },
    {
        match outcome {
            StopOutcome::Stopped => {
                self.router_pid = 0;
                None
            },
            StopOutcome::Busy(handle, busy) => {
                self.router = Some(handle);
                Some(busy)
            },
        }
    }

    /// Gives out what is to be killed, and forgets the router.
    pub fn force_kill(&mut self) -> (r: KillTarget<P>)
        ensures
            r@ == kill_target(old(self)@),
            final(self)@ == vacant::<P>(),
    {
        let pid = self.router_pid;
        self.router_pid = 0;
        match self.router.take() {
            Some(handle) => KillTarget::Tree(handle),
            None => if pid != 0 {
                KillTarget::Pid(pid)
            } else {
                KillTarget::Nothing
            },
        }
    }
}

/// A stop takes out the router that a start put in, and leaves nothing behind.
pub proof fn law_stop_undoes_start<P>(handle: (Endpoint, P))
    ensures
        after_start(handle).router == Some(handle),
        after_stop(after_start(handle)) == vacant::<P>(),
{
}

/// A second stop, or a second kill, finds nothing to do.
pub proof fn law_second_stop_does_nothing<P>(slot: SlotView<P>)
    ensures
        after_stop(slot).router is None,
        after_stop(after_stop(slot)) == after_stop(slot),
        kill_target(vacant::<P>()) == KillView::<P>::Nothing,
{
}

/// A stop that finds the models busy leaves everything as it was.
pub proof fn law_busy_stop_changes_nothing<P>(slot: SlotView<P>)
    requires
        slot.router is Some,
    ensures
        after_graceful_stop(during_stop(slot), slot.router) == slot,
{
}

/// A router can be killed by its process id while a stop waits for its models,
/// and no longer once that stop has succeeded.
pub proof fn law_kill_reaches_a_stopping_router<P>(handle: (Endpoint, P))
    requires
        handle.0.pid != 0,
    ensures
        kill_target(during_stop(after_start(handle))) == KillView::<P>::Pid(handle.0.pid),
        after_graceful_stop(during_stop(after_start(handle)), None) == vacant::<P>(),
{
}

} // verus!
