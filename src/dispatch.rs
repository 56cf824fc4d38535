use vstd::prelude::*;

verus! {

/// The most calls that run at once, over all connections together.
pub const MAX_PARALLEL_REQUESTS: usize = 16;

/// The version of the wire protocol that this service speaks.
pub const PROTOCOL_VERSION: &'static str = "0";

/// Answer of the informational `protocol` call.
pub fn protocol() -> (r: String)
    ensures
        r@ == PROTOCOL_VERSION@,
{
    PROTOCOL_VERSION.to_owned()
}

/// Answer of the informational `ping` call.
pub fn ping() -> (r: String)
    ensures
        r@ == "pong!"@,
{
    "pong!".to_owned()
}

/// The admission state: how many calls run, and the calls waiting for a
/// free slot, oldest first.
pub struct DispatchState {
    pub running: nat,
    pub waiting: Seq<u64>,
}

/// Admission control for incoming calls: at most `MAX_PARALLEL_REQUESTS`
/// run at once; the rest wait in arrival order and are never turned away.
pub struct Dispatcher {
    running: usize,
    waiting: Vec<u64>,
}

impl View for Dispatcher {
    type V = DispatchState;

    closed spec fn view(&self) -> DispatchState {
        DispatchState { running: self.running as nat, waiting: self.waiting@ }
    }
}

/// The ceiling holds, and a call waits only while every slot is taken.
pub open spec fn dispatch_wf(d: DispatchState) -> bool {
    &&& d.running <= MAX_PARALLEL_REQUESTS
    &&& d.waiting.len() > 0 ==> d.running == MAX_PARALLEL_REQUESTS
}

impl Dispatcher {
    pub open spec fn wf(&self) -> bool {
        dispatch_wf(self@)
    }

    /// Nothing running, nothing waiting.
    pub fn new() -> (r: Dispatcher)
        ensures
            r.wf(),
            r@.running == 0,
            r@.waiting.len() == 0,
    {
        Dispatcher { running: 0, waiting: Vec::new() }
    }

    /// How many calls run now.
    pub fn running(&self) -> (r: usize)
        ensures
            r == self@.running,
    {
        self.running
    }

    /// How many calls wait for a slot.
    pub fn waiting(&self) -> (r: usize)
        ensures
            r == self@.waiting.len(),
    {
        self.waiting.len()
    }

    /// A call arrives: it starts at once if a slot is free (and is returned),
    /// else it joins the back of the queue.
    pub fn arrive(&mut self, call: u64) -> (r: Option<u64>)
        requires
            old(self).wf(),
        ensures
            final(self).wf(),
            old(self)@.running < MAX_PARALLEL_REQUESTS ==> r == Some(call) && final(self)@.running
                == old(self)@.running + 1 && final(self)@.waiting == old(self)@.waiting,
            old(self)@.running >= MAX_PARALLEL_REQUESTS ==> r is None && final(self)@.running
                == old(self)@.running && final(self)@.waiting == old(self)@.waiting.push(call),
    {
        if self.running < MAX_PARALLEL_REQUESTS {
            self.running = self.running + 1;
            Some(call)
        } else {
            self.waiting.push(call);
            None
        }
    }

    /// A running call finishes: its slot goes to the oldest waiting call
    /// (which is returned), or is freed if none waits.
    pub fn finish(&mut self) -> (r: Option<u64>)
        requires
            old(self).wf(),
            old(self)@.running > 0,
        ensures
            final(self).wf(),
            old(self)@.waiting.len() > 0 ==> r == Some(old(self)@.waiting[0]) && final(self)@.running
                == old(self)@.running && final(self)@.waiting == old(self)@.waiting.drop_first(),
            old(self)@.waiting.len() == 0 ==> r is None && final(self)@.running == old(self)@.running
                - 1 && final(self)@.waiting == old(self)@.waiting,
    {
        if self.waiting.len() > 0 {
            let next = self.waiting.remove(0);
            proof {
                assert(self@.waiting =~= old(self)@.waiting.drop_first());
            }
            Some(next)
        } else {
            self.running = self.running - 1;
            None
        }
    }
}

} // verus!
