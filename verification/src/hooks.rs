//! Server-side local effects: toggling the input grab and warping the local cursor when control
//! returns to the primary screen.

use vstd::prelude::*;

verus! {

/// The server's local-machine side effects.
pub trait ServerHooks {
    fn set_grab(&mut self, on: bool);

    fn warp_cursor(&mut self, x: i32, y: i32);
}

/// Hooks that do nothing, for running headless to exercise only the network path.
#[derive(Debug)]
pub struct NoopHooks;

impl Default for NoopHooks {
    fn default() -> (h: Self)
        ensures
            h == NoopHooks,
    {
        NoopHooks
    }
}

impl ServerHooks for NoopHooks {
    fn set_grab(&mut self, _on: bool)
        ensures
            *final(self) == *old(self),
    {
    }

    fn warp_cursor(&mut self, _x: i32, _y: i32)
        ensures
            *final(self) == *old(self),
    {
    }
}

/// What [`RecordingHooks`] observed.
#[derive(Clone, Debug, PartialEq, Eq)]
pub struct HookLog {
    pub grabs: Vec<bool>,
    pub warps: Vec<(i32, i32)>,
}

impl Default for HookLog {
    fn default() -> (l: Self)
        ensures
            l.grabs@ == Seq::<bool>::empty(),
            l.warps@ == Seq::<(i32, i32)>::empty(),
    {
        HookLog { grabs: Vec::new(), warps: Vec::new() }
    }
}

/// A call of a hook.
pub enum HookCall {
    Grab(bool),
    Warp(i32, i32),
}

/// The grabs and the warps that were observed, each in the order of the calls.
pub struct HookLogView {
    pub grabs: Seq<bool>,
    pub warps: Seq<(i32, i32)>,
}

impl HookLogView {
    pub open spec fn empty() -> HookLogView {
        HookLogView { grabs: Seq::empty(), warps: Seq::empty() }
    }

    /// The log with one more call.
    pub open spec fn with(self, call: HookCall) -> HookLogView {
        match call {
            HookCall::Grab(on) => HookLogView { grabs: self.grabs.push(on), ..self },
            HookCall::Warp(x, y) => HookLogView { warps: self.warps.push((x, y)), ..self },
        }
    }

    /// The log after a series of calls.
    pub open spec fn with_all(self, calls: Seq<HookCall>) -> HookLogView
        decreases calls.len(),
    {
        if calls.len() == 0 {
            self
        } else {
            self.with_all(calls.drop_last()).with(calls.last())
        }
    }
}

impl View for HookLog {
    type V = HookLogView;

    open spec fn view(&self) -> HookLogView {
        HookLogView { grabs: self.grabs@, warps: self.warps@ }
    }
}

/// Records hook calls.
#[derive(Debug)]
pub struct RecordingHooks {
    log: HookLog,
}

impl View for RecordingHooks {
    type V = HookLogView;

    closed spec fn view(&self) -> HookLogView {
        self.log@
    }
}

impl RecordingHooks {
    pub fn new() -> (h: Self)
        ensures
            h@ == HookLogView::empty(),
    {
        RecordingHooks { log: HookLog::default() }
    }

    /// The log itself.
    pub fn log(&self) -> (log: &HookLog)
        ensures
            log@ == self@,
    {
        &self.log
    }

    /// A copy of the log.
    pub fn snapshot(&self) -> (log: HookLog)
        ensures
            log@ == self@,
    {
        let mut log = HookLog::default();
        let mut i: usize = 0;
        while i < self.log.grabs.len()
            invariant
                i <= self.log.grabs@.len(),
                log.grabs@ == self.log.grabs@.take(i as int),
                log.warps@.len() == 0,
            decreases self.log.grabs@.len() - i,
        {
            log.grabs.push(self.log.grabs[i]);
            i = i + 1;
            assert(log.grabs@ =~= self.log.grabs@.take(i as int));
        }
        let mut j: usize = 0;
        while j < self.log.warps.len()
            invariant
                j <= self.log.warps@.len(),
                log.grabs@ == self.log.grabs@,
                log.warps@ == self.log.warps@.take(j as int),
            decreases self.log.warps@.len() - j,
        {
            log.warps.push(self.log.warps[j]);
            j = j + 1;
            assert(log.warps@ =~= self.log.warps@.take(j as int));
        }
        assert(log.warps@ =~= self.log.warps@);
        log
    }
}

impl Default for RecordingHooks {
    fn default() -> (h: Self)
        ensures
            h@ == HookLogView::empty(),
    {
        Self::new()
    }
}

impl ServerHooks for RecordingHooks {
    fn set_grab(&mut self, on: bool)
        ensures
            final(self)@ == old(self)@.with(HookCall::Grab(on)),
    {
        self.log.grabs.push(on);
    }

    fn warp_cursor(&mut self, x: i32, y: i32)
        ensures
            final(self)@ == old(self)@.with(HookCall::Warp(x, y)),
    {
        self.log.warps.push((x, y));
    }
}

/// The grabs among some calls, in their order.
pub open spec fn grabs_among(calls: Seq<HookCall>) -> Seq<bool> {
    calls.filter(|c: HookCall| c is Grab).map_values(|c: HookCall| c->Grab_0)
}

/// The warps among some calls, in their order.
pub open spec fn warps_among(calls: Seq<HookCall>) -> Seq<(i32, i32)> {
    calls.filter(|c: HookCall| c is Warp).map_values(|c: HookCall| (c->Warp_0, c->Warp_1))
}

/// The log is complete and in order: after any calls it holds what it held before, then the grabs
/// and the warps among the calls, each in the order in which they were made, and nothing else.
pub proof fn lemma_log_is_complete_and_in_order(log: HookLogView, calls: Seq<HookCall>)
    ensures
        log.with_all(calls).grabs == log.grabs + grabs_among(calls),
        log.with_all(calls).warps == log.warps + warps_among(calls),
    decreases calls.len(),
{
    reveal(Seq::filter);
    if calls.len() == 0 {
        assert(log.grabs + grabs_among(calls) =~= log.grabs);
        assert(log.warps + warps_among(calls) =~= log.warps);
    } else {
        let before = calls.drop_last();
        lemma_log_is_complete_and_in_order(log, before);
        assert(grabs_among(calls) =~= match calls.last() {
            HookCall::Grab(on) => grabs_among(before).push(on),
            HookCall::Warp(_, _) => grabs_among(before),
        });
        assert(warps_among(calls) =~= match calls.last() {
            HookCall::Grab(_) => warps_among(before),
            HookCall::Warp(x, y) => warps_among(before).push((x, y)),
        });
        assert(log.with_all(calls).grabs =~= log.grabs + grabs_among(calls));
        assert(log.with_all(calls).warps =~= log.warps + warps_among(calls));
    }
}

} // verus!
