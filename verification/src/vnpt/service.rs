//! Bringing the service up: it tries the ports of its range in turn until
//! one serves.

use vstd::prelude::*;

verus! {

/// What the service does next while it comes up.
#[derive(Debug, Clone, Copy, PartialEq, Eq, Structural)]
pub enum StartAction {
    /// Serve on this port.
    Serve(u16),
    /// The server ran and stopped: the start succeeded.
    Stopped,
    /// Every port of the range failed: the start failed.
    Exhausted,
}

/// How serving on a port ended.
#[derive(Debug, Clone, Copy, PartialEq, Eq, Structural)]
pub enum ServeOutcome {
    /// The server ran and was stopped.
    Stopped,
    /// The port could not be served (it is in use).
    Failed,
}

/// The action after `failures` failed ports of the range `first..end`: the
/// next port, or `Exhausted` once none is left.
pub open spec fn scan_action(first: u16, end: u16, failures: nat) -> StartAction {
    if first + failures < end {
        StartAction::Serve((first + failures) as u16)
    } else {
        StartAction::Exhausted
    }
}

/// Where a start stands: its port range, how many ports have failed, and
/// whether it is over.
pub struct PortScanView {
    pub first: u16,
    pub end: u16,
    pub failures: nat,
    pub finished: bool,
}

/// A start of the service over the ports `first..end` (end excluded).
pub struct PortScan {
    first: u16,
    end: u16,
    failures: u32,
    finished: bool,
}

impl View for PortScan {
    type V = PortScanView;

    closed spec fn view(&self) -> PortScanView {
        PortScanView {
            first: self.first,
            end: self.end,
            failures: self.failures as nat,
            finished: self.finished,
        }
    }
}

impl PortScan {
    /// The scan is consistent: while it is not over, the port it serves on
    /// lies in the range.
    pub closed spec fn wf(&self) -> bool {
        !self.finished ==> self.first + self.failures < self.end
    }

    /// Starts the service over the ports `first..end`: the first action is to
    /// serve on `first`, or `Exhausted` where the range is empty.
    pub fn new(first: u16, end: u16) -> (res: (PortScan, StartAction))
        ensures
            res.0.wf(),
            res.0@ == (PortScanView {
                first,
                end,
                failures: 0,
                finished: res.1 == StartAction::Exhausted,
            }),
            res.1 == scan_action(first, end, 0),
            first < end ==> res.1 == StartAction::Serve(first),
            first >= end ==> res.1 == StartAction::Exhausted,
    {
        if first < end {
            (PortScan { first, end, failures: 0, finished: false }, StartAction::Serve(first))
        } else {
            (PortScan { first, end, failures: 0, finished: true }, StartAction::Exhausted)
        }
    }

    /// The next action once serving on the current port has ended: a stopped
    /// server ends the start with success; a failed port moves on to the next
    /// one, or ends the start with failure where it was the last.
    pub fn on_outcome(&mut self, outcome: ServeOutcome) -> (action: StartAction)
        requires
            old(self).wf(),
            !old(self)@.finished,
        ensures
            final(self).wf(),
            final(self)@.first == old(self)@.first,
            final(self)@.end == old(self)@.end,
            outcome == ServeOutcome::Stopped ==> {
                &&& action == StartAction::Stopped
                &&& final(self)@.failures == old(self)@.failures
                &&& final(self)@.finished
            },
            outcome == ServeOutcome::Failed ==> {
                &&& final(self)@.failures == old(self)@.failures + 1
                &&& action == scan_action(old(self)@.first, old(self)@.end, final(self)@.failures)
                &&& final(self)@.finished == (action == StartAction::Exhausted)
                &&& old(self)@.first + old(self)@.failures + 1 < old(self)@.end ==> action
                    == StartAction::Serve((old(self)@.first + old(self)@.failures + 1) as u16)
                &&& old(self)@.first + old(self)@.failures + 1 >= old(self)@.end ==> action
                    == StartAction::Exhausted
            },
            action matches StartAction::Serve(p) ==> final(self)@.first <= p < final(self)@.end
                && p == final(self)@.first + final(self)@.failures,
    {
        match outcome {
            ServeOutcome::Stopped => {
                self.finished = true;
                StartAction::Stopped
            },
            ServeOutcome::Failed => {
                self.failures = self.failures + 1;
                let next: u32 = self.first as u32 + self.failures;
                if next < self.end as u32 {
                    StartAction::Serve(next as u16)
                } else {
                    self.finished = true;
                    StartAction::Exhausted
                }
            },
        }
    }
}

/// While ports keep failing, the scan serves on the ports of its range one
/// after another, each once, in ascending order: the port served after `k`
/// failures is `first + k`, and a later attempt serves on a greater port.
pub proof fn lemma_scan_serves_each_port_once(first: u16, end: u16, k: nat, j: nat)
    requires
        k < j,
        scan_action(first, end, j) is Serve,
    ensures
        scan_action(first, end, k) is Serve,
        scan_action(first, end, k)->Serve_0 == first + k,
        scan_action(first, end, k)->Serve_0 < scan_action(first, end, j)->Serve_0,
{
}

/// After `k` failed ports the scan serves on the next port of the range,
/// `first + k`, exactly while one is left; every port it serves on lies in
/// `first..end`, the last one included.
pub proof fn lemma_scan_serves_next_port_in_range(first: u16, end: u16, k: nat)
    ensures
        first + k < end ==> scan_action(first, end, k) == StartAction::Serve((first + k) as u16),
        first + k >= end ==> scan_action(first, end, k) == StartAction::Exhausted,
        scan_action(first, end, k) matches StartAction::Serve(p) ==> first <= p < end && p == first
            + k,
{
}

/// The scan gives up only when every port of the range has failed: after `k`
/// failures it is exhausted exactly when `k` reaches the size of the range.
pub proof fn lemma_scan_exhausted_after_every_port(first: u16, end: u16, k: nat)
    ensures
        scan_action(first, end, k) == StartAction::Exhausted <==> first + k >= end,
{
}

} // verus!
