//! Status tracking: a check's availability status and the pure decision
//! rule that classifies a probe outcome against the previous status.

use vstd::prelude::*;

verus! {

/// Availability status of a monitored check. `Unknown` until the first
/// probe completes; probes themselves only ever yield `Up` or `Down`.
#[derive(Clone, Copy, Debug, PartialEq, Eq, Structural)]
pub enum Status {
    Unknown,
    Up,
    Down,
}

/// Outcome of a single probe of a target URL: reachable means the request
/// completed without a transport-level error (any HTTP status code counts
/// as reachable; only network, DNS, TLS or timeout failure counts as down).
#[derive(Clone, Debug)]
pub struct Classification {
    pub reachable: bool,
    pub http_status: Option<u32>,
    pub latency_ms: Option<u64>,
    pub error: Option<String>,
}

/// The view of an optional owned string: the character sequence it holds,
/// if any.
pub open spec fn opt_str_view(o: Option<String>) -> Option<Seq<char>> {
    match o {
        Option::Some(s) => Option::Some(s@),
        Option::None => Option::None,
    }
}

/// Mathematical view of a `Classification`.
pub struct ClassificationView {
    pub reachable: bool,
    pub http_status: Option<u32>,
    pub latency_ms: Option<u64>,
    pub error: Option<Seq<char>>,
}

impl View for Classification {
    type V = ClassificationView;

    open spec fn view(&self) -> ClassificationView {
        ClassificationView {
            reachable: self.reachable,
            http_status: self.http_status,
            latency_ms: self.latency_ms,
            error: opt_str_view(self.error),
        }
    }
}

/// Probe Executor policy: a probe is reachable exactly when the request
/// completed without a transport-level error. The HTTP status code never
/// affects reachability (a 404 or 500 still counts as reachable); only
/// network, DNS, TLS or timeout failure makes a probe unreachable. Every
/// probe yields a classification.
pub fn classify_probe(
    transport_ok: bool,
    http_status: Option<u32>,
    latency_ms: Option<u64>,
    error: Option<String>,
) -> (c: Classification)
    ensures
        c.reachable == transport_ok,
        c@.http_status == http_status,
        c@.latency_ms == latency_ms,
        c@.error == opt_str_view(error),
{
    Classification { reachable: transport_ok, http_status, latency_ms, error }
}

/// The status a probe outcome maps to: reachable probes are `Up`,
/// unreachable ones are `Down`, never `Unknown`.
pub open spec fn spec_status_of(reachable: bool) -> Status {
    if reachable {
        Status::Up
    } else {
        Status::Down
    }
}

/// The new status and the transition flag that `decide` returns.
pub open spec fn spec_decide(previous: Status, reachable: bool) -> (Status, bool) {
    let new_status = spec_status_of(reachable);
    (new_status, new_status != previous)
}

/// Status Tracker: given the previous recorded status and a fresh probe
/// classification, return the new status and whether a transition occurred.
/// `Unknown` is distinct from both `Up` and `Down`, so the first probe of a
/// check always reports a change.
pub fn decide(previous: Status, classification: &Classification) -> (r: (Status, bool))
    ensures
        r == spec_decide(previous, classification.reachable),
        r.0 == spec_status_of(classification.reachable),
        r.1 == (r.0 != previous),
{
    let new_status = if classification.reachable {
        Status::Up
    } else {
        Status::Down
    };
    (new_status, new_status != previous)
}

/// The Status Tracker is a pure function: identical inputs always yield
/// identical outputs, so replaying a decision reproduces it exactly.
pub proof fn lemma_decide_deterministic(p1: Status, r1: bool, p2: Status, r2: bool)
    requires
        p1 == p2,
        r1 == r2,
    ensures
        spec_decide(p1, r1) == spec_decide(p2, r2),
{
}

/// A probe never yields `Unknown`: every decision's new status is `Up` or
/// `Down`, and it is `Up` exactly when the probe was reachable.
pub proof fn lemma_decide_never_unknown(previous: Status, reachable: bool)
    ensures
        spec_decide(previous, reachable).0 != Status::Unknown,
        spec_decide(previous, reachable).0 == Status::Up <==> reachable,
{
}

/// The first probe of a check always reports a transition: from `Unknown`,
/// any probe outcome is a change.
pub proof fn lemma_first_probe_always_changes(reachable: bool)
    ensures
        spec_decide(Status::Unknown, reachable).1,
{
}

} // verus!
