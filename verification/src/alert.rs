//! Alert Dispatcher support: the alert raised on a status transition, the
//! human-readable message composed from it, and the textual form of a
//! status at the storage and API edge.

use vstd::prelude::*;
use vstd::string::StringExecFns;
use crate::status::Status;

verus! {

/// An alert raised when a check's status changes: who changed, from what,
/// to what, and the probed target.
#[derive(Clone, Debug)]
pub struct Alert {
    pub check_name: String,
    pub previous: Status,
    pub new_status: Status,
    pub url: String,
}

/// Mathematical view of an `Alert`.
pub struct AlertView {
    pub check_name: Seq<char>,
    pub previous: Status,
    pub new_status: Status,
    pub url: Seq<char>,
}

impl View for Alert {
    type V = AlertView;

    open spec fn view(&self) -> AlertView {
        AlertView {
            check_name: self.check_name@,
            previous: self.previous,
            new_status: self.new_status,
            url: self.url@,
        }
    }
}

/// The textual label a status is stored and displayed as.
pub open spec fn spec_status_label(s: Status) -> Seq<char> {
    match s {
        Status::Unknown => "UNKNOWN"@,
        Status::Up => "UP"@,
        Status::Down => "DOWN"@,
    }
}

/// Serialize a status to its textual label.
pub fn status_label(s: Status) -> (r: &'static str)
    ensures
        r@ == spec_status_label(s),
{
    match s {
        Status::Unknown => "UNKNOWN",
        Status::Up => "UP",
        Status::Down => "DOWN",
    }
}

/// Parse a stored status label back into the closed status enum; labels
/// that match no status yield `None`.
pub fn status_from_label(s: &String) -> (r: Option<Status>)
    ensures
        s@ == spec_status_label(Status::Unknown) ==> r == Option::Some(Status::Unknown),
        s@ == spec_status_label(Status::Up) ==> r == Option::Some(Status::Up),
        s@ == spec_status_label(Status::Down) ==> r == Option::Some(Status::Down),
        r is Some ==> s@ == spec_status_label(r->0),
{
    proof {
        reveal_strlit("UNKNOWN");
        reveal_strlit("UP");
        reveal_strlit("DOWN");
        assert(spec_status_label(Status::Unknown).len() == 7);
        assert(spec_status_label(Status::Up).len() == 2);
        assert(spec_status_label(Status::Down).len() == 4);
    }
    let unknown = String::from_str("UNKNOWN");
    let up = String::from_str("UP");
    let down = String::from_str("DOWN");
    if s.eq(&up) {
        Some(Status::Up)
    } else if s.eq(&down) {
        Some(Status::Down)
    } else if s.eq(&unknown) {
        Some(Status::Unknown)
    } else {
        None
    }
}

/// Every status label parses back to the status it was produced from.
pub proof fn lemma_status_label_distinct(a: Status, b: Status)
    requires
        a != b,
    ensures
        spec_status_label(a) != spec_status_label(b),
{
    reveal_strlit("UNKNOWN");
    reveal_strlit("UP");
    reveal_strlit("DOWN");
    assert(spec_status_label(Status::Unknown).len() == 7);
    assert(spec_status_label(Status::Up).len() == 2);
    assert(spec_status_label(Status::Down).len() == 4);
}

/// The message sent for an alert: the check's name, the transition, and
/// the probed URL.
pub open spec fn spec_alert_message(a: AlertView) -> Seq<char> {
    "Uptime Alert\n"@ + a.check_name + "\n"@ + spec_status_label(a.previous) + " -> "@
        + spec_status_label(a.new_status) + "\n"@ + a.url
}

/// Compose the human-readable alert message: check name, previous status,
/// new status, and the target URL.
pub fn compose_alert_message(a: &Alert) -> (msg: String)
    ensures
        msg@ == spec_alert_message(a@),
{
    let mut msg = String::from_str("Uptime Alert\n");
    msg.append(a.check_name.as_str());
    msg.append("\n");
    msg.append(status_label(a.previous));
    msg.append(" -> ");
    msg.append(status_label(a.new_status));
    msg.append("\n");
    msg.append(a.url.as_str());
    proof {
        assert(msg@ =~= spec_alert_message(a@));
    }
    msg
}

} // verus!
