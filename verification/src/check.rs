//! The data model: monitored checks, their immutable probe history rows,
//! and validated check registration.

use vstd::prelude::*;
use crate::status::{opt_str_view, Status};
use crate::external::fresh_check_id;

verus! {

/// Smallest polling interval a check may request, in seconds.
pub const MIN_INTERVAL_SECONDS: i64 = 10;

/// A monitored endpoint.
#[derive(Clone, Debug)]
pub struct Check {
    pub id: String,
    pub name: String,
    pub url: String,
    pub interval_seconds: i64,
    pub alert_email: Option<String>,
    pub is_active: bool,
    pub last_status: Status,
    pub last_checked_at: Option<String>,
}

/// Mathematical view of a `Check`.
pub struct CheckView {
    pub id: Seq<char>,
    pub name: Seq<char>,
    pub url: Seq<char>,
    pub interval_seconds: i64,
    pub alert_email: Option<Seq<char>>,
    pub is_active: bool,
    pub last_status: Status,
    pub last_checked_at: Option<Seq<char>>,
}

impl View for Check {
    type V = CheckView;

    open spec fn view(&self) -> CheckView {
        CheckView {
            id: self.id@,
            name: self.name@,
            url: self.url@,
            interval_seconds: self.interval_seconds,
            alert_email: opt_str_view(self.alert_email),
            is_active: self.is_active,
            last_status: self.last_status,
            last_checked_at: opt_str_view(self.last_checked_at),
        }
    }
}

/// Immutable history record of one probe of one check.
#[derive(Clone, Debug)]
pub struct CheckResult {
    pub id: u64,
    pub check_id: String,
    pub checked_at: String,
    pub status: Status,
    pub http_status: Option<u32>,
    pub latency_ms: Option<u64>,
    pub error: Option<String>,
}

/// Mathematical view of a `CheckResult`.
pub struct CheckResultView {
    pub id: u64,
    pub check_id: Seq<char>,
    pub checked_at: Seq<char>,
    pub status: Status,
    pub http_status: Option<u32>,
    pub latency_ms: Option<u64>,
    pub error: Option<Seq<char>>,
}

impl View for CheckResult {
    type V = CheckResultView;

    open spec fn view(&self) -> CheckResultView {
        CheckResultView {
            id: self.id,
            check_id: self.check_id@,
            checked_at: self.checked_at@,
            status: self.status,
            http_status: self.http_status,
            latency_ms: self.latency_ms,
            error: opt_str_view(self.error),
        }
    }
}

impl CheckResult {
    /// A field-for-field copy whose view equals this row's view.
    pub fn duplicate(&self) -> (r: CheckResult)
        ensures
            r@ == self@,
    {
        CheckResult {
            id: self.id,
            check_id: self.check_id.clone(),
            checked_at: self.checked_at.clone(),
            status: self.status,
            http_status: self.http_status,
            latency_ms: self.latency_ms,
            error: match &self.error {
                Some(e) => Some(e.clone()),
                None => None,
            },
        }
    }
}

/// Why a registration request was rejected.
#[derive(Clone, Copy, Debug, PartialEq, Eq, Structural)]
pub enum RegisterError {
    IntervalTooSmall,
}

/// The view a freshly registered check must have: the given fields, active,
/// with no probe history yet.
pub open spec fn spec_new_check(
    id: Seq<char>,
    name: Seq<char>,
    url: Seq<char>,
    interval_seconds: i64,
    alert_email: Option<Seq<char>>,
) -> CheckView {
    CheckView {
        id: id,
        name: name,
        url: url,
        interval_seconds: interval_seconds,
        alert_email: alert_email,
        is_active: true,
        last_status: Status::Unknown,
        last_checked_at: Option::None,
    }
}

/// Build a check from an already-assigned identifier, rejecting intervals
/// below the minimum threshold.
pub fn make_check(
    id: String,
    name: String,
    url: String,
    interval_seconds: i64,
    alert_email: Option<String>,
) -> (r: Result<Check, RegisterError>)
    ensures
        r is Ok <==> interval_seconds >= MIN_INTERVAL_SECONDS,
        r is Ok ==> r->Ok_0@ == spec_new_check(
            id@,
            name@,
            url@,
            interval_seconds,
            opt_str_view(alert_email),
        ),
        r is Err ==> r->Err_0 == RegisterError::IntervalTooSmall,
{
    if interval_seconds < MIN_INTERVAL_SECONDS {
        return Err(RegisterError::IntervalTooSmall);
    }
    Ok(Check {
        id,
        name,
        url,
        interval_seconds,
        alert_email,
        is_active: true,
        last_status: Status::Unknown,
        last_checked_at: None,
    })
}

/// Register a check: assign it a fresh identifier and validate the
/// requested interval. Accepted exactly when the interval is at least
/// `MIN_INTERVAL_SECONDS`; the new check is active with no history.
pub fn register_check(
    name: String,
    url: String,
    interval_seconds: i64,
    alert_email: Option<String>,
) -> (r: Result<Check, RegisterError>)
    ensures
        r is Ok <==> interval_seconds >= MIN_INTERVAL_SECONDS,
        r is Ok ==> r->Ok_0@ == spec_new_check(
            r->Ok_0@.id,
            name@,
            url@,
            interval_seconds,
            opt_str_view(alert_email),
        ),
        r is Ok ==> r->Ok_0@.id.len() == 36,
        r is Err ==> r->Err_0 == RegisterError::IntervalTooSmall,
{
    let id = fresh_check_id();
    make_check(id, name, url, interval_seconds, alert_email)
}

} // verus!
