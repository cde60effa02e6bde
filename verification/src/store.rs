//! The persistence model: an in-memory image of the check table and the
//! append-only probe history, with the invariants the worker relies on.

use vstd::prelude::*;
use crate::check::{Check, CheckResult, CheckResultView, CheckView};
use crate::status::{spec_decide, spec_status_of, Classification, ClassificationView, Status};

verus! {

/// The history row that recording the given probe outcome for the given
/// check appends, under the given timestamp and surrogate key.
pub open spec fn spec_result_row(
    c: CheckView,
    o: ClassificationView,
    checked_at: Seq<char>,
    id: u64,
) -> CheckResultView {
    CheckResultView {
        id: id,
        check_id: c.id,
        checked_at: checked_at,
        status: spec_status_of(o.reachable),
        http_status: o.http_status,
        latency_ms: o.latency_ms,
        error: o.error,
    }
}

/// The check as the recorder leaves it: cached status and probe time
/// updated, every other field untouched.
pub open spec fn spec_checked_check(
    c: CheckView,
    new_status: Status,
    checked_at: Seq<char>,
) -> CheckView {
    CheckView {
        last_status: new_status,
        last_checked_at: Option::Some(checked_at),
        ..c
    }
}

/// The check table together with the append-only history of probe results.
/// Result rows carry a monotonically increasing surrogate key assigned from
/// `next_result_id`.
pub struct Store {
    pub checks: Vec<Check>,
    pub results: Vec<CheckResult>,
    pub next_result_id: u64,
}

/// Mathematical view of a `Store`.
pub struct StoreView {
    pub checks: Seq<CheckView>,
    pub results: Seq<CheckResultView>,
    pub next_result_id: u64,
}

impl View for Store {
    type V = StoreView;

    open spec fn view(&self) -> StoreView {
        StoreView {
            checks: self.checks@.map_values(|c: Check| c@),
            results: self.results@.map_values(|r: CheckResult| r@),
            next_result_id: self.next_result_id,
        }
    }
}

impl StoreView {
    /// No two checks share an identifier.
    pub open spec fn ids_unique(self) -> bool {
        forall|i: int, j: int|
            0 <= i < j < self.checks.len() ==> self.checks[i].id != self.checks[j].id
    }

    /// Well-formedness: unique check identifiers, history rows that carry
    /// a real probe status and strictly increasing surrogate keys, all of
    /// them below the next key to be assigned.
    pub open spec fn wf(self) -> bool {
        &&& self.ids_unique()
        &&& forall|i: int|
            0 <= i < self.results.len() ==> #[trigger] self.results[i].status != Status::Unknown
        &&& forall|i: int|
            0 <= i < self.results.len() ==> #[trigger] self.results[i].id < self.next_result_id
        &&& forall|i: int, j: int|
            0 <= i < j < self.results.len() ==> self.results[i].id < self.results[j].id
    }
}

/// The status of the most recently appended history row for the given
/// check identifier, if any row for it exists.
pub open spec fn spec_last_result_status(
    results: Seq<CheckResultView>,
    id: Seq<char>,
) -> Option<Status>
    decreases results.len(),
{
    if results.len() == 0 {
        Option::None
    } else if results.last().check_id == id {
        Option::Some(results.last().status)
    } else {
        spec_last_result_status(results.drop_last(), id)
    }
}

/// How many history rows belong to the given check identifier.
pub open spec fn spec_count_rows_for(results: Seq<CheckResultView>, id: Seq<char>) -> nat
    decreases results.len(),
{
    if results.len() == 0 {
        0
    } else {
        spec_count_rows_for(results.drop_last(), id) + (if results.last().check_id == id {
            1nat
        } else {
            0nat
        })
    }
}

/// Row counts add up over concatenation of histories.
pub proof fn lemma_count_rows_add(
    base: Seq<CheckResultView>,
    rows: Seq<CheckResultView>,
    id: Seq<char>,
)
    ensures
        spec_count_rows_for(base + rows, id) == spec_count_rows_for(base, id)
            + spec_count_rows_for(rows, id),
    decreases rows.len(),
{
    if rows.len() == 0 {
        assert(base + rows =~= base);
    } else {
        assert((base + rows).drop_last() =~= base + rows.drop_last());
        assert((base + rows).last() == rows.last());
        lemma_count_rows_add(base, rows.drop_last(), id);
    }
}

/// A history none of whose rows belong to the identifier counts zero.
pub proof fn lemma_count_rows_zero(rows: Seq<CheckResultView>, id: Seq<char>)
    requires
        forall|k: int| 0 <= k < rows.len() ==> (#[trigger] rows[k]).check_id != id,
    ensures
        spec_count_rows_for(rows, id) == 0,
    decreases rows.len(),
{
    if rows.len() == 0 {
    } else {
        lemma_count_rows_zero(rows.drop_last(), id);
    }
}

/// A check's cached `last_status` agrees with its history: it equals the
/// status of the most recently appended row for the check, and `Unknown`
/// when the check has no history yet.
pub open spec fn check_consistent(c: CheckView, results: Seq<CheckResultView>) -> bool {
    match spec_last_result_status(results, c.id) {
        Option::Some(s) => c.last_status == s,
        Option::None => c.last_status == Status::Unknown,
    }
}

/// Every check in the store is consistent with the history.
pub open spec fn status_consistent(sv: StoreView) -> bool {
    forall|i: int| 0 <= i < sv.checks.len() ==> check_consistent(#[trigger] sv.checks[i], sv.results)
}

/// Appending a row for a different check leaves a check's most recent
/// status unchanged.
pub proof fn lemma_last_status_push_other(
    results: Seq<CheckResultView>,
    row: CheckResultView,
    id: Seq<char>,
)
    requires
        row.check_id != id,
    ensures
        spec_last_result_status(results.push(row), id) == spec_last_result_status(results, id),
{
    assert(results.push(row).drop_last() =~= results);
}

/// Appending a row for a check makes that row's status the check's most
/// recent one.
pub proof fn lemma_last_status_push_own(
    results: Seq<CheckResultView>,
    row: CheckResultView,
)
    ensures
        spec_last_result_status(results.push(row), row.check_id)
            == Option::Some(row.status),
{
}

impl Store {
    /// An empty store: no checks, no history, surrogate keys start at zero.
    pub fn new() -> (s: Store)
        ensures
            s@.checks.len() == 0,
            s@.results.len() == 0,
            s@.next_result_id == 0,
            s@.wf(),
            status_consistent(s@),
    {
        let s = Store { checks: Vec::new(), results: Vec::new(), next_result_id: 0 };
        proof {
            assert(s@.checks =~= Seq::<CheckView>::empty());
            assert(s@.results =~= Seq::<CheckResultView>::empty());
        }
        s
    }

    /// Whether some check in the store already carries this identifier.
    pub fn contains_id(&self, id: &String) -> (r: bool)
        ensures
            r == exists|i: int| 0 <= i < self@.checks.len() && (#[trigger] self@.checks[i].id) == id@,
    {
        let n = self.checks.len();
        let mut k: usize = 0;
        while k < n
            invariant
                n == self@.checks.len(),
                k <= n,
                forall|i: int| 0 <= i < k ==> (#[trigger] self@.checks[i].id) != id@,
            decreases n - k,
        {
            if self.checks[k].id == *id {
                assert(self@.checks[k as int].id == id@);
                return true;
            }
            k += 1;
        }
        false
    }

    /// Insert a new check. Succeeds exactly when its identifier is not
    /// already taken; on success the check is appended and nothing else
    /// moves. A newly registered check with no prior history keeps the
    /// store consistent.
    pub fn add_check(&mut self, c: Check) -> (r: bool)
        requires
            old(self)@.wf(),
        ensures
            final(self)@.wf(),
            r == !(exists|i: int|
                0 <= i < old(self)@.checks.len() && (#[trigger] old(self)@.checks[i].id) == c@.id),
            r ==> final(self)@.checks == old(self)@.checks.push(c@),
            !r ==> final(self)@.checks == old(self)@.checks,
            final(self)@.results == old(self)@.results,
            final(self)@.next_result_id == old(self)@.next_result_id,
            (r && status_consistent(old(self)@) && c.last_status == Status::Unknown
                && spec_last_result_status(old(self)@.results, c@.id) == Option::None::<Status>)
                ==> status_consistent(final(self)@),
    {
        if self.contains_id(&c.id) {
            return false;
        }
        let ghost pre = self@;
        self.checks.push(c);
        proof {
            assert(self@.checks =~= pre.checks.push(c@));
            assert(self@.results =~= pre.results);
        }
        true
    }

    /// Result Recorder: append the probe outcome for check `i` as a new
    /// immutable history row under the next surrogate key, and update the
    /// check's cached `last_status` and `last_checked_at`. The two writes
    /// leave every other check and every earlier row untouched. Returns
    /// whether the decision reported a status transition.
    pub fn record(&mut self, i: usize, outcome: &Classification, checked_at: String) -> (changed:
        bool)
        requires
            old(self)@.wf(),
            i < old(self)@.checks.len(),
            old(self).next_result_id < u64::MAX,
        ensures
            final(self)@.wf(),
            changed == spec_decide(old(self)@.checks[i as int].last_status, outcome.reachable).1,
            final(self)@.results == old(self)@.results.push(
                spec_result_row(
                    old(self)@.checks[i as int],
                    outcome@,
                    checked_at@,
                    old(self)@.next_result_id,
                ),
            ),
            final(self)@.checks == old(self)@.checks.update(
                i as int,
                spec_checked_check(
                    old(self)@.checks[i as int],
                    spec_status_of(outcome.reachable),
                    checked_at@,
                ),
            ),
            final(self)@.next_result_id == old(self)@.next_result_id + 1,
    {
        let ghost pre = self@;
        let previous = self.checks[i].last_status;
        let (new_status, changed) = crate::status::decide(previous, outcome);
        let row = CheckResult {
            id: self.next_result_id,
            check_id: self.checks[i].id.clone(),
            checked_at: checked_at.clone(),
            status: new_status,
            http_status: outcome.http_status,
            latency_ms: outcome.latency_ms,
            error: match &outcome.error {
                Some(e) => Some(e.clone()),
                None => None,
            },
        };
        self.results.push(row);
        self.next_result_id = self.next_result_id + 1;
        let c = &mut self.checks[i];
        c.last_status = new_status;
        c.last_checked_at = Some(checked_at);
        proof {
            assert(self@.results =~= pre.results.push(
                spec_result_row(pre.checks[i as int], outcome@, checked_at@, pre.next_result_id),
            ));
            assert(self@.checks =~= pre.checks.update(
                i as int,
                spec_checked_check(
                    pre.checks[i as int],
                    spec_status_of(outcome.reachable),
                    checked_at@,
                ),
            ));
        }
        changed
    }

    /// The history rows of one check, newest first (reverse insertion
    /// order, which by the store's construction is reverse `checked_at`
    /// order).
    pub fn results_for(&self, id: &String) -> (out: Vec<CheckResult>)
        ensures
            out@.map_values(|r: CheckResult| r@) == spec_results_newest_first(self@.results, id@),
    {
        let mut out: Vec<CheckResult> = Vec::new();
        let mut j: usize = self.results.len();
        proof {
            assert(self@.results.take(self.results@.len() as int) =~= self@.results);
            assert(out@.map_values(|r: CheckResult| r@) =~= Seq::<CheckResultView>::empty());
            assert(Seq::<CheckResultView>::empty() + spec_results_newest_first(self@.results, id@)
                =~= spec_results_newest_first(self@.results, id@));
        }
        while j > 0
            invariant
                j <= self.results@.len(),
                self@.results.len() == self.results@.len(),
                spec_results_newest_first(self@.results, id@) == out@.map_values(
                    |r: CheckResult| r@,
                ) + spec_results_newest_first(self@.results.take(j as int), id@),
            decreases j,
        {
            let ghost out_pre = out@.map_values(|r: CheckResult| r@);
            j = j - 1;
            proof {
                assert(self@.results.take(j as int + 1).drop_last() =~= self@.results.take(
                    j as int,
                ));
                assert(self@.results.take(j as int + 1).last() == self@.results[j as int]);
            }
            if self.results[j].check_id == *id {
                out.push(self.results[j].duplicate());
                proof {
                    assert(out@.map_values(|r: CheckResult| r@) =~= out_pre.push(
                        self@.results[j as int],
                    ));
                    assert(out_pre.push(self@.results[j as int])
                        + spec_results_newest_first(self@.results.take(j as int), id@)
                        =~= out_pre + spec_results_newest_first(
                            self@.results.take(j as int + 1), id@,
                        ));
                }
            }
        }
        proof {
            assert(self@.results.take(0) =~= Seq::<CheckResultView>::empty());
            assert(out@.map_values(|r: CheckResult| r@) + spec_results_newest_first(
                Seq::<CheckResultView>::empty(),
                id@,
            ) =~= out@.map_values(|r: CheckResult| r@));
        }
        out
    }
}

/// The history rows that belong to one check, newest first.
pub open spec fn spec_results_newest_first(
    results: Seq<CheckResultView>,
    id: Seq<char>,
) -> Seq<CheckResultView>
    decreases results.len(),
{
    if results.len() == 0 {
        Seq::empty()
    } else if results.last().check_id == id {
        seq![results.last()] + spec_results_newest_first(results.drop_last(), id)
    } else {
        spec_results_newest_first(results.drop_last(), id)
    }
}

/// The head of the newest-first listing carries exactly the status that
/// `spec_last_result_status` reports: listing and cached-status rule agree.
pub proof fn lemma_newest_first_head(results: Seq<CheckResultView>, id: Seq<char>)
    ensures
        spec_results_newest_first(results, id).len() == 0 <==> spec_last_result_status(
            results,
            id,
        ) is None,
        spec_results_newest_first(results, id).len() > 0 ==> spec_last_result_status(results, id)
            == Option::Some(spec_results_newest_first(results, id)[0].status),
    decreases results.len(),
{
    if results.len() == 0 {
    } else {
        lemma_newest_first_head(results.drop_last(), id);
    }
}

} // verus!
