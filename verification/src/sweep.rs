//! One sweep of the worker: for each active check, classify the probe
//! outcome, record it, and raise an alert when the status changed.

use vstd::prelude::*;
use crate::alert::{Alert, AlertView};
use crate::check::{CheckResultView, CheckView};
use crate::external::now_rfc3339;
use crate::status::{spec_decide, spec_status_of, Classification, ClassificationView, Status};
use crate::store::{
    check_consistent, lemma_count_rows_add, lemma_count_rows_zero, lemma_last_status_push_other,
    lemma_last_status_push_own, spec_checked_check, spec_count_rows_for,
    spec_last_result_status, spec_result_row, status_consistent, Store, StoreView,
};

verus! {

/// How many of these checks a sweep probes: the active ones.
pub open spec fn spec_count_active(checks: Seq<CheckView>) -> nat
    decreases checks.len(),
{
    if checks.len() == 0 {
        0
    } else {
        spec_count_active(checks.drop_last()) + (if checks.last().is_active {
            1nat
        } else {
            0nat
        })
    }
}

/// The check table after a sweep: every active check carries the status
/// its probe outcome decided and the sweep's timestamp for it; inactive
/// checks are untouched.
pub open spec fn spec_sweep_checks(
    checks: Seq<CheckView>,
    outs: Seq<ClassificationView>,
    ts: Seq<Seq<char>>,
) -> Seq<CheckView> {
    Seq::new(
        checks.len(),
        |i: int|
            if checks[i].is_active {
                spec_checked_check(checks[i], spec_status_of(outs[i].reachable), ts[i])
            } else {
                checks[i]
            },
    )
}

/// The history rows a sweep appends: exactly one per active check, in
/// table order, under consecutive surrogate keys starting at `first_id`.
pub open spec fn spec_sweep_rows(
    checks: Seq<CheckView>,
    outs: Seq<ClassificationView>,
    ts: Seq<Seq<char>>,
    first_id: int,
) -> Seq<CheckResultView>
    decreases checks.len(),
{
    if checks.len() == 0 {
        Seq::empty()
    } else {
        let prefix = spec_sweep_rows(
            checks.drop_last(),
            outs.drop_last(),
            ts.drop_last(),
            first_id,
        );
        if checks.last().is_active {
            prefix.push(
                spec_result_row(
                    checks.last(),
                    outs.last(),
                    ts.last(),
                    (first_id + spec_count_active(checks.drop_last())) as u64,
                ),
            )
        } else {
            prefix
        }
    }
}

/// The alerts a sweep raises: one per active check whose decision
/// reported a transition, in table order.
pub open spec fn spec_sweep_alerts(
    checks: Seq<CheckView>,
    outs: Seq<ClassificationView>,
) -> Seq<AlertView>
    decreases checks.len(),
{
    if checks.len() == 0 {
        Seq::empty()
    } else {
        let prefix = spec_sweep_alerts(checks.drop_last(), outs.drop_last());
        let c = checks.last();
        if c.is_active && spec_decide(c.last_status, outs.last().reachable).1 {
            prefix.push(
                AlertView {
                    check_name: c.name,
                    previous: c.last_status,
                    new_status: spec_status_of(outs.last().reachable),
                    url: c.url,
                },
            )
        } else {
            prefix
        }
    }
}

/// The whole store after a sweep over these probe outcomes and timestamps.
pub open spec fn spec_sweep_store(
    sv: StoreView,
    outs: Seq<ClassificationView>,
    ts: Seq<Seq<char>>,
) -> StoreView {
    StoreView {
        checks: spec_sweep_checks(sv.checks, outs, ts),
        results: sv.results + spec_sweep_rows(sv.checks, outs, ts, sv.next_result_id as int),
        next_result_id: (sv.next_result_id + spec_count_active(sv.checks)) as u64,
    }
}

/// A prefix of the table never has more active checks than the table.
pub proof fn lemma_count_active_take_le(checks: Seq<CheckView>, k: int)
    requires
        0 <= k <= checks.len(),
    ensures
        spec_count_active(checks.take(k)) <= spec_count_active(checks),
    decreases checks.len() - k,
{
    if k == checks.len() {
        assert(checks.take(k) =~= checks);
    } else {
        assert(checks.take(k + 1).drop_last() =~= checks.take(k));
        lemma_count_active_take_le(checks, k + 1);
    }
}

/// Run one check's pipeline against the store: decide the new status from
/// the probe outcome, record the history row, update the cached fields,
/// and hand back the alert to dispatch when a transition occurred.
pub fn process_check(
    store: &mut Store,
    i: usize,
    outcome: &Classification,
    checked_at: String,
) -> (alert: Option<Alert>)
    requires
        old(store)@.wf(),
        i < old(store)@.checks.len(),
        old(store).next_result_id < u64::MAX,
    ensures
        final(store)@.wf(),
        final(store)@.results == old(store)@.results.push(
            spec_result_row(
                old(store)@.checks[i as int],
                outcome@,
                checked_at@,
                old(store)@.next_result_id,
            ),
        ),
        final(store)@.checks == old(store)@.checks.update(
            i as int,
            spec_checked_check(
                old(store)@.checks[i as int],
                spec_status_of(outcome.reachable),
                checked_at@,
            ),
        ),
        final(store)@.next_result_id == old(store)@.next_result_id + 1,
        alert is Some <==> spec_decide(
            old(store)@.checks[i as int].last_status,
            outcome.reachable,
        ).1,
        alert is Some ==> alert->0@ == (AlertView {
            check_name: old(store)@.checks[i as int].name,
            previous: old(store)@.checks[i as int].last_status,
            new_status: spec_status_of(outcome.reachable),
            url: old(store)@.checks[i as int].url,
        }),
{
    let previous = store.checks[i].last_status;
    let name = store.checks[i].name.clone();
    let url = store.checks[i].url.clone();
    let new_status = if outcome.reachable {
        Status::Up
    } else {
        Status::Down
    };
    let changed = store.record(i, outcome, checked_at);
    if changed {
        Some(Alert { check_name: name, previous, new_status, url })
    } else {
        None
    }
}

/// Sweep the whole table once: probe outcomes and timestamps are given per
/// check (entries for inactive checks are ignored). Exactly one history
/// row is appended per active check, every active check's cached status is
/// updated to its decision, inactive checks and existing rows stay as they
/// were, and the returned alerts are exactly the transitions, in order.
pub fn run_sweep(
    store: &mut Store,
    outcomes: &Vec<Classification>,
    timestamps: &Vec<String>,
) -> (alerts: Vec<Alert>)
    requires
        old(store)@.wf(),
        outcomes@.len() == old(store)@.checks.len(),
        timestamps@.len() == old(store)@.checks.len(),
        old(store)@.next_result_id + spec_count_active(old(store)@.checks) <= u64::MAX,
    ensures
        final(store)@.wf(),
        final(store)@ == spec_sweep_store(
            old(store)@,
            outcomes@.map_values(|c: Classification| c@),
            timestamps@.map_values(|s: String| s@),
        ),
        alerts@.map_values(|a: Alert| a@) == spec_sweep_alerts(
            old(store)@.checks,
            outcomes@.map_values(|c: Classification| c@),
        ),
{
    let ghost pre = store@;
    let ghost outsv = outcomes@.map_values(|c: Classification| c@);
    let ghost tsv = timestamps@.map_values(|s: String| s@);
    let mut alerts: Vec<Alert> = Vec::new();
    let n = store.checks.len();
    let mut k: usize = 0;
    proof {
        assert(pre.checks.take(0) =~= Seq::<CheckView>::empty());
        assert(outsv.take(0) =~= Seq::<ClassificationView>::empty());
        assert(tsv.take(0) =~= Seq::<Seq<char>>::empty());
        assert(pre.results + spec_sweep_rows(
            pre.checks.take(0),
            outsv.take(0),
            tsv.take(0),
            pre.next_result_id as int,
        ) =~= pre.results);
        assert(alerts@.map_values(|a: Alert| a@) =~= Seq::<AlertView>::empty());
    }
    while k < n
        invariant
            store@.wf(),
            n == pre.checks.len(),
            k <= n,
            outsv.len() == n,
            tsv.len() == n,
            outsv == outcomes@.map_values(|c: Classification| c@),
            tsv == timestamps@.map_values(|s: String| s@),
            outcomes@.len() == n,
            timestamps@.len() == n,
            pre.next_result_id + spec_count_active(pre.checks) <= u64::MAX,
            store@.checks.len() == n,
            forall|idx: int|
                0 <= idx < k ==> #[trigger] store@.checks[idx] == (if pre.checks[idx].is_active {
                    spec_checked_check(
                        pre.checks[idx],
                        spec_status_of(outsv[idx].reachable),
                        tsv[idx],
                    )
                } else {
                    pre.checks[idx]
                }),
            forall|idx: int| k <= idx < n ==> #[trigger] store@.checks[idx] == pre.checks[idx],
            store@.results == pre.results + spec_sweep_rows(
                pre.checks.take(k as int),
                outsv.take(k as int),
                tsv.take(k as int),
                pre.next_result_id as int,
            ),
            store@.next_result_id == pre.next_result_id + spec_count_active(
                pre.checks.take(k as int),
            ),
            alerts@.map_values(|a: Alert| a@) == spec_sweep_alerts(
                pre.checks.take(k as int),
                outsv.take(k as int),
            ),
        decreases n - k,
    {
        proof {
            assert(pre.checks.take(k as int + 1).drop_last() =~= pre.checks.take(k as int));
            assert(outsv.take(k as int + 1).drop_last() =~= outsv.take(k as int));
            assert(tsv.take(k as int + 1).drop_last() =~= tsv.take(k as int));
            assert(pre.checks.take(k as int + 1).last() == pre.checks[k as int]);
            assert(outsv.take(k as int + 1).last() == outsv[k as int]);
            assert(tsv.take(k as int + 1).last() == tsv[k as int]);
            lemma_count_active_take_le(pre.checks, k as int + 1);
            assert(store@.checks[k as int] == pre.checks[k as int]);
            assert(spec_count_active(pre.checks.take(k as int + 1)) == spec_count_active(
                pre.checks.take(k as int),
            ) + (if pre.checks[k as int].is_active {
                1nat
            } else {
                0nat
            }));
        }
        let ghost rows_pre = spec_sweep_rows(
            pre.checks.take(k as int),
            outsv.take(k as int),
            tsv.take(k as int),
            pre.next_result_id as int,
        );
        let ghost alerts_pre = alerts@.map_values(|a: Alert| a@);
        if store.checks[k].is_active {
            proof {
                assert(pre.checks[k as int].is_active);
                assert(store@.next_result_id == pre.next_result_id + spec_count_active(
                    pre.checks.take(k as int),
                ));
                assert(spec_count_active(pre.checks.take(k as int)) + 1 == spec_count_active(
                    pre.checks.take(k as int + 1),
                ));
                assert(store@.next_result_id < u64::MAX);
            }
            let outcome = &outcomes[k];
            let ts = timestamps[k].clone();
            let alert = process_check(store, k, outcome, ts);
            if let Some(a) = alert {
                alerts.push(a);
                proof {
                    assert(alerts@.map_values(|a: Alert| a@) =~= alerts_pre.push(
                        alerts@.last()@,
                    ));
                }
            }
            proof {
                assert(store@.results =~= pre.results + spec_sweep_rows(
                    pre.checks.take(k as int + 1),
                    outsv.take(k as int + 1),
                    tsv.take(k as int + 1),
                    pre.next_result_id as int,
                ));
            }
        } else {
            proof {
                assert(!pre.checks[k as int].is_active);
                assert(!pre.checks.take(k as int + 1).last().is_active);
                assert(spec_sweep_rows(
                    pre.checks.take(k as int + 1),
                    outsv.take(k as int + 1),
                    tsv.take(k as int + 1),
                    pre.next_result_id as int,
                ) == rows_pre);
                assert(spec_sweep_alerts(
                    pre.checks.take(k as int + 1),
                    outsv.take(k as int + 1),
                ) == alerts_pre);
            }
        }
        k += 1;
    }
    proof {
        assert(pre.checks.take(n as int) =~= pre.checks);
        assert(outsv.take(n as int) =~= outsv);
        assert(tsv.take(n as int) =~= tsv);
        assert(store@.checks =~= spec_sweep_checks(pre.checks, outsv, tsv));
        assert(store@.results =~= pre.results + spec_sweep_rows(
            pre.checks,
            outsv,
            tsv,
            pre.next_result_id as int,
        ));
    }
    alerts
}

/// A sweep appends exactly one history row per active check.
pub proof fn lemma_sweep_rows_len(
    checks: Seq<CheckView>,
    outs: Seq<ClassificationView>,
    ts: Seq<Seq<char>>,
    first_id: int,
)
    ensures
        spec_sweep_rows(checks, outs, ts, first_id).len() == spec_count_active(checks),
    decreases checks.len(),
{
    if checks.len() == 0 {
    } else {
        lemma_sweep_rows_len(checks.drop_last(), outs.drop_last(), ts.drop_last(), first_id);
    }
}

/// Sweep the whole table once, stamping the records with timestamps read
/// from the wall clock, one per check. The history grows by exactly one
/// row per active check, every active check's cached status becomes its
/// decision, inactive checks are untouched, and the alerts are exactly
/// the transitions; the store as a whole is a sweep of the old one under
/// the timestamps that were read.
pub fn run_sweep_now(store: &mut Store, outcomes: &Vec<Classification>) -> (alerts: Vec<Alert>)
    requires
        old(store)@.wf(),
        outcomes@.len() == old(store)@.checks.len(),
        old(store)@.next_result_id + spec_count_active(old(store)@.checks) <= u64::MAX,
    ensures
        final(store)@.wf(),
        alerts@.map_values(|a: Alert| a@) == spec_sweep_alerts(
            old(store)@.checks,
            outcomes@.map_values(|c: Classification| c@),
        ),
        exists|ts: Seq<Seq<char>>|
            #[trigger] ts.len() == old(store)@.checks.len() && final(store)@ == spec_sweep_store(
                old(store)@,
                outcomes@.map_values(|c: Classification| c@),
                ts,
            ),
        final(store)@.results.len() == old(store)@.results.len() + spec_count_active(
            old(store)@.checks,
        ),
        final(store)@.next_result_id == old(store)@.next_result_id + spec_count_active(
            old(store)@.checks,
        ),
        final(store)@.checks.len() == old(store)@.checks.len(),
        forall|i: int|
            0 <= i < old(store)@.checks.len() && (#[trigger] old(store)@.checks[i]).is_active
                ==> final(store)@.checks[i].last_status == spec_status_of(
                outcomes@[i].reachable,
            ),
        forall|i: int|
            0 <= i < old(store)@.checks.len() && !(#[trigger] old(store)@.checks[i]).is_active
                ==> final(store)@.checks[i] == old(store)@.checks[i],
{
    let ghost pre = store@;
    let ghost outsv = outcomes@.map_values(|c: Classification| c@);
    let n = store.checks.len();
    let mut timestamps: Vec<String> = Vec::new();
    while timestamps.len() < n
        invariant
            timestamps@.len() <= n,
        decreases n - timestamps@.len(),
    {
        timestamps.push(now_rfc3339());
    }
    let alerts = run_sweep(store, outcomes, &timestamps);
    proof {
        let tsv = timestamps@.map_values(|s: String| s@);
        assert(tsv.len() == pre.checks.len());
        assert(store@ == spec_sweep_store(pre, outsv, tsv));
        lemma_sweep_rows_len(pre.checks, outsv, tsv, pre.next_result_id as int);
        assert(forall|i: int|
            0 <= i < pre.checks.len() && (#[trigger] pre.checks[i]).is_active
                ==> store@.checks[i].last_status == spec_status_of(outsv[i].reachable));
    }
    alerts
}

/// Appending rows that all belong to other checks leaves a check's most
/// recent status unchanged.
pub proof fn lemma_last_status_append_no_match(
    base: Seq<CheckResultView>,
    rows: Seq<CheckResultView>,
    id: Seq<char>,
)
    requires
        forall|k: int| 0 <= k < rows.len() ==> (#[trigger] rows[k]).check_id != id,
    ensures
        spec_last_result_status(base + rows, id) == spec_last_result_status(base, id),
    decreases rows.len(),
{
    if rows.len() == 0 {
        assert(base + rows =~= base);
    } else {
        assert(base + rows =~= (base + rows.drop_last()).push(rows.last()));
        lemma_last_status_push_other(base + rows.drop_last(), rows.last(), id);
        lemma_last_status_append_no_match(base, rows.drop_last(), id);
    }
}

/// Every row a sweep appends belongs to some active check, so none of
/// them belongs to an identifier that no active check carries.
pub proof fn lemma_sweep_rows_ids(
    checks: Seq<CheckView>,
    outs: Seq<ClassificationView>,
    ts: Seq<Seq<char>>,
    first_id: int,
    id: Seq<char>,
)
    requires
        forall|j: int|
            0 <= j < checks.len() && (#[trigger] checks[j]).is_active ==> checks[j].id != id,
    ensures
        forall|k: int|
            0 <= k < spec_sweep_rows(checks, outs, ts, first_id).len() ==> (#[trigger]
            spec_sweep_rows(checks, outs, ts, first_id)[k]).check_id != id,
    decreases checks.len(),
{
    if checks.len() == 0 {
    } else {
        lemma_sweep_rows_ids(checks.drop_last(), outs.drop_last(), ts.drop_last(), first_id, id);
    }
}

/// After a sweep, an active check's most recent history row carries
/// exactly the status the sweep decided for it.
pub proof fn lemma_sweep_last_status_active(
    base: Seq<CheckResultView>,
    checks: Seq<CheckView>,
    outs: Seq<ClassificationView>,
    ts: Seq<Seq<char>>,
    first_id: int,
    i: int,
)
    requires
        outs.len() == checks.len(),
        ts.len() == checks.len(),
        0 <= i < checks.len(),
        checks[i].is_active,
        forall|j: int|
            0 <= j < checks.len() && j != i ==> (#[trigger] checks[j]).id != checks[i].id,
    ensures
        spec_last_result_status(base + spec_sweep_rows(checks, outs, ts, first_id), checks[i].id)
            == Option::Some(spec_status_of(outs[i].reachable)),
    decreases checks.len(),
{
    let n = checks.len() - 1;
    let prefix = spec_sweep_rows(checks.drop_last(), outs.drop_last(), ts.drop_last(), first_id);
    let rows = spec_sweep_rows(checks, outs, ts, first_id);
    if i == n {
        let row = spec_result_row(
            checks.last(),
            outs.last(),
            ts.last(),
            (first_id + spec_count_active(checks.drop_last())) as u64,
        );
        assert(base + rows =~= (base + prefix).push(row));
        lemma_last_status_push_own(base + prefix, row);
    } else {
        if checks[n].is_active {
            let row = spec_result_row(
                checks.last(),
                outs.last(),
                ts.last(),
                (first_id + spec_count_active(checks.drop_last())) as u64,
            );
            assert(base + rows =~= (base + prefix).push(row));
            assert(row.check_id == checks[n].id);
            lemma_last_status_push_other(base + prefix, row, checks[i].id);
        } else {
            assert(base + rows =~= base + prefix);
        }
        lemma_sweep_last_status_active(
            base,
            checks.drop_last(),
            outs.drop_last(),
            ts.drop_last(),
            first_id,
            i,
        );
    }
}

/// After a sweep, every active check agrees with the history: its cached
/// status is the status of the most recently inserted row for it.
pub proof fn lemma_sweep_active_consistent(
    sv: StoreView,
    outs: Seq<ClassificationView>,
    ts: Seq<Seq<char>>,
    i: int,
)
    requires
        sv.wf(),
        outs.len() == sv.checks.len(),
        ts.len() == sv.checks.len(),
        0 <= i < sv.checks.len(),
        sv.checks[i].is_active,
    ensures
        check_consistent(
            spec_sweep_store(sv, outs, ts).checks[i],
            spec_sweep_store(sv, outs, ts).results,
        ),
{
    assert forall|j: int|
        0 <= j < sv.checks.len() && j != i implies (#[trigger] sv.checks[j]).id
        != sv.checks[i].id by {
        if j < i {
            assert(sv.checks[j].id != sv.checks[i].id);
        } else {
            assert(sv.checks[i].id != sv.checks[j].id);
        }
    }
    lemma_sweep_last_status_active(sv.results, sv.checks, outs, ts, sv.next_result_id as int, i);
}

/// The consistency invariant survives a sweep: if every check's cached
/// status agreed with its history before the sweep, it does after.
pub proof fn lemma_sweep_preserves_consistency(
    sv: StoreView,
    outs: Seq<ClassificationView>,
    ts: Seq<Seq<char>>,
)
    requires
        sv.wf(),
        status_consistent(sv),
        outs.len() == sv.checks.len(),
        ts.len() == sv.checks.len(),
    ensures
        status_consistent(spec_sweep_store(sv, outs, ts)),
{
    let post = spec_sweep_store(sv, outs, ts);
    assert forall|i: int|
        0 <= i < post.checks.len() implies check_consistent(
        #[trigger] post.checks[i],
        post.results,
    ) by {
        if sv.checks[i].is_active {
            lemma_sweep_active_consistent(sv, outs, ts, i);
        } else {
            assert forall|j: int|
                0 <= j < sv.checks.len() && (#[trigger] sv.checks[j]).is_active implies
                sv.checks[j].id != sv.checks[i].id by {
                if j < i {
                    assert(sv.checks[j].id != sv.checks[i].id);
                } else {
                    assert(sv.checks[i].id != sv.checks[j].id);
                }
            }
            lemma_sweep_rows_ids(
                sv.checks,
                outs,
                ts,
                sv.next_result_id as int,
                sv.checks[i].id,
            );
            lemma_last_status_append_no_match(
                sv.results,
                spec_sweep_rows(sv.checks, outs, ts, sv.next_result_id as int),
                sv.checks[i].id,
            );
            assert(post.checks[i] == sv.checks[i]);
            assert(check_consistent(sv.checks[i], sv.results));
        }
    }
}

/// A sweep neither adds nor removes checks, and never changes which
/// checks are active.
pub proof fn lemma_sweep_preserves_count_active(
    checks: Seq<CheckView>,
    outs: Seq<ClassificationView>,
    ts: Seq<Seq<char>>,
)
    requires
        outs.len() == checks.len(),
        ts.len() == checks.len(),
    ensures
        spec_sweep_checks(checks, outs, ts).len() == checks.len(),
        spec_count_active(spec_sweep_checks(checks, outs, ts)) == spec_count_active(checks),
    decreases checks.len(),
{
    if checks.len() == 0 {
    } else {
        lemma_sweep_preserves_count_active(checks.drop_last(), outs.drop_last(), ts.drop_last());
        assert(spec_sweep_checks(checks, outs, ts).drop_last() =~= spec_sweep_checks(
            checks.drop_last(),
            outs.drop_last(),
            ts.drop_last(),
        ));
        assert(spec_sweep_checks(checks, outs, ts).last().is_active
            == checks.last().is_active);
    }
}

/// The store after a whole series of sweeps, each given as its per-check
/// probe outcomes and timestamps.
pub open spec fn spec_store_after_sweeps(
    sv: StoreView,
    sweeps: Seq<(Seq<ClassificationView>, Seq<Seq<char>>)>,
) -> StoreView
    decreases sweeps.len(),
{
    if sweeps.len() == 0 {
        sv
    } else {
        spec_sweep_store(
            spec_store_after_sweeps(sv, sweeps.drop_last()),
            sweeps.last().0,
            sweeps.last().1,
        )
    }
}

/// One sweep appends exactly one row for an active check and none for an
/// inactive one.
pub proof fn lemma_sweep_rows_for_check(
    checks: Seq<CheckView>,
    outs: Seq<ClassificationView>,
    ts: Seq<Seq<char>>,
    first_id: int,
    i: int,
)
    requires
        outs.len() == checks.len(),
        ts.len() == checks.len(),
        0 <= i < checks.len(),
        forall|j: int|
            0 <= j < checks.len() && j != i ==> (#[trigger] checks[j]).id != checks[i].id,
    ensures
        spec_count_rows_for(spec_sweep_rows(checks, outs, ts, first_id), checks[i].id) == (
        if checks[i].is_active {
            1nat
        } else {
            0nat
        }),
    decreases checks.len(),
{
    let n = checks.len() - 1;
    let prefix = spec_sweep_rows(checks.drop_last(), outs.drop_last(), ts.drop_last(), first_id);
    let rows = spec_sweep_rows(checks, outs, ts, first_id);
    if i == n {
        assert forall|j: int|
            0 <= j < checks.drop_last().len() && (#[trigger] checks.drop_last()[j]).is_active
            implies checks.drop_last()[j].id != checks[i].id by {
            assert(checks[j].id != checks[i].id);
        }
        lemma_sweep_rows_ids(
            checks.drop_last(),
            outs.drop_last(),
            ts.drop_last(),
            first_id,
            checks[i].id,
        );
        lemma_count_rows_zero(prefix, checks[i].id);
        if checks[n].is_active {
            assert(rows.drop_last() =~= prefix);
        }
    } else {
        lemma_sweep_rows_for_check(
            checks.drop_last(),
            outs.drop_last(),
            ts.drop_last(),
            first_id,
            i,
        );
        if checks[n].is_active {
            assert(rows.drop_last() =~= prefix);
            assert(rows.last().check_id == checks[n].id);
        }
    }
}

/// A series of sweeps never adds or removes checks and never flips which
/// are active, and every check keeps its identifier.
pub proof fn lemma_after_sweeps_preserves_checks(
    sv: StoreView,
    sweeps: Seq<(Seq<ClassificationView>, Seq<Seq<char>>)>,
)
    ensures
        spec_store_after_sweeps(sv, sweeps).checks.len() == sv.checks.len(),
        forall|j: int|
            0 <= j < sv.checks.len() ==> (#[trigger] spec_store_after_sweeps(sv, sweeps).checks[j]).id
                == sv.checks[j].id && spec_store_after_sweeps(sv, sweeps).checks[j].is_active
                == sv.checks[j].is_active,
    decreases sweeps.len(),
{
    if sweeps.len() == 0 {
    } else {
        lemma_after_sweeps_preserves_checks(sv, sweeps.drop_last());
    }
}

/// With no storage failures, after a series of sweeps a check's history
/// has grown by exactly one row per sweep while it was active — and a
/// sweep never flips activity, so a check active at the start was active
/// in every sweep of the series — and an inactive check's history has
/// not grown at all.
pub proof fn lemma_check_history_after_sweeps(
    sv: StoreView,
    sweeps: Seq<(Seq<ClassificationView>, Seq<Seq<char>>)>,
    i: int,
)
    requires
        forall|k: int|
            0 <= k < sweeps.len() ==> (#[trigger] sweeps[k]).0.len() == sv.checks.len()
                && sweeps[k].1.len() == sv.checks.len(),
        0 <= i < sv.checks.len(),
        forall|j: int|
            0 <= j < sv.checks.len() && j != i ==> (#[trigger] sv.checks[j]).id != sv.checks[i].id,
    ensures
        spec_count_rows_for(spec_store_after_sweeps(sv, sweeps).results, sv.checks[i].id)
            == spec_count_rows_for(sv.results, sv.checks[i].id) + (if sv.checks[i].is_active {
            sweeps.len()
        } else {
            0
        }),
    decreases sweeps.len(),
{
    if sweeps.len() == 0 {
    } else {
        lemma_check_history_after_sweeps(sv, sweeps.drop_last(), i);
        let mid = spec_store_after_sweeps(sv, sweeps.drop_last());
        lemma_after_sweeps_preserves_checks(sv, sweeps.drop_last());
        assert forall|j: int|
            0 <= j < mid.checks.len() && j != i implies (#[trigger] mid.checks[j]).id
            != mid.checks[i].id by {
            assert(sv.checks[j].id != sv.checks[i].id);
        }
        lemma_sweep_rows_for_check(
            mid.checks,
            sweeps.last().0,
            sweeps.last().1,
            mid.next_result_id as int,
            i,
        );
        lemma_count_rows_add(
            mid.results,
            spec_sweep_rows(mid.checks, sweeps.last().0, sweeps.last().1,
                mid.next_result_id as int),
            sv.checks[i].id,
        );
    }
}

/// With no storage failures, the history after N sweeps has grown by
/// exactly N times the number of active checks, which no sweep changes.
pub proof fn lemma_results_after_sweeps(
    sv: StoreView,
    sweeps: Seq<(Seq<ClassificationView>, Seq<Seq<char>>)>,
)
    requires
        forall|k: int|
            0 <= k < sweeps.len() ==> (#[trigger] sweeps[k]).0.len() == sv.checks.len()
                && sweeps[k].1.len() == sv.checks.len(),
    ensures
        spec_store_after_sweeps(sv, sweeps).checks.len() == sv.checks.len(),
        spec_count_active(spec_store_after_sweeps(sv, sweeps).checks) == spec_count_active(
            sv.checks,
        ),
        spec_store_after_sweeps(sv, sweeps).results.len() == sv.results.len() + sweeps.len()
            * spec_count_active(sv.checks),
    decreases sweeps.len(),
{
    if sweeps.len() == 0 {
    } else {
        lemma_results_after_sweeps(sv, sweeps.drop_last());
        let mid = spec_store_after_sweeps(sv, sweeps.drop_last());
        lemma_sweep_rows_len(mid.checks, sweeps.last().0, sweeps.last().1,
            mid.next_result_id as int);
        lemma_sweep_preserves_count_active(mid.checks, sweeps.last().0, sweeps.last().1);
        assert((sweeps.len() - 1) * spec_count_active(sv.checks) + spec_count_active(sv.checks)
            == sweeps.len() * spec_count_active(sv.checks)) by (nonlinear_arith);
    }
}

} // verus!
