//! The laws the coordinator obeys, each proved over the transitions of
//! `state`: dispatch hands no job out twice, submission and fetching keep
//! the queue and the ledger consistent, terminal statuses never fall back to
//! `Submitted`, a worker that never heartbeat is never reaped, and a worker
//! gone stale loses its registry row and its running jobs in one pass.

use vstd::prelude::*;

use crate::state::{
    apply_updates, count_workers_with, created_jobs, has_worker, keep_worker, live_workers,
    FetchOutcome, StateView, STALE_SECS,
};
use crate::types::{JobView, StatusView, UpdateView, WorkerView};

verus! {

/// The state after a whole sequence of fetch calls, one per worker id in
/// `ws`, first to last.
pub open spec fn fetch_all(s: StateView, ws: Seq<Seq<char>>) -> StateView
    decreases ws.len(),
{
    if ws.len() == 0 {
        s
    } else {
        fetch_all(s.fetch_tr(ws.first()), ws.drop_first())
    }
}

/// What each of those fetch calls answered, in order.
pub open spec fn fetch_outputs(s: StateView, ws: Seq<Seq<char>>) -> Seq<FetchOutcome>
    decreases ws.len(),
{
    if ws.len() == 0 {
        Seq::empty()
    } else {
        seq![s.fetch_out(ws.first())] + fetch_outputs(s.fetch_tr(ws.first()), ws.drop_first())
    }
}

/// Whether some queued job carries the given id.
spec fn pending_has(p: Seq<JobView>, id: int) -> bool {
    exists|i: int| 0 <= i < p.len() && p[i].id == id
}

/// There is one answer per fetch call.
pub proof fn lemma_fetch_outputs_len(s: StateView, ws: Seq<Seq<char>>)
    ensures
        fetch_outputs(s, ws).len() == ws.len(),
    decreases ws.len(),
{
    if ws.len() > 0 {
        lemma_fetch_outputs_len(s.fetch_tr(ws.first()), ws.drop_first());
    }
}

/// A fetch leaves the state well-formed.
pub proof fn lemma_fetch_preserves_wf(s: StateView, w: Seq<char>)
    requires
        s.wf(),
    ensures
        s.fetch_tr(w).wf(),
{
    if count_workers_with(s.workers, w) == 1 && s.pending.len() > 0 {
        let t = s.fetch_tr(w);
        assert(forall|i: int|
            0 <= i < t.ledger.len() ==> (#[trigger] t.ledger[i]).id == s.ledger[i].id);
        assert(forall|i: int|
            0 <= i < t.pending.len() ==> (#[trigger] t.pending[i]).id == s.pending[i].id);
    }
}

/// A job id that is not in the queue is never dispatched, however many
/// fetches follow: fetching only ever removes jobs from the queue.
proof fn lemma_undispatchable(s: StateView, ws: Seq<Seq<char>>, x: int)
    requires
        !pending_has(s.pending, x),
    ensures
        forall|k: int|
            0 <= k < ws.len() && (#[trigger] fetch_outputs(s, ws)[k]) is Dispatched
                ==> fetch_outputs(s, ws)[k]->job.id != x,
    decreases ws.len(),
{
    if ws.len() > 0 {
        let w0 = ws.first();
        let s1 = s.fetch_tr(w0);
        let outs = fetch_outputs(s, ws);
        let rest = fetch_outputs(s1, ws.drop_first());
        assert(outs == seq![s.fetch_out(w0)] + rest);
        lemma_fetch_outputs_len(s1, ws.drop_first());
        assert(!pending_has(s1.pending, x)) by {
            if pending_has(s1.pending, x) {
                let i = choose|i: int| 0 <= i < s1.pending.len() && s1.pending[i].id == x;
                assert(s.pending[i].id == x);
            }
        }
        lemma_undispatchable(s1, ws.drop_first(), x);
        assert forall|k: int|
            0 <= k < ws.len() && (#[trigger] outs[k]) is Dispatched implies outs[k]->job.id
            != x by {
            if k == 0 {
                assert(outs[0] == s.fetch_out(w0));
                if s.fetch_out(w0) is Dispatched {
                    assert(s.pending[s.pending.len() - 1].id == s.fetch_out(w0)->job.id);
                }
            } else {
                assert(outs[k] == rest[k - 1]);
            }
        }
    }
}

/// At-most-once dispatch: across any sequence of fetch calls from a
/// well-formed state, no two calls that hand a job out hand out the same job
/// id.
pub proof fn lemma_at_most_once_dispatch(s: StateView, ws: Seq<Seq<char>>, i: int, j: int)
    requires
        s.wf(),
        0 <= i < j < ws.len(),
        fetch_outputs(s, ws)[i] is Dispatched,
        fetch_outputs(s, ws)[j] is Dispatched,
    ensures
        fetch_outputs(s, ws)[i]->job.id != fetch_outputs(s, ws)[j]->job.id,
    decreases ws.len(),
{
    let w0 = ws.first();
    let s1 = s.fetch_tr(w0);
    let outs = fetch_outputs(s, ws);
    let rest = fetch_outputs(s1, ws.drop_first());
    assert(outs == seq![s.fetch_out(w0)] + rest);
    lemma_fetch_outputs_len(s1, ws.drop_first());
    assert(outs[j] == rest[j - 1]);
    if i == 0 {
        assert(outs[0] == s.fetch_out(w0));
        let job = s.fetch_out(w0)->job;
        assert(job == s.pending.last());
        assert(s1.pending == s.pending.drop_last());
        assert(!pending_has(s1.pending, job.id)) by {
            if pending_has(s1.pending, job.id) {
                let m = choose|m: int| 0 <= m < s1.pending.len() && s1.pending[m].id == job.id;
                assert(s.pending[m].id == job.id);
                assert(s.pending[s.pending.len() - 1].id == job.id);
            }
        }
        lemma_undispatchable(s1, ws.drop_first(), job.id);
    } else {
        lemma_fetch_preserves_wf(s, w0);
        assert(outs[i] == rest[i - 1]);
        lemma_at_most_once_dispatch(s1, ws.drop_first(), i - 1, j - 1);
    }
}

/// The status the last update entry reporting on job `id` carried, or `dflt`
/// if none reports on it.
pub open spec fn last_reported(us: Seq<UpdateView>, id: int, dflt: StatusView) -> StatusView
    decreases us.len(),
{
    if us.len() == 0 {
        dflt
    } else if us.last().job == id {
        us.last().status
    } else {
        last_reported(us.drop_last(), id, dflt)
    }
}

/// Status queries reflect exactly the last applied update, deterministically:
/// after an update call, a ledger entry keeps its id and command, and
/// carries the status of the last entry that reported on it — or its old
/// status, if none did.
pub proof fn lemma_last_update_wins(ledger: Seq<JobView>, us: Seq<UpdateView>, i: int)
    requires
        0 <= i < ledger.len(),
    ensures
        apply_updates(ledger, us).len() == ledger.len(),
        apply_updates(ledger, us)[i] == (JobView {
            id: ledger[i].id,
            cmd: ledger[i].cmd,
            status: last_reported(us, ledger[i].id, ledger[i].status),
        }),
    decreases us.len(),
{
    if us.len() > 0 {
        lemma_last_update_wins(ledger, us.drop_last(), i);
    }
}

/// `last_reported` only ever answers `dflt` or a status out of the update
/// entries themselves.
proof fn lemma_last_reported_not_submitted(us: Seq<UpdateView>, id: int, dflt: StatusView)
    requires
        !(dflt is Submitted),
        forall|k: int| 0 <= k < us.len() ==> !((#[trigger] us[k]).status is Submitted),
    ensures
        !(last_reported(us, id, dflt) is Submitted),
    decreases us.len(),
{
    if us.len() > 0 {
        if us.last().job == id {
            assert(!(us[us.len() - 1].status is Submitted));
        } else {
            assert forall|k: int|
                0 <= k < us.drop_last().len() implies !(
            (#[trigger] us.drop_last()[k]).status is Submitted) by {
                assert(us.drop_last()[k] == us[k]);
            }
            lemma_last_reported_not_submitted(us.drop_last(), id, dflt);
        }
    }
}

/// Terminal idempotence: a ledger entry that reached `Completed` or `Failed`
/// may be overwritten by a later update, but as long as no update entry
/// reports `Submitted` — the protocol only carries in-progress and terminal
/// reports — the entry never falls back to `Submitted`.
pub proof fn lemma_no_revert_to_submitted(ledger: Seq<JobView>, us: Seq<UpdateView>, i: int)
    requires
        0 <= i < ledger.len(),
        forall|k: int| 0 <= k < us.len() ==> !((#[trigger] us[k]).status is Submitted),
        ledger[i].status is Completed || ledger[i].status is Failed,
    ensures
        !(apply_updates(ledger, us)[i].status is Submitted),
{
    lemma_last_update_wins(ledger, us, i);
    lemma_last_reported_not_submitted(us, ledger[i].id, ledger[i].status);
}

/// A row the reaper keeps is still in the registry afterwards.
proof fn lemma_live_keeps(ws: Seq<WorkerView>, now: int, i: int)
    requires
        0 <= i < ws.len(),
        keep_worker(ws[i], now),
    ensures
        live_workers(ws, now).contains(ws[i]),
    decreases ws.len(),
{
    let rest = live_workers(ws.drop_last(), now);
    if i == ws.len() - 1 {
        assert(rest.push(ws.last())[rest.len() as int] == ws[i]);
        assert(live_workers(ws, now).contains(ws[i]));
    } else {
        assert(ws.drop_last()[i] == ws[i]);
        lemma_live_keeps(ws.drop_last(), now, i);
        let m = choose|m: int| 0 <= m < rest.len() && rest[m] == ws[i];
        if keep_worker(ws.last(), now) {
            assert(rest.push(ws.last())[m] == ws[i]);
        }
        assert(live_workers(ws, now).contains(ws[i]));
    }
}

/// Heartbeat grace period: a worker that registered and never heartbeat is
/// never reaped, at any time — its registry row survives every reaper pass.
pub proof fn lemma_heartbeat_grace(s: StateView, now: int, i: int)
    requires
        0 <= i < s.workers.len(),
        s.workers[i].last_heartbeat is None,
    ensures
        s.reap_tr(now).workers.contains(s.workers[i]),
{
    lemma_live_keeps(s.workers, now, i);
}

/// Every row the reaper leaves behind was in the registry and was young
/// enough to keep.
proof fn lemma_live_members(ws: Seq<WorkerView>, now: int)
    ensures
        forall|m: int|
            0 <= m < live_workers(ws, now).len() ==> keep_worker(
                #[trigger] live_workers(ws, now)[m],
                now,
            ) && ws.contains(live_workers(ws, now)[m]),
    decreases ws.len(),
{
    if ws.len() > 0 {
        lemma_live_members(ws.drop_last(), now);
        let rest = live_workers(ws.drop_last(), now);
        let full = live_workers(ws, now);
        assert forall|m: int|
            0 <= m < full.len() implies keep_worker(#[trigger] full[m], now) && ws.contains(
            full[m]) by {
            if keep_worker(ws.last(), now) && m == rest.len() {
                assert(full[m] == ws.last());
                assert(ws[ws.len() - 1] == ws.last());
                assert(ws.contains(ws.last()));
            } else {
                assert(full[m] == rest[m]);
                let w = choose|w: int|
                    0 <= w < ws.drop_last().len() && ws.drop_last()[w] == rest[m];
                assert(ws[w] == rest[m]);
                assert(ws.contains(rest[m]));
            }
        }
    }
}

/// Liveness cascade: when every registry row carrying a worker's id has
/// gone at least the staleness threshold without a heartbeat, one reaper
/// pass removes the worker from the registry and fails each of its running
/// jobs.
pub proof fn lemma_liveness_cascade(s: StateView, now: int, wid: Seq<char>, j: int)
    requires
        forall|k: int|
            0 <= k < s.workers.len() && (#[trigger] s.workers[k]).id == wid ==> (
            s.workers[k].last_heartbeat matches Option::Some(t) && now - t >= STALE_SECS as int),
        0 <= j < s.ledger.len(),
        s.ledger[j].status == StatusView::Running(wid),
    ensures
        !has_worker(s.reap_tr(now).workers, wid),
        s.reap_tr(now).ledger[j].status is Failed,
{
    let live = live_workers(s.workers, now);
    lemma_live_members(s.workers, now);
    assert(!has_worker(live, wid)) by {
        if has_worker(live, wid) {
            let m = choose|m: int| 0 <= m < live.len() && live[m].id == wid;
            let k = choose|k: int| 0 <= k < s.workers.len() && s.workers[k] == live[m];
            assert(!keep_worker(s.workers[k], now));
        }
    }
    assert(s.reap_tr(now).ledger[j].status is Failed);
}

/// The queued jobs after every one of them was fetched once: job `i` of the
/// queue runs on the worker that made fetch call `p.len() - 1 - i`, the
/// queue handing jobs out youngest first.
pub open spec fn drained(p: Seq<JobView>, ws: Seq<Seq<char>>) -> Seq<JobView> {
    Seq::new(
        p.len(),
        |i: int|
            JobView {
                id: p[i].id,
                cmd: p[i].cmd,
                status: StatusView::Running(ws[p.len() - 1 - i]),
            },
    )
}

/// Draining a state whose queued jobs sit contiguously in the ledger between
/// `a` and `b`, with one registered worker per fetch call: every fetch
/// dispatches, the queue empties, and exactly the queued ledger entries turn
/// `Running` on their fetching worker.
proof fn lemma_drain(t: StateView, ws: Seq<Seq<char>>, a: Seq<JobView>, b: Seq<JobView>)
    requires
        ws.len() == t.pending.len(),
        forall|i: int| 0 <= i < ws.len() ==> count_workers_with(t.workers, #[trigger] ws[i]) == 1,
        forall|i: int, j: int|
            0 <= i < j < t.pending.len() ==> t.pending[i].id != t.pending[j].id,
        t.ledger == a + t.pending + b,
        forall|i: int, j: int|
            0 <= i < a.len() && 0 <= j < t.pending.len() ==> a[i].id != t.pending[j].id,
        forall|i: int, j: int|
            0 <= i < b.len() && 0 <= j < t.pending.len() ==> b[i].id != t.pending[j].id,
    ensures
        fetch_all(t, ws).pending.len() == 0,
        fetch_all(t, ws).workers == t.workers,
        fetch_all(t, ws).counter == t.counter,
        fetch_all(t, ws).ledger == a + drained(t.pending, ws) + b,
    decreases ws.len(),
{
    if ws.len() == 0 {
        assert(drained(t.pending, ws) =~= t.pending);
    } else {
        let w0 = ws.first();
        let p = t.pending;
        let last = p.last();
        assert(count_workers_with(t.workers, w0) == 1);
        let t1 = t.fetch_tr(w0);
        let head = JobView { id: last.id, cmd: last.cmd, status: StatusView::Running(w0) };
        let b1 = seq![head] + b;
        assert(t1.ledger =~= a + p.drop_last() + b1) by {
            assert forall|m: int| 0 <= m < t1.ledger.len() implies t1.ledger[m] == (a
                + p.drop_last() + b1)[m] by {
                assert(t1.ledger[m] == if t.ledger[m].id == last.id {
                    JobView { id: t.ledger[m].id, cmd: t.ledger[m].cmd, status: StatusView::Running(w0) }
                } else {
                    t.ledger[m]
                });
                if m < a.len() {
                    assert(t.ledger[m] == a[m]);
                    assert(a[m].id != p[p.len() - 1].id);
                } else if m < a.len() + p.len() - 1 {
                    assert(t.ledger[m] == p[m - a.len()]);
                    assert(p[m - a.len()].id != p[p.len() - 1].id);
                } else if m == a.len() + p.len() - 1 {
                    assert(t.ledger[m] == p[p.len() - 1]);
                } else {
                    assert(t.ledger[m] == b[m - a.len() - p.len()]);
                    assert(b[m - a.len() - p.len()].id != p[p.len() - 1].id);
                }
            }
        }
        assert forall|i: int|
            0 <= i < ws.drop_first().len() implies count_workers_with(
            t1.workers, #[trigger] ws.drop_first()[i]) == 1 by {
            assert(ws.drop_first()[i] == ws[i + 1]);
        }
        assert forall|i: int, j: int|
            0 <= i < b1.len() && 0 <= j < t1.pending.len() implies b1[i].id
            != t1.pending[j].id by {
            assert(t1.pending[j] == p[j]);
            if i > 0 {
                assert(b1[i] == b[i - 1]);
            }
        }
        lemma_drain(t1, ws.drop_first(), a, b1);
        assert(fetch_all(t, ws) == fetch_all(t1, ws.drop_first()));
        assert(a + drained(p.drop_last(), ws.drop_first()) + b1 =~= a + drained(p, ws) + b) by {
            assert forall|m: int|
                0 <= m < (a + drained(p, ws) + b).len() implies (a + drained(
                p.drop_last(), ws.drop_first()) + b1)[m] == (a + drained(p, ws) + b)[m] by {
                if a.len() <= m < a.len() + p.len() - 1 {
                    assert(ws.drop_first()[p.len() - 2 - (m - a.len())] == ws[p.len() - 1 - (m
                        - a.len())]);
                }
            }
        }
    }
}

/// Queue/ledger consistency: submitting `k` commands puts exactly `k` new
/// `Submitted` jobs in both the queue and the ledger, with consecutive fresh
/// ids; and once each of the `k` is fetched once — one fetch per registered
/// worker id in `ws` — the queue is empty again and each created ledger
/// entry runs on the worker that fetched it.
pub proof fn lemma_queue_ledger_consistency(s: StateView, cmds: Seq<Seq<char>>, ws: Seq<Seq<char>>)
    requires
        s.wf(),
        s.pending.len() == 0,
        ws.len() == cmds.len(),
        forall|i: int| 0 <= i < ws.len() ==> count_workers_with(s.workers, #[trigger] ws[i]) == 1,
    ensures
        s.submit_tr(cmds).pending == created_jobs(s.counter, cmds),
        s.submit_tr(cmds).ledger == s.ledger + created_jobs(s.counter, cmds),
        forall|i: int|
            0 <= i < cmds.len() ==> (#[trigger] created_jobs(s.counter, cmds)[i]).status
                is Submitted,
        fetch_all(s.submit_tr(cmds), ws).pending.len() == 0,
        fetch_all(s.submit_tr(cmds), ws).workers == s.workers,
        fetch_all(s.submit_tr(cmds), ws).ledger == s.ledger + drained(
            created_jobs(s.counter, cmds),
            ws,
        ),
{
    let created = created_jobs(s.counter, cmds);
    let s1 = s.submit_tr(cmds);
    assert(s1.pending =~= created);
    assert(s1.ledger =~= s.ledger + created + Seq::<JobView>::empty());
    assert forall|i: int, j: int|
        0 <= i < s.ledger.len() && 0 <= j < created.len() implies s.ledger[i].id
        != created[j].id by {
        assert(s.ledger[i].id <= s.counter);
    }
    lemma_drain(s1, ws, s.ledger, Seq::<JobView>::empty());
    assert(s.ledger + drained(created, ws) + Seq::<JobView>::empty() =~= s.ledger + drained(
        created,
        ws,
    ));
}

} // verus!
