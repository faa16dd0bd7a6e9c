//! The coordinator's state: the worker registry, the job ledger, the pending
//! queue, and the operations that the protocol handlers perform on them.

use vstd::prelude::*;

use crate::types::{FetchResponse, Heartbeat, Job, JobView, RegisterResponse, Status, StatusRequest, StatusView, Update, UpdateView, Worker, WorkerView};

verus! {

/// Seconds a worker may go without a heartbeat before the reaper evicts it.
pub const STALE_SECS: i64 = 60;

/// Seconds the reaper sleeps between passes.
pub const REAP_INTERVAL_SECS: u64 = 10;

/// Mathematical model of the whole coordinator: the id counter, the worker
/// registry, the pending queue, and the job ledger.
pub ghost struct StateView {
    pub counter: int,
    pub workers: Seq<WorkerView>,
    pub pending: Seq<JobView>,
    pub ledger: Seq<JobView>,
}

/// The models of a sequence of jobs.
pub open spec fn job_views(v: Seq<Job>) -> Seq<JobView> {
    v.map_values(|j: Job| j@)
}

/// The models of a sequence of workers.
pub open spec fn worker_views(v: Seq<Worker>) -> Seq<WorkerView> {
    v.map_values(|w: Worker| w@)
}

/// The models of a sequence of updates.
pub open spec fn update_views(v: Seq<Update>) -> Seq<UpdateView> {
    v.map_values(|u: Update| u@)
}

/// The requested ids of a sequence of status queries.
pub open spec fn requested_ids(v: Seq<StatusRequest>) -> Seq<int> {
    v.map_values(|q: StatusRequest| q@)
}

/// How many registry entries carry the given worker id.
pub open spec fn count_workers_with(ws: Seq<WorkerView>, id: Seq<char>) -> int
    decreases ws.len(),
{
    if ws.len() == 0 {
        0
    } else {
        count_workers_with(ws.drop_last(), id) + if ws.last().id == id {
            1int
        } else {
            0int
        }
    }
}

/// Whether some registry entry carries the given worker id.
pub open spec fn has_worker(ws: Seq<WorkerView>, id: Seq<char>) -> bool {
    exists|i: int| 0 <= i < ws.len() && ws[i].id == id
}

/// The ledger after the job with the given id is handed to worker `w`.
pub open spec fn set_running(ledger: Seq<JobView>, id: int, w: Seq<char>) -> Seq<JobView> {
    ledger.map_values(
        |j: JobView|
            if j.id == id {
                JobView { id: j.id, cmd: j.cmd, status: StatusView::Running(w) }
            } else {
                j
            },
    )
}

/// The ledger after one update entry: every entry with the given id takes the
/// reported status, all others stay.
pub open spec fn set_status(ledger: Seq<JobView>, id: int, st: StatusView) -> Seq<JobView> {
    ledger.map_values(
        |j: JobView|
            if j.id == id {
                JobView { id: j.id, cmd: j.cmd, status: st }
            } else {
                j
            },
    )
}

/// The ledger after a list of update entries, applied first to last; a later
/// entry for the same job overwrites an earlier one.
pub open spec fn apply_updates(ledger: Seq<JobView>, us: Seq<UpdateView>) -> Seq<JobView>
    decreases us.len(),
{
    if us.len() == 0 {
        ledger
    } else {
        set_status(apply_updates(ledger, us.drop_last()), us.last().job, us.last().status)
    }
}

/// The ledger entries whose id was asked about, in ledger order.
pub open spec fn select_requested(ledger: Seq<JobView>, ids: Seq<int>) -> Seq<JobView>
    decreases ledger.len(),
{
    if ledger.len() == 0 {
        ledger
    } else {
        let rest = select_requested(ledger.drop_last(), ids);
        if ids.contains(ledger.last().id) {
            rest.push(ledger.last())
        } else {
            rest
        }
    }
}

/// The jobs a submission of the given commands creates when the id counter
/// stands at `counter`: consecutive fresh ids, every job `Submitted`.
pub open spec fn created_jobs(counter: int, cmds: Seq<Seq<char>>) -> Seq<JobView> {
    Seq::new(cmds.len(), |i: int| JobView { id: counter + 1 + i, cmd: cmds[i], status: StatusView::Submitted })
}

/// Whether the reaper retains a worker at time `now`: it has never heartbeat
/// at all (the grace period for freshly joined workers), or its last
/// heartbeat is younger than the staleness threshold.
pub open spec fn keep_worker(w: WorkerView, now: int) -> bool {
    match w.last_heartbeat {
        Option::None => true,
        Option::Some(t) => now - t < STALE_SECS as int,
    }
}

/// The registry after a reaper pass at time `now`: the retained workers, in
/// their old order.
pub open spec fn live_workers(ws: Seq<WorkerView>, now: int) -> Seq<WorkerView>
    decreases ws.len(),
{
    if ws.len() == 0 {
        ws
    } else {
        let rest = live_workers(ws.drop_last(), now);
        if keep_worker(ws.last(), now) {
            rest.push(ws.last())
        } else {
            rest
        }
    }
}

/// The ledger after the reaper's second phase: every job running on a worker
/// absent from the given registry fails, all others stay.
pub open spec fn fail_orphans(ledger: Seq<JobView>, ws: Seq<WorkerView>) -> Seq<JobView> {
    ledger.map_values(
        |j: JobView|
            match j.status {
                StatusView::Running(w) => if has_worker(ws, w) {
                    j
                } else {
                    JobView { id: j.id, cmd: j.cmd, status: StatusView::Failed }
                },
                _ => j,
            },
    )
}

/// What one fetch call yields: a dispatched job, nothing to do, or an
/// instruction to the worker to shut down.
pub ghost enum FetchOutcome {
    Dispatched { job: JobView },
    Idle,
    Terminated,
}

impl StateView {
    /// Well-formedness: the ledger and the queue never repeat a job id, and
    /// every id they hold was allocated from the counter.
    pub open spec fn wf(self) -> bool {
        &&& 0 <= self.counter <= i32::MAX as int
        &&& (forall|i: int, j: int| 0 <= i < j < self.ledger.len() ==> self.ledger[i].id != self.ledger[j].id)
        &&& (forall|i: int, j: int| 0 <= i < j < self.pending.len() ==> self.pending[i].id != self.pending[j].id)
        &&& (forall|i: int| 0 <= i < self.ledger.len() ==> 1 <= #[trigger] self.ledger[i].id <= self.counter)
        &&& (forall|i: int| 0 <= i < self.pending.len() ==> 1 <= #[trigger] self.pending[i].id <= self.counter)
    }

    /// Registration: one more registry entry, which has never heartbeat.
    pub open spec fn register_tr(self, id: Seq<char>) -> StateView {
        StateView { workers: self.workers.push(WorkerView { id, last_heartbeat: Option::None }), ..self }
    }

    /// A fetch by worker `w`: when `w` holds exactly one registry row and a
    /// job is pending, the youngest pending job leaves the queue and its
    /// ledger entry starts running on `w`; otherwise nothing changes.
    pub open spec fn fetch_tr(self, w: Seq<char>) -> StateView {
        if count_workers_with(self.workers, w) == 1 && self.pending.len() > 0 {
            StateView {
                pending: self.pending.drop_last(),
                ledger: set_running(self.ledger, self.pending.last().id, w),
                ..self
            }
        } else {
            self
        }
    }

    /// What the same fetch answers.
    pub open spec fn fetch_out(self, w: Seq<char>) -> FetchOutcome {
        if count_workers_with(self.workers, w) != 1 {
            FetchOutcome::Terminated
        } else if self.pending.len() == 0 {
            FetchOutcome::Idle
        } else {
            FetchOutcome::Dispatched { job: self.pending.last() }
        }
    }

    /// A heartbeat from `id` at time `t`: every registry row with that id
    /// takes `t` as its last heartbeat; an unknown id changes nothing.
    pub open spec fn heartbeat_tr(self, id: Seq<char>, t: i64) -> StateView {
        StateView { workers: beat(self.workers, id, t), ..self }
    }

    /// An update call: the entries are applied to the ledger first to last;
    /// entries for unknown job ids fall away.
    pub open spec fn update_tr(self, us: Seq<UpdateView>) -> StateView {
        StateView { ledger: apply_updates(self.ledger, us), ..self }
    }

    /// A submission of the given commands: the counter advances by one per
    /// command, and the created jobs join both the ledger and the queue.
    pub open spec fn submit_tr(self, cmds: Seq<Seq<char>>) -> StateView {
        StateView {
            counter: self.counter + cmds.len(),
            workers: self.workers,
            pending: self.pending + created_jobs(self.counter, cmds),
            ledger: self.ledger + created_jobs(self.counter, cmds),
        }
    }

    /// A reaper pass at time `now`: stale workers leave the registry, and
    /// every job running on a worker no longer in it fails.
    pub open spec fn reap_tr(self, now: int) -> StateView {
        StateView {
            workers: live_workers(self.workers, now),
            ledger: fail_orphans(self.ledger, live_workers(self.workers, now)),
            ..self
        }
    }
}

/// The registry after a heartbeat from `id` at time `t`.
pub open spec fn beat(ws: Seq<WorkerView>, id: Seq<char>, t: i64) -> Seq<WorkerView> {
    ws.map_values(
        |w: WorkerView|
            if w.id == id {
                WorkerView { id: w.id, last_heartbeat: Option::Some(t) }
            } else {
                w
            },
    )
}

/// The commands of a sequence of submitted jobs.
pub open spec fn cmds_of(js: Seq<Job>) -> Seq<Seq<char>> {
    js.map_values(|j: Job| j.cmd@)
}

/// Whether a fetch response is the right answer from state `pre` to worker
/// `w`: the variant agrees with the outcome, a dispatch carries exactly the
/// dispatched job — already marked running on the fetching worker, as the
/// ledger now shows it — and a termination carries its fixed message.
pub open spec fn fetch_matches(pre: StateView, w: Seq<char>, r: FetchResponse) -> bool {
    match r {
        FetchResponse::Terminate(m) => pre.fetch_out(w) is Terminated && m@ == "Worker not found"@,
        FetchResponse::Nop => pre.fetch_out(w) is Idle,
        FetchResponse::Jobs(js) => pre.fetch_out(w) is Dispatched && job_views(js@) == seq![
            JobView {
                id: pre.fetch_out(w)->job.id,
                cmd: pre.fetch_out(w)->job.cmd,
                status: StatusView::Running(w),
            },
        ],
    }
}

/// Splitting a prefix one longer: the counted registry grows by the entry at
/// `i`.
proof fn lemma_count_step(ws: Seq<WorkerView>, id: Seq<char>, i: int)
    requires
        0 <= i < ws.len(),
    ensures
        count_workers_with(ws.take(i + 1), id) == count_workers_with(ws.take(i), id) + if ws[i].id
            == id {
            1int
        } else {
            0int
        },
{
    assert(ws.take(i + 1).drop_last() =~= ws.take(i));
    assert(ws.take(i + 1).last() == ws[i]);
}

/// How many registry rows carry the given id.
fn count_matching(ws: &Vec<Worker>, id: &String) -> (n: usize)
    ensures
        n as int == count_workers_with(worker_views(ws@), id@),
{
    let mut n: usize = 0;
    let mut i: usize = 0;
    while i < ws.len()
        invariant
            0 <= i <= ws@.len(),
            n <= i,
            n as int == count_workers_with(worker_views(ws@).take(i as int), id@),
        decreases ws@.len() - i,
    {
        proof {
            lemma_count_step(worker_views(ws@), id@, i as int);
        }
        if ws[i].id == *id {
            n = n + 1;
        }
        i = i + 1;
    }
    proof {
        assert(worker_views(ws@).take(ws@.len() as int) =~= worker_views(ws@));
    }
    n
}

/// The ledger with only its first `k` entries rewritten: entries below `k`
/// whose id matches take status `st`, the rest stand as they were. At
/// `k == len` this is [`set_status`]; the loops below grow `k` one entry at a
/// time.
spec fn set_status_upto(ledger: Seq<JobView>, k: int, id: int, st: StatusView) -> Seq<JobView> {
    Seq::new(
        ledger.len(),
        |m: int|
            if m < k && ledger[m].id == id {
                JobView { id: ledger[m].id, cmd: ledger[m].cmd, status: st }
            } else {
                ledger[m]
            },
    )
}

/// The registry with only its first `k` rows rewritten: rows below `k` whose
/// id matches take `t` as their last heartbeat. At `k == len` this is
/// [`beat`].
spec fn beat_upto(ws: Seq<WorkerView>, k: int, id: Seq<char>, t: i64) -> Seq<WorkerView> {
    Seq::new(
        ws.len(),
        |m: int|
            if m < k && ws[m].id == id {
                WorkerView { id: ws[m].id, last_heartbeat: Option::Some(t) }
            } else {
                ws[m]
            },
    )
}

/// Splitting a prefix one longer: applying one more update entry.
proof fn lemma_apply_updates_step(ledger: Seq<JobView>, us: Seq<UpdateView>, i: int)
    requires
        0 <= i < us.len(),
    ensures
        apply_updates(ledger, us.take(i + 1)) == set_status(
            apply_updates(ledger, us.take(i)),
            us[i].job,
            us[i].status,
        ),
{
    assert(us.take(i + 1).drop_last() =~= us.take(i));
    assert(us.take(i + 1).last() == us[i]);
}

/// The coordinator's collections. The embedding process serializes access
/// to the whole value, so each operation below is one critical section.
pub struct State {
    pub counter_jobs: i32,
    pub workers: Vec<Worker>,
    pub new_jobs: Vec<Job>,
    pub jobs: Vec<Job>,
}

impl View for State {
    type V = StateView;

    open spec fn view(&self) -> StateView {
        StateView {
            counter: self.counter_jobs as int,
            workers: worker_views(self.workers@),
            pending: job_views(self.new_jobs@),
            ledger: job_views(self.jobs@),
        }
    }
}

impl State {
    /// A coordinator that has seen nothing yet.
    pub fn new() -> (r: Self)
        ensures
            r@ == (StateView {
                counter: 0,
                workers: Seq::<WorkerView>::empty(),
                pending: Seq::<JobView>::empty(),
                ledger: Seq::<JobView>::empty(),
            }),
            r@.wf(),
    {
        let s = State { counter_jobs: 0, workers: Vec::new(), new_jobs: Vec::new(), jobs: Vec::new() };
        proof {
            assert(s@.workers =~= Seq::<WorkerView>::empty());
            assert(s@.pending =~= Seq::<JobView>::empty());
            assert(s@.ledger =~= Seq::<JobView>::empty());
        }
        s
    }

    /// Insert a worker row under the given fresh id and answer with that id.
    pub fn register_with(&mut self, id: String) -> (r: RegisterResponse)
        ensures
            final(self)@ == old(self)@.register_tr(id@),
            r.id@ == id@,
    {
        let response = RegisterResponse { id: id.clone() };
        self.workers.push(Worker { id, last_heartbeat: None });
        proof {
            assert(final(self)@.workers =~= old(self)@.workers.push(
                WorkerView { id: response.id@, last_heartbeat: Option::None },
            ));
            assert(final(self)@.pending =~= old(self)@.pending);
            assert(final(self)@.ledger =~= old(self)@.ledger);
        }
        response
    }

    /// Allocate a fresh worker id, insert its registry row, and answer with
    /// it. The id is drawn at random, so the contract holds of every draw.
    pub fn register(&mut self) -> (r: RegisterResponse)
        ensures
            final(self)@ == old(self)@.register_tr(r.id@),
            r.id@.len() == 36,
    {
        let id = crate::ids::fresh_uuid();
        self.register_with(id)
    }

    /// Whether a worker id is present in the registry — the sole authority
    /// for "is this worker alive".
    pub fn is_alive(&self, id: &String) -> (r: bool)
        ensures
            r == has_worker(self@.workers, id@),
    {
        let n = count_matching(&self.workers, id);
        proof {
            lemma_count_none(self@.workers, id@);
        }
        n > 0
    }

    /// Hand the requesting worker one job, if it is known and work is
    /// pending: the youngest pending job leaves the queue, its ledger entry
    /// starts running on the worker, and the job comes back to the worker
    /// already marked so. A worker not in the registry is told to terminate;
    /// an empty queue answers that there is no work.
    #[verifier::loop_isolation(false)]
    pub fn fetch(&mut self, worker_id: &String) -> (r: FetchResponse)
        ensures
            final(self)@ == old(self)@.fetch_tr(worker_id@),
            fetch_matches(old(self)@, worker_id@, r),
    {
        if count_matching(&self.workers, worker_id) != 1 {
            return FetchResponse::Terminate("Worker not found".to_owned());
        }
        if let Some(j) = self.new_jobs.pop() {
            let ghost gw = self@.workers;
            let ghost gl = self@.ledger;
            let ghost gp = self@.pending;
            let ghost gc = self@.counter;
            let ghost jid = j@.id;
            let ghost wid = worker_id@;
            proof {
                assert(gp =~= old(self)@.pending.drop_last());
            }
            let mut k: usize = 0;
            while k < self.jobs.len()
                invariant
                    0 <= k <= self.jobs@.len(),
                    self.jobs@.len() == gl.len(),
                    self@.workers == gw,
                    self@.pending == gp,
                    self@.counter == gc,
                    forall|m: int|
                        0 <= m < gl.len() ==> #[trigger] self.jobs@[m]@ == set_status_upto(
                            gl,
                            k as int,
                            jid,
                            StatusView::Running(wid),
                        )[m],
                decreases self.jobs@.len() - k,
            {
                let ghost pre = self.jobs@;
                proof {
                    assert(pre[k as int]@ == set_status_upto(gl, k as int, jid, StatusView::Running(wid))[k as int]);
                    assert(pre[k as int]@ == gl[k as int]);
                }
                if self.jobs[k].id == j.id {
                    let idv = self.jobs[k].id;
                    let cmdv = self.jobs[k].cmd.clone();
                    self.jobs.set(k, Job { id: idv, cmd: cmdv, status: Status::Running(worker_id.clone()) });
                }
                k = k + 1;
            }
            proof {
                assert(job_views(self.jobs@) =~= set_running(gl, jid, wid));
            }
            let handed = Job { id: j.id, cmd: j.cmd, status: Status::Running(worker_id.clone()) };
            let mut out: Vec<Job> = Vec::new();
            out.push(handed);
            proof {
                assert(job_views(out@) =~= seq![
                    JobView {
                        id: old(self)@.pending.last().id,
                        cmd: old(self)@.pending.last().cmd,
                        status: StatusView::Running(wid),
                    },
                ]);
            }
            return FetchResponse::Jobs(out);
        }
        FetchResponse::Nop
    }

    /// Record the given time as the last heartbeat of every registry row
    /// matching `id`; an unknown id is a silent no-op.
    #[verifier::loop_isolation(false)]
    pub fn heartbeat_at(&mut self, id: &String, now: i64)
        ensures
            final(self)@ == old(self)@.heartbeat_tr(id@, now),
    {
        let ghost gws = self@.workers;
        let ghost wid = id@;
        let mut k: usize = 0;
        while k < self.workers.len()
            invariant
                0 <= k <= self.workers@.len(),
                self.workers@.len() == gws.len(),
                self@.pending == old(self)@.pending,
                self@.ledger == old(self)@.ledger,
                self@.counter == old(self)@.counter,
                forall|m: int|
                    0 <= m < gws.len() ==> #[trigger] self.workers@[m]@ == beat_upto(
                        gws,
                        k as int,
                        wid,
                        now,
                    )[m],
            decreases self.workers@.len() - k,
        {
            let ghost pre = self.workers@;
            proof {
                assert(pre[k as int]@ == beat_upto(gws, k as int, wid, now)[k as int]);
                assert(pre[k as int]@ == gws[k as int]);
            }
            if self.workers[k].id == *id {
                let idv = self.workers[k].id.clone();
                self.workers.set(k, Worker { id: idv, last_heartbeat: Some(now) });
            }
            k = k + 1;
        }
        proof {
            assert(worker_views(self.workers@) =~= beat(gws, wid, now));
        }
    }

    /// Record the wall clock's present reading as the worker's last
    /// heartbeat. The clock is read outside the model, so the contract holds
    /// of every reading.
    pub fn heartbeat(&mut self, hb: &Heartbeat)
        ensures
            exists|t: i64| final(self)@ == old(self)@.heartbeat_tr(hb.id@, t),
    {
        let now = crate::clock::now_ts();
        self.heartbeat_at(&hb.id, now);
    }

    /// Apply each update entry to the ledger, first to last: every ledger
    /// entry with the reported job id takes the reported status; entries for
    /// unknown job ids fall away. Answers how many entries were processed.
    /// Deliberately kept weakness: nothing checks that the reporting worker
    /// is the one the job is running on, so any authorized caller can
    /// overwrite any job's status.
    #[verifier::loop_isolation(false)]
    pub fn update(&mut self, updates: &Vec<Update>) -> (n: usize)
        ensures
            n == updates@.len(),
            final(self)@ == old(self)@.update_tr(update_views(updates@)),
    {
        let ghost uv = update_views(updates@);
        let ghost gl = self@.ledger;
        let mut n: usize = 0;
        let mut i: usize = 0;
        while i < updates.len()
            invariant
                0 <= i <= updates@.len(),
                n == i,
                self@.workers == old(self)@.workers,
                self@.pending == old(self)@.pending,
                self@.counter == old(self)@.counter,
                self.jobs@.len() == gl.len(),
                job_views(self.jobs@) == apply_updates(gl, uv.take(i as int)),
            decreases updates@.len() - i,
        {
            let u = &updates[i];
            let ghost li = job_views(self.jobs@);
            let ghost uid = u@.job;
            let ghost ust = u@.status;
            proof {
                assert(u@ == uv[i as int]);
            }
            let mut k: usize = 0;
            while k < self.jobs.len()
                invariant
                    0 <= k <= self.jobs@.len(),
                    self.jobs@.len() == li.len(),
                    self@.workers == old(self)@.workers,
                    self@.pending == old(self)@.pending,
                    self@.counter == old(self)@.counter,
                    forall|m: int|
                        0 <= m < li.len() ==> #[trigger] self.jobs@[m]@ == set_status_upto(
                            li,
                            k as int,
                            uid,
                            ust,
                        )[m],
                decreases self.jobs@.len() - k,
            {
                let ghost pre = self.jobs@;
                proof {
                    assert(pre[k as int]@ == set_status_upto(li, k as int, uid, ust)[k as int]);
                    assert(pre[k as int]@ == li[k as int]);
                }
                if self.jobs[k].id == u.job {
                    let idv = self.jobs[k].id;
                    let cmdv = self.jobs[k].cmd.clone();
                    self.jobs.set(k, Job { id: idv, cmd: cmdv, status: u.status.clone() });
                }
                k = k + 1;
            }
            proof {
                assert(job_views(self.jobs@) =~= set_status(li, uid, ust));
                lemma_apply_updates_step(gl, uv, i as int);
            }
            n = n + 1;
            i = i + 1;
        }
        proof {
            assert(uv.take(uv.len() as int) =~= uv);
        }
        n
    }

    /// Create one job per submitted entry: each takes the next id from the
    /// counter, keeps its command, and starts `Submitted`; all of them join
    /// the ledger and the pending queue, and come back to the caller in
    /// submission order.
    #[verifier::loop_isolation(false)]
    pub fn submit(&mut self, js: Vec<Job>) -> (r: Vec<Job>)
        requires
            old(self)@.counter + js@.len() <= i32::MAX as int,
        ensures
            final(self)@ == old(self)@.submit_tr(cmds_of(js@)),
            job_views(r@) == created_jobs(old(self)@.counter, cmds_of(js@)),
            r@.len() == js@.len(),
            forall|i: int|
                0 <= i < js@.len() ==> #[trigger] r@[i]@ == created_jobs(
                    old(self)@.counter,
                    cmds_of(js@),
                )[i],
    {
        let ghost cmds = cmds_of(js@);
        let ghost c0 = self@.counter;
        let ghost gp = self@.pending;
        let ghost gl = self@.ledger;
        let mut created: Vec<Job> = Vec::new();
        let mut i: usize = 0;
        while i < js.len()
            invariant
                0 <= i <= js@.len(),
                self@.counter == c0 + i,
                self@.workers == old(self)@.workers,
                created@.len() == i,
                self.new_jobs@.len() == gp.len() + i,
                self.jobs@.len() == gl.len() + i,
                forall|m: int|
                    0 <= m < i ==> #[trigger] created@[m]@ == created_jobs(c0, cmds)[m],
                forall|m: int|
                    0 <= m < gp.len() ==> #[trigger] self.new_jobs@[m]@ == gp[m],
                forall|m: int|
                    gp.len() <= m < gp.len() + i ==> #[trigger] self.new_jobs@[m]@ == created_jobs(
                        c0,
                        cmds,
                    )[m - gp.len()],
                forall|m: int| 0 <= m < gl.len() ==> #[trigger] self.jobs@[m]@ == gl[m],
                forall|m: int|
                    gl.len() <= m < gl.len() + i ==> #[trigger] self.jobs@[m]@ == created_jobs(
                        c0,
                        cmds,
                    )[m - gl.len()],
            decreases js@.len() - i,
        {
            self.counter_jobs = self.counter_jobs + 1;
            let nj = Job { id: self.counter_jobs, cmd: js[i].cmd.clone(), status: Status::Submitted };
            self.new_jobs.push(nj.clone());
            self.jobs.push(nj.clone());
            created.push(nj);
            i = i + 1;
        }
        proof {
            assert(job_views(created@) =~= created_jobs(c0, cmds));
            assert(job_views(self.new_jobs@) =~= gp + created_jobs(c0, cmds));
            assert(job_views(self.jobs@) =~= gl + created_jobs(c0, cmds));
        }
        created
    }

    /// Answer the ledger entries whose id was asked about, in ledger order;
    /// unknown ids are silently omitted. Reads only.
    #[verifier::loop_isolation(false)]
    pub fn status(&self, reqs: &Vec<StatusRequest>) -> (r: Vec<Job>)
        ensures
            job_views(r@) == select_requested(self@.ledger, requested_ids(reqs@)),
    {
        let ghost gl = self@.ledger;
        let ghost ids = requested_ids(reqs@);
        let mut out: Vec<Job> = Vec::new();
        let mut k: usize = 0;
        while k < self.jobs.len()
            invariant
                0 <= k <= self.jobs@.len(),
                job_views(out@) == select_requested(gl.take(k as int), ids),
            decreases self.jobs@.len() - k,
        {
            proof {
                lemma_select_step(gl, ids, k as int);
            }
            if id_requested(reqs, self.jobs[k].id) {
                let ghost preo = out@;
                out.push(self.jobs[k].clone());
                proof {
                    assert(job_views(out@) =~= job_views(preo).push(gl[k as int]));
                }
            }
            k = k + 1;
        }
        proof {
            assert(gl.take(gl.len() as int) =~= gl);
        }
        out
    }

    /// One reaper pass at the given time: first drop every registry row whose
    /// last heartbeat is at least the staleness threshold old (rows that
    /// never heartbeat always stay), then fail every ledger job running on a
    /// worker that is no longer registered.
    #[verifier::loop_isolation(false)]
    pub fn reap_at(&mut self, now: i64)
        ensures
            final(self)@ == old(self)@.reap_tr(now as int),
    {
        let ghost gws = self@.workers;
        let mut kept: Vec<Worker> = Vec::new();
        let mut k: usize = 0;
        while k < self.workers.len()
            invariant
                0 <= k <= self.workers@.len(),
                self@ == old(self)@,
                worker_views(kept@) == live_workers(gws.take(k as int), now as int),
            decreases self.workers@.len() - k,
        {
            proof {
                lemma_live_step(gws, now as int, k as int);
            }
            let keep = match self.workers[k].last_heartbeat {
                None => true,
                Some(t) => (now as i128) - (t as i128) < STALE_SECS as i128,
            };
            if keep {
                let ghost prek = kept@;
                kept.push(self.workers[k].clone());
                proof {
                    assert(worker_views(kept@) =~= worker_views(prek).push(gws[k as int]));
                }
            }
            k = k + 1;
        }
        proof {
            assert(gws.take(gws.len() as int) =~= gws);
        }
        self.workers = kept;
        let ghost live = self@.workers;
        let ghost gl = self@.ledger;
        let mut j: usize = 0;
        while j < self.jobs.len()
            invariant
                0 <= j <= self.jobs@.len(),
                self.jobs@.len() == gl.len(),
                self@.workers == live,
                self@.pending == old(self)@.pending,
                self@.counter == old(self)@.counter,
                forall|m: int|
                    0 <= m < gl.len() ==> #[trigger] self.jobs@[m]@ == fail_orphans_upto(
                        gl,
                        j as int,
                        live,
                    )[m],
            decreases self.jobs@.len() - j,
        {
            let ghost pre = self.jobs@;
            proof {
                assert(pre[j as int]@ == fail_orphans_upto(gl, j as int, live)[j as int]);
                assert(pre[j as int]@ == gl[j as int]);
            }
            let orphaned = match &self.jobs[j].status {
                Status::Running(w) => {
                    let c = count_matching(&self.workers, w);
                    proof {
                        lemma_count_none(live, w@);
                    }
                    c == 0
                },
                _ => false,
            };
            if orphaned {
                let idv = self.jobs[j].id;
                let cmdv = self.jobs[j].cmd.clone();
                self.jobs.set(j, Job { id: idv, cmd: cmdv, status: Status::Failed });
            }
            j = j + 1;
        }
        proof {
            assert(job_views(self.jobs@) =~= fail_orphans(gl, live));
        }
    }

    /// One reaper pass at the wall clock's present reading. The clock is
    /// read outside the model, so the contract holds of every reading.
    pub fn reap(&mut self)
        ensures
            exists|t: int| final(self)@ == old(self)@.reap_tr(t),
    {
        let now = crate::clock::now_ts();
        self.reap_at(now);
    }
}

/// The ledger with only its first `k` entries reaped: entries below `k`
/// running on a worker absent from `ws` fail, the rest stand as they were. At
/// `k == len` this is [`fail_orphans`].
spec fn fail_orphans_upto(ledger: Seq<JobView>, k: int, ws: Seq<WorkerView>) -> Seq<JobView> {
    Seq::new(
        ledger.len(),
        |m: int|
            if m < k {
                match ledger[m].status {
                    StatusView::Running(w) => if has_worker(ws, w) {
                        ledger[m]
                    } else {
                        JobView { id: ledger[m].id, cmd: ledger[m].cmd, status: StatusView::Failed }
                    },
                    _ => ledger[m],
                }
            } else {
                ledger[m]
            },
    )
}

/// Whether one of the given queries asks about this id.
fn id_requested(reqs: &Vec<StatusRequest>, id: i32) -> (b: bool)
    ensures
        b == requested_ids(reqs@).contains(id as int),
{
    let mut k: usize = 0;
    while k < reqs.len()
        invariant
            0 <= k <= reqs@.len(),
            forall|m: int| 0 <= m < k ==> #[trigger] reqs@[m].id != id,
        decreases reqs@.len() - k,
    {
        if reqs[k].id == id {
            proof {
                assert(requested_ids(reqs@)[k as int] == id as int);
            }
            return true;
        }
        k = k + 1;
    }
    proof {
        assert forall|m: int| 0 <= m < reqs@.len() implies requested_ids(reqs@)[m] != id as int by {
            assert(forall|m: int| 0 <= m < reqs@.len() ==> #[trigger] reqs@[m].id != id);
        }
    }
    false
}

/// Splitting a prefix one longer: selecting over one more ledger entry.
proof fn lemma_select_step(ledger: Seq<JobView>, ids: Seq<int>, k: int)
    requires
        0 <= k < ledger.len(),
    ensures
        select_requested(ledger.take(k + 1), ids) == if ids.contains(ledger[k].id) {
            select_requested(ledger.take(k), ids).push(ledger[k])
        } else {
            select_requested(ledger.take(k), ids)
        },
{
    assert(ledger.take(k + 1).drop_last() =~= ledger.take(k));
    assert(ledger.take(k + 1).last() == ledger[k]);
}

/// Splitting a prefix one longer: the reaper's retention over one more row.
proof fn lemma_live_step(ws: Seq<WorkerView>, now: int, k: int)
    requires
        0 <= k < ws.len(),
    ensures
        live_workers(ws.take(k + 1), now) == if keep_worker(ws[k], now) {
            live_workers(ws.take(k), now).push(ws[k])
        } else {
            live_workers(ws.take(k), now)
        },
{
    assert(ws.take(k + 1).drop_last() =~= ws.take(k));
    assert(ws.take(k + 1).last() == ws[k]);
}

/// No row carries the id exactly when the count of rows carrying it is zero.
proof fn lemma_count_none(ws: Seq<WorkerView>, id: Seq<char>)
    ensures
        (count_workers_with(ws, id) == 0) <==> !has_worker(ws, id),
    decreases ws.len(),
{
    if ws.len() == 0 {
    } else {
        lemma_count_none(ws.drop_last(), id);
        assert(count_workers_with(ws.drop_last(), id) >= 0) by {
            lemma_count_nonneg(ws.drop_last(), id);
        }
        if ws.last().id == id {
            assert(has_worker(ws, id)) by {
                assert(ws[ws.len() - 1].id == id);
            }
        } else {
            if has_worker(ws, id) {
                let i = choose|i: int| 0 <= i < ws.len() && ws[i].id == id;
                assert(ws.drop_last()[i] == ws[i]);
                assert(has_worker(ws.drop_last(), id));
            }
            if has_worker(ws.drop_last(), id) {
                let i = choose|i: int| 0 <= i < ws.drop_last().len() && ws.drop_last()[i].id == id;
                assert(ws[i].id == id);
            }
        }
    }
}

/// A count of matching rows is never negative.
proof fn lemma_count_nonneg(ws: Seq<WorkerView>, id: Seq<char>)
    ensures
        count_workers_with(ws, id) >= 0,
    decreases ws.len(),
{
    if ws.len() > 0 {
        lemma_count_nonneg(ws.drop_last(), id);
    }
}

} // verus!
