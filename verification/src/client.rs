//! The worker side's decisions: what its polling loop does with each answer
//! from the coordinator, and what it reports back.

use vstd::prelude::*;

use crate::state::update_views;
use crate::types::{FetchResponse, Job, Status, StatusView, Update, UpdateView};

verus! {

/// Consecutive fetch failures a worker tolerates before it concludes the
/// coordinator is gone and exits.
pub const FETCH_FAILURE_LIMIT: u32 = 3;

/// Seconds between two heartbeats of a worker.
pub const HEARTBEAT_INTERVAL_SECS: u64 = 30;

/// Seconds a worker waits after an empty fetch before polling again.
pub const POLL_PAUSE_SECS: u64 = 1;

/// Seconds a worker backs off after a failed fetch.
pub const FAILURE_PAUSE_SECS: u64 = 40;

/// Seconds a worker allows each request before giving up on it.
pub const REQUEST_TIMEOUT_SECS: u64 = 15;

/// What one poll of the coordinator came back with: an answer, or a
/// transport failure of any kind.
pub enum FetchEvent {
    Reply(FetchResponse),
    NoReply,
}

/// What the worker's polling loop does next: run the jobs it was handed,
/// idle briefly, shut down as instructed, back off after a failure, or give
/// the coordinator up for dead and exit.
pub enum PollAction {
    RunJobs(Vec<Job>),
    Idle,
    Shutdown(String),
    BackOff,
    GiveUp,
}

/// The polling loop's own state: how many fetches in a row have failed.
pub struct PollState {
    pub failures: u32,
}

impl PollState {
    /// A loop that has not failed yet.
    pub fn new() -> (r: Self)
        ensures
            r.failures == 0,
    {
        PollState { failures: 0 }
    }

    /// One turn of the polling loop: handed jobs are run, an empty answer
    /// idles, a terminate answer shuts the worker down, and a transport
    /// failure backs off — until the failure limit, at which the worker
    /// gives up. Any reply at all resets the failure count.
    pub fn step(&mut self, ev: FetchEvent) -> (a: PollAction)
        requires
            old(self).failures < FETCH_FAILURE_LIMIT,
        ensures
            match ev {
                FetchEvent::Reply(fr) => final(self).failures == 0 && match fr {
                    FetchResponse::Jobs(js) => a matches PollAction::RunJobs(out) && out@ == js@,
                    FetchResponse::Terminate(m) => a matches PollAction::Shutdown(out) && out@
                        == m@,
                    FetchResponse::Nop => a is Idle,
                },
                FetchEvent::NoReply => {
                    &&& final(self).failures == old(self).failures + 1
                    &&& (final(self).failures == FETCH_FAILURE_LIMIT <==> a is GiveUp)
                    &&& (final(self).failures < FETCH_FAILURE_LIMIT <==> a is BackOff)
                },
            },
    {
        match ev {
            FetchEvent::Reply(fr) => {
                self.failures = 0;
                match fr {
                    FetchResponse::Jobs(js) => PollAction::RunJobs(js),
                    FetchResponse::Terminate(m) => PollAction::Shutdown(m),
                    FetchResponse::Nop => PollAction::Idle,
                }
            },
            FetchEvent::NoReply => {
                self.failures = self.failures + 1;
                if self.failures == FETCH_FAILURE_LIMIT {
                    PollAction::GiveUp
                } else {
                    PollAction::BackOff
                }
            },
        }
    }
}

/// The update entries a worker sends for the jobs it has finished: one entry
/// per job, all bearing the worker's own id.
pub open spec fn updates_for(wid: Seq<char>, js: Seq<Job>) -> Seq<UpdateView> {
    Seq::new(js.len(), |i: int| UpdateView { worker: wid, job: js[i]@.id, status: js[i]@.status })
}

/// Build the update entries a worker reports a batch of finished jobs with.
#[verifier::loop_isolation(false)]
pub fn make_updates(worker_id: &String, jobs: &Vec<Job>) -> (us: Vec<Update>)
    ensures
        update_views(us@) == updates_for(worker_id@, jobs@),
{
    let mut us: Vec<Update> = Vec::new();
    let mut i: usize = 0;
    while i < jobs.len()
        invariant
            0 <= i <= jobs@.len(),
            us@.len() == i,
            forall|m: int|
                0 <= m < i ==> #[trigger] us@[m]@ == updates_for(worker_id@, jobs@)[m],
        decreases jobs@.len() - i,
    {
        us.push(
            Update {
                worker: worker_id.clone(),
                job: jobs[i].id,
                status: jobs[i].status.clone(),
            },
        );
        i = i + 1;
    }
    proof {
        assert(update_views(us@) =~= updates_for(worker_id@, jobs@));
    }
    us
}

/// The status a worker reports after running a job: a successful exit
/// completes it, anything else fails it.
pub fn completion_status(success: bool) -> (s: Status)
    ensures
        s@ == if success {
            StatusView::Completed
        } else {
            StatusView::Failed
        },
{
    if success {
        Status::Completed
    } else {
        Status::Failed
    }
}

} // verus!
