//! The data carried between coordinator and workers: jobs, their lifecycle
//! status, and the request/response bodies of the wire protocol.

use vstd::prelude::*;

verus! {

/// The lifecycle status of a job. `Running` carries the id of the worker the
/// job was dispatched to; `Completed` and `Failed` are terminal.
#[derive(Debug)]
pub enum Status {
    Submitted,
    Running(String),
    Completed,
    Failed,
}

/// Mathematical model of a [`Status`]: the worker id becomes a sequence of
/// characters.
pub ghost enum StatusView {
    Submitted,
    Running(Seq<char>),
    Completed,
    Failed,
}

impl View for Status {
    type V = StatusView;

    open spec fn view(&self) -> StatusView {
        match self {
            Status::Submitted => StatusView::Submitted,
            Status::Running(w) => StatusView::Running(w@),
            Status::Completed => StatusView::Completed,
            Status::Failed => StatusView::Failed,
        }
    }
}

impl Clone for Status {
    fn clone(&self) -> (r: Self)
        ensures
            r@ == self@,
    {
        match self {
            Status::Submitted => Status::Submitted,
            Status::Running(w) => Status::Running(w.clone()),
            Status::Completed => Status::Completed,
            Status::Failed => Status::Failed,
        }
    }
}

/// The text shown for each status on the dashboard.
pub open spec fn status_label(s: StatusView) -> Seq<char> {
    match s {
        StatusView::Submitted => "submitted"@,
        StatusView::Running(w) => "running on worker "@ + w,
        StatusView::Completed => "completed"@,
        StatusView::Failed => "failed"@,
    }
}

impl Status {
    /// The status every job starts in.
    pub fn default() -> (r: Self)
        ensures
            r@ == StatusView::Submitted,
    {
        Status::Submitted
    }

    /// A human-readable description of the status.
    pub fn describe(&self) -> (r: String)
        ensures
            r@ == status_label(self@),
    {
        match self {
            Status::Submitted => "submitted".to_owned(),
            Status::Running(w) => String::from_str("running on worker ").concat(w.as_str()),
            Status::Completed => "completed".to_owned(),
            Status::Failed => "failed".to_owned(),
        }
    }
}

/// A job: a coordinator-assigned id, the shell command to run, and the
/// current lifecycle status.
#[derive(Debug)]
pub struct Job {
    pub id: i32,
    pub cmd: String,
    pub status: Status,
}

/// Mathematical model of a [`Job`].
pub ghost struct JobView {
    pub id: int,
    pub cmd: Seq<char>,
    pub status: StatusView,
}

impl View for Job {
    type V = JobView;

    open spec fn view(&self) -> JobView {
        JobView { id: self.id as int, cmd: self.cmd@, status: self.status@ }
    }
}

impl Clone for Job {
    fn clone(&self) -> (r: Self)
        ensures
            r@ == self@,
    {
        Job { id: self.id, cmd: self.cmd.clone(), status: self.status.clone() }
    }
}

/// A registered worker: its coordinator-assigned id and the time of its last
/// heartbeat. `None` means it has registered but never heartbeat yet; such a
/// worker is never reaped.
#[derive(Debug)]
pub struct Worker {
    pub id: String,
    pub last_heartbeat: Option<i64>,
}

/// Mathematical model of a [`Worker`].
pub ghost struct WorkerView {
    pub id: Seq<char>,
    pub last_heartbeat: Option<i64>,
}

impl View for Worker {
    type V = WorkerView;

    open spec fn view(&self) -> WorkerView {
        WorkerView { id: self.id@, last_heartbeat: self.last_heartbeat }
    }
}

impl Clone for Worker {
    fn clone(&self) -> (r: Self)
        ensures
            r@ == self@,
    {
        Worker { id: self.id.clone(), last_heartbeat: self.last_heartbeat }
    }
}

/// One entry of an update request: the reporting worker, the job it reports
/// on, and the status it reports.
#[derive(Debug)]
pub struct Update {
    pub worker: String,
    pub job: i32,
    pub status: Status,
}

/// Mathematical model of an [`Update`].
pub ghost struct UpdateView {
    pub worker: Seq<char>,
    pub job: int,
    pub status: StatusView,
}

impl View for Update {
    type V = UpdateView;

    open spec fn view(&self) -> UpdateView {
        UpdateView { worker: self.worker@, job: self.job as int, status: self.status@ }
    }
}

impl Clone for Update {
    fn clone(&self) -> (r: Self)
        ensures
            r@ == self@,
    {
        Update { worker: self.worker.clone(), job: self.job, status: self.status.clone() }
    }
}

/// One entry of a status query: the id of the job asked about.
#[derive(Debug)]
pub struct StatusRequest {
    pub id: i32,
}

impl View for StatusRequest {
    type V = int;

    open spec fn view(&self) -> int {
        self.id as int
    }
}

impl Clone for StatusRequest {
    fn clone(&self) -> (r: Self)
        ensures
            r@ == self@,
    {
        StatusRequest { id: self.id }
    }
}

/// A numbered node, as it appears in older clients of the protocol.
#[derive(Debug)]
pub struct Node {
    pub id: i32,
}

/// The body answering a registration: the fresh worker id.
#[derive(Debug)]
pub struct RegisterResponse {
    pub id: String,
}

/// The body of a fetch request: the id of the worker asking for work.
#[derive(Debug)]
pub struct FetchRequest {
    pub worker_id: String,
}

/// The answer to a fetch: jobs to run, an instruction to shut down, or
/// nothing to do right now.
#[derive(Debug)]
pub enum FetchResponse {
    Jobs(Vec<Job>),
    Terminate(String),
    Nop,
}

/// The body of a submission: one command to run.
#[derive(Debug)]
pub struct Submit {
    pub cmd: String,
}

/// The body of a heartbeat: the id of the worker reporting in.
#[derive(Debug)]
pub struct Heartbeat {
    pub id: String,
}

} // verus!
