//! The request/response protocol: every operation behind one authorization
//! gate.

use vstd::prelude::*;

use crate::auth::{authorized, presented, AuthError, Authorization};
use crate::state::{
    cmds_of, created_jobs, fetch_matches, job_views, requested_ids, select_requested, update_views,
    State,
};
use crate::types::{
    FetchRequest, FetchResponse, Heartbeat, Job, RegisterResponse, StatusRequest, Update,
};

verus! {

/// One request to the coordinator, already decoded from the wire.
pub enum Request {
    Register,
    Fetch(FetchRequest),
    Status(Vec<StatusRequest>),
    Update(Vec<Update>),
    Heartbeat(Heartbeat),
    Submit(Vec<Job>),
}

/// What the coordinator answers.
pub enum Response {
    Unauthorized,
    Registered(RegisterResponse),
    Fetched(FetchResponse),
    Statuses(Vec<Job>),
    Updated(usize),
    HeartbeatAck,
    Submitted(Vec<Job>),
}

/// What serving the given request from state `pre` answers and leaves
/// behind, once the caller is authorized: each operation's own contract,
/// word for word.
pub open spec fn served(pre: crate::state::StateView, req: Request, post: crate::state::StateView, r: Response) -> bool {
    match req {
        Request::Register => {
            &&& r matches Response::Registered(resp)
            &&& post == pre.register_tr(resp.id@)
            &&& resp.id@.len() == 36
        },
        Request::Fetch(f) => {
            &&& r matches Response::Fetched(fr)
            &&& post == pre.fetch_tr(f.worker_id@)
            &&& fetch_matches(pre, f.worker_id@, fr)
        },
        Request::Status(reqs) => {
            &&& r matches Response::Statuses(out)
            &&& post == pre
            &&& job_views(out@) == select_requested(pre.ledger, requested_ids(reqs@))
        },
        Request::Update(us) => {
            &&& r matches Response::Updated(n)
            &&& n == us@.len()
            &&& post == pre.update_tr(update_views(us@))
        },
        Request::Heartbeat(hb) => {
            &&& r is HeartbeatAck
            &&& exists|t: i64| post == pre.heartbeat_tr(hb.id@, t)
        },
        Request::Submit(js) => {
            &&& r matches Response::Submitted(out)
            &&& post == pre.submit_tr(cmds_of(js@))
            &&& job_views(out@) == created_jobs(pre.counter, cmds_of(js@))
        },
    }
}

impl State {
    /// Serve one request. A caller that does not present the shared secret
    /// is answered `Unauthorized`, and no collection is touched; an
    /// authorized caller gets its operation performed, exactly as the
    /// operation's own contract states.
    pub fn handle(&mut self, req: Request, cookie: Option<&String>, secret: &String) -> (r:
        Response)
        requires
            req matches Request::Submit(js) ==> (authorized(presented(cookie), secret@)
                ==> old(self)@.counter + js@.len() <= i32::MAX as int),
        ensures
            !authorized(presented(cookie), secret@) ==> r is Unauthorized && final(self)@ == old(
                self,
            )@,
            authorized(presented(cookie), secret@) ==> served(old(self)@, req, final(self)@, r),
    {
        match Authorization::check(cookie, secret) {
            Err(AuthError::Unauthorized) => Response::Unauthorized,
            Ok(_authorization) => match req {
                Request::Register => Response::Registered(self.register()),
                Request::Fetch(f) => Response::Fetched(self.fetch(&f.worker_id)),
                Request::Status(reqs) => Response::Statuses(self.status(&reqs)),
                Request::Update(us) => Response::Updated(self.update(&us)),
                Request::Heartbeat(hb) => {
                    self.heartbeat(&hb);
                    Response::HeartbeatAck
                },
                Request::Submit(js) => Response::Submitted(self.submit(js)),
            },
        }
    }
}

} // verus!
