//! The coordinator's handlers, driven through the protocol layer the way the
//! server drives them.

use zoidberg::protocol::{Request, Response};
use zoidberg::state::State;
use zoidberg::types::{FetchRequest, FetchResponse, Job, Status, StatusRequest, Update, Worker};

fn secret() -> String {
    String::from("secret")
}

#[test]
fn test_register() {
    let mut state = State::new();
    let cookie = secret();
    let resp = match state.handle(Request::Register, Some(&cookie), &secret()) {
        Response::Registered(r) => r,
        _ => panic!("register did not answer with an id"),
    };
    assert!(!resp.id.is_empty());
}

#[test]
fn test_fetch() {
    let cmd = String::from("hi");
    let jobid = 11;
    let mut state = State {
        counter_jobs: 0,
        workers: vec![Worker {
            id: "some_worker".to_string(),
            last_heartbeat: None,
        }],
        new_jobs: vec![Job {
            id: jobid,
            cmd: cmd.clone(),
            status: Status::Submitted,
        }],
        jobs: Vec::new(),
    };
    let cookie = secret();
    let req = Request::Fetch(FetchRequest {
        worker_id: "some_worker".to_string(),
    });
    let resp = match state.handle(req, Some(&cookie), &secret()) {
        Response::Fetched(f) => f,
        _ => panic!("fetch did not answer a fetch response"),
    };
    match resp {
        FetchResponse::Nop => {
            panic!("did not expect FetchResponse::Nop")
        }
        FetchResponse::Terminate(w) => {
            panic!("did not expect FetchResponse::Terminate from worker {}", w)
        }
        FetchResponse::Jobs(new_jobs) => {
            assert_eq!(new_jobs[0].id, jobid);
            assert_eq!(new_jobs[0].cmd, cmd);
        }
    }
}

#[test]
fn test_status() {
    let cmd = String::from("hi");
    let jobid = 1;
    let mut state = State {
        counter_jobs: 0,
        workers: Vec::new(),
        new_jobs: Vec::new(),
        jobs: vec![Job {
            id: jobid,
            cmd: cmd.clone(),
            status: Status::Submitted,
        }],
    };
    let cookie = secret();
    let req = Request::Status(vec![StatusRequest { id: jobid }]);
    let resp = match state.handle(req, Some(&cookie), &secret()) {
        Response::Statuses(jobs) => jobs,
        _ => panic!("status did not answer a job list"),
    };
    assert_eq!(resp[0].id, jobid);
}

#[test]
fn test_update() {
    let mut state = State::new();
    let cookie = secret();
    let req = Request::Update(vec![Update {
        worker: "some_worker".to_string(),
        job: 0,
        status: Status::Submitted,
    }]);
    match state.handle(req, Some(&cookie), &secret()) {
        Response::Updated(n) => assert_eq!(n, 1),
        _ => panic!("update did not answer an acknowledgement"),
    }
}

#[test]
fn test_submit() {
    let mut state = State::new();
    let cookie = secret();
    let req = Request::Submit(vec![Job {
        id: 0,
        cmd: String::from("hi"),
        status: Status::Submitted,
    }]);
    match state.handle(req, Some(&cookie), &secret()) {
        Response::Submitted(jobs) => {
            assert_eq!(jobs.len(), 1);
            assert_eq!(jobs[0].id, 1);
            assert_eq!(jobs[0].cmd, "hi");
        }
        _ => panic!("submit did not answer the created jobs"),
    }
}

#[test]
fn full_scenario() {
    let mut state = State::new();

    let jobs = state.submit(vec![Job {
        id: 0,
        cmd: String::from("echo hi"),
        status: Status::Submitted,
    }]);
    assert_eq!(jobs.len(), 1);
    assert_eq!(jobs[0].id, 1);
    assert_eq!(jobs[0].cmd, "echo hi");
    assert!(matches!(jobs[0].status, Status::Submitted));

    let resp = state.register_with("w1".to_string());
    assert_eq!(resp.id, "w1");

    match state.fetch(&"w1".to_string()) {
        FetchResponse::Jobs(handed) => {
            assert_eq!(handed.len(), 1);
            assert_eq!(handed[0].id, 1);
            assert_eq!(handed[0].cmd, "echo hi");
            match &handed[0].status {
                Status::Running(w) => assert_eq!(w, "w1"),
                _ => panic!("the handed job must already be marked running on w1"),
            }
        }
        _ => panic!("the first fetch should hand the job out"),
    }
    match state.fetch(&"w1".to_string()) {
        FetchResponse::Nop => {}
        _ => panic!("the second fetch should find no work"),
    }

    let n = state.update(&vec![Update {
        worker: "w1".to_string(),
        job: 1,
        status: Status::Completed,
    }]);
    assert_eq!(n, 1);
    assert_eq!(format!("Worker updated {} job(s)", n), "Worker updated 1 job(s)");

    let back = state.status(&vec![StatusRequest { id: 1 }]);
    assert_eq!(back.len(), 1);
    assert_eq!(back[0].id, 1);
    assert_eq!(back[0].cmd, "echo hi");
    assert!(matches!(back[0].status, Status::Completed));
}

#[test]
fn fetch_from_unknown_worker_terminates() {
    let mut state = State::new();
    match state.fetch(&"nobody".to_string()) {
        FetchResponse::Terminate(m) => assert_eq!(m, "Worker not found"),
        _ => panic!("a worker that never registered must be told to terminate"),
    }
}

#[test]
fn fetch_from_twice_registered_id_terminates() {
    let mut state = State::new();
    state.register_with("dup".to_string());
    state.register_with("dup".to_string());
    match state.fetch(&"dup".to_string()) {
        FetchResponse::Terminate(_) => {}
        _ => panic!("an id with two registry rows is not exactly one worker"),
    }
}

#[test]
fn dispatch_is_at_most_once() {
    let mut state = State::new();
    state.register_with("w1".to_string());
    state.register_with("w2".to_string());
    state.submit(vec![
        Job {
            id: 0,
            cmd: String::from("a"),
            status: Status::Submitted,
        },
        Job {
            id: 0,
            cmd: String::from("b"),
            status: Status::Submitted,
        },
    ]);
    let first = match state.fetch(&"w1".to_string()) {
        FetchResponse::Jobs(js) => js[0].id,
        _ => panic!("first fetch should dispatch"),
    };
    let second = match state.fetch(&"w2".to_string()) {
        FetchResponse::Jobs(js) => js[0].id,
        _ => panic!("second fetch should dispatch"),
    };
    assert_ne!(first, second);
    assert!(matches!(
        state.fetch(&"w1".to_string()),
        FetchResponse::Nop
    ));
}

#[test]
fn submit_then_fetch_keeps_queue_and_ledger_consistent() {
    let mut state = State::new();
    state.register_with("w1".to_string());
    state.register_with("w2".to_string());
    let created = state.submit(vec![
        Job {
            id: 0,
            cmd: String::from("a"),
            status: Status::Submitted,
        },
        Job {
            id: 0,
            cmd: String::from("b"),
            status: Status::Submitted,
        },
    ]);
    assert_eq!(created.len(), 2);
    assert_eq!(state.new_jobs.len(), 2);
    assert_eq!(state.jobs.len(), 2);
    for j in &state.jobs {
        assert!(matches!(j.status, Status::Submitted));
    }

    // The queue hands jobs out youngest first: id 2 goes to w1, id 1 to w2.
    match state.fetch(&"w1".to_string()) {
        FetchResponse::Jobs(js) => assert_eq!(js[0].id, 2),
        _ => panic!("first fetch should dispatch"),
    }
    match state.fetch(&"w2".to_string()) {
        FetchResponse::Jobs(js) => assert_eq!(js[0].id, 1),
        _ => panic!("second fetch should dispatch"),
    }
    assert_eq!(state.new_jobs.len(), 0);
    match &state.jobs.iter().find(|j| j.id == 2).unwrap().status {
        Status::Running(w) => assert_eq!(w, "w1"),
        _ => panic!("job 2 should be running on w1"),
    }
    match &state.jobs.iter().find(|j| j.id == 1).unwrap().status {
        Status::Running(w) => assert_eq!(w, "w2"),
        _ => panic!("job 1 should be running on w2"),
    }
}

#[test]
fn status_reflects_last_update() {
    let mut state = State::new();
    state.submit(vec![Job {
        id: 0,
        cmd: String::from("x"),
        status: Status::Submitted,
    }]);
    state.update(&vec![
        Update {
            worker: "w1".to_string(),
            job: 1,
            status: Status::Completed,
        },
        Update {
            worker: "w2".to_string(),
            job: 1,
            status: Status::Failed,
        },
    ]);
    let back = state.status(&vec![StatusRequest { id: 1 }]);
    assert!(matches!(back[0].status, Status::Failed));
}

#[test]
fn update_of_unknown_job_is_counted_but_changes_nothing() {
    let mut state = State::new();
    state.submit(vec![Job {
        id: 0,
        cmd: String::from("x"),
        status: Status::Submitted,
    }]);
    let n = state.update(&vec![Update {
        worker: "w".to_string(),
        job: 99,
        status: Status::Completed,
    }]);
    assert_eq!(n, 1);
    let back = state.status(&vec![StatusRequest { id: 1 }]);
    assert!(matches!(back[0].status, Status::Submitted));
}

#[test]
fn status_omits_unknown_ids() {
    let mut state = State::new();
    state.submit(vec![Job {
        id: 0,
        cmd: String::from("x"),
        status: Status::Submitted,
    }]);
    let back = state.status(&vec![StatusRequest { id: 1 }, StatusRequest { id: 7 }]);
    assert_eq!(back.len(), 1);
    assert_eq!(back[0].id, 1);
}

#[test]
fn submit_of_nothing_creates_nothing() {
    let mut state = State::new();
    let created = state.submit(Vec::new());
    assert!(created.is_empty());
    assert_eq!(state.jobs.len(), 0);
    assert_eq!(state.new_jobs.len(), 0);
}

#[test]
fn job_ids_grow_across_submissions() {
    let mut state = State::new();
    state.submit(vec![Job {
        id: 0,
        cmd: String::from("a"),
        status: Status::Submitted,
    }]);
    let second = state.submit(vec![Job {
        id: 0,
        cmd: String::from("b"),
        status: Status::Submitted,
    }]);
    assert_eq!(second[0].id, 2);
}
