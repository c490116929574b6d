use stratum::names::{validate_fullname, validate_legal_string, validate_username, validate_workername};
use stratum::proto::{Decoded, JobTemplate, LoginParams, SubmitParams, WorkerReply, WorkerRequest};
use stratum::worker::Worker;

fn login_params(login: &str) -> LoginParams {
    LoginParams { login: login.to_string(), pass: "x".to_string(), agent: "miner".to_string() }
}

fn request(method: &str, login: Decoded<LoginParams>, submit: Decoded<SubmitParams>) -> WorkerRequest {
    WorkerRequest { method: method.to_string(), login, submit }
}

fn login_request(login: &str) -> Option<Result<WorkerRequest, String>> {
    Some(Ok(request("login", Decoded::Value(login_params(login)), Decoded::Absent)))
}

fn solution(nonce: u64) -> SubmitParams {
    SubmitParams { height: 1000, job_id: 42, nonce, edge_bits: 31, pow: vec![1, 2, 3] }
}

#[test]
fn login_with_workername_is_kept() {
    let mut w = Worker::new(1, "1.2.3.4:1".to_string());
    assert_eq!(w.login(), "None.__default__");
    assert!(w.process_messages(login_request("alice.rig1")).is_ok());
    assert_eq!(w.login(), "alice.rig1");
    assert!(w.authenticated());
    let replies = w.take_replies();
    assert_eq!(replies.len(), 1);
    assert!(matches!(&replies[0], WorkerReply::Done(m) if m == "login"));
}

#[test]
fn login_without_workername_gets_default() {
    let mut w = Worker::new(1, "1.2.3.4:1".to_string());
    assert!(w.process_messages(login_request("bob")).is_ok());
    assert_eq!(w.login(), "bob.__default__");
}

#[test]
fn login_with_space_is_accepted_and_bang_rejected() {
    let mut w = Worker::new(1, "1.2.3.4:1".to_string());
    assert!(w.process_messages(login_request("a b.rig")).is_ok());
    assert_eq!(w.login(), "a b.rig");
    let mut v = Worker::new(2, "1.2.3.4:1".to_string());
    assert_eq!(v.process_messages(login_request("alice!.rig")), Err("invalid worker name".to_string()));
    assert!(!v.error());
    assert!(!v.authenticated());
    assert_eq!(v.login(), "None.__default__");
    assert!(v.take_replies().is_empty());
}

#[test]
fn login_without_params_is_an_error() {
    let mut w = Worker::new(1, "a".to_string());
    let r = w.process_messages(Some(Ok(request("login", Decoded::Absent, Decoded::Absent))));
    assert_eq!(r, Err("invalid request".to_string()));
    assert!(w.error());
    let mut v = Worker::new(1, "a".to_string());
    let r = v.process_messages(Some(Ok(request("login", Decoded::Invalid("bad".to_string()), Decoded::Absent))));
    assert_eq!(r, Err("bad".to_string()));
    assert!(v.error());
}

#[test]
fn validate_fullname_cases() {
    let mut p = login_params("alice.rig1");
    assert!(validate_fullname(&mut p));
    assert_eq!(p.login, "alice.rig1");
    let mut p = login_params("bob");
    assert!(validate_fullname(&mut p));
    assert_eq!(p.login, "bob.__default__");
    assert_eq!(p.pass, "x");
    for bad in ["", "bob.", ".rig", "alice!.rig", "alice.rig!", "abcdefghijklmnopqrstu.rig", "bob.abcdefghijklmnopqrs"] {
        let mut p = login_params(bad);
        assert!(!validate_fullname(&mut p), "{}", bad);
        assert_eq!(p.login, bad);
    }
    let mut p = login_params("abcdefghijklmnopqrst.abcdefghijklmnopqr");
    assert!(validate_fullname(&mut p));
}

#[test]
fn name_validators() {
    assert!(validate_legal_string("a b", "ab"));
    assert!(!validate_legal_string("abc", "ab"));
    assert!(validate_username("user_1"));
    assert!(!validate_username("user-1"));
    assert!(!validate_username(""));
    assert!(validate_workername("rig-1.a"));
    assert!(!validate_workername("rig/1"));
    assert!(!validate_workername("abcdefghijklmnopqrs"));
}

#[test]
fn submit_queues_and_drains() {
    let mut w = Worker::new(3, "a".to_string());
    assert_eq!(w.get_shares().map(|v| v.len()), None);
    assert!(w.process_messages(Some(Ok(request("submit", Decoded::Absent, Decoded::Value(solution(1)))))).is_ok());
    assert!(w.process_messages(Some(Ok(request("submit", Decoded::Absent, Decoded::Invalid("x".to_string()))))).is_ok());
    assert!(w.process_messages(Some(Ok(request("submit", Decoded::Absent, Decoded::Value(solution(2)))))).is_ok());
    let shares = w.get_shares().unwrap();
    assert_eq!(shares.iter().map(|s| s.nonce).collect::<Vec<_>>(), vec![1, 2]);
    assert!(w.get_shares().is_none());
    assert!(!w.error());
}

#[test]
fn job_request_status_keepalive_unknown() {
    let mut w = Worker::new(4, "a".to_string());
    let mut job = JobTemplate::new();
    job.height = 9;
    w.set_difficulty(77);
    w.send_job(&mut job);
    assert_eq!(job.difficulty, 77);
    assert!(!w.needs_job);
    assert!(w.process_messages(Some(Ok(request("getjobtemplate", Decoded::Absent, Decoded::Absent)))).is_ok());
    assert!(w.needs_job);
    assert!(w.process_messages(Some(Ok(request("status", Decoded::Absent, Decoded::Absent)))).is_ok());
    assert!(w.process_messages(Some(Ok(request("keepalive", Decoded::Absent, Decoded::Absent)))).is_ok());
    assert!(w.process_messages(None).is_ok());
    let replies = w.take_replies();
    assert_eq!(replies.len(), 3);
    assert!(matches!(&replies[0], WorkerReply::Job(j) if j.difficulty == 77 && j.height == 9));
    assert!(matches!(&replies[1], WorkerReply::Status(s) if s.id == "4" && s.difficulty == 77));
    assert!(matches!(&replies[2], WorkerReply::Done(m) if m == "keepalive"));
    assert_eq!(w.process_messages(Some(Ok(request("mine", Decoded::Absent, Decoded::Absent)))), Err("Unknown request".to_string()));
    assert!(w.error());
    let mut v = Worker::new(5, "a".to_string());
    assert_eq!(v.process_messages(Some(Err("parse".to_string()))), Err("parse".to_string()));
    assert!(v.error());
}

#[test]
fn login_scenarios_exact() {
    let mut w = Worker::new(1, "a".to_string());
    assert!(w.process_messages(login_request("alice.rig1")).is_ok());
    assert_eq!(w.login(), "alice.rig1");
    let mut w = Worker::new(2, "a".to_string());
    assert!(w.process_messages(login_request("bob")).is_ok());
    assert_eq!(w.login(), "bob.__default__");
    let mut w = Worker::new(3, "a".to_string());
    assert!(w.process_messages(login_request("a b")).is_ok());
    assert_eq!(w.login(), "a b.__default__");
    let mut w = Worker::new(4, "a".to_string());
    assert_eq!(w.process_messages(login_request("alice!")), Err("invalid worker name".to_string()));
    assert!(!w.authenticated());
}

#[test]
fn login_keeps_text_after_second_dot() {
    let mut p = login_params("alice.rig1.extra");
    assert!(validate_fullname(&mut p));
    assert_eq!(p.login, "alice.rig1.extra");
}
