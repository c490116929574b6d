use stratum::correlation::{encode_correlation, Correlation};
use stratum::proto::{JobTemplate, LoginParams, Payload, RequestParams, RpcError, RpcFrame, SubmitParams, WorkerReply, WorkerRequest, Decoded};
use stratum::registry::Registry;
use stratum::server::Server;
use stratum::worker::Worker;

fn setup() -> (Server, Registry) {
    let mut server = Server::new("5");
    let reqs = server.connect("pool".to_string(), "pw".to_string());
    assert_eq!(reqs.len(), 2);
    let mut reg = Registry::new();
    let mut w = Worker::new(7, "10.0.0.1:3333".to_string());
    w.set_difficulty(16);
    let login = WorkerRequest {
        method: "login".to_string(),
        login: Decoded::Value(LoginParams { login: "alice.rig1".to_string(), pass: "".to_string(), agent: "".to_string() }),
        submit: Decoded::Absent,
    };
    assert!(w.process_messages(Some(Ok(login))).is_ok());
    w.take_replies();
    assert!(reg.insert(w));
    (server, reg)
}

fn submit_response(worker_id: usize, result: bool, error_code: Option<i32>) -> RpcFrame {
    let c = Correlation { worker_id, height: 1000, job_id: 42, nonce: 9, edge_bits: 31 };
    RpcFrame {
        id: encode_correlation(&c),
        method: "submit".to_string(),
        params: None,
        result: if result { Some(Payload { job: None, status: None }) } else { None },
        error: error_code.map(|code| RpcError { code, message: "no".to_string() }),
    }
}

fn counters(reg: &Registry) -> (u64, u64, u64) {
    let w = reg.get(reg.find(7).unwrap());
    (w.status.accepted, w.status.rejected, w.status.stale)
}

#[test]
fn accepted_submit_publishes_share() {
    let (mut server, mut reg) = setup();
    let r = server.handle_message(&mut reg, Some(submit_response(7, true, None)), 1234).unwrap();
    assert_eq!(r.method, "submit");
    let s = r.share.unwrap();
    assert_eq!(s.result, 1);
    assert_eq!(s.height, 1000);
    assert_eq!(s.job_id, 42);
    assert_eq!(s.server_id, 5);
    assert_eq!(s.user_id, 7);
    assert_eq!(s.difficulty, 16);
    assert_eq!(s.timestamp, 1234);
    assert_eq!(s.ip, 10 + 1 * 0x1000000);
    assert_eq!(&s.fullname[..10], b"alice.rig1");
    assert_eq!(counters(&reg), (1, 0, 0));
    let mut w = reg.take(7).unwrap();
    let replies = w.take_replies();
    assert_eq!(replies.len(), 1);
    assert!(matches!(&replies[0], WorkerReply::Done(m) if m == "submit"));
}

#[test]
fn stale_and_rejected_submits() {
    let (mut server, mut reg) = setup();
    let r = server.handle_message(&mut reg, Some(submit_response(7, false, Some(-32503))), 1).unwrap();
    assert_eq!(r.share.unwrap().result, 0);
    assert_eq!(counters(&reg), (0, 0, 1));
    let r = server.handle_message(&mut reg, Some(submit_response(7, false, Some(-32501))), 1).unwrap();
    assert_eq!(r.share.unwrap().result, 0);
    assert_eq!(counters(&reg), (0, 1, 1));
    assert!(reg.get(0).replies.is_empty());
}

#[test]
fn unknown_worker_changes_nothing() {
    let (mut server, mut reg) = setup();
    let e = server.handle_message(&mut reg, Some(submit_response(8, true, None)), 1).err().unwrap();
    assert_eq!(e.code, -32600);
    assert_eq!(e.message, "Null Worker ID");
    assert_eq!(counters(&reg), (0, 0, 0));
    assert!(!server.error);
}

#[test]
fn malformed_correlation_id() {
    let (mut server, mut reg) = setup();
    let mut f = submit_response(7, true, None);
    f.id = "eCsxKzIrMys0".to_string();
    let e = server.handle_message(&mut reg, Some(f), 1).err().unwrap();
    assert_eq!(e.code, -1);
    assert_eq!(e.message, "Invalid Worker ID");
    assert_eq!(counters(&reg), (0, 0, 0));
}

#[test]
fn submit_without_result_or_error() {
    let (mut server, mut reg) = setup();
    let e = server.handle_message(&mut reg, Some(submit_response(7, false, None)), 1).err().unwrap();
    assert_eq!(e.message, "Invalid Response");
    assert_eq!(counters(&reg), (0, 0, 0));
    assert!(server.error);
}

#[test]
fn requests_from_the_node() {
    let (mut server, mut reg) = setup();
    let mut job = JobTemplate::new();
    job.height = 55;
    let f = RpcFrame {
        id: "Pool-5".to_string(),
        method: "job".to_string(),
        params: Some(Payload { job: Some(job), status: None }),
        result: None,
        error: None,
    };
    assert_eq!(server.handle_message(&mut reg, Some(f), 1).unwrap().method, "job");
    assert_eq!(server.job.height, 55);
    let f = RpcFrame { id: "Pool-5".to_string(), method: "mine".to_string(), params: None, result: None, error: None };
    let e = server.handle_message(&mut reg, Some(f), 1).err().unwrap();
    assert_eq!(e.code, -32601);
    assert_eq!(e.message, "Method not found: mine");
}

#[test]
fn responses_from_the_node() {
    let (mut server, mut reg) = setup();
    assert_eq!(server.handle_message(&mut reg, None, 1).unwrap().method, "None");
    let f = RpcFrame { id: "Pool-5".to_string() + "x", method: "login".to_string(), params: None, result: Some(Payload { job: None, status: None }), error: None };
    server.handle_message(&mut reg, Some(f), 1).unwrap();
    assert!(server.ready);
    let f = RpcFrame { id: "z".to_string(), method: "keepalive".to_string(), params: None, result: None, error: None };
    assert_eq!(server.handle_message(&mut reg, Some(f), 1).unwrap().method, "keepalive");
    let f = RpcFrame { id: "z".to_string(), method: "other".to_string(), params: None, result: None, error: None };
    assert_eq!(server.handle_message(&mut reg, Some(f), 1).err().unwrap().code, -32600);
    assert!(!server.error);
    let f = RpcFrame {
        id: "z".to_string(),
        method: "getjobtemplate".to_string(),
        params: None,
        result: None,
        error: Some(RpcError { code: -32701, message: "syncing".to_string() }),
    };
    let e = server.handle_message(&mut reg, Some(f), 1).err().unwrap();
    assert_eq!((e.code, e.message.as_str()), (-32701, "syncing"));
    assert!(server.error);
    assert!(server.needs_connect());
}

#[test]
fn no_connection() {
    let mut server = Server::new("5");
    let mut reg = Registry::new();
    let e = server.handle_message(&mut reg, None, 1).err().unwrap();
    assert_eq!((e.code, e.message.as_str()), (-32500, "No upstream connection"));
    assert_eq!(server.request_status().err().unwrap(), "No upstream connection");
    assert_eq!(server.send_keepalive().err().unwrap(), "No upstream connection");
}

#[test]
fn outgoing_requests() {
    let (server, _) = setup();
    assert_eq!(server.get_id(), "Pool-5");
    assert_eq!(server.request_status().unwrap().method, "status");
    let k = server.send_keepalive().unwrap();
    assert_eq!((k.method.as_str(), k.id.as_str()), ("keepalive", "Pool-5"));
    let sol = SubmitParams { height: 1000, job_id: 42, nonce: 9, edge_bits: 31, pow: vec![5] };
    let q = server.submit_share(&sol, 7).unwrap();
    assert_eq!(q.method, "submit");
    assert_eq!(q.id, "NysxMDAwKzQyKzkrMzE=");
    assert!(matches!(q.params, Some(RequestParams::Submit(p)) if p.pow == vec![5]));
    let high = SubmitParams { height: 1 << 31, job_id: 1, nonce: 1, edge_bits: 1, pow: vec![] };
    let q = server.submit_share(&high, 7).unwrap();
    assert_eq!(q.id, "NysyMTQ3NDgzNjQ4KzErMSsx");
}

#[test]
fn response_to_height_beyond_record_is_refused() {
    let (mut server, mut reg) = setup();
    let high = SubmitParams { height: 1 << 31, job_id: 1, nonce: 1, edge_bits: 1, pow: vec![] };
    let mut f = submit_response(7, true, None);
    f.id = server.submit_share(&high, 7).unwrap().id;
    let e = server.handle_message(&mut reg, Some(f), 1).err().unwrap();
    assert_eq!((e.code, e.message.as_str()), (-1, "Invalid Worker ID"));
    assert_eq!(counters(&reg), (0, 0, 0));
}

#[test]
fn connect_when_connected_is_a_no_op() {
    let (mut server, _) = setup();
    server.ready = true;
    assert!(server.connect("pool".to_string(), "pw".to_string()).is_empty());
    assert!(server.ready);
    server.set_error();
    assert_eq!(server.connect("pool".to_string(), "pw".to_string()).len(), 2);
    assert!(!server.error);
    assert!(!server.ready);
}

#[test]
fn connect_gives_login_and_job_request() {
    let mut server = Server::new("2");
    assert!(server.needs_connect());
    assert!(server.job.pre_pow.is_empty());
    let reqs = server.connect("user".to_string(), "pw".to_string());
    assert!(!server.needs_connect());
    assert_eq!(reqs[0].method, "login");
    assert!(matches!(&reqs[0].params, Some(RequestParams::Login(p)) if p.login == "user" && p.agent == "Pool-2"));
    assert_eq!(reqs[1].method, "getjobtemplate");
}
