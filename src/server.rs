//! The session with the upstream node: the requests the pool sends it, and
//! what each message from it does to the session, to the workers' counters,
//! and to the share records to publish. Reading and writing the socket is
//! left to the caller.
use vstd::prelude::*;
use crate::correlation::{
    ascii_bytes, base64_of, correlation_of, decode_correlation, encode_submission_id,
    submission_text, Correlation,
};
use crate::proto::{
    JobTemplate, LoginParams, OutRequest, RequestParams, RpcError, RpcFrame, SubmitParams,
    WorkerStatus,
};
use crate::registry::{bump, credited, has_id, Registry, Verdict};
use crate::share::{fits_name_buffer, inet_addr_of, server_id_of, share_for, Share, SubmitResult};
use crate::text::{concat_text, same_text};

verus! {

/// The session with the upstream node. The socket itself is the caller's.
pub struct Server {
    /// The pool identifier, `Pool-<number>`; the RPC id of the pool's own
    /// requests.
    pub id: String,
    /// A socket to the node is open.
    pub connected: bool,
    pub error: bool,
    /// The node has accepted the pool's login.
    pub ready: bool,
    pub job: JobTemplate,
    /// The last pool status that the node reported.
    pub status: WorkerStatus,
}

/// What one handled message asks of the caller.
pub struct Processed {
    /// The method handled, or `None` where no message was ready.
    pub method: String,
    /// A share record to publish.
    pub share: Option<Share>,
}

/// Relies on chrono's `Utc::now().timestamp()`: the Unix time in seconds,
/// cut to the 32 bits that a share record holds. Nothing is promised of it.
#[verifier::external_body]
fn unix_time_now() -> (r: u32) {
    chrono::Utc::now().timestamp() as u32
}

pub open spec fn is_error(r: Result<Processed, RpcError>, code: int, message: Seq<char>) -> bool {
    r matches Err(e) && e.code == code && e.message@ == message
}

pub open spec fn is_done(r: Result<Processed, RpcError>, method: String) -> bool {
    r matches Ok(p) && p.method == method && p.share is None
}

/// The verdict carried by a submit response: accepted where it has a result,
/// stale where its error has the code for a late submission, rejected for any
/// other error; none where it has neither.
pub open spec fn verdict_of(f: RpcFrame) -> Option<Verdict> {
    if f.result is Some {
        Some(Verdict::Accepted)
    } else {
        match f.error {
            Some(e) => if e.code == -32503 {
                Some(Verdict::Stale)
            } else {
                Some(Verdict::Rejected)
            },
            None => None,
        }
    }
}

pub open spec fn submit_result_of(v: Verdict) -> SubmitResult {
    if v == Verdict::Accepted {
        SubmitResult::Accept
    } else {
        SubmitResult::Reject
    }
}

/// A response without a result: the session is in error, and the node's own
/// error is passed on where it gave one.
pub open spec fn failed(o: Server, n: Server, f: RpcFrame, r: Result<Processed, RpcError>) -> bool {
    &&& n == (Server { error: true, ..o })
    &&& match f.error {
        Some(e) => r == Err::<Processed, RpcError>(e),
        None => is_error(r, -32600, "Invalid Response"@),
    }
}

/// A request from the node: only `job`, which replaces the job template.
pub open spec fn request_outcome(
    o: Server,
    n: Server,
    f: RpcFrame,
    r: Result<Processed, RpcError>,
) -> bool {
    if f.method@ == "job"@ {
        if f.params is Some && f.params->0.job is Some {
            n == (Server { job: f.params->0.job->0, ..o }) && is_done(r, f.method)
        } else {
            n == o && is_error(r, -32600, "Invalid Request"@)
        }
    } else {
        n == o && is_error(r, -32601, "Method not found: "@ + f.method@)
    }
}

/// A response from the node to anything but a submit.
pub open spec fn response_outcome(
    o: Server,
    n: Server,
    f: RpcFrame,
    r: Result<Processed, RpcError>,
) -> bool {
    if f.method@ == "getjobtemplate"@ {
        if f.result is Some {
            if f.result->0.job is Some {
                n == (Server { job: f.result->0.job->0, ..o }) && is_done(r, f.method)
            } else {
                n == (Server { error: true, ..o }) && is_error(r, -32600, "Invalid Response"@)
            }
        } else {
            failed(o, n, f, r)
        }
    } else if f.method@ == "login"@ {
        if f.result is Some {
            n == (Server { ready: true, ..o }) && is_done(r, f.method)
        } else {
            failed(Server { ready: false, ..o }, n, f, r)
        }
    } else if f.method@ == "status"@ {
        if f.result is Some {
            if f.result->0.status is Some {
                n == (Server { status: f.result->0.status->0, ..o }) && is_done(r, f.method)
            } else {
                n == (Server { error: true, ..o }) && is_error(r, -32600, "Invalid Response"@)
            }
        } else {
            failed(o, n, f, r)
        }
    } else if f.method@ == "keepalive"@ {
        n == o && is_done(r, f.method)
    } else {
        n == o && is_error(r, -32600, "Invalid Response"@)
    }
}

/// A submit response: the context comes from its correlation id alone; the
/// worker is credited with the verdict, and the share record to publish is
/// built, stamped `now`.
pub open spec fn submit_outcome(
    o: Server,
    n: Server,
    ws: Seq<crate::worker::Worker>,
    ws2: Seq<crate::worker::Worker>,
    f: RpcFrame,
    r: Result<Processed, RpcError>,
    now: u32,
) -> bool {
    match correlation_of(f.id@) {
        None => n == o && ws2 == ws && is_error(r, -1, "Invalid Worker ID"@),
        Some(c) => if !has_id(ws, c.worker_id) {
            n == o && ws2 == ws && is_error(r, -32600, "Null Worker ID"@)
        } else {
            match verdict_of(f) {
                None => n == (Server { error: true, ..o }) && ws2 == ws && is_error(
                    r,
                    -32600,
                    "Invalid Response"@,
                ),
                Some(v) => {
                    &&& n == o
                    &&& ws2.len() == ws.len()
                    &&& exists|i: int|
                        0 <= i < ws.len() && ws[i].id == c.worker_id && credited(
                            ws[i],
                            ws2[i],
                            v,
                            f.method,
                        ) && (forall|j: int| 0 <= j < ws.len() && j != i ==> ws2[j] == ws[j]) && {
                            let w = ws[i];
                            &&& r is Ok <==> server_id_of(o.id@) is Some && inet_addr_of(w.addr@) is Some
                                && fits_name_buffer(w.login_text())
                            &&& r matches Ok(p) ==> p.method == f.method && (p.share matches Some(s)
                                && share_for(
                                s,
                                c.job_id,
                                o.id@,
                                w.addr@,
                                c.worker_id,
                                w.status.difficulty,
                                w.login_text(),
                                submit_result_of(v),
                                c.height,
                                now,
                            ))
                            &&& r matches Err(e) ==> e.code == -32600 && e.message@ == "Invalid Share"@
                        }
                },
            }
        }
    }
}

/// What handling `message` does, with `now` as the time.
pub open spec fn message_outcome(
    o: Server,
    n: Server,
    ws: Seq<crate::worker::Worker>,
    ws2: Seq<crate::worker::Worker>,
    message: Option<RpcFrame>,
    r: Result<Processed, RpcError>,
    now: u32,
) -> bool {
    if !o.connected {
        n == o && ws2 == ws && is_error(r, -32500, "No upstream connection"@)
    } else {
        match message {
            None => n == o && ws2 == ws && (r matches Ok(p) && p.method@ == "None"@ && p.share is None),
            Some(f) => if f.id@ == o.id@ {
                ws2 == ws && request_outcome(o, n, f, r)
            } else if f.method@ == "submit"@ {
                submit_outcome(o, n, ws, ws2, f, r, now)
            } else {
                ws2 == ws && response_outcome(o, n, f, r)
            },
        }
    }
}

/// Accounting of a submit response that carries a well-formed correlation
/// id. Where the worker it names is registered: a result adds one to that
/// worker's `accepted` count, an error with the late-submission code one to
/// its `stale` count, and any other error one to its `rejected` count (each
/// held at the largest value), with no other count of any worker changed.
/// Where it is not registered, nothing changes and the failure is
/// `Null Worker ID`.
pub proof fn lemma_submit_accounting(
    o: Server,
    n: Server,
    ws: Seq<crate::worker::Worker>,
    ws2: Seq<crate::worker::Worker>,
    f: RpcFrame,
    r: Result<Processed, RpcError>,
    now: u32,
    c: Correlation,
)
    requires
        message_outcome(o, n, ws, ws2, Some(f), r, now),
        o.connected,
        f.id@ != o.id@,
        f.method@ == "submit"@,
        correlation_of(f.id@) == Some(c),
    ensures
        !has_id(ws, c.worker_id) ==> ws2 == ws && is_error(r, -32600, "Null Worker ID"@),
        has_id(ws, c.worker_id) && (f.result is Some || f.error is Some) ==> exists|i: int|
            0 <= i < ws.len() && ws[i].id == c.worker_id && {
                let (a, b) = (ws[i].status, ws2[i].status);
                &&& f.result is Some ==> b.accepted == bump(a.accepted) && b.rejected == a.rejected
                    && b.stale == a.stale
                &&& f.result is None && f.error->0.code == -32503 ==> b.stale == bump(a.stale)
                    && b.accepted == a.accepted && b.rejected == a.rejected
                &&& f.result is None && f.error->0.code != -32503 ==> b.rejected == bump(
                    a.rejected,
                ) && b.accepted == a.accepted && b.stale == a.stale
            } && forall|j: int| 0 <= j < ws.len() && j != i ==> ws2[j] == ws[j],
{
}

fn rpc_error(code: i32, message: &str) -> (r: RpcError)
    ensures
        r.code == code,
        r.message@ == message@,
{
    RpcError { code, message: message.to_owned() }
}

impl Server {
    /// A session, not yet connected, for the pool whose number is
    /// `server_id`.
    pub fn new(server_id: &str) -> (r: Server)
        ensures
            r.id@ == "Pool-"@ + server_id@,
            !r.connected && !r.error && !r.ready,
            r.job.height == 0 && r.job.job_id == 0 && r.job.difficulty == 0,
            r.job.pre_pow@.len() == 0,
            r.status.id@ == "Pool"@,
            r.status.accepted == 0 && r.status.rejected == 0 && r.status.stale == 0,
    {
        Server {
            id: concat_text("Pool-", server_id),
            connected: false,
            error: false,
            ready: false,
            job: JobTemplate::new(),
            status: WorkerStatus::new("Pool".to_owned()),
        }
    }

    pub fn get_id(&self) -> (r: String)
        ensures
            r == self.id,
    {
        self.id.clone()
    }

    /// Whether a new connection is needed: there is none, or it failed.
    /// Connecting again where this is false would change nothing.
    pub fn needs_connect(&self) -> (r: bool)
        ensures
            r == (self.error || !self.connected),
    {
        self.error || !self.connected
    }

    pub fn set_error(&mut self)
        ensures
            *final(self) == (Server { error: true, ..*old(self) }),
    {
        self.error = true;
    }

    /// Connecting: a no-op, with nothing to send, where the session is
    /// connected and not in error. Otherwise the caller has opened a new
    /// socket to the node; this records it and gives the requests to send on
    /// it first: the pool's login, then a job request.
    pub fn connect(&mut self, login: String, pass: String) -> (r: Vec<OutRequest>)
        ensures
            !old(self).error && old(self).connected ==> r@.len() == 0 && *final(self) == *old(
                self,
            ),
            old(self).error || !old(self).connected ==> {
                &&& *final(self) == (Server {
                    connected: true,
                    error: false,
                    ready: false,
                    ..*old(self)
                })
                &&& r@.len() == 2
                &&& r@[0].method@ == "login"@ && r@[0].id == old(self).id
                &&& r@[0].params matches Some(RequestParams::Login(p)) && p.login == login && p.pass
                    == pass && p.agent == old(self).id
                &&& r@[1].method@ == "getjobtemplate"@ && r@[1].id == old(self).id
                    && r@[1].params is None
            },
    {
        if !self.needs_connect() {
            return Vec::new();
        }
        self.connected = true;
        self.error = false;
        self.ready = false;
        let mut r: Vec<OutRequest> = Vec::new();
        match self.log_in(login, pass) {
            Ok(q) => r.push(q),
            Err(_) => {},
        }
        match self.request_job() {
            Ok(q) => r.push(q),
            Err(_) => {},
        }
        r
    }

    /// The pool's login request.
    fn log_in(&self, login: String, pass: String) -> (r: Result<OutRequest, String>)
        ensures
            !self.connected ==> (r matches Err(e) && e@ == "No upstream connection"@),
            self.connected ==> (r matches Ok(q) && q.method@ == "login"@ && q.id == self.id
                && (q.params matches Some(RequestParams::Login(p)) && p.login == login && p.pass
                == pass && p.agent == self.id)),
    {
        if !self.connected {
            return Err("No upstream connection".to_owned());
        }
        let params = LoginParams { login, pass, agent: self.id.clone() };
        Ok(
            OutRequest {
                method: "login".to_owned(),
                params: Some(RequestParams::Login(params)),
                id: self.id.clone(),
            },
        )
    }

    /// A request for a new job template.
    fn request_job(&self) -> (r: Result<OutRequest, String>)
        ensures
            !self.connected ==> (r matches Err(e) && e@ == "No upstream connection"@),
            self.connected ==> (r matches Ok(q) && q.method@ == "getjobtemplate"@ && q.id
                == self.id && q.params is None),
    {
        if !self.connected {
            return Err("No upstream connection".to_owned());
        }
        Ok(OutRequest { method: "getjobtemplate".to_owned(), params: None, id: self.id.clone() })
    }

    /// A request for the pool's status (not a worker's).
    pub fn request_status(&self) -> (r: Result<OutRequest, String>)
        ensures
            !self.connected ==> (r matches Err(e) && e@ == "No upstream connection"@),
            self.connected ==> (r matches Ok(q) && q.method@ == "status"@ && q.id == self.id
                && q.params is None),
    {
        if !self.connected {
            return Err("No upstream connection".to_owned());
        }
        Ok(OutRequest { method: "status".to_owned(), params: None, id: self.id.clone() })
    }

    /// A keepalive request.
    pub fn send_keepalive(&self) -> (r: Result<OutRequest, String>)
        ensures
            !self.connected ==> (r matches Err(e) && e@ == "No upstream connection"@),
            self.connected ==> (r matches Ok(q) && q.method@ == "keepalive"@ && q.id == self.id
                && q.params is None),
    {
        if !self.connected {
            return Err("No upstream connection".to_owned());
        }
        Ok(OutRequest { method: "keepalive".to_owned(), params: None, id: self.id.clone() })
    }

    /// The submit request for `solution` from worker `worker_id`, whose RPC id
    /// is the correlation id of the submission.
    pub fn submit_share(&self, solution: &SubmitParams, worker_id: usize) -> (r: Result<
        OutRequest,
        String,
    >)
        ensures
            !self.connected ==> (r matches Err(e) && e@ == "No upstream connection"@),
            self.connected ==> (r matches Ok(q) && q.method@ == "submit"@ && q.id@ == base64_of(
                ascii_bytes(
                    submission_text(
                        worker_id,
                        solution.height,
                        solution.job_id,
                        solution.nonce,
                        solution.edge_bits,
                    ),
                ),
            ) && (q.params matches Some(RequestParams::Submit(p)) && p.height == solution.height
                && p.job_id == solution.job_id && p.nonce == solution.nonce && p.edge_bits
                == solution.edge_bits && p.pow@ == solution.pow@)),
    {
        if !self.connected {
            return Err("No upstream connection".to_owned());
        }
        let id = encode_submission_id(
            worker_id,
            solution.height,
            solution.job_id,
            solution.nonce,
            solution.edge_bits,
        );
        Ok(
            OutRequest {
                method: "submit".to_owned(),
                params: Some(RequestParams::Submit(solution.copied())),
                id,
            },
        )
    }

    /// Handles one message from the node, where one was read, with `now` as
    /// the time stamped on a share record.
    pub fn handle_message(
        &mut self,
        workers: &mut Registry,
        message: Option<RpcFrame>,
        now: u32,
    ) -> (r: Result<Processed, RpcError>)
        ensures
            message_outcome(*old(self), *final(self), old(workers)@, final(workers)@, message, r, now),
    {
        if !self.connected {
            return Err(rpc_error(-32500, "No upstream connection"));
        }
        let f = match message {
            None => return Ok(Processed { method: "None".to_owned(), share: None }),
            Some(f) => f,
        };
        if same_text(f.id.as_str(), self.id.as_str()) {
            self.handle_request(f)
        } else if same_text(f.method.as_str(), "submit") {
            self.handle_submit(workers, f, now)
        } else {
            self.handle_response(f)
        }
    }

    /// Handles one message from the node, where one was read, stamping a
    /// share record with the current time.
    pub fn process_message(&mut self, workers: &mut Registry, message: Option<RpcFrame>) -> (r:
        Result<Processed, RpcError>)
        ensures
            exists|now: u32|
                message_outcome(*old(self), *final(self), old(workers)@, final(workers)@, message, r, now),
    {
        let now = unix_time_now();
        self.handle_message(workers, message, now)
    }

    /// Handles the messages from the node that are ready: at most one per
    /// call.
    pub fn process_messages(&mut self, workers: &mut Registry, message: Option<RpcFrame>) -> (r:
        Result<Processed, RpcError>)
        ensures
            exists|now: u32|
                message_outcome(*old(self), *final(self), old(workers)@, final(workers)@, message, r, now),
    {
        self.process_message(workers, message)
    }

    fn handle_request(&mut self, f: RpcFrame) -> (r: Result<Processed, RpcError>)
        ensures
            request_outcome(*old(self), *final(self), f, r),
    {
        let RpcFrame { id: _, method, params, result: _, error: _ } = f;
        if same_text(method.as_str(), "job") {
            match params {
                Some(p) => match p.job {
                    Some(job) => {
                        self.job = job;
                        Ok(Processed { method, share: None })
                    },
                    None => Err(rpc_error(-32600, "Invalid Request")),
                },
                None => Err(rpc_error(-32600, "Invalid Request")),
            }
        } else {
            Err(RpcError { code: -32601, message: concat_text("Method not found: ", method.as_str()) })
        }
    }

    fn handle_response(&mut self, f: RpcFrame) -> (r: Result<Processed, RpcError>)
        ensures
            response_outcome(*old(self), *final(self), f, r),
    {
        let RpcFrame { id: _, method, params: _, result, error } = f;
        if same_text(method.as_str(), "getjobtemplate") {
            match result {
                Some(p) => match p.job {
                    Some(job) => {
                        self.job = job;
                        Ok(Processed { method, share: None })
                    },
                    None => {
                        self.error = true;
                        Err(rpc_error(-32600, "Invalid Response"))
                    },
                },
                None => self.fail(error),
            }
        } else if same_text(method.as_str(), "login") {
            match result {
                Some(_) => {
                    self.ready = true;
                    Ok(Processed { method, share: None })
                },
                None => {
                    self.ready = false;
                    self.fail(error)
                },
            }
        } else if same_text(method.as_str(), "status") {
            match result {
                Some(p) => match p.status {
                    Some(status) => {
                        self.status = status;
                        Ok(Processed { method, share: None })
                    },
                    None => {
                        self.error = true;
                        Err(rpc_error(-32600, "Invalid Response"))
                    },
                },
                None => self.fail(error),
            }
        } else if same_text(method.as_str(), "keepalive") {
            Ok(Processed { method, share: None })
        } else {
            Err(rpc_error(-32600, "Invalid Response"))
        }
    }

    /// A response without a result: the session is in error.
    fn fail(&mut self, error: Option<RpcError>) -> (r: Result<Processed, RpcError>)
        ensures
            *final(self) == (Server { error: true, ..*old(self) }),
            match error {
                Some(e) => r == Err::<Processed, RpcError>(e),
                None => is_error(r, -32600, "Invalid Response"@),
            },
    {
        self.error = true;
        match error {
            Some(e) => Err(e),
            None => Err(rpc_error(-32600, "Invalid Response")),
        }
    }

    fn handle_submit(&mut self, workers: &mut Registry, f: RpcFrame, now: u32) -> (r: Result<
        Processed,
        RpcError,
    >)
        ensures
            submit_outcome(*old(self), *final(self), old(workers)@, final(workers)@, f, r, now),
    {
        let c = match decode_correlation(f.id.as_str()) {
            None => return Err(rpc_error(-1, "Invalid Worker ID")),
            Some(c) => c,
        };
        if workers.find(c.worker_id).is_none() {
            return Err(rpc_error(-32600, "Null Worker ID"));
        }
        let verdict = if f.result.is_some() {
            Verdict::Accepted
        } else {
            match &f.error {
                Some(e) => if e.code == -32503 {
                    Verdict::Stale
                } else {
                    Verdict::Rejected
                },
                None => {
                    self.error = true;
                    return Err(rpc_error(-32600, "Invalid Response"));
                },
            }
        };
        let info = match workers.credit(c.worker_id, verdict, f.method.clone()) {
            Some(info) => info,
            None => return Err(rpc_error(-32600, "Null Worker ID")),
        };
        let result = if verdict == Verdict::Accepted {
            SubmitResult::Accept
        } else {
            SubmitResult::Reject
        };
        match Share::new(
            c.job_id,
            self.id.clone(),
            info.addr,
            c.worker_id,
            info.difficulty,
            info.login,
            result,
            c.height,
            now,
        ) {
            Ok(share) => Ok(Processed { method: f.method, share: Some(share) }),
            Err(_) => Err(rpc_error(-32600, "Invalid Share")),
        }
    }
}

} // verus!
