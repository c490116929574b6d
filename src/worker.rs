//! The session of one downstream worker: what each request from it does to
//! its state, and the replies it queues. Reading requests and writing
//! replies is left to the caller.
use vstd::prelude::*;
use crate::names::{login_ok, normalized_login, validate_fullname};
use crate::proto::{
    decimal_string, Decoded, JobTemplate, LoginParams, SubmitParams, WorkerReply, WorkerRequest,
    WorkerStatus,
};
use crate::text::{decimal, same_text};

verus! {

/// Settings of a worker session; none are used yet.
#[derive(Debug)]
pub struct WorkerConfig {}

pub struct Worker {
    pub id: usize,
    pub login: Option<LoginParams>,
    pub error: bool,
    pub authenticated: bool,
    /// Running totals.
    pub status: WorkerStatus,
    /// Totals for the current block.
    pub block_status: WorkerStatus,
    pub shares: Vec<SubmitParams>,
    pub needs_job: bool,
    pub addr: String,
    pub replies: Vec<WorkerReply>,
}

/// The login a worker is known by before it has logged in.
pub open spec fn anonymous_login() -> Seq<char> {
    "None.__default__"@
}

impl Worker {
    /// The login accepted from this worker, if any.
    pub open spec fn spec_login(&self) -> Option<Seq<char>> {
        match self.login {
            Some(p) => Some(p.login@),
            None => None,
        }
    }

    /// The login this worker is known by.
    pub open spec fn login_text(&self) -> Seq<char> {
        match self.spec_login() {
            Some(l) => l,
            None => anonymous_login(),
        }
    }

    /// A session for a newly accepted connection.
    pub fn new(id: usize, addr: String) -> (r: Worker)
        ensures
            r.id == id,
            r.addr == addr,
            r.spec_login() is None,
            !r.error,
            !r.authenticated,
            r.needs_job,
            r.status.id@ == decimal(id as nat),
            r.status.accepted == 0 && r.status.rejected == 0 && r.status.stale == 0,
            r.status.height == 0 && r.status.difficulty == 0,
            r.block_status == r.status,
            r.shares@.len() == 0,
            r.replies@.len() == 0,
    {
        let status = WorkerStatus::new(decimal_string(id as u64));
        let block_status = status.copied();
        Worker {
            id,
            login: None,
            error: false,
            authenticated: false,
            status,
            block_status,
            shares: Vec::new(),
            needs_job: true,
            addr,
            replies: Vec::new(),
        }
    }

    /// Is the worker in error state?
    pub fn error(&self) -> (r: bool)
        ensures
            r == self.error,
    {
        self.error
    }

    pub fn set_error(&mut self)
        ensures
            final(self).error,
            final(self).id == old(self).id,
            final(self).login == old(self).login,
            final(self).authenticated == old(self).authenticated,
            final(self).status == old(self).status,
            final(self).block_status == old(self).block_status,
            final(self).needs_job == old(self).needs_job,
            final(self).addr == old(self).addr,
            final(self).shares@ == old(self).shares@,
            final(self).replies@ == old(self).replies@,
    {
        self.error = true;
    }

    pub fn id(&self) -> (r: usize)
        ensures
            r == self.id,
    {
        self.id
    }

    /// The accepted login, or `None.__default__` before one is accepted.
    pub fn login(&self) -> (r: String)
        ensures
            r@ == self.login_text(),
    {
        match &self.login {
            Some(p) => p.login.clone(),
            None => "None.__default__".to_owned(),
        }
    }

    /// Whether a login has been accepted from this worker.
    pub fn authenticated(&self) -> (r: bool)
        ensures
            r == self.authenticated,
    {
        self.authenticated
    }

    /// Sets the job difficulty.
    pub fn set_difficulty(&mut self, new_difficulty: u64)
        ensures
            final(self).status.difficulty == new_difficulty,
            final(self).status.id == old(self).status.id,
            final(self).status.height == old(self).status.height,
            final(self).status.accepted == old(self).status.accepted,
            final(self).status.rejected == old(self).status.rejected,
            final(self).status.stale == old(self).status.stale,
            final(self).id == old(self).id,
            final(self).addr == old(self).addr,
            final(self).login == old(self).login,
            final(self).error == old(self).error,
            final(self).authenticated == old(self).authenticated,
            final(self).needs_job == old(self).needs_job,
            final(self).shares@ == old(self).shares@,
            final(self).replies@ == old(self).replies@,
            final(self).block_status == old(self).block_status,
    {
        self.status.difficulty = new_difficulty;
    }

    /// Sets the job height.
    pub fn set_height(&mut self, new_height: u64)
        ensures
            final(self).status.height == new_height,
            final(self).status.id == old(self).status.id,
            final(self).status.difficulty == old(self).status.difficulty,
            final(self).status.accepted == old(self).status.accepted,
            final(self).status.rejected == old(self).status.rejected,
            final(self).status.stale == old(self).status.stale,
            final(self).id == old(self).id,
            final(self).addr == old(self).addr,
            final(self).login == old(self).login,
            final(self).error == old(self).error,
            final(self).authenticated == old(self).authenticated,
            final(self).needs_job == old(self).needs_job,
            final(self).shares@ == old(self).shares@,
            final(self).replies@ == old(self).replies@,
            final(self).block_status == old(self).block_status,
    {
        self.status.height = new_height;
    }

    /// Queues `job` for this worker, at the worker's own difficulty, which is
    /// also written into `job`; the worker no longer needs a job.
    pub fn send_job(&mut self, job: &mut JobTemplate)
        ensures
            final(job).difficulty == old(self).status.difficulty,
            final(job).height == old(job).height,
            final(job).job_id == old(job).job_id,
            final(job).pre_pow == old(job).pre_pow,
            !final(self).needs_job,
            final(self).replies@ == old(self).replies@.push(WorkerReply::Job(*final(job))),
            final(self).block_status == old(self).block_status,
            final(self).authenticated == old(self).authenticated,
            final(self).status == old(self).status,
            final(self).shares@ == old(self).shares@,
            final(self).error == old(self).error,
            final(self).id == old(self).id,
            final(self).addr == old(self).addr,
            final(self).login == old(self).login,
    {
        job.difficulty = self.status.difficulty;
        self.needs_job = false;
        self.replies.push(WorkerReply::Job(job.copied()));
    }

    /// Queues `status` for this worker.
    pub fn send_status(&mut self, status: WorkerStatus)
        ensures
            final(self).replies@ == old(self).replies@.push(WorkerReply::Status(status)),
            final(self).block_status == old(self).block_status,
            final(self).authenticated == old(self).authenticated,
            final(self).status == old(self).status,
            final(self).needs_job == old(self).needs_job,
            final(self).shares@ == old(self).shares@,
            final(self).error == old(self).error,
            final(self).id == old(self).id,
            final(self).addr == old(self).addr,
            final(self).login == old(self).login,
    {
        self.replies.push(WorkerReply::Status(status));
    }

    /// Queues the result `"ok"` for `method`.
    pub fn send_ok(&mut self, method: String)
        ensures
            final(self).replies@ == old(self).replies@.push(WorkerReply::Done(method)),
            final(self).status == old(self).status,
            final(self).block_status == old(self).block_status,
            final(self).needs_job == old(self).needs_job,
            final(self).shares@ == old(self).shares@,
            final(self).error == old(self).error,
            final(self).authenticated == old(self).authenticated,
            final(self).id == old(self).id,
            final(self).addr == old(self).addr,
            final(self).login == old(self).login,
    {
        self.replies.push(WorkerReply::Done(method));
    }

    /// Takes the pending submissions, leaving none; `None` where there were
    /// none.
    pub fn get_shares(&mut self) -> (r: Option<Vec<SubmitParams>>)
        ensures
            old(self).shares@.len() == 0 ==> r is None,
            old(self).shares@.len() > 0 ==> (r matches Some(v) && v@ == old(self).shares@),
            final(self).shares@.len() == 0,
            final(self).replies@ == old(self).replies@,
            final(self).status == old(self).status,
            final(self).needs_job == old(self).needs_job,
            final(self).error == old(self).error,
            final(self).id == old(self).id,
            final(self).addr == old(self).addr,
            final(self).login == old(self).login,
            final(self).block_status == old(self).block_status,
            final(self).authenticated == old(self).authenticated,
    {
        if self.shares.len() > 0 {
            let mut current: Vec<SubmitParams> = Vec::new();
            current.append(&mut self.shares);
            assert(current@ =~= old(self).shares@);
            Some(current)
        } else {
            None
        }
    }

    /// Takes the queued replies, oldest first, leaving none.
    pub fn take_replies(&mut self) -> (r: Vec<WorkerReply>)
        ensures
            r@ == old(self).replies@,
            final(self).replies@.len() == 0,
            final(self).shares@ == old(self).shares@,
            final(self).status == old(self).status,
            final(self).needs_job == old(self).needs_job,
            final(self).error == old(self).error,
            final(self).id == old(self).id,
            final(self).addr == old(self).addr,
            final(self).login == old(self).login,
            final(self).block_status == old(self).block_status,
            final(self).authenticated == old(self).authenticated,
    {
        let mut taken: Vec<WorkerReply> = Vec::new();
        taken.append(&mut self.replies);
        assert(taken@ =~= old(self).replies@);
        taken
    }

    /// Handles one request from the worker, where one was read: at most one
    /// per call, and none is no error. A login that fails validation is
    /// refused without marking the session in error; a submission whose
    /// parameters do not read is dropped; an unknown method marks the session
    /// in error.
    pub fn process_messages(&mut self, message: Option<Result<WorkerRequest, String>>) -> (r:
        Result<(), String>)
        ensures
            final(self).id == old(self).id,
            final(self).addr == old(self).addr,
            final(self).status == old(self).status,
            final(self).block_status == old(self).block_status,
            message is None ==> r is Ok && *final(self) == *old(self),
            message matches Some(Err(e)) ==> r == Err::<(), String>(e) && *final(self) == (Worker {
                error: true,
                ..*old(self)
            }),
            message matches Some(Ok(q)) ==> {
                let o = *old(self);
                let n = *final(self);
                if q.method@ == "login"@ {
                    match q.login {
                        Decoded::Absent => (r matches Err(e) && e@ == "invalid request"@) && n == (
                        Worker { error: true, ..o }),
                        Decoded::Invalid(e) => r == Err::<(), String>(e) && n == (Worker {
                            error: true,
                            ..o
                        }),
                        Decoded::Value(p) => if login_ok(p.login@) {
                            &&& r is Ok
                            &&& n.login matches Some(l) && l.login@ == normalized_login(p.login@)
                                && l.pass == p.pass && l.agent == p.agent
                            &&& n.authenticated
                            &&& n.replies@ == o.replies@.push(WorkerReply::Done(q.method))
                            &&& n.error == o.error && n.needs_job == o.needs_job
                            &&& n.shares@ == o.shares@
                        } else {
                            (r matches Err(e) && e@ == "invalid worker name"@) && n == o
                        },
                    }
                } else if q.method@ == "getjobtemplate"@ {
                    r is Ok && n == (Worker { needs_job: true, ..o })
                } else if q.method@ == "submit"@ {
                    &&& r is Ok
                    &&& n.shares@ == match q.submit {
                        Decoded::Value(p) => o.shares@.push(p),
                        _ => o.shares@,
                    }
                    &&& n.replies@ == o.replies@ && n.error == o.error && n.needs_job == o.needs_job
                    &&& n.login == o.login && n.authenticated == o.authenticated
                } else if q.method@ == "status"@ {
                    &&& r is Ok
                    &&& n.replies@ == o.replies@.push(WorkerReply::Status(o.status))
                    &&& n.shares@ == o.shares@ && n.error == o.error && n.needs_job == o.needs_job
                    &&& n.login == o.login && n.authenticated == o.authenticated
                } else if q.method@ == "keepalive"@ {
                    &&& r is Ok
                    &&& n.replies@ == o.replies@.push(WorkerReply::Done(q.method))
                    &&& n.shares@ == o.shares@ && n.error == o.error && n.needs_job == o.needs_job
                    &&& n.login == o.login && n.authenticated == o.authenticated
                } else {
                    (r matches Err(e) && e@ == "Unknown request"@) && n == (Worker {
                        error: true,
                        ..o
                    })
                }
            },
    {
        let req = match message {
            None => return Ok(()),
            Some(Err(e)) => {
                self.error = true;
                return Err(e);
            },
            Some(Ok(req)) => req,
        };
        let WorkerRequest { method, login, submit } = req;
        if same_text(method.as_str(), "login") {
            match login {
                Decoded::Absent => {
                    self.error = true;
                    Err("invalid request".to_owned())
                },
                Decoded::Invalid(e) => {
                    self.error = true;
                    Err(e)
                },
                Decoded::Value(p) => {
                    let mut p = p;
                    if validate_fullname(&mut p) {
                        self.login = Some(p);
                        self.authenticated = true;
                        self.send_ok(method);
                        Ok(())
                    } else {
                        Err("invalid worker name".to_owned())
                    }
                },
            }
        } else if same_text(method.as_str(), "getjobtemplate") {
            self.needs_job = true;
            Ok(())
        } else if same_text(method.as_str(), "submit") {
            match submit {
                Decoded::Value(p) => {
                    self.shares.push(p);
                },
                _ => {},
            }
            Ok(())
        } else if same_text(method.as_str(), "status") {
            let status = self.status.copied();
            self.send_status(status);
            Ok(())
        } else if same_text(method.as_str(), "keepalive") {
            self.send_ok(method);
            Ok(())
        } else {
            self.error = true;
            Err("Unknown request".to_owned())
        }
    }
}

} // verus!
