//! Message shapes of the stratum protocol that the pool reads and writes,
//! as plain values: the JSON framing is done by the caller.
use vstd::prelude::*;
use crate::text::{push_decimal, string_of};

verus! {

/// Parameters of a `login` request: `login` is `username.workername`.
#[derive(Debug, Clone)]
pub struct LoginParams {
    pub login: String,
    pub pass: String,
    pub agent: String,
}

/// One proof-of-work solution that a worker submits.
#[derive(Debug, Clone)]
pub struct SubmitParams {
    pub height: u64,
    pub job_id: u64,
    pub nonce: u64,
    pub edge_bits: u32,
    pub pow: Vec<u64>,
}

/// The current unit of mining work.
#[derive(Debug, Clone)]
pub struct JobTemplate {
    pub height: u64,
    pub job_id: u64,
    pub difficulty: u64,
    pub pre_pow: String,
}

/// Running counters of one worker, or of the pool.
#[derive(Debug, Clone)]
pub struct WorkerStatus {
    pub id: String,
    pub height: u64,
    pub difficulty: u64,
    pub accepted: u64,
    pub rejected: u64,
    pub stale: u64,
}

/// An error as JSON-RPC carries it.
#[derive(Debug, Clone)]
pub struct RpcError {
    pub code: i32,
    pub message: String,
}

/// A JSON value read as each shape that the pool may expect of it: a field
/// is `Some` where the value has that shape.
#[derive(Debug, Clone)]
pub struct Payload {
    pub job: Option<JobTemplate>,
    pub status: Option<WorkerStatus>,
}

/// One message from the upstream node, request or response alike.
#[derive(Debug, Clone)]
pub struct RpcFrame {
    pub id: String,
    pub method: String,
    pub params: Option<Payload>,
    pub result: Option<Payload>,
    /// The `error` member, where present and of the shape of an `RpcError`.
    pub error: Option<RpcError>,
}

/// Parameters of a request, where they were present, as read for one shape.
#[derive(Debug, Clone)]
pub enum Decoded<T> {
    Absent,
    /// Present, but not of the expected shape; the text says why.
    Invalid(String),
    Value(T),
}

/// One request from a worker, its parameters read as each shape the worker
/// session may expect of them.
#[derive(Debug, Clone)]
pub struct WorkerRequest {
    pub method: String,
    pub login: Decoded<LoginParams>,
    pub submit: Decoded<SubmitParams>,
}

/// Parameters of a request that the pool sends upstream.
#[derive(Debug, Clone)]
pub enum RequestParams {
    Login(LoginParams),
    Submit(SubmitParams),
}

/// A request that the pool sends upstream.
#[derive(Debug, Clone)]
pub struct OutRequest {
    pub method: String,
    pub params: Option<RequestParams>,
    pub id: String,
}

/// A response that the pool sends to a worker.
#[derive(Debug, Clone)]
pub enum WorkerReply {
    /// A job, as the result of `getjobtemplate`.
    Job(JobTemplate),
    /// The worker's counters, as the result of `status`.
    Status(WorkerStatus),
    /// The result `"ok"` for the named method.
    Done(String),
}

impl JobTemplate {
    pub fn new() -> (r: JobTemplate)
        ensures
            r.height == 0 && r.job_id == 0 && r.difficulty == 0 && r.pre_pow@.len() == 0,
    {
        JobTemplate { height: 0, job_id: 0, difficulty: 0, pre_pow: String::new() }
    }

    /// A copy of this job.
    pub fn copied(&self) -> (r: JobTemplate)
        ensures
            r == *self,
    {
        JobTemplate {
            height: self.height,
            job_id: self.job_id,
            difficulty: self.difficulty,
            pre_pow: self.pre_pow.clone(),
        }
    }
}

impl SubmitParams {
    /// A copy of this solution.
    pub fn copied(&self) -> (r: SubmitParams)
        ensures
            r.height == self.height,
            r.job_id == self.job_id,
            r.nonce == self.nonce,
            r.edge_bits == self.edge_bits,
            r.pow@ == self.pow@,
    {
        let mut pow: Vec<u64> = Vec::new();
        let mut i: usize = 0;
        while i < self.pow.len()
            invariant
                i <= self.pow@.len(),
                pow@ == self.pow@.take(i as int),
            decreases self.pow@.len() - i,
        {
            pow.push(self.pow[i]);
            i = i + 1;
            assert(pow@ =~= self.pow@.take(i as int));
        }
        assert(self.pow@.take(self.pow@.len() as int) =~= self.pow@);
        SubmitParams {
            height: self.height,
            job_id: self.job_id,
            nonce: self.nonce,
            edge_bits: self.edge_bits,
            pow,
        }
    }
}

impl WorkerStatus {
    /// Counters all at zero, under the given id.
    pub fn new(id: String) -> (r: WorkerStatus)
        ensures
            r.id == id,
            r.height == 0 && r.difficulty == 0,
            r.accepted == 0 && r.rejected == 0 && r.stale == 0,
    {
        WorkerStatus { id, height: 0, difficulty: 0, accepted: 0, rejected: 0, stale: 0 }
    }

    /// A copy of these counters.
    pub fn copied(&self) -> (r: WorkerStatus)
        ensures
            r == *self,
    {
        WorkerStatus {
            id: self.id.clone(),
            height: self.height,
            difficulty: self.difficulty,
            accepted: self.accepted,
            rejected: self.rejected,
            stale: self.stale,
        }
    }
}

/// The decimal numeral of `n` as a `String`.
pub fn decimal_string(n: u64) -> (r: String)
    ensures
        r@ == crate::text::decimal(n as nat),
{
    let mut v: Vec<char> = Vec::new();
    push_decimal(&mut v, n);
    assert(v@ =~= crate::text::decimal(n as nat));
    string_of(&v)
}

} // verus!
