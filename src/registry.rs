//! The shared collection of worker sessions, keyed by worker id. Callers
//! hold it under one lock; every operation here is one critical section.
use vstd::prelude::*;
use crate::proto::{WorkerReply, WorkerStatus};
use crate::worker::Worker;

verus! {

/// How the upstream node judged a submission.
#[derive(Debug, Clone, Copy, PartialEq, Eq, Structural)]
pub enum Verdict {
    Accepted,
    Stale,
    Rejected,
}

/// `x + 1`, held at the largest value.
pub open spec fn bump(x: u64) -> u64 {
    if x < u64::MAX {
        (x + 1) as u64
    } else {
        x
    }
}

/// `n` is `o` with the counter for `verdict` increased by one, and, for an
/// accepted submission, the result `"ok"` for `method` queued.
pub open spec fn credited(o: Worker, n: Worker, verdict: Verdict, method: String) -> bool {
    &&& n.id == o.id && n.addr == o.addr && n.login == o.login
    &&& n.error == o.error && n.authenticated == o.authenticated && n.needs_job == o.needs_job
    &&& n.shares@ == o.shares@ && n.block_status == o.block_status
    &&& n.status.id == o.status.id && n.status.height == o.status.height
    &&& n.status.difficulty == o.status.difficulty
    &&& n.status.accepted == (if verdict == Verdict::Accepted {
        bump(o.status.accepted)
    } else {
        o.status.accepted
    })
    &&& n.status.stale == (if verdict == Verdict::Stale {
        bump(o.status.stale)
    } else {
        o.status.stale
    })
    &&& n.status.rejected == (if verdict == Verdict::Rejected {
        bump(o.status.rejected)
    } else {
        o.status.rejected
    })
    &&& n.replies@ == (if verdict == Verdict::Accepted {
        o.replies@.push(WorkerReply::Done(method))
    } else {
        o.replies@
    })
}

/// What a share record needs of the worker that a submission came from.
pub struct WorkerInfo {
    pub addr: String,
    pub difficulty: u64,
    pub login: String,
}

pub struct Registry {
    workers: Vec<Worker>,
}

impl View for Registry {
    type V = Seq<Worker>;

    closed spec fn view(&self) -> Seq<Worker> {
        self.workers@
    }
}

/// No two sessions in `ws` share an id.
pub open spec fn unique_ids(ws: Seq<Worker>) -> bool {
    forall|i: int, j: int|
        0 <= i < ws.len() && 0 <= j < ws.len() && i != j ==> #[trigger] ws[i].id != #[trigger] ws[j].id
}

/// Some session in `ws` has id `id`.
pub open spec fn has_id(ws: Seq<Worker>, id: usize) -> bool {
    exists|i: int| 0 <= i < ws.len() && #[trigger] ws[i].id == id
}

impl Registry {
    /// No two sessions share an id.
    #[verifier::type_invariant]
    spec fn unique_ids(&self) -> bool {
        unique_ids(self.workers@)
    }

    pub fn new() -> (r: Registry)
        ensures
            r@.len() == 0,
    {
        Registry { workers: Vec::new() }
    }

    pub fn len(&self) -> (r: usize)
        ensures
            r == self@.len(),
    {
        self.workers.len()
    }

    /// The position of the session with id `id`.
    pub fn find(&self, id: usize) -> (r: Option<usize>)
        ensures
            r matches Some(i) ==> i < self@.len() && self@[i as int].id == id,
            r is None ==> !has_id(self@, id),
    {
        let mut i: usize = 0;
        while i < self.workers.len()
            invariant
                i <= self.workers@.len(),
                forall|k: int| 0 <= k < i ==> self.workers@[k].id != id,
            decreases self.workers@.len() - i,
        {
            if self.workers[i].id == id {
                return Some(i);
            }
            i = i + 1;
        }
        None
    }

    /// The session at position `i`.
    pub fn get(&self, i: usize) -> (r: &Worker)
        requires
            i < self@.len(),
        ensures
            *r == self@[i as int],
    {
        &self.workers[i]
    }

    /// Adds a session, unless one with its id is there already.
    pub fn insert(&mut self, worker: Worker) -> (r: bool)
        ensures
            unique_ids(final(self)@),
            r == !has_id(old(self)@, worker.id),
            r ==> final(self)@ == old(self)@.push(worker),
            !r ==> final(self)@ == old(self)@,
    {
        proof {
            use_type_invariant(&*self);
        }
        match self.find(worker.id) {
            Some(_) => false,
            None => {
                let mut ws: Vec<Worker> = Vec::new();
                std::mem::swap(&mut ws, &mut self.workers);
                let ghost before = ws@;
                ws.push(worker);
                proof {
                    assert forall|i: int, j: int|
                        0 <= i < ws@.len() && 0 <= j < ws@.len() && i != j implies #[trigger] ws@[i].id
                            != #[trigger] ws@[j].id by {
                        if i == ws@.len() - 1 {
                            assert(!(before[j].id == worker.id));
                        } else if j == ws@.len() - 1 {
                            assert(!(before[i].id == worker.id));
                        }
                    }
                }
                self.workers = ws;
                true
            },
        }
    }

    /// Removes and returns the session with id `id`.
    pub fn take(&mut self, id: usize) -> (r: Option<Worker>)
        ensures
            unique_ids(final(self)@),
            r is None ==> !has_id(old(self)@, id) && final(self)@ == old(self)@,
            r matches Some(w) ==> exists|i: int|
                0 <= i < old(self)@.len() && old(self)@[i] == w && w.id == id && final(self)@
                    == old(self)@.remove(i),
    {
        proof {
            use_type_invariant(&*self);
        }
        match self.find(id) {
            None => None,
            Some(i) => {
                let mut ws: Vec<Worker> = Vec::new();
                std::mem::swap(&mut ws, &mut self.workers);
                let ghost before = ws@;
                let w = ws.remove(i);
                proof {
                    assert forall|a: int, b: int|
                        0 <= a < ws@.len() && 0 <= b < ws@.len() && a != b implies #[trigger] ws@[a].id
                            != #[trigger] ws@[b].id by {
                        let a2 = if a < i { a } else { a + 1 };
                        let b2 = if b < i { b } else { b + 1 };
                        assert(ws@[a] == before[a2]);
                        assert(ws@[b] == before[b2]);
                    }
                }
                self.workers = ws;
                Some(w)
            },
        }
    }

    /// Credits the session with id `id` with `verdict` (and, for an accepted
    /// submission, queues it the result `"ok"` for `method`), and returns
    /// what a share record needs of it; `None`, with nothing changed, where
    /// there is no such session.
    pub fn credit(&mut self, id: usize, verdict: Verdict, method: String) -> (r: Option<WorkerInfo>)
        ensures
            unique_ids(final(self)@),
            final(self)@.len() == old(self)@.len(),
            r is None ==> !has_id(old(self)@, id) && final(self)@ == old(self)@,
            r matches Some(info) ==> exists|i: int|
                0 <= i < old(self)@.len() && old(self)@[i].id == id && credited(
                    old(self)@[i],
                    final(self)@[i],
                    verdict,
                    method,
                ) && (forall|j: int|
                    0 <= j < old(self)@.len() && j != i ==> final(self)@[j] == old(self)@[j])
                    && info.addr == old(self)@[i].addr && info.difficulty == old(self)@[i].status.difficulty
                    && info.login@ == old(self)@[i].login_text(),
    {
        proof {
            use_type_invariant(&*self);
        }
        let i = match self.find(id) {
            None => return None,
            Some(i) => i,
        };
        let mut ws: Vec<Worker> = Vec::new();
        std::mem::swap(&mut ws, &mut self.workers);
        let ghost before = ws@;
        let mut w = ws.remove(i);
        let s = &w.status;
        let status = WorkerStatus {
            id: s.id.clone(),
            height: s.height,
            difficulty: s.difficulty,
            accepted: if verdict == Verdict::Accepted {
                s.accepted.saturating_add(1)
            } else {
                s.accepted
            },
            rejected: if verdict == Verdict::Rejected {
                s.rejected.saturating_add(1)
            } else {
                s.rejected
            },
            stale: if verdict == Verdict::Stale {
                s.stale.saturating_add(1)
            } else {
                s.stale
            },
        };
        w.status = status;
        if verdict == Verdict::Accepted {
            w.send_ok(method);
        }
        let info = WorkerInfo { addr: w.addr.clone(), difficulty: w.status.difficulty, login: w.login() };
        ws.insert(i, w);
        proof {
            assert forall|j: int| 0 <= j < before.len() && j != i implies ws@[j] == before[j] by {}
            assert forall|a: int, b: int|
                0 <= a < ws@.len() && 0 <= b < ws@.len() && a != b implies #[trigger] ws@[a].id
                    != #[trigger] ws@[b].id by {
                assert(ws@[a].id == before[a].id);
                assert(ws@[b].id == before[b].id);
            }
        }
        self.workers = ws;
        Some(info)
    }
}

} // verus!
