//! The fork synchronizer built on message passing.
//!
//! One coordinator task owns the state of every resource: who holds it, and who is waiting for
//! it in the order the requests came. Workers send it requests and wait on a reply queue of their
//! own; the coordinator handles one request at a time, so its state needs no lock. `Coordinator`
//! is that state and its rule for each request; the queues are the kernel's.

use std::collections::VecDeque;
use vstd::prelude::*;

verus! {

/// What a worker asks of the coordinator.
#[derive(PartialEq, Eq, Structural, Clone, Copy, Debug)]
pub enum Command {
    /// Take the resource; the worker waits for the reply.
    Take,
    /// Give the resource back; no reply is sent.
    Release,
}

/// A request from `worker` about resource `index`.
#[derive(PartialEq, Eq, Structural, Clone, Copy, Debug)]
pub struct Request {
    pub worker: u64,
    pub index: usize,
    pub command: Command,
}

/// The holders, the waiting queues and the worker to reply to after the coordinator handles
/// `req`: a take of a free resource is granted at once; a take of a held resource joins the end of
/// that resource's queue; a release hands the resource to the head of its queue, who gets the
/// reply, or frees it where nobody waits.
pub open spec fn coordinator_step(
    owners: Seq<Option<u64>>,
    waiting: Seq<Seq<u64>>,
    req: Request,
) -> (Seq<Option<u64>>, Seq<Seq<u64>>, Option<u64>) {
    let i = req.index as int;
    match req.command {
        Command::Take => if owners[i] is None {
            (owners.update(i, Some(req.worker)), waiting, Some(req.worker))
        } else {
            (owners, waiting.update(i, waiting[i].push(req.worker)), None)
        },
        Command::Release => if waiting[i].len() == 0 {
            (owners.update(i, None), waiting, None)
        } else {
            (
                owners.update(i, Some(waiting[i][0])),
                waiting.update(i, waiting[i].drop_first()),
                Some(waiting[i][0]),
            )
        },
    }
}

/// Where the coordinator stands after handling each request of `reqs` in turn, starting from
/// `owners` and `waiting`, with the replies it sent in order.
pub open spec fn coordinator_run(
    owners: Seq<Option<u64>>,
    waiting: Seq<Seq<u64>>,
    reqs: Seq<Request>,
) -> (Seq<Option<u64>>, Seq<Seq<u64>>, Seq<u64>)
    decreases reqs.len(),
{
    if reqs.len() == 0 {
        (owners, waiting, Seq::empty())
    } else {
        let (o, w, reply) = coordinator_step(owners, waiting, reqs[0]);
        let (o2, w2, replies) = coordinator_run(o, w, reqs.drop_first());
        match reply {
            Some(x) => (o2, w2, seq![x].add(replies)),
            None => (o2, w2, replies),
        }
    }
}

/// The coordinator's own state.
pub struct Coordinator {
    owners: Vec<Option<u64>>,
    waiting: Vec<VecDeque<u64>>,
}

impl Coordinator {
    /// The holder of each resource.
    pub closed spec fn owners(&self) -> Seq<Option<u64>> {
        self.owners@
    }

    /// The workers waiting for each resource, first come first.
    pub closed spec fn waiting(&self) -> Seq<Seq<u64>> {
        self.waiting@.map_values(|q: VecDeque<u64>| q@)
    }

    /// One holder slot and one queue per resource, and only a held resource has waiters.
    pub open spec fn wf(&self) -> bool {
        &&& self.owners().len() == self.waiting().len()
        &&& forall|i: int|
            0 <= i < self.waiting().len() && (#[trigger] self.waiting()[i]).len() > 0
                ==> self.owners()[i] is Some
    }

    /// `n` resources, all free, nobody waiting.
    pub fn new(n: usize) -> (r: Coordinator)
        ensures
            r.wf(),
            r.owners().len() == n,
            forall|i: int| 0 <= i < n ==> (#[trigger] r.owners()[i]) is None,
            forall|i: int| 0 <= i < n ==> (#[trigger] r.waiting()[i]).len() == 0,
    {
        let mut owners: Vec<Option<u64>> = Vec::new();
        let mut waiting: Vec<VecDeque<u64>> = Vec::new();
        let mut k: usize = 0;
        while k < n
            invariant
                k <= n,
                owners@.len() == k,
                waiting@.len() == k,
                forall|i: int| 0 <= i < k ==> (#[trigger] owners@[i]) is None,
                forall|i: int| 0 <= i < k ==> (#[trigger] waiting@[i])@.len() == 0,
            decreases n - k,
        {
            owners.push(None);
            waiting.push(VecDeque::new());
            k = k + 1;
        }
        Coordinator { owners, waiting }
    }

    /// Number of resources.
    pub fn len(&self) -> (r: usize)
        requires
            self.wf(),
        ensures
            r == self.owners().len(),
    {
        self.owners.len()
    }

    /// The holder of resource `index`.
    pub fn owner(&self, index: usize) -> (r: Option<u64>)
        requires
            self.wf(),
            index < self.owners().len(),
        ensures
            r == self.owners()[index as int],
    {
        self.owners[index]
    }

    /// Handles one request and returns the worker to reply to, if any. A release must come from
    /// the worker that holds the resource.
    pub fn handle(&mut self, req: Request) -> (r: Option<u64>)
        requires
            old(self).wf(),
            req.index < old(self).owners().len(),
            req.command == Command::Release ==> old(self).owners()[req.index as int] == Some(
                req.worker,
            ),
        ensures
            final(self).wf(),
            (final(self).owners(), final(self).waiting(), r) == coordinator_step(
                old(self).owners(),
                old(self).waiting(),
                req,
            ),
    {
        let i = req.index;
        let ghost w0 = self.waiting();
        match req.command {
            Command::Take => {
                if self.owners[i].is_none() {
                    self.owners.set(i, Some(req.worker));
                    assert(self.waiting() =~= w0);
                    Some(req.worker)
                } else {
                    self.waiting[i].push_back(req.worker);
                    assert(self.waiting() =~= w0.update(i as int, w0[i as int].push(req.worker)));
                    None
                }
            },
            Command::Release => {
                match self.waiting[i].pop_front() {
                    None => {
                        self.owners.set(i, None);
                        assert(self.waiting() =~= w0);
                        None
                    },
                    Some(next) => {
                        self.owners.set(i, Some(next));
                        assert(self.waiting() =~= w0.update(i as int, w0[i as int].drop_first()));
                        Some(next)
                    },
                }
            },
        }
    }
}

/// Workers waiting for the same resource are served in the order their takes arrived: while
/// `holder` holds resource `i` and nobody waits, a take by `a` and then one by `b` are both
/// queued; the holder's release grants `a`, and `a`'s release grants `b`.
pub proof fn lemma_grants_in_request_order(
    owners: Seq<Option<u64>>,
    waiting: Seq<Seq<u64>>,
    i: usize,
    holder: u64,
    a: u64,
    b: u64,
)
    requires
        i < owners.len(),
        owners.len() == waiting.len(),
        owners[i as int] == Some(holder),
        waiting[i as int].len() == 0,
    ensures
        ({
            let reqs = seq![
                Request { worker: a, index: i, command: Command::Take },
                Request { worker: b, index: i, command: Command::Take },
                Request { worker: holder, index: i, command: Command::Release },
                Request { worker: a, index: i, command: Command::Release },
            ];
            let (o, w, replies) = coordinator_run(owners, waiting, reqs);
            &&& replies == seq![a, b]
            &&& o[i as int] == Some(b)
            &&& w[i as int].len() == 0
        }),
{
    let reqs = seq![
        Request { worker: a, index: i, command: Command::Take },
        Request { worker: b, index: i, command: Command::Take },
        Request { worker: holder, index: i, command: Command::Release },
        Request { worker: a, index: i, command: Command::Release },
    ];
    reveal_with_fuel(coordinator_run, 5);
    let (o1, w1, r1) = coordinator_step(owners, waiting, reqs[0]);
    let (o2, w2, r2) = coordinator_step(o1, w1, reqs[1]);
    let (o3, w3, r3) = coordinator_step(o2, w2, reqs[2]);
    let (o4, w4, r4) = coordinator_step(o3, w3, reqs[3]);
    assert(r1 is None && r2 is None);
    assert(w2[i as int] =~= seq![a, b]);
    assert(r3 == Some(a));
    assert(w3[i as int] =~= seq![b]);
    assert(r4 == Some(b));
    assert(reqs.drop_first().drop_first().drop_first().drop_first() =~= Seq::<Request>::empty());
    assert(reqs.drop_first().drop_first().drop_first() =~= seq![reqs[3]]);
    assert(reqs.drop_first().drop_first() =~= seq![reqs[2], reqs[3]]);
    assert(reqs.drop_first() =~= seq![reqs[1], reqs[2], reqs[3]]);
    assert(seq![a].add(seq![b].add(Seq::<u64>::empty())) =~= seq![a, b]);
}

/// No resource ever has two holders: a take of a held resource only queues the taker, and the
/// holder stays; a take is granted only where the resource was free, and a release hands the
/// resource to exactly the worker it replies to.
pub proof fn lemma_coordinator_exclusive(
    owners: Seq<Option<u64>>,
    waiting: Seq<Seq<u64>>,
    req: Request,
)
    requires
        req.index < owners.len(),
        owners.len() == waiting.len(),
    ensures
        ({
            let i = req.index as int;
            let (o, w, reply) = coordinator_step(owners, waiting, req);
            &&& req.command == Command::Take && owners[i] is Some ==> reply is None && o[i]
                == owners[i]
            &&& req.command == Command::Take && reply is Some ==> owners[i] is None && o[i]
                == Some(req.worker)
            &&& reply is Some ==> o[i] == reply
            &&& forall|j: int| 0 <= j < owners.len() && j != i ==> o[j] == owners[j]
        }),
{
}

} // verus!
