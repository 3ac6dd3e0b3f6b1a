//! Workers: the search over a batch of nonces, and the life of a worker
//! around it.

use crate::address::Address;
use crate::channel::send_solution;
use crate::hexcode::hex_ascii;
use crate::input::{counter_after, layout, nonce_bytes, ScalarKernelInput};
use crate::interface::{CurrentTarget, TargetMailbox};
use crate::kernels::unoptimized::{message_score, Unoptimized};
use crate::kernels::Kernel;
use crate::target::{lemma_kernel_scores_solution, Solution, Target};
use vstd::prelude::*;

verus! {

/// Whether none of the first `k` counters from `first` on gives a nonce
/// that solves `work` for the given address and block.
pub open spec fn all_miss<K: Kernel>(
    kernel: &K,
    address: Seq<u8>,
    block: Seq<u8>,
    first: u64,
    work: u64,
    k: nat,
) -> bool {
    forall|j: nat|
        j < k ==> #[trigger] kernel.spec_score(layout(address, block, counter_after(first, j)))
            > work
}

/// The number of the first `k` counters from `first` on that give a nonce
/// which solves `work` for the given address and block.
pub open spec fn hits<K: Kernel>(
    kernel: &K,
    address: Seq<u8>,
    block: Seq<u8>,
    first: u64,
    work: u64,
    k: nat,
) -> nat
    decreases k,
{
    if k == 0 {
        0
    } else {
        hits(kernel, address, block, first, work, (k - 1) as nat) + (if kernel.spec_score(
            layout(address, block, counter_after(first, (k - 1) as nat)),
        ) <= work {
            1nat
        } else {
            0nat
        })
    }
}

/// Counters that all miss add no hit: after `done` counters, `span` more
/// of which none solves the work leave the number of hits as it was.
pub proof fn lemma_misses_add_no_hit<K: Kernel>(
    kernel: &K,
    address: Seq<u8>,
    block: Seq<u8>,
    first: u64,
    work: u64,
    done: nat,
    span: nat,
)
    requires
        all_miss(kernel, address, block, counter_after(first, done), work, span),
    ensures
        hits(kernel, address, block, first, work, done + span) == hits(
            kernel,
            address,
            block,
            first,
            work,
            done,
        ),
    decreases span,
{
    if span > 0 {
        let last = (span - 1) as nat;
        lemma_misses_add_no_hit(kernel, address, block, first, work, done, last);
        crate::input::lemma_counter_after_twice(first, done, last);
        assert(kernel.spec_score(
            layout(address, block, counter_after(counter_after(first, done), last)),
        ) > work);
        assert(done + span - 1 == done + last);
    }
}

/// How a search over a batch of nonces ended.
#[derive(Debug, Clone, Copy, PartialEq, Eq)]
pub struct Batch {
    /// The first solution met, if there was one.
    pub solution: Option<Solution>,
    /// The number of nonces scored, the solution included.
    pub hashes: u64,
}

/// The state of one CPU worker: its address and its place in the nonce space.
pub struct Context {
    address: Address,
    input: ScalarKernelInput,
}

impl Context {
    /// The address that this worker mines for.
    pub closed spec fn address(&self) -> Address {
        self.address
    }

    /// The block that this worker mines on: twelve bytes.
    pub closed spec fn block(&self) -> Seq<u8> {
        self.input@.block
    }

    /// The counter of the next nonce to score.
    pub closed spec fn counter(&self) -> u64 {
        self.input@.counter
    }

    #[verifier::type_invariant]
    spec fn inv(self) -> bool {
        self.input@.address == self.address@
    }

    /// Create a new `Context`, which starts one after the counter `nonce`.
    pub fn new(address: Address, nonce: u64) -> (ctx: Context)
        ensures
            ctx.address() == address,
            ctx.block() == Seq::new(12, |i: int| 0u8),
            ctx.counter() == counter_after(nonce, 1),
    {
        Context { address, input: ScalarKernelInput::new(address, nonce) }
    }

    /// Take up a target: the block's hexadecimal digits enter the message.
    pub fn set_target(&mut self, target: &Target)
        ensures
            final(self).address() == old(self).address(),
            final(self).counter() == old(self).counter(),
            final(self).block() == hex_ascii(target.block.0@),
    {
        proof {
            use_type_invariant(&*self);
        }
        let block = target.block.hex_bytes();
        let mut input = self.input;
        input.set_block(&block);
        *self = Context { address: self.address, input };
    }

    /// Mine synchronously with the given kernel: score nonce after nonce,
    /// at most `limit` of them, and stop at the first that solves `work`.
    pub fn mine<K: Kernel>(&mut self, kernel: &K, work: u64, limit: u64) -> (batch: Batch)
        ensures
            final(self).address() == old(self).address(),
            final(self).block() == old(self).block(),
            final(self).counter() == counter_after(old(self).counter(), batch.hashes as nat),
            found_by(kernel, *old(self), work, limit, batch),
            work >= 0xFFFF_FFFF_FFFF && limit >= 1 ==> batch.hashes == 1 && batch.solution is Some,
    {
        proof {
            use_type_invariant(&*self);
            kernel.lemma_score_fits(
                layout(self.address@, self.input@.block, counter_after(self.input@.counter, 0)),
            );
        }
        let ghost address = self.address@;
        let ghost block = self.input@.block;
        let ghost first = self.input@.counter;
        let mut input = self.input;
        let mut solution: Option<Solution> = None;
        let mut done: u64 = 0;
        while done < limit && solution.is_none()
            invariant
                done <= limit,
                input@.address == address,
                input@.block == block,
                input@.counter == counter_after(first, done as nat),
                address == self.address@,
                match solution {
                    Some(found) => {
                        &&& done >= 1
                        &&& all_miss(kernel, address, block, first, work, (done - 1) as nat)
                        &&& kernel.spec_score(
                            layout(address, block, counter_after(first, (done - 1) as nat)),
                        ) <= work
                        &&& found.address == self.address
                        &&& found.nonce@ == nonce_bytes(counter_after(first, (done - 1) as nat))
                    },
                    None => all_miss(kernel, address, block, first, work, done as nat),
                },
            decreases limit - done + (if solution is None { 1nat } else { 0nat }),
        {
            let score = kernel.score(&input);
            if score <= work {
                solution = Some(Solution { address: self.address, nonce: input.nonce_array() });
            }
            input.increment_nonce();
            done += 1;
        }
        *self = Context { address: self.address, input };
        Batch { solution, hashes: done }
    }
}

/// Add the nonces of a batch to the count that all workers share. The
/// count is only ever read to tell a rate: no order is asked of the
/// additions.
fn count_hashes(hashes: &core::sync::atomic::AtomicU64, batch: u64) {
    hashes.fetch_add(batch, core::sync::atomic::Ordering::Relaxed);
}

/// Where a worker stands in its life.
#[derive(Debug, Clone, Copy, PartialEq, Eq, Structural)]
pub enum WorkerState {
    /// No target was received yet.
    Idle,
    /// The worker mines on a target.
    Running,
    /// The worker has stopped for good.
    Exited,
}

/// What can happen to a worker between two batches.
#[derive(Debug, Clone, Copy, PartialEq, Eq)]
pub enum WorkerEvent {
    /// The mailbox was read.
    Target(CurrentTarget),
    /// A solution could not be handed over: nobody receives any more.
    SendFailed,
    /// The receiver of the solutions is gone, whether or not a solution
    /// was on its way.
    ReceiverLost,
}

impl WorkerState {
    /// The state after an event: a new target sets a worker running; the
    /// stop, a failed send and the loss of the receiver end it; and
    /// nothing moves one that has exited.
    pub open spec fn next(self, event: WorkerEvent) -> WorkerState {
        match (self, event) {
            (WorkerState::Exited, _) => WorkerState::Exited,
            (_, WorkerEvent::SendFailed) => WorkerState::Exited,
            (_, WorkerEvent::ReceiverLost) => WorkerState::Exited,
            (_, WorkerEvent::Target(CurrentTarget::StopMining)) => WorkerState::Exited,
            (_, WorkerEvent::Target(CurrentTarget::New(_))) => WorkerState::Running,
            (state, WorkerEvent::Target(CurrentTarget::Unchanged(_))) => state,
        }
    }

    /// The state after an event.
    pub fn step(self, event: WorkerEvent) -> (state: WorkerState)
        ensures
            state == self.next(event),
    {
        match (self, event) {
            (WorkerState::Exited, _) => WorkerState::Exited,
            (_, WorkerEvent::SendFailed) => WorkerState::Exited,
            (_, WorkerEvent::ReceiverLost) => WorkerState::Exited,
            (_, WorkerEvent::Target(CurrentTarget::StopMining)) => WorkerState::Exited,
            (_, WorkerEvent::Target(CurrentTarget::New(_))) => WorkerState::Running,
            (state, WorkerEvent::Target(CurrentTarget::Unchanged(_))) => state,
        }
    }

    /// Whether a worker in this state waits for a target: before the first
    /// one it has nothing to mine on.
    pub fn waits_for_target(self) -> (waits: bool)
        ensures
            waits == (self == WorkerState::Idle),
    {
        match self {
            WorkerState::Idle => true,
            _ => false,
        }
    }
}

/// What one cycle of a worker did.
#[derive(Debug, Clone, Copy, PartialEq, Eq)]
pub struct Round {
    /// The number of nonces scored.
    pub scored: u64,
    /// The number of solutions met among them, each of which was handed
    /// to the channel.
    pub solutions: u64,
    /// The number of nonces added to the count that all workers share:
    /// the whole batch once it is through, and none of a batch cut short.
    pub counted: u64,
}

/// One CPU worker: its search, its state, and the work it mines against.
pub struct Worker {
    ctx: Context,
    state: WorkerState,
    work: u64,
}

impl Worker {
    /// The state of this worker.
    pub closed spec fn state(&self) -> WorkerState {
        self.state
    }

    /// The work of the target that this worker mines on.
    pub closed spec fn work(&self) -> u64 {
        self.work
    }

    /// The search of this worker.
    pub closed spec fn context(&self) -> Context {
        self.ctx
    }

    /// A worker for `address` that starts one after the counter `offset`,
    /// and has no target yet.
    pub fn new(address: Address, offset: u64) -> (worker: Worker)
        ensures
            worker.state() == WorkerState::Idle,
            worker.context().address() == address,
            worker.context().counter() == counter_after(offset, 1),
    {
        Worker { ctx: Context::new(address, offset), state: WorkerState::Idle, work: 0 }
    }

    /// The state of this worker.
    pub fn current_state(&self) -> (state: WorkerState)
        ensures
            state == self.state(),
    {
        self.state
    }

    /// Take in what a read of the mailbox returned: a new target is taken
    /// up, unless the worker has exited.
    pub fn on_target(&mut self, read: CurrentTarget)
        ensures
            final(self).state() == old(self).state().next(WorkerEvent::Target(read)),
            final(self).context().address() == old(self).context().address(),
            final(self).context().counter() == old(self).context().counter(),
            match read {
                CurrentTarget::New(target) if old(self).state() != WorkerState::Exited => {
                    &&& final(self).work() == target.work
                    &&& final(self).context().block() == hex_ascii(target.block.0@)
                },
                _ => {
                    &&& final(self).work() == old(self).work()
                    &&& final(self).context().block() == old(self).context().block()
                },
            },
    {
        let state = self.state.step(WorkerEvent::Target(read));
        match read {
            CurrentTarget::New(target) => {
                if self.state != WorkerState::Exited {
                    self.ctx.set_target(&target);
                    self.work = target.work;
                }
            },
            _ => {},
        }
        self.state = state;
    }

    /// Look into the mailbox, and take in what is there. Where there is
    /// nothing, because no target was ever posted, nothing changes and the
    /// result is `false`: the worker has to wait for the mailbox.
    pub fn poll(&mut self, mailbox: &mut TargetMailbox) -> (read: bool)
        ensures
            read == old(mailbox)@.reading().is_some(),
            final(mailbox)@ == old(mailbox)@.after_read(),
            final(self).context().address() == old(self).context().address(),
            final(self).context().counter() == old(self).context().counter(),
            match old(mailbox)@.reading() {
                Some(found) => {
                    &&& final(self).state() == old(self).state().next(WorkerEvent::Target(found))
                    &&& match found {
                        CurrentTarget::New(target) if old(self).state() != WorkerState::Exited => {
                            &&& final(self).work() == target.work
                            &&& final(self).context().block() == hex_ascii(target.block.0@)
                        },
                        _ => {
                            &&& final(self).work() == old(self).work()
                            &&& final(self).context().block() == old(self).context().block()
                        },
                    }
                },
                None => {
                    &&& final(self).state() == old(self).state()
                    &&& final(self).work() == old(self).work()
                    &&& final(self).context().block() == old(self).context().block()
                },
            },
    {
        match mailbox.try_read() {
            Some(found) => {
                self.on_target(found);
                true
            },
            None => false,
        }
    }

    /// Take in whether a solution was handed over: a worker whose
    /// solutions nobody receives exits.
    pub fn on_send(&mut self, delivered: bool)
        ensures
            final(self).state() == (if delivered {
                old(self).state()
            } else {
                old(self).state().next(WorkerEvent::SendFailed)
            }),
            final(self).work() == old(self).work(),
            final(self).context() == old(self).context(),
    {
        if !delivered {
            self.state = self.state.step(WorkerEvent::SendFailed);
        }
    }

    /// Take in that the receiver of the solutions is gone: the worker
    /// exits, whether or not it has a solution to hand over.
    pub fn on_receiver_lost(&mut self)
        ensures
            final(self).state() == WorkerState::Exited,
            final(self).state() == old(self).state().next(WorkerEvent::ReceiverLost),
            final(self).work() == old(self).work(),
            final(self).context() == old(self).context(),
    {
        self.state = self.state.step(WorkerEvent::ReceiverLost);
    }

    /// One cycle of a running worker: score `batch` nonces against the
    /// current work, hand every solution met to the coordinator, and count
    /// the batch once it is through. A solution that nobody receives ends
    /// both the cycle and the worker, and the batch is not counted; nothing
    /// else ends them: a batch in which no nonce solves the work is scored
    /// to its end, and the worker runs on. A worker that is not running
    /// does nothing.
    pub fn cycle<K: Kernel>(
        &mut self,
        kernel: &K,
        batch: u64,
        solutions: &crossbeam_channel::Sender<Solution>,
        hashes: &core::sync::atomic::AtomicU64,
    ) -> (round: Round)
        ensures
            round.scored <= batch,
            final(self).work() == old(self).work(),
            final(self).context().address() == old(self).context().address(),
            final(self).context().block() == old(self).context().block(),
            final(self).context().counter() == counter_after(
                old(self).context().counter(),
                round.scored as nat,
            ),
            round.counted == (if final(self).state() == WorkerState::Running {
                batch
            } else {
                0
            }),
            old(self).state() == WorkerState::Running ==> round.solutions == hits(
                kernel,
                old(self).context().address()@,
                old(self).context().block(),
                old(self).context().counter(),
                old(self).work(),
                round.scored as nat,
            ),
            old(self).state() != WorkerState::Running ==> round.solutions == 0,
            old(self).state() != WorkerState::Running ==> round.scored == 0 && final(self).state()
                == old(self).state(),
            old(self).state() == WorkerState::Running ==> {
                ||| final(self).state() == WorkerState::Running && round.scored == batch
                ||| final(self).state() == WorkerState::Exited && round.scored >= 1
            },
            old(self).state() == WorkerState::Running && all_miss(
                kernel,
                old(self).context().address()@,
                old(self).context().block(),
                old(self).context().counter(),
                old(self).work(),
                batch as nat,
            ) ==> final(self).state() == WorkerState::Running && round.scored == batch,
            old(self).state() == WorkerState::Running && final(self).state()
                == WorkerState::Exited ==> kernel.spec_score(
                layout(
                    old(self).context().address()@,
                    old(self).context().block(),
                    counter_after(old(self).context().counter(), (round.scored - 1) as nat),
                ),
            ) <= old(self).work(),
    {
        let ghost first = self.ctx.counter();
        let ghost address = self.ctx.address()@;
        let ghost block = self.ctx.block();
        let ghost work = self.work;
        let mut left: u64 = batch;
        let mut met: u64 = 0;
        proof {
            crate::input::lemma_counter_after_twice(first, 0, 0);
        }
        while left > 0 && self.state == WorkerState::Running
            invariant
                left <= batch,
                met <= batch - left,
                old(self).state() == WorkerState::Running ==> met == hits(
                    kernel,
                    address,
                    block,
                    first,
                    work,
                    (batch - left) as nat,
                ),
                work == old(self).work(),
                address == old(self).context().address()@,
                block == old(self).context().block(),
                self.work() == old(self).work(),
                self.context().address() == old(self).context().address(),
                self.context().block() == old(self).context().block(),
                first == old(self).context().counter(),
                self.context().counter() == counter_after(first, (batch - left) as nat),
                old(self).state() != WorkerState::Running ==> self.state() == old(self).state()
                    && left == batch,
                old(self).state() == WorkerState::Running ==> {
                    ||| self.state() == WorkerState::Running
                    ||| self.state() == WorkerState::Exited && left < batch
                },
                self.state() == WorkerState::Exited && old(self).state() == WorkerState::Running
                    ==> kernel.spec_score(
                    layout(address, block, counter_after(first, (batch - left - 1) as nat)),
                ) <= work,
                self.state() == WorkerState::Exited && old(self).state() == WorkerState::Running
                    ==> !all_miss(kernel, address, block, first, work, batch as nat),
            decreases left,
        {
            let ghost done = (batch - left) as nat;
            let found = self.run(kernel, left);
            proof {
                crate::input::lemma_counter_after_twice(first, done, found.hashes as nat);
                if found.solution is Some {
                    let span = (found.hashes - 1) as nat;
                    let last = (done + found.hashes - 1) as nat;
                    crate::input::lemma_counter_after_twice(first, done, span);
                    assert(kernel.spec_score(layout(address, block, counter_after(first, last)))
                        <= work);
                    assert(last < batch);
                    assert(!all_miss(kernel, address, block, first, work, batch as nat));
                    lemma_misses_add_no_hit(kernel, address, block, first, work, done, span);
                    assert(done + span == last);
                } else {
                    lemma_misses_add_no_hit(
                        kernel,
                        address,
                        block,
                        first,
                        work,
                        done,
                        found.hashes as nat,
                    );
                }
            }
            left = left - found.hashes;
            match found.solution {
                Some(solution) => {
                    met = met + 1;
                    let delivered = send_solution(solutions, solution);
                    self.on_send(delivered);
                },
                None => {},
            }
        }
        let mut counted: u64 = 0;
        if self.state == WorkerState::Running {
            count_hashes(hashes, batch);
            counted = batch;
        }
        Round { scored: batch - left, solutions: met, counted }
    }

    /// Search up to `limit` nonces against the current work. A worker that
    /// is not running scores none.
    pub fn run<K: Kernel>(&mut self, kernel: &K, limit: u64) -> (batch: Batch)
        ensures
            final(self).state() == old(self).state(),
            final(self).work() == old(self).work(),
            final(self).context().address() == old(self).context().address(),
            final(self).context().block() == old(self).context().block(),
            final(self).context().counter() == counter_after(
                old(self).context().counter(),
                batch.hashes as nat,
            ),
            old(self).state() != WorkerState::Running ==> batch.hashes == 0
                && batch.solution is None,
            old(self).state() == WorkerState::Running ==> found_by(
                kernel,
                old(self).context(),
                old(self).work(),
                limit,
                batch,
            ),
    {
        if self.state != WorkerState::Running {
            return Batch { solution: None, hashes: 0 };
        }
        self.ctx.mine(kernel, self.work, limit)
    }
}

/// Whether `batch` is what a search of at most `limit` nonces from the
/// place `from` finds against `work`: the first nonce that solves it, none
/// before it missed, or none at all after `limit` of them.
pub open spec fn found_by<K: Kernel>(
    kernel: &K,
    from: Context,
    work: u64,
    limit: u64,
    batch: Batch,
) -> bool {
    &&& batch.hashes <= limit
    &&& match batch.solution {
        Some(solution) => {
            &&& batch.hashes >= 1
            &&& all_miss(
                kernel,
                from.address()@,
                from.block(),
                from.counter(),
                work,
                (batch.hashes - 1) as nat,
            )
            &&& kernel.spec_score(
                layout(
                    from.address()@,
                    from.block(),
                    counter_after(from.counter(), (batch.hashes - 1) as nat),
                ),
            ) <= work
            &&& solution.address == from.address()
            &&& solution.nonce@ == nonce_bytes(
                counter_after(from.counter(), (batch.hashes - 1) as nat),
            )
        },
        None => {
            &&& batch.hashes == limit
            &&& all_miss(kernel, from.address()@, from.block(), from.counter(), work, limit as nat)
        },
    }
}

/// Every solution that a search with the portable kernel finds solves the
/// target it was found for: the score of its message, address, block and
/// nonce, is no more than the work.
pub proof fn lemma_found_solves_target(from: Context, target: Target, limit: u64, batch: Batch)
    requires
        from.block() == hex_ascii(target.block.0@),
        found_by(&Unoptimized, from, target.work, limit, batch),
        batch.solution is Some,
    ensures
        batch.solution->0.address == from.address(),
        message_score(batch.solution->0.message(target.block)) <= target.work,
{
    let solution = batch.solution->0;
    let n = counter_after(from.counter(), (batch.hashes - 1) as nat);
    lemma_kernel_scores_solution(solution, target.block, n);
}

/// The largest work is solved at once: a search of at least one nonce
/// against a work of 48 set bits or more ends at its first nonce, with
/// the nonce of the counter it started from.
pub proof fn lemma_largest_work_is_solved_at_once<K: Kernel>(
    kernel: &K,
    from: Context,
    work: u64,
    limit: u64,
    batch: Batch,
)
    requires
        found_by(kernel, from, work, limit, batch),
        work >= 0xFFFF_FFFF_FFFF,
        limit >= 1,
    ensures
        batch.hashes == 1,
        batch.solution is Some,
        batch.solution->0.address == from.address(),
        batch.solution->0.nonce@ == nonce_bytes(from.counter()),
{
    kernel.lemma_score_fits(
        layout(from.address()@, from.block(), counter_after(from.counter(), 0)),
    );
    assert(counter_after(from.counter(), 0) == from.counter());
}

/// A worker whose receiver is lost scores nothing more: whatever the
/// state before, the state after the loss is the one in which a cycle
/// does nothing.
pub proof fn lemma_lost_receiver_ends_worker(state: WorkerState)
    ensures
        state.next(WorkerEvent::ReceiverLost) == WorkerState::Exited,
        state.next(WorkerEvent::SendFailed) == WorkerState::Exited,
        forall|event: WorkerEvent| WorkerState::Exited.next(event) == WorkerState::Exited,
{
}

} // verus!
