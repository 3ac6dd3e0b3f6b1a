//! What the host of a GPU miner decides: the arguments of a dispatch, and
//! the size of the next one.

use crate::address::Address;
use crate::block::ShortHash;
use crate::hexcode::hex_ascii;
use crate::input::counter_after;
use crate::interface::CurrentTarget;
use crate::kernels::unoptimized::message_score;
use crate::target::{Solution, Target};
use crate::worker::{WorkerEvent, WorkerState};
use vstd::arithmetic::power2::{lemma_pow2_unfold, pow2};
use vstd::prelude::*;

verus! {

/// The inputs of the compute program. Its layout must match the shader.
#[derive(Debug, Clone, Copy)]
pub struct MinerInputs {
    /// The address, then the twelve hexadecimal digits of the block.
    pub netstate: [u8; 22],
    /// Two bytes that tell this miner's nonces from those of others.
    pub prefix: [u8; 2],
    /// The largest score that solves the target.
    pub work: u64,
}

impl MinerInputs {
    /// The inputs for an address, a prefix and a target.
    pub fn new(address: Address, prefix: [u8; 2], target: Target) -> (inputs: MinerInputs)
        ensures
            inputs.netstate@ == address@ + hex_ascii(target.block.0@),
            inputs.prefix == prefix,
            inputs.work == target.work,
    {
        let mut netstate: [u8; 22] = [0u8; 22];
        let a = address.as_bytes();
        let mut i: usize = 0;
        while i < 10
            invariant
                i <= 10,
                forall|j: int| 0 <= j < i ==> netstate@[j] == a@[j],
            decreases 10 - i,
        {
            netstate[i] = a[i];
            i += 1;
        }
        assert(netstate@.subrange(0, 10) =~= address@);
        let mut inputs = MinerInputs { netstate, prefix, work: 0 };
        inputs.update_target(target);
        assert(inputs.netstate@ =~= inputs.netstate@.subrange(0, 10) + inputs.netstate@.subrange(
            10,
            22,
        ));
        inputs
    }

    /// Whether the work can be compared in 32 bits, as the compute program
    /// compares it.
    pub fn work_fits(&self) -> (fits: bool)
        ensures
            fits == (self.work <= u32::MAX),
    {
        self.work <= 0xffff_ffff
    }

    /// Take up a target: its work, and its block in the place after the address.
    pub fn update_target(&mut self, target: Target)
        ensures
            final(self).work == target.work,
            final(self).prefix == old(self).prefix,
            final(self).netstate@.subrange(0, 10) == old(self).netstate@.subrange(0, 10),
            final(self).netstate@.subrange(10, 22) == hex_ascii(target.block.0@),
    {
        let block = target.block.hex_bytes();
        let ghost before = self.netstate@;
        let mut i: usize = 0;
        while i < 12
            invariant
                i <= 12,
                self.prefix == old(self).prefix,
                forall|j: int| 0 <= j < 10 ==> self.netstate@[j] == before[j],
                forall|j: int| 0 <= j < i ==> self.netstate@[10 + j] == block@[j],
            decreases 12 - i,
        {
            self.netstate[10 + i] = block[i];
            i += 1;
        }
        self.work = target.work;
        assert(self.netstate@.subrange(0, 10) =~= before.subrange(0, 10));
        assert(self.netstate@.subrange(10, 22) =~= block@);
    }
}

/// The state that the compute program reads and writes. Its layout must
/// match the shader.
#[derive(Debug, Clone, Copy, PartialEq, Eq)]
pub struct MinerState {
    /// The counter of the first work item.
    pub offset: u32,
    /// Zero, or the work item that found a solution.
    pub solution: u32,
}

impl MinerState {
    /// The state before a dispatch that starts at `offset`: no solution yet.
    pub fn with_offset(offset: u32) -> (state: MinerState)
        ensures
            state.offset == offset,
            state.solution == 0,
    {
        MinerState { offset, solution: 0 }
    }
}

/// What a dispatch left in the solution buffer: the buffer is zero before
/// a dispatch, and a work item that finds a solution writes its nonce there.
pub fn solution_in(buffer: &[u8; 11]) -> (nonce: Option<[u8; 11]>)
    ensures
        nonce == (if buffer@ == Seq::new(11, |i: int| 0u8) {
            None
        } else {
            Some(*buffer)
        }),
{
    let mut i: usize = 0;
    while i < 11
        invariant
            i <= 11,
            forall|j: int| 0 <= j < i ==> buffer@[j] == 0,
        decreases 11 - i,
    {
        if buffer[i] != 0 {
            assert(Seq::new(11, |i: int| 0u8)[i as int] != buffer@[i as int]);
            return Some(*buffer);
        }
        i += 1;
    }
    assert(buffer@ =~= Seq::new(11, |i: int| 0u8));
    None
}

/// The counter at which the next dispatch starts, after one of `work_size`
/// items that started at `offset`. It wraps at the end of the counters.
pub fn next_offset(offset: u64, work_size: u64) -> (next: u64)
    ensures
        next == counter_after(offset, work_size as nat),
{
    offset.wrapping_add(work_size)
}

/// The batch size on the grid of the multiples of 32 for a wanted size:
/// `scaled`, but no more than `max_worksize`, down to the next multiple of
/// 32, and no less than 32.
pub open spec fn on_grid(scaled: u32, max_worksize: u32) -> int {
    let capped = if scaled <= max_worksize {
        scaled
    } else {
        max_worksize
    };
    if capped - capped % 32 < 32 {
        32
    } else {
        capped - capped % 32
    }
}

/// A batch size on the grid of the multiples of 32: `scaled`, but no more
/// than `max_worksize`, down to the next multiple of 32, and no less
/// than 32.
pub fn round_worksize(scaled: u32, max_worksize: u32) -> (worksize: u32)
    ensures
        worksize == on_grid(scaled, max_worksize),
        worksize % 32 == 0,
{
    let capped: u32 = if scaled <= max_worksize {
        scaled
    } else {
        max_worksize
    };
    let rounded: u32 = capped - capped % 32;
    if rounded < 32 {
        32
    } else {
        rounded
    }
}

/// How long a dispatch took, held against the window around the target time.
#[derive(Debug, Clone, Copy, PartialEq, Eq)]
pub enum Pace {
    /// Shorter than the window allows.
    TooFast,
    /// Within the window.
    OnTarget,
    /// Longer than the window allows.
    TooSlow,
}

/// The window of cycle times that leave the batch size as it is, in nanoseconds.
#[derive(Debug, Clone, Copy, PartialEq, Eq)]
pub struct CycleWindow {
    /// The shortest time within the window.
    pub lo: u128,
    /// The longest time within the window.
    pub hi: u128,
}

impl CycleWindow {
    /// The window around a target time: from half of it to twice of it.
    pub fn around(target_nanos: u64) -> (window: CycleWindow)
        ensures
            window.lo == target_nanos / 2,
            window.hi == target_nanos * 2,
    {
        CycleWindow { lo: (target_nanos / 2) as u128, hi: (target_nanos as u128) * 2 }
    }

    /// The pace of a dispatch that took `elapsed_nanos`: too fast below the
    /// window, too slow above it.
    pub open spec fn pace(&self, elapsed_nanos: u128) -> Pace {
        if elapsed_nanos < self.lo {
            Pace::TooFast
        } else if elapsed_nanos > self.hi {
            Pace::TooSlow
        } else {
            Pace::OnTarget
        }
    }

    /// Hold the time that a dispatch took against the window.
    pub fn classify(&self, elapsed_nanos: u128) -> (pace: Pace)
        ensures
            pace == self.pace(elapsed_nanos),
    {
        if elapsed_nanos < self.lo {
            Pace::TooFast
        } else if elapsed_nanos > self.hi {
            Pace::TooSlow
        } else {
            Pace::OnTarget
        }
    }
}

/// The batch size after a dispatch of `work_size` items at the given pace:
/// doubled after a fast one, but no more than `max`; halved after a slow
/// one, but no less than `min`; unchanged otherwise.
pub open spec fn adjusted(work_size: nat, pace: Pace, min: nat, max: nat) -> nat {
    match pace {
        Pace::TooFast => if work_size * 2 <= max {
            work_size * 2
        } else {
            max
        },
        Pace::TooSlow => if work_size / 2 >= min {
            work_size / 2
        } else {
            min
        },
        Pace::OnTarget => work_size,
    }
}

/// Whether `n` is a power of two.
pub open spec fn is_power_of_two(n: nat) -> bool {
    exists|k: nat| n == pow2(k)
}

/// The batch size of a GPU miner, adapted after each dispatch.
#[derive(Debug, Clone, Copy, PartialEq, Eq)]
pub struct BatchSizer {
    /// The number of work items of the next dispatch.
    pub work_size: u64,
    /// The smallest batch size.
    pub min_work_size: u64,
    /// The largest batch size.
    pub max_work_size: u64,
}

impl BatchSizer {
    /// A sizer that starts at the smallest batch size.
    pub fn new(min_work_size: u64, max_work_size: u64) -> (sizer: BatchSizer)
        ensures
            sizer.work_size == min_work_size,
            sizer.min_work_size == min_work_size,
            sizer.max_work_size == max_work_size,
    {
        BatchSizer { work_size: min_work_size, min_work_size, max_work_size }
    }

    /// Adapt the batch size to the pace of the last dispatch.
    pub fn adjust(&mut self, pace: Pace)
        ensures
            final(self).work_size == adjusted(
                old(self).work_size as nat,
                pace,
                old(self).min_work_size as nat,
                old(self).max_work_size as nat,
            ),
            final(self).min_work_size == old(self).min_work_size,
            final(self).max_work_size == old(self).max_work_size,
    {
        match pace {
            Pace::TooFast => {
                if self.work_size <= self.max_work_size / 2 {
                    self.work_size = self.work_size * 2;
                } else {
                    self.work_size = self.max_work_size;
                }
            },
            Pace::TooSlow => {
                if self.work_size / 2 >= self.min_work_size {
                    self.work_size = self.work_size / 2;
                } else {
                    self.work_size = self.min_work_size;
                }
            },
            Pace::OnTarget => {},
        }
    }

    /// Adapt the batch size to the time that the last dispatch took.
    pub fn after_cycle(&mut self, window: &CycleWindow, elapsed_nanos: u128)
        ensures
            final(self).work_size == adjusted(
                old(self).work_size as nat,
                window.pace(elapsed_nanos),
                old(self).min_work_size as nat,
                old(self).max_work_size as nat,
            ),
            final(self).min_work_size == old(self).min_work_size,
            final(self).max_work_size == old(self).max_work_size,
    {
        let pace = window.classify(elapsed_nanos);
        self.adjust(pace);
    }
}

/// The arguments of one dispatch of the compute program.
#[derive(Debug, Clone, Copy, PartialEq, Eq)]
pub struct Dispatch {
    /// The address, then the twelve hexadecimal digits of the block.
    pub header: [u8; 22],
    /// The counter of the first work item.
    pub base: u64,
    /// The largest score that solves the target.
    pub work: u64,
    /// The number of work items.
    pub work_size: u64,
}

/// What the host takes from one dispatch.
#[derive(Debug, Clone, Copy, PartialEq, Eq)]
pub struct Cycle {
    /// The solution to hand in, if the dispatch left one that holds.
    pub solution: Option<Solution>,
    /// The number of nonces that the dispatch scored.
    pub hashes: u64,
}

/// The host side of one GPU worker.
#[derive(Debug, Clone, Copy)]
pub struct GpuWorker {
    /// The address mined for.
    pub address: Address,
    /// The target mined on; it counts once the worker is running.
    pub target: Target,
    /// The counter at which the next dispatch starts.
    pub offset: u64,
    /// The size of the next dispatch.
    pub sizer: BatchSizer,
    /// The window of cycle times that leave the size as it is.
    pub window: CycleWindow,
    /// Where the worker stands in its life.
    pub state: WorkerState,
}

impl GpuWorker {
    /// A worker for `address` that starts at the counter `offset`, has no
    /// target yet, and keeps its dispatches between `min_work_size` and
    /// `max_work_size` items and around `target_nanos` in time.
    pub fn new(
        address: Address,
        offset: u64,
        min_work_size: u64,
        max_work_size: u64,
        target_nanos: u64,
    ) -> (worker: GpuWorker)
        ensures
            worker.address == address,
            worker.offset == offset,
            worker.state == WorkerState::Idle,
            worker.sizer.work_size == min_work_size,
            worker.sizer.min_work_size == min_work_size,
            worker.sizer.max_work_size == max_work_size,
            worker.window.lo == target_nanos / 2,
            worker.window.hi == target_nanos * 2,
    {
        GpuWorker {
            address,
            target: Target { work: 0, block: ShortHash([0u8; 6]) },
            offset,
            sizer: BatchSizer::new(min_work_size, max_work_size),
            window: CycleWindow::around(target_nanos),
            state: WorkerState::Idle,
        }
    }

    /// Take in what a read of the mailbox returned: a new target is taken
    /// up, unless the worker has exited.
    pub fn on_target(&mut self, read: CurrentTarget)
        ensures
            final(self).state == old(self).state.next(WorkerEvent::Target(read)),
            final(self).target == (match read {
                CurrentTarget::New(target) if old(self).state != WorkerState::Exited => target,
                _ => old(self).target,
            }),
            final(self).address == old(self).address,
            final(self).offset == old(self).offset,
            final(self).sizer == old(self).sizer,
            final(self).window == old(self).window,
    {
        let state = self.state.step(WorkerEvent::Target(read));
        match read {
            CurrentTarget::New(target) => {
                if self.state != WorkerState::Exited {
                    self.target = target;
                }
            },
            _ => {},
        }
        self.state = state;
    }

    /// Take in whether a solution was handed over: a worker whose
    /// solutions nobody receives exits.
    pub fn on_send(&mut self, delivered: bool)
        ensures
            final(self).state == (if delivered {
                old(self).state
            } else {
                old(self).state.next(WorkerEvent::SendFailed)
            }),
            final(self).target == old(self).target,
            final(self).address == old(self).address,
            final(self).offset == old(self).offset,
            final(self).sizer == old(self).sizer,
            final(self).window == old(self).window,
    {
        if !delivered {
            self.state = self.state.step(WorkerEvent::SendFailed);
        }
    }

    /// Take in that the receiver of the solutions is gone: the worker exits.
    pub fn on_receiver_lost(&mut self)
        ensures
            final(self).state == WorkerState::Exited,
            final(self).target == old(self).target,
            final(self).address == old(self).address,
            final(self).offset == old(self).offset,
            final(self).sizer == old(self).sizer,
            final(self).window == old(self).window,
    {
        self.state = self.state.step(WorkerEvent::ReceiverLost);
    }

    /// The arguments of the next dispatch, for a worker that is running.
    pub fn next_dispatch(&self) -> (dispatch: Option<Dispatch>)
        ensures
            dispatch is Some <==> self.state == WorkerState::Running,
            dispatch is Some ==> {
                &&& dispatch->0.header@ == self.address@ + hex_ascii(self.target.block.0@)
                &&& dispatch->0.base == self.offset
                &&& dispatch->0.work == self.target.work
                &&& dispatch->0.work_size == self.sizer.work_size
            },
    {
        if self.state != WorkerState::Running {
            return None;
        }
        let inputs = MinerInputs::new(self.address, [0u8; 2], self.target);
        Some(
            Dispatch {
                header: inputs.netstate,
                base: self.offset,
                work: inputs.work,
                work_size: self.sizer.work_size,
            },
        )
    }

    /// Take in the end of a dispatch: what it left in the solution buffer,
    /// and the time it took. The nonce in the buffer is handed in only if
    /// it solves the target; the next dispatch starts after the items of
    /// this one, and its size follows the time.
    pub fn after_dispatch(&mut self, buffer: &[u8; 11], elapsed_nanos: u128) -> (cycle: Cycle)
        ensures
            final(self).address == old(self).address,
            final(self).target == old(self).target,
            final(self).state == old(self).state,
            final(self).window == old(self).window,
            old(self).state != WorkerState::Running ==> *final(self) == *old(self) && cycle
                == (Cycle { solution: None, hashes: 0 }),
            old(self).state == WorkerState::Running ==> {
                &&& cycle.hashes == old(self).sizer.work_size
                &&& final(self).offset == counter_after(
                    old(self).offset,
                    old(self).sizer.work_size as nat,
                )
                &&& final(self).sizer.work_size == adjusted(
                    old(self).sizer.work_size as nat,
                    old(self).window.pace(elapsed_nanos),
                    old(self).sizer.min_work_size as nat,
                    old(self).sizer.max_work_size as nat,
                )
                &&& final(self).sizer.min_work_size == old(self).sizer.min_work_size
                &&& final(self).sizer.max_work_size == old(self).sizer.max_work_size
                &&& cycle.solution == (if holds(old(self).address, old(self).target, buffer@) {
                    Some((Solution { address: old(self).address, nonce: *buffer }))
                } else {
                    None
                })
            },
    {
        if self.state != WorkerState::Running {
            return Cycle { solution: None, hashes: 0 };
        }
        let hashes: u64 = self.sizer.work_size;
        let solution = match solution_in(buffer) {
            Some(nonce) => {
                let candidate = Solution { address: self.address, nonce };
                if self.target.is_solved_by(&candidate) {
                    Some(candidate)
                } else {
                    None
                }
            },
            None => None,
        };
        self.offset = next_offset(self.offset, hashes);
        let window = self.window;
        self.sizer.after_cycle(&window, elapsed_nanos);
        Cycle { solution, hashes }
    }
}

/// Whether a solution buffer holds a nonce that solves the target for the
/// address: it is not zero, and the score of the message of address,
/// block and nonce is no more than the work.
pub open spec fn holds(address: Address, target: Target, buffer: Seq<u8>) -> bool {
    buffer != Seq::new(11, |i: int| 0u8) && message_score(
        address@ + hex_ascii(target.block.0@) + buffer,
    ) <= target.work
}

/// A batch size within its bounds stays within them.
pub proof fn lemma_adjusted_in_bounds(work_size: nat, pace: Pace, min: nat, max: nat)
    requires
        min <= work_size <= max,
    ensures
        min <= adjusted(work_size, pace, min, max) <= max,
{
}

/// On the grid of the powers of two a batch size stays on it: where the
/// size and both bounds are powers of two, so is the adjusted size.
pub proof fn lemma_adjusted_on_grid(work_size: nat, pace: Pace, min: nat, max: nat)
    requires
        is_power_of_two(work_size),
        is_power_of_two(min),
        is_power_of_two(max),
    ensures
        is_power_of_two(adjusted(work_size, pace, min, max)),
{
    let k = choose|k: nat| work_size == pow2(k);
    match pace {
        Pace::TooFast => {
            if work_size * 2 <= max {
                lemma_pow2_unfold(k + 1);
                assert(work_size * 2 == pow2(k + 1));
            }
        },
        Pace::TooSlow => {
            if work_size / 2 >= min {
                if k == 0 {
                    vstd::arithmetic::power2::lemma2_to64();
                    let m = choose|m: nat| min == pow2(m);
                    vstd::arithmetic::power2::lemma_pow2_pos(m);
                } else {
                    lemma_pow2_unfold(k);
                    assert(work_size / 2 == pow2((k - 1) as nat));
                }
            }
        },
        Pace::OnTarget => {},
    }
}

} // verus!
