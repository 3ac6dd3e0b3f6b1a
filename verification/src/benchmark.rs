//! What a miner sees of the program around it, and a stand-in for that
//! program which only takes the speeds.

use crate::address::Address;
use crate::block::ShortHash;
use crate::interface::StopMining;
use crate::rate::HashRate;
use crate::target::{Solution, Target};
use vstd::prelude::*;

verus! {

/// An interface for miners, allowing them to communicate with the rest of
/// the program and access necessary configuration values.
pub trait MinerInterface {
    /// Whether a speed can be reported to this interface as it is now.
    spec fn takes(&self, speed: HashRate) -> bool;

    /// Get the address to mine for.
    fn address(&self) -> Address;

    /// Get the prefix for the calling miner.
    ///
    /// The prefix is used to prevent multiple miners for the same address
    /// from evaluating the same hashes, and should be different for every
    /// miner. This value may change between calls, and miners should
    /// store it. Where an interface has none of its own, it is a random
    /// number.
    fn prefix(&self) -> u16 {
        crate::cpu::random_prefix()
    }

    /// Get the current mining target.
    fn target(&mut self) -> Result<Target, StopMining>;

    /// Attempt to submit the given solution.
    fn submit(&mut self, solution: Solution) -> Result<(), StopMining>;

    /// Report the current hash rate.
    fn hashes_completed(&mut self, speed: HashRate)
        requires
            old(self).takes(speed),
    ;
}

/// A miner interface that uses a fake address and target, ignores
/// submissions, and calls a given function with reported speeds.
pub struct BenchmarkInterface<F>(pub F);

impl<F: FnMut(HashRate)> MinerInterface for BenchmarkInterface<F> {
    /// A speed can be reported where the function given takes it.
    open spec fn takes(&self, speed: HashRate) -> bool {
        self.0.requires((speed,))
    }

    /// The fake address, `k123456789`.
    fn address(&self) -> (address: Address)
        ensures
            address@ == seq![0x6bu8, 0x31, 0x32, 0x33, 0x34, 0x35, 0x36, 0x37, 0x38, 0x39],
    {
        Address::from_ascii([0x6b, 0x31, 0x32, 0x33, 0x34, 0x35, 0x36, 0x37, 0x38, 0x39])
    }

    /// The prefix of the one miner of a benchmark: zero.
    fn prefix(&self) -> (prefix: u16)
        ensures
            prefix == 0,
    {
        0
    }

    /// The fake target: no work and the block of zeros, which no nonce
    /// is expected to solve.
    fn target(&mut self) -> (r: Result<Target, StopMining>)
        ensures
            match r {
                Ok(target) => target.work == 0 && target.block.0@ == Seq::new(6, |i: int| 0u8),
                Err(_) => false,
            },
    {
        let block = ShortHash([0u8; 6]);
        assert(block.0@ =~= Seq::new(6, |i: int| 0u8));
        Ok(Target { work: 0, block })
    }

    /// A submission is taken and ignored.
    fn submit(&mut self, solution: Solution) -> (r: Result<(), StopMining>)
        ensures
            r is Ok,
    {
        Ok(())
    }

    /// The speed goes to the function given.
    fn hashes_completed(&mut self, speed: HashRate)
        ensures
            call_ensures(old(self).0, (speed,), ()),
    {
        (self.0)(speed)
    }
}

} // verus!
