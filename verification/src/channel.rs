//! The channel on which workers hand their solutions to the coordinator.

use crate::target::Solution;
use vstd::prelude::*;

verus! {

/// `crossbeam_channel::Sender`, the sending side of a channel, declared so
/// that a worker can be given one. Nothing is known of what it holds.
#[verifier::external_type_specification]
#[verifier::external_body]
#[verifier::reject_recursive_types(T)]
pub struct ExSender<T>(crossbeam_channel::Sender<T>);

/// `crossbeam_channel::Sender::send`, which waits while the channel is
/// full and somebody may still receive. The result tells whether the
/// message went into the channel; it did not if nobody receives any more.
/// Nothing is claimed of it: it depends on what the other side does.
#[verifier::external_body]
pub(crate) fn send_solution(solutions: &crossbeam_channel::Sender<Solution>, solution: Solution) -> (delivered:
    bool) {
    solutions.send(solution).is_ok()
}

} // verus!
