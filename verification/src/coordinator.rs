//! What the coordinator decides between the node and the workers.

use crate::address::Address;
use crate::block::Block;
use crate::rate::{rate_text, Elapsed, HashRate};
use crate::target::Target;
use crate::text::{same_text, text_of};
use vstd::prelude::*;
use vstd::string::*;

verus! {

/// A message from the node.
#[derive(Debug, Clone, PartialEq, Eq)]
#[allow(inconsistent_fields)]
pub enum ServerMessage {
    /// A message containing a mining target.
    Target { msg_type: String, block: Block, work: u64 },
    /// A message that only keeps the connection alive.
    KeepAlive,
    /// Any other message type.
    Unknown { msg_type: Option<String> },
}

impl ServerMessage {
    /// The target that this message carries, if it carries one.
    pub fn as_target(&self) -> (target: Option<Target>)
        ensures
            target == (match self {
                ServerMessage::Target { block, work, .. } => Some(
                    (Target { work: *work, block: block.short_hash }),
                ),
                _ => None,
            }),
    {
        match self {
            ServerMessage::Target { block, work, .. } => Some(
                Target { work: *work, block: block.short_hash },
            ),
            _ => None,
        }
    }
}

/// Where the coordinator stands in its life.
#[derive(Debug, Clone, Copy, PartialEq, Eq, Structural)]
pub enum CoordinatorState {
    /// The workers are not spawned yet.
    Starting,
    /// Targets go out to the workers and solutions come in.
    Active,
    /// The mailboxes are closed, the workers come to an end.
    Draining,
    /// All workers have joined.
    Exited,
}

/// What can happen to the coordinator.
#[derive(Debug, Clone, Copy, PartialEq, Eq)]
pub enum CoordinatorEvent {
    /// All workers are spawned.
    WorkersSpawned,
    /// The node closed the connection.
    NodeClosed,
    /// A solution could not be forwarded to the node.
    ForwardFailed,
    /// All workers have joined.
    WorkersJoined,
}

impl CoordinatorState {
    /// The state after an event. Events that do not belong to a state
    /// leave it as it is.
    pub open spec fn next(self, event: CoordinatorEvent) -> CoordinatorState {
        match (self, event) {
            (CoordinatorState::Starting, CoordinatorEvent::WorkersSpawned) => CoordinatorState::Active,
            (CoordinatorState::Active, CoordinatorEvent::NodeClosed) => CoordinatorState::Draining,
            (CoordinatorState::Active, CoordinatorEvent::ForwardFailed) => CoordinatorState::Draining,
            (CoordinatorState::Draining, CoordinatorEvent::WorkersJoined) => CoordinatorState::Exited,
            (state, _) => state,
        }
    }

    /// The state after an event.
    pub fn step(self, event: CoordinatorEvent) -> (state: CoordinatorState)
        ensures
            state == self.next(event),
    {
        match (self, event) {
            (CoordinatorState::Starting, CoordinatorEvent::WorkersSpawned) => CoordinatorState::Active,
            (CoordinatorState::Active, CoordinatorEvent::NodeClosed) => CoordinatorState::Draining,
            (CoordinatorState::Active, CoordinatorEvent::ForwardFailed) => CoordinatorState::Draining,
            (CoordinatorState::Draining, CoordinatorEvent::WorkersJoined) => CoordinatorState::Exited,
            (state, _) => state,
        }
    }

    /// Whether the mailboxes are to be closed on entering this state from
    /// `before`: on the way from active to draining.
    pub fn closes_mailboxes(self, before: CoordinatorState) -> (closes: bool)
        ensures
            closes == (before == CoordinatorState::Active && self == CoordinatorState::Draining),
    {
        before == CoordinatorState::Active && self == CoordinatorState::Draining
    }
}

/// The coordinator's own record: whom it mines for, and what was mined.
#[derive(Debug, Clone, Copy)]
pub struct Coordinator {
    /// The address mined for.
    pub address: Address,
    /// The value of the blocks mined for the address so far.
    pub mined: u64,
    /// Where the coordinator stands.
    pub state: CoordinatorState,
}

/// Whether a target message tells of a block mined for `address`: the node
/// answers a submission with a message of type `response` that names the
/// block found.
pub open spec fn is_own_block(address: Address, msg_type: Seq<char>, block: Block) -> bool {
    address@ == block.address@ && msg_type == "response"@
}

impl Coordinator {
    /// A coordinator for `address`, with nothing mined and no workers yet.
    pub fn new(address: Address) -> (coordinator: Coordinator)
        ensures
            coordinator.address == address,
            coordinator.mined == 0,
            coordinator.state == CoordinatorState::Starting,
    {
        Coordinator { address, mined: 0, state: CoordinatorState::Starting }
    }

    /// Take in an event.
    pub fn on_event(&mut self, event: CoordinatorEvent) -> (closes: bool)
        ensures
            final(self).state == old(self).state.next(event),
            final(self).address == old(self).address,
            final(self).mined == old(self).mined,
            closes == (old(self).state == CoordinatorState::Active && final(self).state
                == CoordinatorState::Draining),
    {
        let before = self.state;
        self.state = before.step(event);
        self.state.closes_mailboxes(before)
    }

    /// Take in a message from the node: the target to post to every
    /// worker, if it carries one. The value of a block mined for the
    /// address is added to what was mined, which stops at the largest
    /// number it can hold.
    pub fn on_message(&mut self, message: &ServerMessage) -> (target: Option<Target>)
        ensures
            final(self).address == old(self).address,
            final(self).state == old(self).state,
            match message {
                ServerMessage::Target { msg_type, block, work } => {
                    &&& target == Some((Target { work: *work, block: block.short_hash }))
                    &&& final(self).mined == (if !is_own_block(
                        old(self).address,
                        msg_type@,
                        *block,
                    ) {
                        old(self).mined as int
                    } else if old(self).mined + block.value > u64::MAX {
                        u64::MAX as int
                    } else {
                        old(self).mined + block.value
                    })
                },
                _ => target is None && final(self).mined == old(self).mined,
            },
    {
        match message {
            ServerMessage::Target { msg_type, block, work } => {
                if self.address.same_as(&block.address) && same_text(msg_type.as_str(), "response") {
                    let value: u64 = block.value as u64;
                    if self.mined > u64::MAX - value {
                        self.mined = u64::MAX;
                    } else {
                        self.mined = self.mined + value;
                    }
                }
                Some(Target { work: *work, block: block.short_hash })
            },
            _ => None,
        }
    }

    /// The rate to report on a tick: the hashes counted since the last
    /// one over the time since then, with two digits after the point.
    pub fn on_tick(&self, hashes: usize, elapsed: Elapsed) -> (rate: String)
        ensures
            rate@ == text_of(rate_text(hashes as nat, elapsed.total_nanos(), 2)),
    {
        let rate = HashRate { hashes, elapsed };
        rate.to_string()
    }
}

} // verus!
