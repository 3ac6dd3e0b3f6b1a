//! How targets reach a worker: a mailbox of one slot, in which a new
//! target overwrites the one before it.

use crate::hexcode::hex_ascii;
use crate::target::Target;
use vstd::prelude::*;

verus! {

/// A marker value used to indicate that mining should stop.
#[derive(Debug, Clone, Copy, PartialEq, Eq)]
pub struct StopMining;

/// What a worker learns when it looks for its target.
#[derive(Debug, Clone, Copy, PartialEq, Eq)]
pub enum CurrentTarget {
    /// A target that the worker has not seen before.
    New(Target),
    /// Nothing was posted since the worker took up this target.
    Unchanged(Target),
    /// The mailbox is closed.
    StopMining,
}

impl CurrentTarget {
    /// The target to mine on, new or not, unless mining stops.
    pub fn target(self) -> (r: Result<Target, StopMining>)
        ensures
            r == (match self {
                CurrentTarget::New(target) | CurrentTarget::Unchanged(target) => Ok::<
                    Target,
                    StopMining,
                >(target),
                CurrentTarget::StopMining => Err::<Target, StopMining>(StopMining),
            }),
    {
        match self {
            CurrentTarget::New(target) => Ok(target),
            CurrentTarget::Unchanged(target) => Ok(target),
            CurrentTarget::StopMining => Err(StopMining),
        }
    }

    /// The target in the form in which it enters the hashed message: the
    /// twelve hexadecimal digits of the block and the work, or nothing
    /// where mining stops.
    pub fn into_raw(self) -> (raw: Option<([u8; 12], u64)>)
        ensures
            match (self, raw) {
                (
                    CurrentTarget::New(target) | CurrentTarget::Unchanged(target),
                    Some((block, work)),
                ) => block@ == hex_ascii(target.block.0@) && work == target.work,
                (CurrentTarget::StopMining, None) => true,
                _ => false,
            },
    {
        match self {
            CurrentTarget::New(target) => Some((target.block.hex_bytes(), target.work)),
            CurrentTarget::Unchanged(target) => Some((target.block.hex_bytes(), target.work)),
            CurrentTarget::StopMining => None,
        }
    }
}

/// What a target mailbox holds.
pub struct MailboxView {
    /// What was posted last and not read yet: a target, or the request to stop.
    pub posted: Option<Option<Target>>,
    /// The target that the reader took up last.
    pub seen: Option<Target>,
}

impl MailboxView {
    /// The mailbox after `value` was posted: it overwrites what was there.
    pub open spec fn post(self, value: Option<Target>) -> MailboxView {
        MailboxView { posted: Some(value), seen: self.seen }
    }

    /// What a read returns: the posted target as new, the stop once posted,
    /// the target seen before where nothing was posted since, and nothing
    /// where there never was a target.
    pub open spec fn reading(self) -> Option<CurrentTarget> {
        match self.posted {
            Some(Some(target)) => Some(CurrentTarget::New(target)),
            Some(None) => Some(CurrentTarget::StopMining),
            None => match self.seen {
                Some(target) => Some(CurrentTarget::Unchanged(target)),
                None => None,
            },
        }
    }

    /// The mailbox after a read: a posted target is taken up, a posted stop stays.
    pub open spec fn after_read(self) -> MailboxView {
        match self.posted {
            Some(Some(target)) => MailboxView { posted: None, seen: Some(target) },
            _ => self,
        }
    }
}

/// The mailbox of one worker. The coordinator posts, the worker reads.
#[derive(Debug, Clone, Copy)]
pub struct TargetMailbox {
    posted: Option<Option<Target>>,
    seen: Option<Target>,
}

impl View for TargetMailbox {
    type V = MailboxView;

    closed spec fn view(&self) -> MailboxView {
        MailboxView { posted: self.posted, seen: self.seen }
    }
}

impl TargetMailbox {
    /// An empty mailbox: nothing posted, nothing seen.
    pub fn new() -> (mailbox: TargetMailbox)
        ensures
            mailbox@ == (MailboxView { posted: None, seen: None }),
    {
        TargetMailbox { posted: None, seen: None }
    }

    /// Post a target, or with `None` the request to stop. What was posted
    /// before and not read is lost.
    pub fn post(&mut self, value: Option<Target>)
        ensures
            final(self)@ == old(self)@.post(value),
    {
        self.posted = Some(value);
    }

    /// Whether a read has something to return: it has not where no target
    /// was ever posted. A worker waits for this before its first read.
    pub fn is_ready(&self) -> (ready: bool)
        ensures
            ready == self@.reading().is_some(),
    {
        self.posted.is_some() || self.seen.is_some()
    }

    /// Get the current target without waiting.
    pub fn try_read(&mut self) -> (read: Option<CurrentTarget>)
        ensures
            read == old(self)@.reading(),
            final(self)@ == old(self)@.after_read(),
    {
        match self.posted {
            Some(Some(target)) => {
                self.posted = None;
                self.seen = Some(target);
                Some(CurrentTarget::New(target))
            },
            Some(None) => Some(CurrentTarget::StopMining),
            None => match self.seen {
                Some(target) => Some(CurrentTarget::Unchanged(target)),
                None => None,
            },
        }
    }
}

/// Post `value` to every mailbox.
pub fn broadcast(mailboxes: &mut Vec<TargetMailbox>, value: Option<Target>)
    ensures
        final(mailboxes)@.len() == old(mailboxes)@.len(),
        forall|i: int|
            0 <= i < old(mailboxes)@.len() ==> (#[trigger] final(mailboxes)@[i])@ == old(
                mailboxes,
            )@[i]@.post(value),
{
    let n: usize = mailboxes.len();
    let mut i: usize = 0;
    while i < n
        invariant
            i <= n,
            n == mailboxes@.len(),
            mailboxes@.len() == old(mailboxes)@.len(),
            forall|j: int| 0 <= j < i ==> (#[trigger] mailboxes@[j])@ == old(mailboxes)@[j]@.post(value),
            forall|j: int| i <= j < n ==> mailboxes@[j] == old(mailboxes)@[j],
        decreases n - i,
    {
        let mut mailbox = mailboxes[i];
        mailbox.post(value);
        mailboxes[i] = mailbox;
        i += 1;
    }
}

/// The latest target wins: of two targets posted with no read between
/// them, a read returns the second as new, and the read after that finds
/// it unchanged.
pub proof fn lemma_latest_target_wins(mailbox: MailboxView, first: Target, second: Target)
    ensures
        mailbox.post(Some(first)).post(Some(second)).reading() == Some(
            CurrentTarget::New(second),
        ),
        mailbox.post(Some(first)).post(Some(second)).after_read().reading() == Some(
            CurrentTarget::Unchanged(second),
        ),
{
}

/// Once the stop is posted, every read returns it until a target is posted.
pub proof fn lemma_stop_stays(mailbox: MailboxView)
    ensures
        mailbox.post(None).reading() == Some(CurrentTarget::StopMining),
        mailbox.post(None).after_read() == mailbox.post(None),
{
}

} // verus!
