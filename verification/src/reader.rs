//! The reader of one source: it reads batches of events from its device and
//! publishes each event, in the order read, to the channel of the source. A
//! read or a publication that fails ends the reader for good; nothing is
//! tried again.

use vstd::prelude::*;

verus! {

/// What a reader does next.
#[derive(Debug, Clone, Copy, PartialEq, Eq, Structural)]
pub enum ReaderStep {
    /// Read the next batch from the device.
    Read,
    /// Publish event `index` of the batch of `count` events read last.
    Publish { index: usize, count: usize },
    /// End: the device is gone, or nobody receives any more.
    Stop,
}

/// The step that follows a read of `count` events.
pub open spec fn step_after_read(count: usize) -> ReaderStep {
    if count == 0 {
        ReaderStep::Read
    } else {
        ReaderStep::Publish { index: 0, count }
    }
}

/// The step that follows the publication of event `index` of `count`.
pub open spec fn step_after_publish(index: usize, count: usize) -> ReaderStep {
    if index + 1 < count {
        ReaderStep::Publish { index: (index + 1) as usize, count }
    } else {
        ReaderStep::Read
    }
}

/// What follows a read: on failure the reader stops; an empty batch is
/// followed by another read, any other by the publication of its first
/// event.
pub fn after_read<X>(read: Result<usize, X>) -> (next: ReaderStep)
    ensures
        next == match read {
            Ok(count) => step_after_read(count),
            Err(_) => ReaderStep::Stop,
        },
{
    match read {
        Err(_) => ReaderStep::Stop,
        Ok(count) => if count == 0 {
            ReaderStep::Read
        } else {
            ReaderStep::Publish { index: 0, count }
        },
    }
}

/// What follows the publication of event `index` of a batch of `count`: on
/// failure the reader stops; else it publishes the next event of the batch,
/// or reads again once the batch is through.
pub fn after_publish<X>(index: usize, count: usize, sent: Result<(), X>) -> (next: ReaderStep)
    requires
        index < count,
    ensures
        next == match sent {
            Ok(_) => step_after_publish(index, count),
            Err(_) => ReaderStep::Stop,
        },
{
    match sent {
        Err(_) => ReaderStep::Stop,
        Ok(_) => if index + 1 < count {
            ReaderStep::Publish { index: index + 1, count }
        } else {
            ReaderStep::Read
        },
    }
}

/// The step a reader is at once a batch of `count` events is read and its
/// first `done` events are published.
pub open spec fn step_in_batch(count: usize, done: nat) -> ReaderStep
    decreases done,
{
    if done == 0 {
        step_after_read(count)
    } else {
        match step_in_batch(count, (done - 1) as nat) {
            ReaderStep::Publish { index, count } => step_after_publish(index, count),
            other => other,
        }
    }
}

/// A reader publishes the events of a batch one by one in the order read:
/// with `done` of them published, the next is event `done`; with all of them
/// published, it reads again.
pub proof fn lemma_publishes_in_read_order(count: usize, done: nat)
    requires
        done <= count,
    ensures
        done < count ==> step_in_batch(count, done) == (ReaderStep::Publish {
            index: done as usize,
            count,
        }),
        done == count ==> step_in_batch(count, done) == ReaderStep::Read,
    decreases done,
{
    if done > 0 {
        lemma_publishes_in_read_order(count, (done - 1) as nat);
    }
}

} // verus!
