//! The channels between the readers and the forwarding loop. Each source has
//! a channel of its own: its reader publishes to it, and it hands the loop
//! what was published, oldest first. This file states what the loop writes
//! when readers publish and the loop receives in any interleaving, and
//! proves that the events of one source are written in the order in which
//! its reader published them.

use crate::proxydev::{react, ActionView, Wakeup};
use vstd::prelude::*;

verus! {

/// The channels at one moment. A channel is known by a number.
pub struct Channels<E> {
    /// For each channel, the events published to it and not yet handed to
    /// the loop, oldest first. A channel without an entry holds nothing.
    pub queued: Map<nat, Seq<E>>,
    /// The channel of each source that the loop waits on, in the order of
    /// the loop's list.
    pub waiting: Seq<nat>,
}

/// One move of a reader or of the loop.
pub enum Move<E> {
    /// The reader that owns the channel publishes an event to it.
    Publish(nat, E),
    /// The source at this place of the loop's list wakes the loop with its
    /// oldest event.
    Deliver(usize),
    /// The loop rebuilds and now waits on these channels.
    Rebuild(Seq<nat>),
}

/// An event together with the channel that it came through.
pub type Passed<E> = (nat, E);

impl<E> Channels<E> {
    /// What waits in channel `ch`, oldest first.
    pub open spec fn queue(self, ch: nat) -> Seq<E> {
        if self.queued.contains_key(ch) {
            self.queued[ch]
        } else {
            Seq::empty()
        }
    }

    /// The source at place `i` of the loop's list has an event for the loop.
    pub open spec fn ready(self, i: usize) -> bool {
        i < self.waiting.len() && self.queue(self.waiting[i as int]).len() > 0
    }

    /// The wakeup by which the source at place `i` hands over its oldest
    /// event.
    pub open spec fn wakeup(self, i: usize) -> Wakeup<E> {
        Wakeup::Event(i, self.queue(self.waiting[i as int]).first())
    }

    /// The channels after one move. A source that has no event cannot wake
    /// the loop with one: such a move changes nothing.
    pub open spec fn next(self, m: Move<E>) -> Channels<E> {
        match m {
            Move::Publish(ch, event) => Channels {
                queued: self.queued.insert(ch, self.queue(ch).push(event)),
                waiting: self.waiting,
            },
            Move::Deliver(i) => if self.ready(i) {
                let ch = self.waiting[i as int];
                Channels {
                    queued: self.queued.insert(ch, self.queue(ch).drop_first()),
                    waiting: self.waiting,
                }
            } else {
                self
            },
            Move::Rebuild(waiting) => Channels { queued: self.queued, waiting },
        }
    }

    /// What the loop writes in the move, with the channel that the event
    /// came through: what `react` makes of the wakeup.
    pub open spec fn written(self, m: Move<E>) -> Option<Passed<E>> {
        match m {
            Move::Deliver(i) => if self.ready(i) {
                match react(Seq::empty(), self.wakeup(i)) {
                    ActionView::Write(event) => Some((self.waiting[i as int], event)),
                    _ => None,
                }
            } else {
                None
            },
            _ => None,
        }
    }
}

/// The channels after the moves of a run.
pub open spec fn run<E>(start: Channels<E>, moves: Seq<Move<E>>) -> Channels<E>
    decreases moves.len(),
{
    if moves.len() == 0 {
        start
    } else {
        run(start, moves.drop_last()).next(moves.last())
    }
}

/// What the loop writes in a run, in order.
pub open spec fn writes<E>(start: Channels<E>, moves: Seq<Move<E>>) -> Seq<Passed<E>>
    decreases moves.len(),
{
    if moves.len() == 0 {
        Seq::empty()
    } else {
        let before = writes(start, moves.drop_last());
        match run(start, moves.drop_last()).written(moves.last()) {
            Some(p) => before.push(p),
            None => before,
        }
    }
}

/// The events that came through channel `ch` among `log`, in the order of
/// `log`.
pub open spec fn through<E>(log: Seq<Passed<E>>, ch: nat) -> Seq<E>
    decreases log.len(),
{
    if log.len() == 0 {
        Seq::empty()
    } else {
        let before = through(log.drop_last(), ch);
        if log.last().0 == ch {
            before.push(log.last().1)
        } else {
            before
        }
    }
}

/// The events that the reader of channel `ch` publishes in a run, in order.
pub open spec fn published<E>(moves: Seq<Move<E>>, ch: nat) -> Seq<E>
    decreases moves.len(),
{
    if moves.len() == 0 {
        Seq::empty()
    } else {
        let before = published(moves.drop_last(), ch);
        match moves.last() {
            Move::Publish(to, event) => if to == ch {
                before.push(event)
            } else {
                before
            },
            _ => before,
        }
    }
}

/// Whatever the interleaving of readers and loop, and however often the
/// loop rebuilds: what has been written for a source, followed by what still
/// waits in its channel, is what waited there at the start followed by what
/// its reader has published since. So the events of one source are written
/// in the order in which they were published, each once and unchanged, and
/// none before an earlier one.
pub proof fn lemma_source_order<E>(start: Channels<E>, moves: Seq<Move<E>>, ch: nat)
    ensures
        through(writes(start, moves), ch) + run(start, moves).queue(ch) == start.queue(ch)
            + published(moves, ch),
    decreases moves.len(),
{
    if moves.len() == 0 {
        assert(Seq::<E>::empty() + start.queue(ch) =~= start.queue(ch) + Seq::<E>::empty());
    } else {
        let earlier = moves.drop_last();
        lemma_source_order(start, earlier, ch);
        let s = run(start, earlier);
        let w = writes(start, earlier);
        let m = moves.last();
        match m {
            Move::Publish(to, event) => {
                if to == ch {
                    assert(through(w, ch) + s.queue(ch).push(event) =~= (through(w, ch) + s.queue(
                        ch,
                    )).push(event));
                    assert(start.queue(ch) + published(earlier, ch).push(event) =~= (start.queue(ch)
                        + published(earlier, ch)).push(event));
                }
            },
            Move::Deliver(i) => {
                if s.ready(i) {
                    let from = s.waiting[i as int];
                    let event = s.queue(from).first();
                    let log = w.push((from, event));
                    assert(log.drop_last() =~= w);
                    if from == ch {
                        assert(through(w, ch).push(event) + s.queue(ch).drop_first() =~= through(
                            w,
                            ch,
                        ) + s.queue(ch));
                    }
                }
            },
            Move::Rebuild(_) => {},
        }
    }
}

} // verus!
