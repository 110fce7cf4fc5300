//! The proxy in motion. Sources are added and removed while the forwarding
//! loop waits, is woken, and rebuilds its list; the steps of the different
//! parties may interleave in any way. This file states what a proxy is after
//! any such run and what it has written, and proves what holds of every run.

use crate::proxydev::{
    carried_out, distinct, lemma_position_exists, lemma_without_path_distinct, position, react,
    without_path, ActionView, RegistryState, Wakeup,
};
use vstd::prelude::*;

verus! {

/// A proxy at one moment: its registry, and the sources that its forwarding
/// loop waits on.
pub struct ProxyState {
    pub registry: RegistryState,
    /// The list that the loop took from the registry when it last rebuilt.
    pub waiting: Seq<Seq<char>>,
}

/// One step of a run.
pub enum Step<E> {
    /// A source for this path was opened and is offered to the registry.
    Add(Seq<char>),
    /// This path is taken out of the registry.
    Remove(Seq<char>),
    /// The forwarding loop is woken and acts on it.
    Wake(Wakeup<E>),
}

/// An event together with the path of the source that it came from.
pub type Forwarded<E> = (Seq<char>, E);

impl ProxyState {
    /// No path is registered twice, and the loop waits on no path twice.
    pub open spec fn wf(self) -> bool {
        distinct(self.registry.paths) && distinct(self.waiting)
    }

    /// The loop is woken, decides what to do as `react` says, and carries it
    /// out: on a reload signal it takes a new list from the registry; when
    /// the channel of a source is closed it evicts that source and takes a
    /// new list; an event it writes, and nothing changes. A wakeup that names
    /// no source of the loop's list cannot occur and changes nothing.
    pub open spec fn wake<E>(self, wakeup: Wakeup<E>) -> ProxyState {
        if !wakeup.in_range(self.waiting.len()) {
            self
        } else {
            let action = react(self.waiting, wakeup);
            let registry = carried_out(self.registry, action);
            ProxyState {
                registry,
                waiting: if action is Write {
                    self.waiting
                } else {
                    registry.paths
                },
            }
        }
    }

    /// The proxy after one step.
    pub open spec fn next<E>(self, step: Step<E>) -> ProxyState {
        match step {
            Step::Add(path) => ProxyState {
                registry: self.registry.add(path),
                waiting: self.waiting,
            },
            Step::Remove(path) => ProxyState {
                registry: self.registry.remove(path),
                waiting: self.waiting,
            },
            Step::Wake(wakeup) => self.wake(wakeup),
        }
    }

    /// What the loop writes to the virtual device in the step, with the path
    /// of the source that woke it.
    pub open spec fn written<E>(self, step: Step<E>) -> Option<Forwarded<E>> {
        match step {
            Step::Wake(wakeup) => if wakeup.in_range(self.waiting.len()) {
                match (react(self.waiting, wakeup), wakeup.source()) {
                    (ActionView::Write(event), Some(i)) => Some((self.waiting[i as int], event)),
                    _ => None,
                }
            } else {
                None
            },
            _ => None,
        }
    }
}

/// The proxy after the steps of a run.
pub open spec fn run<E>(start: ProxyState, steps: Seq<Step<E>>) -> ProxyState
    decreases steps.len(),
{
    if steps.len() == 0 {
        start
    } else {
        run(start, steps.drop_last()).next(steps.last())
    }
}

/// What the loop writes in a run, in order.
pub open spec fn writes<E>(start: ProxyState, steps: Seq<Step<E>>) -> Seq<Forwarded<E>>
    decreases steps.len(),
{
    if steps.len() == 0 {
        Seq::empty()
    } else {
        let before = writes(start, steps.drop_last());
        match run(start, steps.drop_last()).written(steps.last()) {
            Some(f) => before.push(f),
            None => before,
        }
    }
}

/// The events of one source among `log`, in the order of `log`.
pub open spec fn from_source<E>(log: Seq<Forwarded<E>>, path: Seq<char>) -> Seq<E>
    decreases log.len(),
{
    if log.len() == 0 {
        Seq::empty()
    } else {
        let before = from_source(log.drop_last(), path);
        if log.last().0 == path {
            before.push(log.last().1)
        } else {
            before
        }
    }
}

/// No step of the run offers a source for `path`.
pub open spec fn never_added<E>(steps: Seq<Step<E>>, path: Seq<char>) -> bool {
    forall|k: int| 0 <= k < steps.len() ==> #[trigger] steps[k] != Step::<E>::Add(path)
}

/// What is left after one path is taken out was there before.
proof fn lemma_without_path_subset(paths: Seq<Seq<char>>, path: Seq<char>, other: Seq<char>)
    requires
        without_path(paths, path).contains(other),
    ensures
        paths.contains(other),
{
    if paths.contains(path) {
        lemma_position_exists(paths, path);
        let i = position(paths, path);
        let rest = paths.remove(i);
        let k = choose|k: int| 0 <= k < rest.len() && rest[k] == other;
        let k0 = if k < i { k } else { k + 1 };
        assert(paths[k0] == other);
    }
}

/// Every step keeps the registry and the loop's list free of doubles.
pub proof fn lemma_next_wf<E>(s: ProxyState, step: Step<E>)
    requires
        s.wf(),
    ensures
        s.next(step).wf(),
{
    match step {
        Step::Add(path) => {
            if !s.registry.paths.contains(path) {
                let after = s.registry.paths.push(path);
                assert forall|i: int, j: int| 0 <= i < j < after.len() implies after[i]
                    != after[j] by {
                    if j == after.len() - 1 {
                        assert(s.registry.paths[i] == after[i]);
                    }
                }
            }
        },
        Step::Remove(path) => {
            lemma_without_path_distinct(s.registry.paths, path);
        },
        Step::Wake(wakeup) => {
            if wakeup.in_range(s.waiting.len()) {
                match react(s.waiting, wakeup) {
                    ActionView::Evict(path) => {
                        lemma_without_path_distinct(s.registry.paths, path);
                    },
                    _ => {},
                }
            }
        },
    }
}

/// Every run keeps the registry and the loop's list free of doubles.
pub proof fn lemma_run_wf<E>(start: ProxyState, steps: Seq<Step<E>>)
    requires
        start.wf(),
    ensures
        run(start, steps).wf(),
    decreases steps.len(),
{
    if steps.len() > 0 {
        lemma_run_wf(start, steps.drop_last());
        lemma_next_wf(run(start, steps.drop_last()), steps.last());
    }
}

/// A path that is neither registered nor waited on stays so for as long as
/// no source is added for it, and nothing is written for it.
pub proof fn lemma_absent_stays_absent<E>(start: ProxyState, steps: Seq<Step<E>>, path: Seq<char>)
    requires
        !start.registry.paths.contains(path),
        !start.waiting.contains(path),
        never_added(steps, path),
    ensures
        !run(start, steps).registry.paths.contains(path),
        !run(start, steps).waiting.contains(path),
        from_source(writes(start, steps), path) == Seq::<E>::empty(),
    decreases steps.len(),
{
    if steps.len() > 0 {
        let before = steps.drop_last();
        assert forall|k: int| 0 <= k < before.len() implies #[trigger] before[k] != Step::<E>::Add(
            path,
        ) by {
            assert(before[k] == steps[k]);
        }
        lemma_absent_stays_absent(start, before, path);
        let s = run(start, before);
        let step = steps.last();
        assert(step == steps[steps.len() - 1]);
        match step {
            Step::Add(other) => {
                assert(other != path);
                if !s.registry.paths.contains(other) {
                    let after = s.registry.paths.push(other);
                    if after.contains(path) {
                        let k = choose|k: int| 0 <= k < after.len() && after[k] == path;
                        assert(s.registry.paths[k] == path);
                    }
                }
            },
            Step::Remove(other) => {
                if without_path(s.registry.paths, other).contains(path) {
                    lemma_without_path_subset(s.registry.paths, other, path);
                }
            },
            Step::Wake(wakeup) => {
                if wakeup.in_range(s.waiting.len()) {
                    match react(s.waiting, wakeup) {
                        ActionView::Evict(other) => {
                            if without_path(s.registry.paths, other).contains(path) {
                                lemma_without_path_subset(s.registry.paths, other, path);
                            }
                        },
                        _ => {},
                    }
                }
            },
        }
        match s.written(step) {
            Some(f) => {
                let log = writes(start, before).push(f);
                assert(log.drop_last() =~= writes(start, before));
                assert(f.0 != path);
            },
            None => {},
        }
    }
}

/// When the reader of a registered source has ended and the loop is woken
/// by its closed channel, the registry loses exactly that one
/// source, and the loop rebuilds at once: it no longer waits on the path and
/// owes no reload. From then on nothing is written for the path until a
/// source is added for it again.
pub proof fn lemma_eviction<E>(s: ProxyState, i: usize, later: Seq<Step<E>>)
    requires
        s.wf(),
        i < s.waiting.len(),
        s.registry.paths.contains(s.waiting[i as int]),
        never_added(later, s.waiting[i as int]),
    ensures
        ({
            let path = s.waiting[i as int];
            let evicted = s.wake(Wakeup::<E>::Closed(i));
            &&& evicted.registry.paths == without_path(s.registry.paths, path)
            &&& evicted.registry.paths.len() == s.registry.paths.len() - 1
            &&& !evicted.registry.paths.contains(path)
            &&& evicted.waiting == evicted.registry.paths
            &&& !evicted.registry.reload
            &&& evicted.wf()
            &&& from_source(writes(evicted, later), path) == Seq::<E>::empty()
            &&& !run(evicted, later).registry.paths.contains(path)
        }),
{
    let path = s.waiting[i as int];
    let evicted = s.wake(Wakeup::<E>::Closed(i));
    lemma_without_path_distinct(s.registry.paths, path);
    lemma_absent_stays_absent(evicted, later, path);
}

/// Taking out a path that is not registered changes nothing: the registry
/// keeps its sources and owes no reload that it did not owe before. So a
/// second removal of the same path undoes nothing and removes nothing more.
pub proof fn lemma_remove_absent(r: RegistryState, path: Seq<char>)
    requires
        distinct(r.paths),
    ensures
        !r.paths.contains(path) ==> r.remove(path) == r,
        r.remove(path).remove(path) == r.remove(path),
        r.remove(path).paths.len() == r.paths.len() - (if r.paths.contains(path) {
            1int
        } else {
            0int
        }),
{
    lemma_without_path_distinct(r.paths, path);
}

/// The loop will forward for `path`: the path is registered, and the loop
/// either waits on it already or is owed a reload, which wakes it and after
/// which it waits on the path.
pub open spec fn visible(s: ProxyState, path: Seq<char>) -> bool {
    &&& s.registry.paths.contains(path)
    &&& s.registry.reload || s.waiting.contains(path)
}

/// The step neither takes `path` out of the registry nor evicts it.
pub open spec fn keeps<E>(s: ProxyState, step: Step<E>, path: Seq<char>) -> bool {
    match step {
        Step::Add(_) => true,
        Step::Remove(other) => other != path,
        Step::Wake(wakeup) => wakeup.in_range(s.waiting.len()) ==> react(s.waiting, wakeup)
            != ActionView::<E>::Evict(path),
    }
}

/// No step of the run takes `path` out of the registry or evicts it.
pub open spec fn never_dropped<E>(start: ProxyState, steps: Seq<Step<E>>, path: Seq<char>) -> bool
    decreases steps.len(),
{
    steps.len() > 0 ==> {
        &&& never_dropped(start, steps.drop_last(), path)
        &&& keeps(run(start, steps.drop_last()), steps.last(), path)
    }
}

/// Once a source is added for a path that was not registered, the path is
/// registered and the loop is owed a reload, so the loop is woken whether or
/// not any source has an event. When it acts on that signal it waits on the
/// new source, and an event that the source then hands over is written,
/// unchanged, for that source.
pub proof fn lemma_add_visible<E>(s: ProxyState, path: Seq<char>, event: E)
    requires
        s.wf(),
        !s.registry.paths.contains(path),
    ensures
        ({
            let added = s.next(Step::<E>::Add(path));
            let reloaded = added.wake(Wakeup::<E>::Reload);
            &&& added.registry.paths == s.registry.paths.push(path)
            &&& added.registry.reload
            &&& visible(added, path)
            &&& reloaded.waiting == added.registry.paths
            &&& !reloaded.registry.reload
            &&& reloaded.waiting.contains(path)
            &&& forall|i: usize|
                i < reloaded.waiting.len() && reloaded.waiting[i as int] == path
                    ==> #[trigger] reloaded.written(Step::Wake(Wakeup::Event(i, event))) == Some(
                    (path, event),
                )
        }),
{
    let added = s.next(Step::<E>::Add(path));
    assert(added.registry.paths.last() == path);
}

/// A source that was added stays in sight whatever else happens: through any
/// run that does not take it out or evict it, its path stays registered, and
/// at every moment the loop either waits on it or is owed a reload. No
/// activity of any other source is needed for that, and none can undo it.
pub proof fn lemma_added_stays_visible<E>(start: ProxyState, steps: Seq<Step<E>>, path: Seq<char>)
    requires
        start.wf(),
        visible(start, path),
        never_dropped(start, steps, path),
    ensures
        visible(run(start, steps), path),
    decreases steps.len(),
{
    if steps.len() > 0 {
        let before = steps.drop_last();
        lemma_added_stays_visible(start, before, path);
        lemma_run_wf(start, before);
        let s = run(start, before);
        match steps.last() {
            Step::Add(other) => {
                if !s.registry.paths.contains(other) {
                    let k = choose|k: int| 0 <= k < s.registry.paths.len() && s.registry.paths[k]
                        == path;
                    assert(s.registry.paths.push(other)[k] == path);
                }
            },
            Step::Remove(other) => {
                lemma_without_path_distinct(s.registry.paths, other);
            },
            Step::Wake(wakeup) => {
                if wakeup.in_range(s.waiting.len()) {
                    match react(s.waiting, wakeup) {
                        ActionView::Evict(other) => {
                            lemma_without_path_distinct(s.registry.paths, other);
                        },
                        _ => {},
                    }
                }
            },
        }
    }
}

} // verus!
