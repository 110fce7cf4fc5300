//! The proxy device: the registry of the sources that feed one virtual device,
//! and what the forwarding loop does with each thing it is woken by.

use crate::text::str_eq;
use vstd::prelude::*;
use vstd::string::*;

verus! {

/// The kind of virtual device that a proxy presents.
#[derive(Debug, Clone, Copy, PartialEq, Eq, Structural)]
pub enum SimpleDeviceClass {
    Keyboard,
    Mouse,
    AIO,
}

/// The device paths of the entries of a source list, in order.
pub open spec fn paths_of<T>(list: Seq<(String, T)>) -> Seq<Seq<char>> {
    Seq::new(list.len(), |i: int| list[i].0@)
}

/// No path occurs twice.
pub open spec fn distinct(paths: Seq<Seq<char>>) -> bool {
    forall|i: int, j: int| 0 <= i < j < paths.len() ==> paths[i] != paths[j]
}

/// `i` is the place of the first occurrence of `path`.
pub open spec fn first_at(paths: Seq<Seq<char>>, path: Seq<char>, i: int) -> bool {
    &&& 0 <= i < paths.len()
    &&& paths[i] == path
    &&& forall|j: int| 0 <= j < i ==> paths[j] != path
}

/// The place of the first occurrence of `path`, for a path that occurs.
pub open spec fn position(paths: Seq<Seq<char>>, path: Seq<char>) -> int {
    choose|i: int| first_at(paths, path, i)
}

/// The list without the first entry registered under `path`; the list itself
/// when `path` is not registered.
pub open spec fn without<T>(list: Seq<(String, T)>, path: Seq<char>) -> Seq<(String, T)> {
    if paths_of(list).contains(path) {
        list.remove(position(paths_of(list), path))
    } else {
        list
    }
}

/// The paths without the first occurrence of `path`.
pub open spec fn without_path(paths: Seq<Seq<char>>, path: Seq<char>) -> Seq<Seq<char>> {
    if paths.contains(path) {
        paths.remove(position(paths, path))
    } else {
        paths
    }
}

/// A first occurrence is the only place that `position` can name.
pub proof fn lemma_position(paths: Seq<Seq<char>>, path: Seq<char>, i: int)
    requires
        first_at(paths, path, i),
    ensures
        paths.contains(path),
        position(paths, path) == i,
{
    // `position` names a first occurrence, and of two first occurrences
    // neither can come before the other.
    let p = position(paths, path);
    assert(first_at(paths, path, p));
}

/// A path that occurs has a first occurrence.
pub proof fn lemma_position_exists(paths: Seq<Seq<char>>, path: Seq<char>)
    requires
        paths.contains(path),
    ensures
        first_at(paths, path, position(paths, path)),
    decreases paths.len(),
{
    let k = choose|k: int| 0 <= k < paths.len() && paths[k] == path;
    lemma_first_before(paths, path, k);
}

/// Some occurrence at or before `k` is the first one.
proof fn lemma_first_before(paths: Seq<Seq<char>>, path: Seq<char>, k: int)
    requires
        0 <= k < paths.len(),
        paths[k] == path,
    ensures
        exists|i: int| first_at(paths, path, i),
    decreases k,
{
    if exists|j: int| 0 <= j < k && paths[j] == path {
        let j = choose|j: int| 0 <= j < k && paths[j] == path;
        lemma_first_before(paths, path, j);
    } else {
        assert(first_at(paths, path, k));
    }
}

/// Removing an entry removes its path.
pub proof fn lemma_paths_of_without<T>(list: Seq<(String, T)>, path: Seq<char>)
    ensures
        paths_of(without(list, path)) == without_path(paths_of(list), path),
{
    let paths = paths_of(list);
    if paths.contains(path) {
        lemma_position_exists(paths, path);
        let i = position(paths, path);
        assert(paths_of(list.remove(i)) =~= paths.remove(i));
    }
}

/// Removes the first source registered under `path`. A path that is not
/// registered leaves the list as it is.
pub fn remove_dev_from_list<T>(list: &mut Vec<(String, T)>, path: &str)
    ensures
        final(list)@ == without(old(list)@, path@),
        paths_of(old(list)@).contains(path@) ==> final(list)@.len() == old(list)@.len() - 1,
        !paths_of(old(list)@).contains(path@) ==> final(list)@ == old(list)@,
{
    let ghost paths = paths_of(list@);
    let mut idx: usize = 0;
    while idx < list.len()
        invariant
            idx <= list.len(),
            *list == *old(list),
            paths == paths_of(list@),
            forall|j: int| 0 <= j < idx ==> paths[j] != path@,
        decreases list.len() - idx,
    {
        if str_eq(list[idx].0.as_str(), path) {
            proof {
                lemma_position(paths, path@, idx as int);
            }
            list.remove(idx);
            return ;
        }
        idx += 1;
    }
}

/// Taking one path out leaves the others distinct.
pub proof fn lemma_without_path_distinct(paths: Seq<Seq<char>>, path: Seq<char>)
    requires
        distinct(paths),
    ensures
        distinct(without_path(paths, path)),
        !without_path(paths, path).contains(path),
        paths.contains(path) ==> without_path(paths, path).len() == paths.len() - 1,
        !paths.contains(path) ==> without_path(paths, path) == paths,
        forall|other: Seq<char>|
            other != path ==> (#[trigger] without_path(paths, path).contains(other)
                <==> paths.contains(other)),
{
    if paths.contains(path) {
        lemma_position_exists(paths, path);
        let i = position(paths, path);
        let rest = paths.remove(i);
        assert forall|a: int, b: int| 0 <= a < b < rest.len() implies rest[a] != rest[b] by {
            let a0 = if a < i { a } else { a + 1 };
            let b0 = if b < i { b } else { b + 1 };
            assert(rest[a] == paths[a0] && rest[b] == paths[b0]);
        }
        if rest.contains(path) {
            let k = choose|k: int| 0 <= k < rest.len() && rest[k] == path;
            let k0 = if k < i { k } else { k + 1 };
            assert(rest[k] == paths[k0]);
            assert(paths[k0] != paths[i]);
        }
        assert forall|other: Seq<char>| other != path implies (#[trigger] rest.contains(other)
            <==> paths.contains(other)) by {
            if rest.contains(other) {
                let k = choose|k: int| 0 <= k < rest.len() && rest[k] == other;
                let k0 = if k < i { k } else { k + 1 };
                assert(paths[k0] == other);
            }
            if paths.contains(other) {
                let k = choose|k: int| 0 <= k < paths.len() && paths[k] == other;
                let k1 = if k < i { k } else { k - 1 };
                assert(rest[k1] == other);
            }
        }
    }
}

/// The registry of a proxy as contracts see it.
pub struct RegistryState {
    /// The paths of the registered sources, oldest first.
    pub paths: Seq<Seq<char>>,
    /// Whether the registry has changed and the forwarding loop has not been
    /// handed the new list yet.
    pub reload: bool,
}

impl RegistryState {
    /// The registry once a source for `path` has been offered to it: the
    /// path comes last and a reload is owed, unless the path is registered
    /// already.
    pub open spec fn add(self, path: Seq<char>) -> RegistryState {
        if self.paths.contains(path) {
            self
        } else {
            RegistryState { paths: self.paths.push(path), reload: true }
        }
    }

    /// The registry once `path` has been taken out: a reload is owed if the
    /// path was registered, and nothing has changed if it was not.
    pub open spec fn remove(self, path: Seq<char>) -> RegistryState {
        RegistryState {
            paths: without_path(self.paths, path),
            reload: self.reload || self.paths.contains(path),
        }
    }

    /// The registry once the forwarding loop has been handed its list.
    pub open spec fn rebuilt(self) -> RegistryState {
        RegistryState { paths: self.paths, reload: false }
    }
}

/// What woke the forwarding loop. A source is named by its place in the
/// loop's list of sources.
#[derive(Debug)]
pub enum Wakeup<E> {
    /// The reload signal arrived.
    Reload,
    /// The channel of a source is closed: its reader has ended.
    Closed(usize),
    /// A source handed over an event.
    Event(usize, E),
}

impl<E> Wakeup<E> {
    /// The place, in the loop's list, of the source that woke the loop; none
    /// for the reload signal.
    pub open spec fn source(self) -> Option<usize> {
        match self {
            Wakeup::Reload => None,
            Wakeup::Closed(i) => Some(i),
            Wakeup::Event(i, _) => Some(i),
        }
    }

    /// The wakeup names no source beyond the `n` that the loop waits on.
    pub open spec fn in_range(self, n: nat) -> bool {
        match self {
            Wakeup::Reload => true,
            Wakeup::Closed(i) => i < n,
            Wakeup::Event(i, _) => i < n,
        }
    }
}

/// What the forwarding loop does next.
#[derive(Debug)]
pub enum Action<E> {
    /// Take a new list of sources from the registry and wait on that.
    Rebuild,
    /// Take the source registered under this path out of the registry, then
    /// rebuild.
    Evict(String),
    /// Write this event to the virtual device and go on waiting.
    Write(E),
}

/// An action as contracts see it.
pub enum ActionView<E> {
    Rebuild,
    Evict(Seq<char>),
    Write(E),
}

impl<E> View for Action<E> {
    type V = ActionView<E>;

    open spec fn view(&self) -> ActionView<E> {
        match *self {
            Action::Rebuild => ActionView::Rebuild,
            Action::Evict(path) => ActionView::Evict(path@),
            Action::Write(event) => ActionView::Write(event),
        }
    }
}

/// What the loop does when `wakeup` wakes it while it waits on the sources
/// `waiting`: a reload signal makes it rebuild, a closed channel makes it
/// evict that source, and an event is written as it came.
pub open spec fn react<E>(waiting: Seq<Seq<char>>, wakeup: Wakeup<E>) -> ActionView<E> {
    match wakeup {
        Wakeup::Reload => ActionView::Rebuild,
        Wakeup::Closed(i) => ActionView::Evict(waiting[i as int]),
        Wakeup::Event(_, event) => ActionView::Write(event),
    }
}

/// The registry once the loop has carried out `action`: an eviction takes
/// the path out, and both an eviction and a rebuild leave the loop up to
/// date; a write does not touch the registry.
pub open spec fn carried_out<E>(r: RegistryState, action: ActionView<E>) -> RegistryState {
    match action {
        ActionView::Rebuild => r.rebuilt(),
        ActionView::Evict(path) => r.remove(path).rebuilt(),
        ActionView::Write(_) => r,
    }
}

/// Why a source was not added.
#[derive(Debug)]
pub enum AddSourceError<E> {
    /// The device could not be opened and acquired.
    Open(E),
    /// A source is already registered under the path.
    AlreadyRegistered,
}

/// A proxy device: the virtual device it writes to, by name and device node,
/// and the registry of its sources. A source is a device path together with
/// the receiving end of the channel that its reader publishes to. No path is
/// registered twice.
#[derive(Debug)]
pub struct Simple<T> {
    name: String,
    sources: Vec<(String, T)>,
    reload: bool,
    devpath: String,
}

impl<T> Simple<T> {
    #[verifier::type_invariant]
    spec fn inv(self) -> bool {
        distinct(paths_of(self.sources@))
    }

    /// The name of the virtual device.
    pub closed spec fn name(&self) -> Seq<char> {
        self.name@
    }

    /// The device node of the virtual device.
    pub closed spec fn device_path(&self) -> Seq<char> {
        self.devpath@
    }

    /// The registered sources, oldest first.
    pub closed spec fn sources(&self) -> Seq<(String, T)> {
        self.sources@
    }

    /// Whether the registry has changed and the forwarding loop has not been
    /// handed the new list yet.
    pub closed spec fn reload_pending(&self) -> bool {
        self.reload
    }

    /// The paths of the registered sources, oldest first.
    pub open spec fn registry(&self) -> Seq<Seq<char>> {
        paths_of(self.sources())
    }

    /// No path is registered twice.
    pub open spec fn wf(&self) -> bool {
        distinct(self.registry())
    }

    /// The proxy for the virtual device called `name`, whose device node is
    /// `devpath`. It has no source yet.
    pub fn new(name: &str, devpath: &str) -> (dev: Simple<T>)
        ensures
            dev.name() == name@,
            dev.device_path() == devpath@,
            dev.sources().len() == 0,
            !dev.reload_pending(),
            dev.wf(),
    {
        Simple {
            name: name.to_owned(),
            sources: Vec::new(),
            reload: false,
            devpath: devpath.to_owned(),
        }
    }

    /// Whether a source is registered under `path`.
    pub fn has_source(&self, path: &str) -> (r: bool)
        ensures
            r == self.registry().contains(path@),
    {
        let ghost paths = paths_of(self.sources@);
        let mut i: usize = 0;
        while i < self.sources.len()
            invariant
                i <= self.sources.len(),
                paths == paths_of(self.sources@),
                forall|j: int| 0 <= j < i ==> paths[j] != path@,
            decreases self.sources.len() - i,
        {
            if str_eq(self.sources[i].0.as_str(), path) {
                assert(paths[i as int] == path@);
                return true;
            }
            i += 1;
        }
        false
    }

    /// Registers the source that was opened for `path` and asks the
    /// forwarding loop to reload. `opened` is the outcome of opening and
    /// acquiring the device: the receiving end of its channel, or the failure,
    /// which is handed back and changes nothing. Nothing changes either when
    /// the path is registered already.
    pub fn add_source_dev<E>(&mut self, path: &str, opened: Result<T, E>) -> (r: Result<
        (),
        AddSourceError<E>,
    >)
        ensures
            final(self).name() == old(self).name(),
            final(self).device_path() == old(self).device_path(),
            final(self).wf(),
            match opened {
                Err(e) => {
                    &&& r == Err::<(), AddSourceError<E>>(AddSourceError::Open(e))
                    &&& final(self).sources() == old(self).sources()
                    &&& final(self)@ == old(self)@
                },
                Ok(rx) => if old(self).registry().contains(path@) {
                    &&& r == Err::<(), AddSourceError<E>>(AddSourceError::AlreadyRegistered)
                    &&& final(self).sources() == old(self).sources()
                    &&& final(self)@ == old(self)@
                } else {
                    &&& r == Ok::<(), AddSourceError<E>>(())
                    &&& final(self).sources().len() == old(self).sources().len() + 1
                    &&& final(self).sources().drop_last() == old(self).sources()
                    &&& final(self).sources().last().0@ == path@
                    &&& final(self).sources().last().1 == rx
                    &&& final(self)@ == old(self)@.add(path@)
                },
            },
    {
        proof {
            use_type_invariant(&*self);
        }
        let rx = match opened {
            Err(e) => {
                return Err(AddSourceError::Open(e));
            },
            Ok(rx) => rx,
        };
        if self.has_source(path) {
            return Err(AddSourceError::AlreadyRegistered);
        }
        let ghost before = self.sources@;
        let owned = path.to_owned();
        let mut sources: Vec<(String, T)> = Vec::new();
        std::mem::swap(&mut self.sources, &mut sources);
        sources.push((owned, rx));
        proof {
            assert(paths_of(sources@) =~= paths_of(before).push(path@));
        }
        self.sources = sources;
        self.reload = true;
        Ok(())
    }

    /// Takes the source registered under `path` out of the registry and, if
    /// there was one, asks the forwarding loop to reload. A path that is not
    /// registered changes nothing.
    pub fn remove_source(&mut self, path: &str) -> (removed: bool)
        ensures
            removed == old(self).registry().contains(path@),
            final(self).sources() == without(old(self).sources(), path@),
            final(self)@ == old(self)@.remove(path@),
            final(self).registry().len() == old(self).registry().len() - (if removed {
                1int
            } else {
                0int
            }),
            !final(self).registry().contains(path@),
            final(self).name() == old(self).name(),
            final(self).device_path() == old(self).device_path(),
            final(self).wf(),
    {
        proof {
            use_type_invariant(&*self);
            lemma_paths_of_without(self.sources@, path@);
            lemma_without_path_distinct(paths_of(self.sources@), path@);
        }
        let mut sources: Vec<(String, T)> = Vec::new();
        std::mem::swap(&mut self.sources, &mut sources);
        let before: usize = sources.len();
        remove_dev_from_list(&mut sources, path);
        let removed = sources.len() < before;
        self.sources = sources;
        if removed {
            self.reload = true;
        }
        removed
    }

    pub fn num_sources(&self) -> (n: usize)
        ensures
            n == self.sources().len(),
            n == self.registry().len(),
            self.wf(),
    {
        proof {
            use_type_invariant(self);
        }
        self.sources.len()
    }

    pub fn dev_path(&self) -> (p: &str)
        ensures
            p@ == self.device_path(),
    {
        self.devpath.as_str()
    }

    /// The name of the virtual device.
    pub fn dev_name(&self) -> (n: &str)
        ensures
            n@ == self.name(),
    {
        self.name.as_str()
    }

    /// Whether the forwarding loop is owed a reload.
    pub fn needs_reload(&self) -> (r: bool)
        ensures
            r == self.reload_pending(),
    {
        self.reload
    }
}

impl<T> View for Simple<T> {
    type V = RegistryState;

    open spec fn view(&self) -> RegistryState {
        RegistryState { paths: self.registry(), reload: self.reload_pending() }
    }
}

impl<T: Clone> Simple<T> {
    /// Hands the forwarding loop its list of sources: a copy of the registry
    /// as it is now, each channel end cloned. With that the loop is up to
    /// date and no reload is owed.
    pub fn rebuild(&mut self) -> (local_sources: Vec<(String, T)>)
        ensures
            final(self).sources() == old(self).sources(),
            final(self).name() == old(self).name(),
            final(self).device_path() == old(self).device_path(),
            final(self)@ == old(self)@.rebuilt(),
            final(self).wf(),
            paths_of(local_sources@) == old(self).registry(),
            forall|i: int|
                0 <= i < local_sources.len() ==> cloned(
                    old(self).sources()[i].1,
                    #[trigger] local_sources[i].1,
                ),
    {
        proof {
            use_type_invariant(&*self);
        }
        let mut local_sources: Vec<(String, T)> = Vec::with_capacity(self.sources.len());
        let mut i: usize = 0;
        while i < self.sources.len()
            invariant
                i <= self.sources.len(),
                *self == *old(self),
                local_sources.len() == i,
                forall|j: int| 0 <= j < i ==> (#[trigger] local_sources[j]).0@ == self.sources[j].0@,
                forall|j: int|
                    0 <= j < i ==> cloned(self.sources[j].1, #[trigger] local_sources[j].1),
            decreases self.sources.len() - i,
        {
            let entry = &self.sources[i];
            local_sources.push((entry.0.clone(), entry.1.clone()));
            i += 1;
        }
        self.reload = false;
        local_sources
    }

    /// Carries out what the forwarding loop decided, as far as the registry
    /// is concerned, in one step: evicts the source that the action names,
    /// if it names one, and hands the loop its new list of sources. For a
    /// write there is nothing to do and no new list.
    pub fn apply<E>(&mut self, action: &Action<E>) -> (local_sources: Option<Vec<(String, T)>>)
        ensures
            final(self)@ == carried_out(old(self)@, action@),
            final(self).name() == old(self).name(),
            final(self).device_path() == old(self).device_path(),
            final(self).wf(),
            action@ is Write <==> local_sources is None,
            action@ is Write ==> final(self).sources() == old(self).sources(),
            action@ is Rebuild ==> final(self).sources() == old(self).sources(),
            action@ matches ActionView::Evict(path) ==> final(self).sources() == without(
                old(self).sources(),
                path,
            ),
            local_sources matches Some(list) ==> {
                &&& paths_of(list@) == final(self).registry()
                &&& forall|i: int|
                    0 <= i < list.len() ==> cloned(final(self).sources()[i].1, #[trigger] list[i].1)
            },
    {
        match action {
            Action::Write(_) => {
                proof {
                    use_type_invariant(&*self);
                }
                None
            },
            Action::Rebuild => Some(self.rebuild()),
            Action::Evict(path) => {
                self.remove_source(path.as_str());
                Some(self.rebuild())
            },
        }
    }
}

/// The source whose channel is ready when the wait names operation
/// `op_idx`. The loop waits on the channels of its sources, in the order of
/// its list, and after them on the reload signal: an operation past the
/// sources is the reload signal and has no source.
pub fn selected_source<T>(local_sources: &Vec<(String, T)>, op_idx: usize) -> (r: Option<
    &(String, T),
>)
    ensures
        op_idx < local_sources@.len() ==> r == Some(&local_sources@[op_idx as int]),
        op_idx >= local_sources@.len() ==> r is None,
{
    if op_idx < local_sources.len() {
        Some(&local_sources[op_idx])
    } else {
        None
    }
}

/// Decides what the forwarding loop does with what woke it.
pub fn dispatch<T, E>(local_sources: &Vec<(String, T)>, wakeup: Wakeup<E>) -> (action: Action<E>)
    requires
        wakeup.in_range(local_sources@.len()),
    ensures
        action@ == react(paths_of(local_sources@), wakeup),
{
    match wakeup {
        Wakeup::Reload => Action::Rebuild,
        Wakeup::Closed(i) => Action::Evict(local_sources[i].0.clone()),
        Wakeup::Event(_, event) => Action::Write(event),
    }
}

} // verus!
