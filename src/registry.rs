use vstd::prelude::*;
use std::collections::HashMap;
use std::collections::HashSet;

use crate::errors::ClientError;

verus! {

broadcast use vstd::std_specs::hash::group_hash_axioms;

/// What can be observed of a command's run.
#[derive(Debug, Clone, Copy, PartialEq, Eq, Structural)]
pub enum ProcessStatus {
    Running,
    Stopping,
    Stopped,
}

/// The model of a registry: the handle of each running command, and the ids
/// of the commands between a kill request and the end of that kill.
pub struct RegistryView<H> {
    pub running: Map<i32, H>,
    pub stopping: Set<i32>,
}

/// A command is `Running` while it has a handle, else `Stopping` while a kill
/// is under way, else `Stopped`.
pub open spec fn status_in<H>(v: RegistryView<H>, id: i32) -> ProcessStatus {
    if v.running.contains_key(id) {
        ProcessStatus::Running
    } else if v.stopping.contains(id) {
        ProcessStatus::Stopping
    } else {
        ProcessStatus::Stopped
    }
}

/// Registering adds the handle unless the command already has one.
pub open spec fn registered<H>(v: RegistryView<H>, id: i32, handle: H) -> RegistryView<H> {
    if v.running.contains_key(id) {
        v
    } else {
        RegistryView { running: v.running.insert(id, handle), stopping: v.stopping }
    }
}

/// Taking removes the command's handle, if any, and leaves the rest.
pub open spec fn taken<H>(v: RegistryView<H>, id: i32) -> RegistryView<H> {
    RegistryView { running: v.running.remove(id), stopping: v.stopping }
}

/// Beginning a stop moves a running command from the handles to the stopping
/// set in one step; a command that is not running is left as it is.
pub open spec fn stop_begun<H>(v: RegistryView<H>, id: i32) -> RegistryView<H> {
    if v.running.contains_key(id) {
        RegistryView { running: v.running.remove(id), stopping: v.stopping.insert(id) }
    } else {
        v
    }
}

/// Finishing a stop drops the id from the stopping set.
pub open spec fn stop_finished<H>(v: RegistryView<H>, id: i32) -> RegistryView<H> {
    RegistryView { running: v.running, stopping: v.stopping.remove(id) }
}

/// The handle that a take or a stop hands out: the command's handle if it has one.
pub open spec fn handle_of<H>(v: RegistryView<H>, id: i32) -> Option<H> {
    if v.running.contains_key(id) {
        Some(v.running[id])
    } else {
        None
    }
}

/// Bookkeeping of the commands that are running or being stopped. Each
/// running command holds one handle of type `H` (the run's process and
/// tasks), so no command ever has two runs registered.
pub struct ProcessRegistry<H> {
    ongoing: HashMap<i32, H>,
    stopping: HashSet<i32>,
}

impl<H> View for ProcessRegistry<H> {
    type V = RegistryView<H>;

    closed spec fn view(&self) -> RegistryView<H> {
        RegistryView { running: self.ongoing@, stopping: self.stopping@ }
    }
}

impl<H> ProcessRegistry<H> {
    /// A registry where no command runs and none is being stopped.
    pub fn new() -> (r: Self)
        ensures
            r@.running == Map::<i32, H>::empty(),
            r@.stopping == Set::<i32>::empty(),
    {
        ProcessRegistry { ongoing: HashMap::new(), stopping: HashSet::new() }
    }

    /// Registers the handle of a new run. A command that already has a run
    /// is refused, and the handle is given back.
    pub fn register(&mut self, id: i32, handle: H) -> (r: Result<(), (ClientError, H)>)
        ensures
            final(self)@ == registered(old(self)@, id, handle),
            old(self)@.running.contains_key(id) <==> r is Err,
            r matches Err(e) ==> e == (ClientError::AlreadyRunning, handle),
    {
        if self.ongoing.contains_key(&id) {
            Err((ClientError::AlreadyRunning, handle))
        } else {
            self.ongoing.insert(id, handle);
            Ok(())
        }
    }

    /// Removes and returns the handle of a run that ended by itself.
    pub fn take(&mut self, id: i32) -> (r: Option<H>)
        ensures
            final(self)@ == taken(old(self)@, id),
            r == handle_of(old(self)@, id),
    {
        self.ongoing.remove(&id)
    }

    /// Removes and returns the handle of a run that is to be killed, and
    /// marks the command as stopping, in one step.
    pub fn begin_stop(&mut self, id: i32) -> (r: Option<H>)
        ensures
            final(self)@ == stop_begun(old(self)@, id),
            r == handle_of(old(self)@, id),
    {
        let ghost before = self@;
        let r = self.ongoing.remove(&id);
        if r.is_some() {
            self.stopping.insert(id);
        } else {
            assert(self@.running =~= before.running);
        }
        r
    }

    /// Marks the end of a kill.
    pub fn finish_stop(&mut self, id: i32)
        ensures
            final(self)@ == stop_finished(old(self)@, id),
    {
        self.stopping.remove(&id);
    }

    /// The command's current status.
    pub fn check_process_status(&self, id: i32) -> (r: ProcessStatus)
        ensures
            r == status_in(self@, id),
    {
        if self.ongoing.contains_key(&id) {
            ProcessStatus::Running
        } else if self.stopping.contains(&id) {
            ProcessStatus::Stopping
        } else {
            ProcessStatus::Stopped
        }
    }
}

/// A run is registered once: a second registration for the same command,
/// while the first run is still registered, is refused and changes nothing.
pub proof fn lemma_second_register_refused<H>(v: RegistryView<H>, id: i32, first: H, second: H)
    requires
        !v.running.contains_key(id),
    ensures
        registered(v, id, first).running.contains_key(id),
        registered(v, id, first).running[id] == first,
        registered(v, id, first).running.remove(id) == v.running.remove(id),
        registered(registered(v, id, first), id, second) == registered(v, id, first),
{
    assert(registered(v, id, first).running.remove(id) =~= v.running.remove(id));
}

/// Stopping a command that is not running hands out nothing and changes nothing.
pub proof fn lemma_stop_without_run_is_noop<H>(v: RegistryView<H>, id: i32)
    requires
        !v.running.contains_key(id),
    ensures
        handle_of(v, id) is None,
        stop_begun(v, id) == v,
{
}

/// A stop shows the command as `Running`, then `Stopping` once begun, then
/// `Stopped` once finished.
pub proof fn lemma_stop_status_sequence<H>(v: RegistryView<H>, id: i32)
    requires
        v.running.contains_key(id),
    ensures
        status_in(v, id) == ProcessStatus::Running,
        status_in(stop_begun(v, id), id) == ProcessStatus::Stopping,
        status_in(stop_finished(stop_begun(v, id), id), id) == ProcessStatus::Stopped,
{
}

/// Of the two ways a run can end, the first to remove its handle is the only
/// one that receives it: after a natural end the kill finds nothing, and
/// after a kill began the natural end finds nothing.
pub proof fn lemma_single_finalizer<H>(v: RegistryView<H>, id: i32)
    requires
        v.running.contains_key(id),
    ensures
        handle_of(v, id) == Some(v.running[id]),
        handle_of(taken(v, id), id) is None,
        stop_begun(taken(v, id), id) == taken(v, id),
        handle_of(stop_begun(v, id), id) is None,
        taken(stop_begun(v, id), id) == stop_begun(v, id),
{
    assert(taken(stop_begun(v, id), id).running =~= stop_begun(v, id).running);
}

} // verus!
