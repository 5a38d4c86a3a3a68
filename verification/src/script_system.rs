//! One script system: a function inside the VM, run once per tick on the
//! resources it declared.

use crate::dependencies::Dependencies;
use crate::reflection::Access;
use crate::reflection::CapabilityView;
use crate::reflection::ReflectionTable;
use crate::system_data::ScriptSystemData;
use crate::vm::receive_vm;
use crate::vm::send_vm;
use crossbeam::channel::Receiver;
use crossbeam::channel::Sender;
use rlua::Error;
use rlua::Lua;
use rlua::RegistryKey;
use shred::ResourceId;
use vstd::prelude::*;

verus! {

/// What the script is called with: a view of each borrowed resource, in the
/// order of the declaration.
pub struct ScriptResourceData {
    reads: Vec<CapabilityView>,
    writes: Vec<CapabilityView>,
}

/// `views` holds one view for each identity of `ids`, in the same order, each
/// held in the way `access` says.
pub open spec fn views_of(views: Seq<CapabilityView>, ids: Seq<ResourceId>, access: Access) -> bool {
    &&& views.len() == ids.len()
    &&& forall|i: int|
        0 <= i < ids.len() ==> (#[trigger] views[i]).id == ids[i] && views[i].access == access
}

impl ScriptResourceData {
    /// The views of the resources borrowed for reading.
    pub closed spec fn reads(self) -> Seq<CapabilityView> {
        self.reads@
    }

    /// The views of the resources borrowed for writing.
    pub closed spec fn writes(self) -> Seq<CapabilityView> {
        self.writes@
    }

    /// The views stand for the borrows of `data`, one for one: shared views
    /// for its reads, exclusive views for its writes.
    pub open spec fn narrows(self, data: ScriptSystemData) -> bool {
        &&& views_of(self.reads(), data.reads(), Access::Shared)
        &&& views_of(self.writes(), data.writes(), Access::Exclusive)
    }

    /// The views of `ids`, each held in the way `access` says, where scripts
    /// may see all of them.
    fn narrow_all(table: &ReflectionTable, ids: &[ResourceId], access: Access) -> (views: Option<
        Vec<CapabilityView>,
    >)
        ensures
            views is Some <==> table.covers(ids@),
            views matches Some(v) ==> views_of(v@, ids@, access),
    {
        let mut views: Vec<CapabilityView> = Vec::new();
        let mut i: usize = 0;
        while i < ids.len()
            invariant
                i <= ids@.len(),
                views_of(views@, ids@.take(i as int), access),
                table.covers(ids@.take(i as int)),
            decreases ids@.len() - i,
        {
            let seen = match access {
                Access::Shared => table.get(&ids[i]),
                Access::Exclusive => table.get_mut(&ids[i]),
            };
            match seen {
                Some(view) => {
                    views.push(view);
                },
                None => {
                    return None;
                },
            }
            assert forall|j: int| 0 <= j < i + 1 implies table@.contains(
                #[trigger] ids@.take(i + 1)[j],
            ) by {
                if j < i {
                    assert(ids@.take(i as int)[j] == ids@[j]);
                }
            }
            assert forall|j: int| 0 <= j < i + 1 implies (#[trigger] views@[j]).id == ids@.take(
                i + 1,
            )[j] && views@[j].access == access by {
                if j < i {
                    assert(ids@.take(i as int)[j] == ids@[j]);
                }
            }
            i = i + 1;
        }
        assert(ids@.take(ids@.len() as int) == ids@);
        Some(views)
    }

    /// Narrows every borrow of `data` to a view, where scripts may see all of
    /// the borrowed resources.
    pub fn narrow(data: &ScriptSystemData, table: &ReflectionTable) -> (bundle: Option<Self>)
        ensures
            bundle is Some <==> table.covers(data.reads()) && table.covers(data.writes()),
            bundle matches Some(b) ==> b.narrows(*data),
    {
        let reads = Self::narrow_all(table, data.read_ids().as_slice(), Access::Shared);
        let writes = Self::narrow_all(table, data.write_ids().as_slice(), Access::Exclusive);
        match (reads, writes) {
            (Some(reads), Some(writes)) => Some(ScriptResourceData { reads, writes }),
            _ => None,
        }
    }

    /// The views of the resources borrowed for reading.
    pub fn read_views(&self) -> (views: &Vec<CapabilityView>)
        ensures
            views@ == self.reads(),
    {
        &self.reads
    }

    /// The views of the resources borrowed for writing.
    pub fn write_views(&self) -> (views: &Vec<CapabilityView>)
        ensures
            views@ == self.writes(),
    {
        &self.writes
    }
}

/// Where a script system stands in its run.
#[derive(Clone, Copy, Debug, PartialEq, Eq, Structural)]
pub enum Phase {
    /// Between two runs. The system does not hold the VM.
    Idle,
    /// Waiting for the VM to come out of the channel.
    Awaiting,
    /// Holding the VM: the script is called.
    Running,
    /// Putting the VM back into the channel.
    Returning,
}

/// What moves a script system from one phase to the next.
#[derive(Clone, Copy, Debug, PartialEq, Eq, Structural)]
pub enum Event {
    /// The run was asked for.
    Begin,
    /// The VM came out of the channel.
    Received,
    /// The channel was closed before a VM came.
    Disconnected,
    /// The script returned, with or without an error.
    Finished,
    /// The VM left the system again.
    Returned,
}

impl Phase {
    /// The phase that follows `self` on `event`, where `event` may happen in
    /// `self`.
    pub open spec fn after(self, event: Event) -> Option<Phase> {
        match (self, event) {
            (Phase::Idle, Event::Begin) => Some(Phase::Awaiting),
            (Phase::Awaiting, Event::Received) => Some(Phase::Running),
            (Phase::Awaiting, Event::Disconnected) => Some(Phase::Idle),
            (Phase::Running, Event::Finished) => Some(Phase::Returning),
            (Phase::Returning, Event::Returned) => Some(Phase::Idle),
            _ => None,
        }
    }

    /// The phase that follows `self` on `event`, where `event` may happen in
    /// `self`.
    pub fn step(self, event: Event) -> (next: Option<Phase>)
        ensures
            next == self.after(event),
    {
        match (self, event) {
            (Phase::Idle, Event::Begin) => Some(Phase::Awaiting),
            (Phase::Awaiting, Event::Received) => Some(Phase::Running),
            (Phase::Awaiting, Event::Disconnected) => Some(Phase::Idle),
            (Phase::Running, Event::Finished) => Some(Phase::Returning),
            (Phase::Returning, Event::Returned) => Some(Phase::Idle),
            _ => None,
        }
    }

    /// The phase after a whole list of events, where each may happen in turn.
    pub open spec fn after_all(self, events: Seq<Event>) -> Option<Phase>
        decreases events.len(),
    {
        if events.len() == 0 {
            Some(self)
        } else {
            match self.after(events[0]) {
                Some(next) => next.after_all(events.skip(1)),
                None => None,
            }
        }
    }
}

/// How one run of a script system ended.
pub enum RunReport {
    /// The channel was closed and no VM came. The script was not called.
    NoVm,
    /// The script was called and returned `result`. The VM is back in the
    /// channel.
    Returned { result: Result<(), Error> },
    /// The script was called and returned `result`. The channel did not take
    /// the VM back, so it is handed to the caller.
    Stranded { result: Result<(), Error>, vm: Lua },
}

impl RunReport {
    /// The report of a run in which the script returned `result` and the
    /// channel gave back `unsent`.
    pub open spec fn settled(result: Result<(), Error>, unsent: Option<Lua>) -> RunReport {
        match unsent {
            None => RunReport::Returned { result },
            Some(vm) => RunReport::Stranded { result, vm },
        }
    }

    /// The report of a run in which the script returned `result` and the
    /// channel gave back `unsent`.
    pub fn settle(result: Result<(), Error>, unsent: Option<Lua>) -> (report: RunReport)
        ensures
            report == RunReport::settled(result, unsent),
    {
        match unsent {
            None => RunReport::Returned { result },
            Some(vm) => RunReport::Stranded { result, vm },
        }
    }

    /// What the script returned, where it was called.
    pub open spec fn result(self) -> Option<Result<(), Error>> {
        match self {
            RunReport::NoVm => None,
            RunReport::Returned { result } => Some(result),
            RunReport::Stranded { result, vm } => Some(result),
        }
    }

    /// The VM that the channel did not take back, where it did not.
    pub open spec fn stranded(self) -> Option<Lua> {
        match self {
            RunReport::Stranded { result, vm } => Some(vm),
            _ => None,
        }
    }
}

/// `result` is what `invoke` returned when it was called with some VM, the
/// function `key` and views that stand for the borrows of `data`.
pub open spec fn called_with<F: Fn(&Lua, &RegistryKey, &ScriptResourceData) -> Result<(), Error>>(
    invoke: &F,
    key: RegistryKey,
    data: ScriptSystemData,
    result: Result<(), Error>,
) -> bool {
    exists|vm: Lua, bundle: ScriptResourceData|
        bundle.narrows(data) && invoke.ensures((&vm, &key, &bundle), result)
}

/// `result` is what `invoke` returned when it was called with the VM `vm`,
/// the function `key` and views that stand for the borrows of `data`.
pub open spec fn called_on<F: Fn(&Lua, &RegistryKey, &ScriptResourceData) -> Result<(), Error>>(
    invoke: &F,
    vm: Lua,
    key: RegistryKey,
    data: ScriptSystemData,
    result: Result<(), Error>,
) -> bool {
    exists|bundle: ScriptResourceData|
        bundle.narrows(data) && invoke.ensures((&vm, &key, &bundle), result)
}

/// A script system.
pub struct ScriptSystem {
    /// The resources the system needs for a run.
    dependencies: Dependencies,
    /// The function inside the VM that a run calls.
    callback_key: RegistryKey,
    /// Where the VM goes after a run.
    sender: Sender<Lua>,
    /// Where the VM comes from before a run.
    receiver: Receiver<Lua>,
    phase: Phase,
}

impl ScriptSystem {
    /// The resources the system needs for a run.
    pub closed spec fn dependencies(self) -> Dependencies {
        self.dependencies
    }

    /// The function inside the VM that a run calls.
    pub closed spec fn callback_key(self) -> RegistryKey {
        self.callback_key
    }

    /// The end of the channel into which the system puts the VM after a run.
    pub closed spec fn sender(self) -> Sender<Lua> {
        self.sender
    }

    /// The end of the channel from which the system takes the VM for a run.
    pub closed spec fn receiver(self) -> Receiver<Lua> {
        self.receiver
    }

    /// Where the system stands in its run.
    pub closed spec fn phase(self) -> Phase {
        self.phase
    }

    /// The system is between two runs.
    pub open spec fn is_idle(self) -> bool {
        self.phase() == Phase::Idle
    }

    /// The same system in another phase: the same accessor, the same
    /// function and the same ends of the channel.
    pub open spec fn same_system(self, other: ScriptSystem) -> bool {
        &&& self.dependencies() == other.dependencies()
        &&& self.callback_key() == other.callback_key()
        &&& self.sender() == other.sender()
        &&& self.receiver() == other.receiver()
    }

    /// A script system that calls the function `callback_key` on the
    /// resources of `dependencies`, and takes the VM from `receiver` and
    /// gives it back to `sender`.
    pub fn new(
        sender: Sender<Lua>,
        receiver: Receiver<Lua>,
        callback_key: RegistryKey,
        dependencies: Dependencies,
    ) -> (system: ScriptSystem)
        ensures
            system.is_idle(),
            system.dependencies() == dependencies,
            system.callback_key() == callback_key,
            system.sender() == sender,
            system.receiver() == receiver,
    {
        ScriptSystem { dependencies, callback_key, sender, receiver, phase: Phase::Idle }
    }

    /// The resources the system needs for a run.
    pub fn accessor(&self) -> (accessor: &Dependencies)
        ensures
            *accessor == self.dependencies(),
    {
        &self.dependencies
    }

    /// Whether the system is between two runs.
    pub fn idle(&self) -> (idle: bool)
        ensures
            idle == self.is_idle(),
    {
        match self.phase {
            Phase::Idle => true,
            _ => false,
        }
    }

    /// Moves the system on `event` to the phase that follows.
    fn advance(&mut self, event: Event)
        requires
            old(self).phase().after(event) is Some,
        ensures
            final(self).same_system(*old(self)),
            Some(final(self).phase()) == old(self).phase().after(event),
    {
        match self.phase.step(event) {
            Some(next) => {
                self.phase = next;
            },
            None => {},
        }
    }

    /// Starts a run: waits for the VM, then narrows the borrows of `data`.
    /// With `Some`, the system holds the VM and the caller calls the script;
    /// `finish` ends the run. With `None` the channel was closed, and the
    /// system is idle again.
    pub fn begin(&mut self, data: &ScriptSystemData, table: &ReflectionTable) -> (started: Option<
        (Lua, ScriptResourceData),
    >)
        requires
            old(self).is_idle(),
            table.covers(data.reads()),
            table.covers(data.writes()),
        ensures
            final(self).same_system(*old(self)),
            match started {
                Some((vm, bundle)) => final(self).phase() == Phase::Running && bundle.narrows(
                    *data,
                ),
                None => final(self).is_idle(),
            },
    {
        self.advance(Event::Begin);
        let received = receive_vm(&self.receiver);
        self.take_in(received, data, table)
    }

    /// Ends a run in which the script returned `result`: the VM goes back
    /// into the channel, whatever `result` is, and the system is idle again.
    pub fn finish(&mut self, vm: Lua, result: Result<(), Error>) -> (report: RunReport)
        requires
            old(self).phase() == Phase::Running,
        ensures
            final(self).same_system(*old(self)),
            final(self).is_idle(),
            report == RunReport::settled(result, None) || report == RunReport::settled(
                result,
                Some(vm),
            ),
    {
        self.advance(Event::Finished);
        let unsent = send_vm(&self.sender, vm);
        self.advance(Event::Returned);
        RunReport::settle(result, unsent)
    }

    /// One run: waits for the VM, calls the script through `invoke` with the
    /// narrowed borrows of `data`, and gives the VM back. An error of the
    /// script is reported and does not keep the VM from going back.
    pub fn run<F>(&mut self, data: &ScriptSystemData, table: &ReflectionTable, invoke: &F) -> (report:
        RunReport) where F: Fn(&Lua, &RegistryKey, &ScriptResourceData) -> Result<(), Error>
        requires
            old(self).is_idle(),
            table.covers(data.reads()),
            table.covers(data.writes()),
            forall|vm: &Lua, key: &RegistryKey, bundle: &ScriptResourceData|
                invoke.requires((vm, key, bundle)),
        ensures
            final(self).same_system(*old(self)),
            final(self).is_idle(),
            report.result() matches Some(result) ==> called_with(
                invoke,
                old(self).callback_key(),
                *data,
                result,
            ),
    {
        self.advance(Event::Begin);
        let received = receive_vm(&self.receiver);
        self.run_received(received, data, table, invoke)
    }

    /// Takes what came out of the channel. With a VM, the system holds it
    /// from now on and the borrows of `data` are narrowed for the script;
    /// without one, the system is idle again.
    pub fn take_in(&mut self, received: Option<Lua>, data: &ScriptSystemData, table: &ReflectionTable) -> (started:
        Option<(Lua, ScriptResourceData)>)
        requires
            old(self).is_idle() || old(self).phase() == Phase::Awaiting,
            table.covers(data.reads()),
            table.covers(data.writes()),
        ensures
            final(self).same_system(*old(self)),
            started is Some <==> received is Some,
            started matches Some((vm, bundle)) ==> {
                &&& received == Some(vm)
                &&& bundle.narrows(*data)
                &&& final(self).phase() == Phase::Running
            },
            started is None ==> final(self).is_idle(),
    {
        if self.idle() {
            self.advance(Event::Begin);
        }
        match received {
            Some(vm) => {
                self.advance(Event::Received);
                let bundle = ScriptResourceData::narrow(data, table);
                Some((vm, bundle.unwrap()))
            },
            None => {
                self.advance(Event::Disconnected);
                None
            },
        }
    }

    /// The run for what came out of the channel. Without a VM the script is
    /// not called. With a VM the script is called through `invoke` on that
    /// VM, with the function of this system and the narrowed borrows of
    /// `data`; then the VM goes back into the channel, whatever the script
    /// returned, and the report holds the VM where the channel did not take
    /// it.
    pub fn run_received<F>(
        &mut self,
        received: Option<Lua>,
        data: &ScriptSystemData,
        table: &ReflectionTable,
        invoke: &F,
    ) -> (report: RunReport) where F: Fn(&Lua, &RegistryKey, &ScriptResourceData) -> Result<(), Error>
        requires
            old(self).is_idle() || old(self).phase() == Phase::Awaiting,
            table.covers(data.reads()),
            table.covers(data.writes()),
            forall|vm: &Lua, key: &RegistryKey, bundle: &ScriptResourceData|
                invoke.requires((vm, key, bundle)),
        ensures
            final(self).same_system(*old(self)),
            final(self).is_idle(),
            report is NoVm <==> received is None,
            received matches Some(vm) ==> {
                &&& report.result() matches Some(result)
                &&& called_on(invoke, vm, old(self).callback_key(), *data, result)
                &&& (report == RunReport::settled(result, None) || report == RunReport::settled(
                    result,
                    Some(vm),
                ))
            },
    {
        match self.take_in(received, data, table) {
            Some((vm, bundle)) => {
                let result = invoke(&vm, &self.callback_key, &bundle);
                self.finish(vm, result)
            },
            None => RunReport::NoVm,
        }
    }
}

/// A run that got the VM ends idle with the VM handed on, whether the script
/// failed or not: the events of a whole run lead from `Idle` back to `Idle`,
/// and no shorter run of them does.
pub proof fn lemma_run_returns_to_idle()
    ensures
        Phase::Idle.after_all(
            seq![Event::Begin, Event::Received, Event::Finished, Event::Returned],
        ) == Some(Phase::Idle),
        Phase::Idle.after_all(seq![Event::Begin, Event::Disconnected]) == Some(Phase::Idle),
        forall|phase: Phase| phase.after(Event::Finished) is Some ==> phase == Phase::Running,
        forall|phase: Phase| #[trigger]
            phase.after(Event::Returned) is Some ==> phase == Phase::Returning,
{
    let full = seq![Event::Begin, Event::Received, Event::Finished, Event::Returned];
    reveal_with_fuel(Phase::after_all, 6);
    assert(full.skip(1) == seq![Event::Received, Event::Finished, Event::Returned]);
    assert(full.skip(1).skip(1) == seq![Event::Finished, Event::Returned]);
    assert(full.skip(1).skip(1).skip(1) == seq![Event::Returned]);
    assert(full.skip(1).skip(1).skip(1).skip(1) == Seq::<Event>::empty());
    let short = seq![Event::Begin, Event::Disconnected];
    assert(short.skip(1) == seq![Event::Disconnected]);
    assert(short.skip(1).skip(1) == Seq::<Event>::empty());
}

} // verus!
