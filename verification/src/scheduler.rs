//! The scheduler: runs the script systems once per tick, one after the other,
//! and hands the VM to each in turn.

use crate::borrow::BorrowLedger;
use crate::borrow::Borrows;
use crate::dependencies::admissible;
use crate::dependencies::Dependencies;
use crate::reflection::first_hidden;
use crate::reflection::lemma_none_hidden;
use crate::reflection::Access;
use crate::reflection::ReflectionTable;
use crate::resource_id::copy_id;
use crate::resource_table::first_unknown;
use crate::resource_table::named;
use crate::resource_table::ResourceTable;
use crate::script_system::views_of;
use crate::script_system::RunReport;
use crate::script_system::ScriptResourceData;
use crate::script_system::ScriptSystem;
use crate::system_data::first_refusal;
use crate::system_data::lemma_release_restores;
use crate::system_data::FetchError;
use crate::system_data::ScriptSystemData;
use crate::vm::expire_registry;
use crate::vm::receive_vm;
use crate::vm::send_vm;
use crate::world::world_ids;
use crossbeam::channel::Receiver;
use crossbeam::channel::Sender;
use rlua::Error;
use rlua::Lua;
use rlua::RegistryKey;
use shred::ResourceId;
use shred::World;
use vstd::prelude::*;

verus! {

/// Why a script system cannot run.
pub enum Fault {
    /// The store does not lend a resource that the system declared.
    Refused(FetchError),
    /// Scripts may not see a resource that the system declared.
    Hidden(ResourceId),
}

/// A script system that cannot run, by its place in the scheduler, and why.
pub struct ConfigError {
    pub system: usize,
    pub fault: Fault,
}

/// Why a system with the accessor `accessor` cannot run, if it cannot: the
/// first resource that the store refuses, or else the first declared resource
/// that scripts may not see, reads before writes.
pub open spec fn fault_of(
    accessor: Dependencies,
    stored: Set<ResourceId>,
    borrows: Borrows,
    visible: Set<ResourceId>,
) -> Option<Fault> {
    if first_refusal(accessor, stored, borrows) is Some {
        Some(Fault::Refused(first_refusal(accessor, stored, borrows)->0))
    } else if first_hidden(visible, accessor.declared_reads()) is Some {
        Some(Fault::Hidden(first_hidden(visible, accessor.declared_reads())->0))
    } else if first_hidden(visible, accessor.declared_writes()) is Some {
        Some(Fault::Hidden(first_hidden(visible, accessor.declared_writes())->0))
    } else {
        None
    }
}

/// Why a script declaration is not accepted.
pub enum DeclarationError {
    /// The name at this place of the declared reads is not registered.
    UnknownRead(usize),
    /// The name at this place of the declared writes is not registered.
    UnknownWrite(usize),
    /// The declaration reads and writes one resource, writes one twice, or
    /// writes the reflection table.
    Conflict,
}

/// `result` is what `invoke` returned when it was called with some VM, the
/// function of `system`, a shared view of each resource that `system` reads
/// and an exclusive view of each resource that it writes, in the order of its
/// declaration.
pub open spec fn called_for<F: Fn(&Lua, &RegistryKey, &ScriptResourceData) -> Result<(), Error>>(
    invoke: &F,
    system: ScriptSystem,
    result: Result<(), Error>,
) -> bool {
    exists|vm: Lua, bundle: ScriptResourceData|
        {
            &&& views_of(bundle.reads(), system.dependencies().declared_reads(), Access::Shared)
            &&& views_of(
                bundle.writes(),
                system.dependencies().declared_writes(),
                Access::Exclusive,
            )
            &&& invoke.ensures((&vm, &system.callback_key(), &bundle), result)
        }
}

/// What a tick did with one system.
pub enum Step {
    /// The system was not run: the VM was not ready in the channel.
    Skipped,
    /// The system was run and got no VM out of the channel. Its script was
    /// not called.
    NoVm,
    /// The script was called and returned `result`, and the VM went back
    /// into the channel.
    Returned { result: Result<(), Error> },
    /// The script was called and returned `result`, and the channel did not
    /// take the VM back: the scheduler holds it.
    Stranded { result: Result<(), Error> },
}

impl Step {
    /// The step that a run with the report `report` makes.
    pub open spec fn of(report: RunReport) -> Step {
        match report {
            RunReport::NoVm => Step::NoVm,
            RunReport::Returned { result } => Step::Returned { result },
            RunReport::Stranded { result, vm } => Step::Stranded { result },
        }
    }

    /// What the script returned, where it was called.
    pub open spec fn result(self) -> Option<Result<(), Error>> {
        match self {
            Step::Skipped => None,
            Step::NoVm => None,
            Step::Returned { result } => Some(result),
            Step::Stranded { result } => Some(result),
        }
    }

    /// The step that a run with the report `report` makes, and the VM that
    /// the run left with the caller, if it left one.
    pub fn record(report: RunReport) -> (recorded: (Step, Option<Lua>))
        ensures
            recorded.0 == Step::of(report),
            recorded.1 == report.stranded(),
    {
        match report {
            RunReport::NoVm => (Step::NoVm, None),
            RunReport::Returned { result } => (Step::Returned { result }, None),
            RunReport::Stranded { result, vm } => (Step::Stranded { result }, Some(vm)),
        }
    }

    /// What the script returned, where it was called.
    pub fn outcome(&self) -> (outcome: Option<&Result<(), Error>>)
        ensures
            outcome is Some <==> self.result() is Some,
            outcome matches Some(result) ==> self.result() == Some(*result),
    {
        match self {
            Step::Skipped => None,
            Step::NoVm => None,
            Step::Returned { result } => Some(result),
            Step::Stranded { result } => Some(result),
        }
    }
}

/// Where the VM is during a tick, as far as the scheduler knows.
#[derive(Clone, Copy, Debug, PartialEq, Eq, Structural)]
pub enum Handoff {
    /// In the channel. The next system takes it from there.
    Ready,
    /// In the channel, where a system did not get it: the systems that
    /// follow are not run.
    Stalled,
    /// With the scheduler: there is nothing in the channel for a system.
    Held,
}

impl Handoff {
    /// Where the VM is after the scheduler tried to put it into the channel
    /// and got `unsent` back.
    pub open spec fn opened(unsent: Option<Lua>) -> Handoff {
        if unsent is None {
            Handoff::Ready
        } else {
            Handoff::Held
        }
    }

    /// Where the VM is after the step `step`. Only a system that runs moves
    /// the VM, and only a system that puts it back leaves it ready.
    pub open spec fn after(self, step: Step) -> Handoff {
        match (self, step) {
            (Handoff::Ready, Step::NoVm) => Handoff::Stalled,
            (Handoff::Ready, Step::Stranded { result }) => Handoff::Held,
            _ => self,
        }
    }

    /// Whether the next system is run.
    pub open spec fn runs(self) -> bool {
        self is Ready
    }

    /// Whether the scheduler takes the VM out of the channel at the end of
    /// the tick.
    pub open spec fn in_channel(self) -> bool {
        self is Ready || self is Stalled
    }

    /// Where the VM is after the scheduler tried to put it into the channel
    /// and got `unsent` back.
    pub fn open(unsent: &Option<Lua>) -> (handoff: Handoff)
        ensures
            handoff == Handoff::opened(*unsent),
    {
        match unsent {
            None => Handoff::Ready,
            Some(_) => Handoff::Held,
        }
    }

    /// Where the VM is after the step `step`.
    pub fn next(self, step: &Step) -> (handoff: Handoff)
        ensures
            handoff == self.after(*step),
    {
        match (self, step) {
            (Handoff::Ready, Step::NoVm) => Handoff::Stalled,
            (Handoff::Ready, Step::Stranded { .. }) => Handoff::Held,
            _ => self,
        }
    }

    /// Whether the next system is run.
    pub fn is_ready(self) -> (ready: bool)
        ensures
            ready == self.runs(),
    {
        match self {
            Handoff::Ready => true,
            _ => false,
        }
    }

    /// Whether the scheduler takes the VM out of the channel at the end of
    /// the tick.
    pub fn is_in_channel(self) -> (there: bool)
        ensures
            there == self.in_channel(),
    {
        match self {
            Handoff::Held => false,
            _ => true,
        }
    }
}

/// Where the VM is before the system at place `i`, in a tick that opened
/// with `opened` and made the steps `steps`.
pub open spec fn handoff_before(opened: Handoff, steps: Seq<Step>, i: int) -> Handoff
    decreases i,
{
    if i <= 0 {
        opened
    } else {
        handoff_before(opened, steps, i - 1).after(steps[i - 1])
    }
}

/// Where the VM is before a system depends on the steps before it alone.
pub proof fn lemma_handoff_before_prefix(
    opened: Handoff,
    steps: Seq<Step>,
    longer: Seq<Step>,
    i: int,
)
    requires
        0 <= i <= steps.len() <= longer.len(),
        forall|k: int| 0 <= k < steps.len() ==> steps[k] == longer[k],
    ensures
        handoff_before(opened, steps, i) == handoff_before(opened, longer, i),
    decreases i,
{
    if i > 0 {
        lemma_handoff_before_prefix(opened, steps, longer, i - 1);
    }
}

/// The VM is ready before a system only if it was ready before every system
/// in front of it and each of them put it back into the channel.
pub proof fn lemma_ready_after_returns(opened: Handoff, steps: Seq<Step>, i: int, j: int)
    requires
        0 <= i < j <= steps.len(),
        handoff_before(opened, steps, j).runs(),
    ensures
        handoff_before(opened, steps, i).runs(),
        !(steps[i] is NoVm),
        !(steps[i] is Stranded),
    decreases j - i,
{
    if i + 1 < j {
        lemma_ready_after_returns(opened, steps, i + 1, j);
    }
}

/// What one tick did.
pub struct TickReport {
    /// Where the VM was when the tick turned to the first system.
    pub opened: Handoff,
    /// What the tick did with each system, in the order of the scheduler.
    pub steps: Vec<Step>,
}

impl TickReport {
    /// Whether the VM was ready in the channel when the tick turned to the
    /// first system.
    pub open spec fn started(self) -> bool {
        self.opened.runs()
    }

    /// Where the VM was before the system at place `i`.
    pub open spec fn before(self, i: int) -> Handoff {
        handoff_before(self.opened, self.steps@, i)
    }

    /// Where the VM was after the last system.
    pub open spec fn last(self) -> Handoff {
        self.before(self.steps@.len() as int)
    }

    /// The report speaks of the `systems`, one for one and in their order. A
    /// system was run exactly where the VM was ready in the channel before
    /// it, and each result is what `invoke` returned for that system.
    pub open spec fn describes<F: Fn(&Lua, &RegistryKey, &ScriptResourceData) -> Result<(), Error>>(
        self,
        systems: Seq<ScriptSystem>,
        invoke: &F,
    ) -> bool {
        &&& self.steps@.len() == systems.len()
        &&& forall|i: int|
            0 <= i < systems.len() ==> ((#[trigger] self.steps@[i]) is Skipped <==> !self.before(
                i,
            ).runs())
        &&& forall|i: int|
            0 <= i < systems.len() ==> ((#[trigger] self.steps@[i]).result() matches Some(result)
                ==> called_for(invoke, systems[i], result))
    }

    /// Whether the VM was ready in the channel when the tick turned to the
    /// first system.
    pub fn was_started(&self) -> (started: bool)
        ensures
            started == self.started(),
    {
        self.opened.is_ready()
    }
}

/// The systems run in their order: a system is run only after every system
/// in front of it was run, had its script called and put the VM back into
/// the channel.
pub proof fn lemma_steps_in_order<F: Fn(&Lua, &RegistryKey, &ScriptResourceData) -> Result<(), Error>>(
    report: TickReport,
    systems: Seq<ScriptSystem>,
    invoke: &F,
    i: int,
    j: int,
)
    requires
        report.describes(systems, invoke),
        0 <= i < j < systems.len(),
        !(report.steps@[j] is Skipped),
    ensures
        report.steps@[i] is Returned,
        report.started(),
{
    lemma_ready_after_returns(report.opened, report.steps@, i, j);
    if i > 0 {
        lemma_ready_after_returns(report.opened, report.steps@, 0, j);
    }
    assert(!(report.steps@[i] is Skipped));
}

/// A report that describes some systems describes the same systems in
/// another phase.
pub proof fn lemma_describes_same<F: Fn(&Lua, &RegistryKey, &ScriptResourceData) -> Result<(), Error>>(
    report: TickReport,
    systems: Seq<ScriptSystem>,
    others: Seq<ScriptSystem>,
    invoke: &F,
)
    requires
        report.describes(systems, invoke),
        systems.len() == others.len(),
        forall|i: int| 0 <= i < systems.len() ==> (#[trigger] systems[i]).same_system(others[i]),
    ensures
        report.describes(others, invoke),
{
    assert forall|i: int| 0 <= i < others.len() implies ((#[trigger] report.steps@[i]).result()
        matches Some(result) ==> called_for(invoke, others[i], result)) by {
        assert(systems[i].same_system(others[i]));
    }
}

/// The script systems of a simulation, in the order in which they run.
pub struct Scheduler {
    systems: Vec<ScriptSystem>,
    resources: ResourceTable,
    reflection: ReflectionTable,
    ledger: BorrowLedger,
    table_id: ResourceId,
    sender: Sender<Lua>,
    receiver: Receiver<Lua>,
    vm: Option<Lua>,
}

impl Scheduler {
    /// The script systems, in the order in which they run.
    pub closed spec fn systems(self) -> Seq<ScriptSystem> {
        self.systems@
    }

    /// The identity registered under each resource name.
    pub closed spec fn names(self) -> Map<Seq<char>, ResourceId> {
        self.resources@
    }

    /// The resources that scripts may see.
    pub closed spec fn visible(self) -> Set<ResourceId> {
        self.reflection@
    }

    /// The borrows that script systems hold.
    pub closed spec fn borrows(self) -> Borrows {
        self.ledger@
    }

    /// The identity under which the reflection table is stored.
    pub closed spec fn table_id(self) -> ResourceId {
        self.table_id
    }

    /// The VM, where the scheduler itself holds it.
    pub closed spec fn vm(self) -> Option<Lua> {
        self.vm
    }

    /// Whether the scheduler itself holds the VM.
    pub open spec fn holds_vm(self) -> bool {
        self.vm() is Some
    }

    /// The end of the channel into which the scheduler puts the VM when a
    /// tick begins.
    pub closed spec fn sender(self) -> Sender<Lua> {
        self.sender
    }

    /// The end of the channel from which the scheduler takes the VM when a
    /// tick ends.
    pub closed spec fn receiver(self) -> Receiver<Lua> {
        self.receiver
    }

    /// Between two ticks: every system is idle and the borrows keep the rule
    /// of one writer or many readers.
    pub closed spec fn wf(self) -> bool {
        &&& self.resources.wf()
        &&& self.ledger@.wf()
        &&& forall|i: int| 0 <= i < self.systems@.len() ==> (#[trigger] self.systems@[i]).is_idle()
    }

    /// Every system can run on the resources in `stored`.
    pub open spec fn runnable(self, stored: Set<ResourceId>) -> bool {
        forall|i: int|
            0 <= i < self.systems().len() ==> fault_of(
                (#[trigger] self.systems()[i]).dependencies(),
                stored,
                self.borrows(),
                self.visible(),
            ) is None
    }

    /// The same systems, names, visible resources, borrows and ends of the
    /// channel.
    pub open spec fn same_setup(self, other: Scheduler) -> bool {
        &&& self.systems().len() == other.systems().len()
        &&& forall|i: int|
            0 <= i < self.systems().len() ==> (#[trigger] self.systems()[i]).same_system(
                other.systems()[i],
            )
        &&& self.names() == other.names()
        &&& self.visible() == other.visible()
        &&& self.borrows() == other.borrows()
        &&& self.table_id() == other.table_id()
        &&& self.sender() == other.sender()
        &&& self.receiver() == other.receiver()
    }

    /// A scheduler without systems and without resources that holds `vm`.
    /// Both ends belong to the channel over which the systems take the VM and
    /// give it back; the reflection table is stored under `table_id`.
    pub fn new(sender: Sender<Lua>, receiver: Receiver<Lua>, vm: Lua, table_id: ResourceId) -> (scheduler:
        Scheduler)
        ensures
            scheduler.wf(),
            scheduler.systems().len() == 0,
            scheduler.names() == Map::<Seq<char>, ResourceId>::empty(),
            scheduler.visible() == Set::<ResourceId>::empty(),
            scheduler.borrows().is_clear(),
            scheduler.table_id() == table_id,
            scheduler.sender() == sender,
            scheduler.receiver() == receiver,
            scheduler.vm() == Some(vm),
    {
        Scheduler {
            systems: Vec::new(),
            resources: ResourceTable::new(),
            reflection: ReflectionTable::new(),
            ledger: BorrowLedger::new(),
            table_id,
            sender,
            receiver,
            vm: Some(vm),
        }
    }

    /// Registers the resource `id` under `name` and makes it visible to
    /// scripts.
    pub fn register_resource(&mut self, name: &str, id: ResourceId)
        requires
            old(self).wf(),
        ensures
            final(self).wf(),
            final(self).names() == old(self).names().insert(name@, id),
            final(self).visible() == old(self).visible().insert(id),
            final(self).systems() == old(self).systems(),
            final(self).borrows() == old(self).borrows(),
            final(self).table_id() == old(self).table_id(),
            final(self).sender() == old(self).sender(),
            final(self).receiver() == old(self).receiver(),
            final(self).vm() == old(self).vm(),
    {
        self.resources.register(name, copy_id(&id));
        self.reflection.register(id);
    }

    /// The accessor for a script that declares the resources it reads and
    /// writes by name.
    pub fn declare(&self, reads: &[String], writes: &[String]) -> (declared: Result<
        Dependencies,
        DeclarationError,
    >)
        requires
            self.wf(),
        ensures
            match declared {
                Ok(accessor) => {
                    &&& accessor.wf()
                    &&& accessor.table_id() == self.table_id()
                    &&& named(self.names(), reads@, accessor.declared_reads())
                    &&& named(self.names(), writes@, accessor.declared_writes())
                },
                Err(DeclarationError::UnknownRead(k)) => first_unknown(self.names(), reads@, k as int),
                Err(DeclarationError::UnknownWrite(k)) => {
                    &&& forall|i: int|
                        0 <= i < reads@.len() ==> self.names().contains_key(#[trigger] reads@[i]@)
                    &&& first_unknown(self.names(), writes@, k as int)
                },
                Err(DeclarationError::Conflict) => exists|r: Seq<ResourceId>, w: Seq<ResourceId>|
                    {
                        &&& #[trigger] named(self.names(), reads@, r)
                        &&& #[trigger] named(self.names(), writes@, w)
                        &&& !admissible(r, w, self.table_id())
                    },
            },
    {
        let read_ids = match self.resources.resolve(reads) {
            Ok(ids) => ids,
            Err(k) => {
                return Err(DeclarationError::UnknownRead(k));
            },
        };
        let write_ids = match self.resources.resolve(writes) {
            Ok(ids) => ids,
            Err(k) => {
                return Err(DeclarationError::UnknownWrite(k));
            },
        };
        match Dependencies::new(
            read_ids.as_slice(),
            write_ids.as_slice(),
            copy_id(&self.table_id),
        ) {
            Some(accessor) => Ok(accessor),
            None => {
                assert(named(self.names(), reads@, read_ids@));
                assert(named(self.names(), writes@, write_ids@));
                assert(!admissible(read_ids@, write_ids@, self.table_id()));
                Err(DeclarationError::Conflict)
            },
        }
    }

    /// Adds a system. It runs after the systems that were added before.
    pub fn add_system(&mut self, system: ScriptSystem)
        requires
            old(self).wf(),
            system.is_idle(),
        ensures
            final(self).wf(),
            final(self).systems() == old(self).systems().push(system),
            final(self).names() == old(self).names(),
            final(self).visible() == old(self).visible(),
            final(self).borrows() == old(self).borrows(),
            final(self).table_id() == old(self).table_id(),
            final(self).sender() == old(self).sender(),
            final(self).receiver() == old(self).receiver(),
            final(self).vm() == old(self).vm(),
    {
        self.systems.push(system);
    }

    /// How many systems there are.
    pub fn len(&self) -> (n: usize)
        ensures
            n == self.systems().len(),
    {
        self.systems.len()
    }

    /// Whether the scheduler itself holds the VM.
    pub fn has_vm(&self) -> (held: bool)
        ensures
            held == self.holds_vm(),
    {
        self.vm.is_some()
    }

    /// Whether every system can run on the resources in `world`; if not, the
    /// first system that cannot, and why.
    pub fn check(&self, world: &World) -> (checked: Result<(), ConfigError>)
        requires
            self.wf(),
        ensures
            match checked {
                Ok(()) => self.runnable(world_ids(*world)),
                Err(e) => {
                    &&& e.system < self.systems().len()
                    &&& fault_of(
                        self.systems()[e.system as int].dependencies(),
                        world_ids(*world),
                        self.borrows(),
                        self.visible(),
                    ) == Some(e.fault)
                    &&& forall|j: int|
                        0 <= j < e.system ==> fault_of(
                            (#[trigger] self.systems()[j]).dependencies(),
                            world_ids(*world),
                            self.borrows(),
                            self.visible(),
                        ) is None
                },
            },
    {
        let mut i: usize = 0;
        while i < self.systems.len()
            invariant
                i <= self.systems@.len(),
                forall|j: int|
                    0 <= j < i ==> fault_of(
                        (#[trigger] self.systems()[j]).dependencies(),
                        world_ids(*world),
                        self.borrows(),
                        self.visible(),
                    ) is None,
            decreases self.systems@.len() - i,
        {
            let accessor = self.systems[i].accessor();
            if let Some(refusal) = ScriptSystemData::check(accessor, world, &self.ledger) {
                return Err(ConfigError { system: i, fault: Fault::Refused(refusal) });
            }
            if let Some(id) = self.reflection.find_hidden(accessor.read_ids().as_slice()) {
                return Err(ConfigError { system: i, fault: Fault::Hidden(id) });
            }
            if let Some(id) = self.reflection.find_hidden(accessor.write_ids().as_slice()) {
                return Err(ConfigError { system: i, fault: Fault::Hidden(id) });
            }
            i = i + 1;
        }
        Ok(())
    }

    /// What the scheduler `self` is after a tick that began as `before`,
    /// opened with `opened` and reported `report`. The setup is as before.
    /// Where the VM was not in the channel after the last system, the
    /// scheduler holds it exactly if it held it before or handed it out; and
    /// where it was never handed out, the scheduler holds what it held.
    pub open spec fn ticked<F: Fn(&Lua, &RegistryKey, &ScriptResourceData) -> Result<(), Error>>(
        self,
        before: Scheduler,
        opened: Handoff,
        report: TickReport,
        invoke: &F,
    ) -> bool {
        &&& self.wf()
        &&& self.same_setup(before)
        &&& report.opened == opened
        &&& report.describes(before.systems(), invoke)
        &&& (report.last() is Held ==> self.holds_vm() == (before.holds_vm() || opened.runs()))
        &&& (opened is Held ==> self.vm() == before.vm())
    }

    /// What the scheduler `self` is after a whole tick that began as
    /// `before` and reported `report`. The tick opens with the VM ready in
    /// the channel or held back, and held back where there was no VM to hand
    /// out. Where the VM was not in the channel after the last system, the
    /// scheduler holds it exactly if it held it before.
    pub open spec fn ran_once<F: Fn(&Lua, &RegistryKey, &ScriptResourceData) -> Result<(), Error>>(
        self,
        before: Scheduler,
        report: TickReport,
        invoke: &F,
    ) -> bool {
        &&& self.wf()
        &&& self.same_setup(before)
        &&& report.describes(before.systems(), invoke)
        &&& !(report.opened is Stalled)
        &&& (!before.holds_vm() ==> report.opened is Held)
        &&& (report.last() is Held ==> self.holds_vm() == before.holds_vm())
        &&& (report.opened is Held ==> self.vm() == before.vm())
    }

    /// One tick: puts the VM into the channel, runs each system once, in
    /// their order, and takes the VM out of the channel again. Each system
    /// borrows its resources for its own run only. An error of a script is
    /// reported and stops nothing. Where a system gets no VM out of the
    /// channel or cannot put it back, the systems that follow are not run.
    pub fn run_once<F>(&mut self, world: &World, invoke: &F) -> (report: TickReport) where
        F: Fn(&Lua, &RegistryKey, &ScriptResourceData) -> Result<(), Error>,

        requires
            old(self).wf(),
            old(self).runnable(world_ids(*world)),
            forall|vm: &Lua, key: &RegistryKey, bundle: &ScriptResourceData|
                invoke.requires((vm, key, bundle)),
        ensures
            final(self).ran_once(*old(self), report, invoke),
    {
        let opened = match self.vm.take() {
            Some(vm) => {
                let unsent = send_vm(&self.sender, vm);
                let opened = Handoff::open(&unsent);
                self.vm = unsent;
                opened
            },
            None => Handoff::Held,
        };
        proof {
            lemma_same_setup_runs(*self, *old(self), world_ids(*world));
        }
        let ghost handed = *self;
        let report = self.tick(opened, world, invoke);
        proof {
            lemma_describes_same(report, handed.systems(), old(self).systems(), invoke);
        }
        report
    }

    /// The tick after the VM was handed out: `opened` says whether it is
    /// ready in the channel. Each system is run exactly where the VM is
    /// ready before it, on the borrows it declared, which it holds for its
    /// own run only. At the end the scheduler takes the VM out of the
    /// channel, where it is there.
    pub fn tick<F>(&mut self, opened: Handoff, world: &World, invoke: &F) -> (report: TickReport) where
        F: Fn(&Lua, &RegistryKey, &ScriptResourceData) -> Result<(), Error>,

        requires
            old(self).wf(),
            old(self).runnable(world_ids(*world)),
            opened.in_channel() ==> !old(self).holds_vm(),
            forall|vm: &Lua, key: &RegistryKey, bundle: &ScriptResourceData|
                invoke.requires((vm, key, bundle)),
        ensures
            final(self).ticked(*old(self), opened, report, invoke),
    {
        let mut steps: Vec<Step> = Vec::new();
        let mut handoff = opened;
        let mut i: usize = 0;
        while i < self.systems.len()
            invariant
                i <= self.systems@.len(),
                self.wf(),
                self.same_setup(*old(self)),
                old(self).runnable(world_ids(*world)),
                forall|vm: &Lua, key: &RegistryKey, bundle: &ScriptResourceData|
                    invoke.requires((vm, key, bundle)),
                steps@.len() == i,
                handoff == handoff_before(opened, steps@, i as int),
                handoff.runs() ==> opened.runs(),
                opened is Held ==> handoff is Held,
                handoff is Held ==> self.holds_vm() == (old(self).holds_vm() || opened.runs()),
                handoff.in_channel() ==> self.vm() == old(self).vm(),
                opened is Held ==> self.vm() == old(self).vm(),
                forall|k: int|
                    0 <= k < i ==> ((#[trigger] steps@[k]) is Skipped <==> !handoff_before(
                        opened,
                        steps@,
                        k,
                    ).runs()),
                forall|k: int|
                    0 <= k < i ==> ((#[trigger] steps@[k]).result() matches Some(result)
                        ==> called_for(invoke, old(self).systems()[k], result)),
            decreases self.systems@.len() - i,
        {
            let ghost earlier = steps@;
            let step = if handoff.is_ready() {
                let ghost before = self.ledger@;
                let ghost system = self.systems@[i as int];
                assert(system.same_system(old(self).systems()[i as int]));
                proof {
                    let accessor = system.dependencies();
                    assert(fault_of(
                        old(self).systems()[i as int].dependencies(),
                        world_ids(*world),
                        old(self).borrows(),
                        old(self).visible(),
                    ) is None);
                    lemma_none_hidden(self.visible(), accessor.declared_reads());
                    lemma_none_hidden(self.visible(), accessor.declared_writes());
                }
                let data = ScriptSystemData::fetch(
                    self.systems[i].accessor(),
                    world,
                    &mut self.ledger,
                );
                proof {
                    lemma_release_restores(data, system.dependencies(), before, self.ledger@);
                }
                let run = self.systems[i].run(&data, &self.reflection, invoke);
                proof {
                    if let Some(result) = run.result() {
                        assert(called_for(invoke, old(self).systems()[i as int], result));
                    }
                }
                data.release(&mut self.ledger);
                let (step, stranded) = Step::record(run);
                match stranded {
                    Some(vm) => {
                        self.vm = Some(vm);
                    },
                    None => {},
                }
                step
            } else {
                Step::Skipped
            };
            handoff = handoff.next(&step);
            steps.push(step);
            proof {
                assert forall|k: int| 0 <= k <= i implies handoff_before(opened, steps@, k)
                    == handoff_before(opened, earlier, k) by {
                    lemma_handoff_before_prefix(opened, earlier, steps@, k);
                }
            }
            i = i + 1;
        }
        if handoff.is_in_channel() {
            self.vm = receive_vm(&self.receiver);
        }
        TickReport { opened, steps }
    }

    /// One tick where every system can run on the resources in `world`, and
    /// otherwise no tick at all and the first system that cannot run.
    pub fn try_run_once<F>(&mut self, world: &World, invoke: &F) -> (ticked: Result<
        TickReport,
        ConfigError,
    >) where F: Fn(&Lua, &RegistryKey, &ScriptResourceData) -> Result<(), Error>
        requires
            old(self).wf(),
            forall|vm: &Lua, key: &RegistryKey, bundle: &ScriptResourceData|
                invoke.requires((vm, key, bundle)),
        ensures
            match ticked {
                Ok(report) => {
                    &&& old(self).runnable(world_ids(*world))
                    &&& final(self).ran_once(*old(self), report, invoke)
                },
                Err(e) => {
                    &&& !old(self).runnable(world_ids(*world))
                    &&& final(self).wf()
                    &&& final(self).same_setup(*old(self))
                    &&& final(self).vm() == old(self).vm()
                    &&& e.system < old(self).systems().len()
                    &&& fault_of(
                        old(self).systems()[e.system as int].dependencies(),
                        world_ids(*world),
                        old(self).borrows(),
                        old(self).visible(),
                    ) == Some(e.fault)
                    &&& forall|j: int|
                        0 <= j < e.system ==> fault_of(
                            (#[trigger] old(self).systems()[j]).dependencies(),
                            world_ids(*world),
                            old(self).borrows(),
                            old(self).visible(),
                        ) is None
                },
            },
    {
        match self.check(world) {
            Ok(()) => Ok(self.run_once(world, invoke)),
            Err(e) => Err(e),
        }
    }

    /// As many ticks as `ticks` says, one after the other. Each tick is a
    /// whole tick of its own, and the setup and the borrows are the same
    /// after each of them.
    pub fn run_for<F>(&mut self, world: &World, ticks: usize, invoke: &F) -> (reports: Vec<
        TickReport,
    >) where F: Fn(&Lua, &RegistryKey, &ScriptResourceData) -> Result<(), Error>
        requires
            old(self).wf(),
            old(self).runnable(world_ids(*world)),
            forall|vm: &Lua, key: &RegistryKey, bundle: &ScriptResourceData|
                invoke.requires((vm, key, bundle)),
        ensures
            final(self).wf(),
            final(self).same_setup(*old(self)),
            reports@.len() == ticks,
            forall|t: int|
                0 <= t < ticks ==> (#[trigger] reports@[t]).describes(old(self).systems(), invoke),
            forall|t: int| 0 <= t < ticks ==> !((#[trigger] reports@[t]).opened is Stalled),
            !old(self).holds_vm() ==> forall|t: int|
                0 <= t < ticks ==> (#[trigger] reports@[t]).opened is Held,
            !old(self).holds_vm() ==> final(self).vm() == old(self).vm(),
    {
        let mut reports: Vec<TickReport> = Vec::new();
        let mut t: usize = 0;
        while t < ticks
            invariant
                t <= ticks,
                self.wf(),
                self.same_setup(*old(self)),
                old(self).runnable(world_ids(*world)),
                forall|vm: &Lua, key: &RegistryKey, bundle: &ScriptResourceData|
                    invoke.requires((vm, key, bundle)),
                reports@.len() == t,
                forall|k: int|
                    0 <= k < t ==> (#[trigger] reports@[k]).describes(old(self).systems(), invoke),
                forall|k: int| 0 <= k < t ==> !((#[trigger] reports@[k]).opened is Stalled),
                !old(self).holds_vm() ==> self.vm() == old(self).vm(),
                !old(self).holds_vm() ==> forall|k: int|
                    0 <= k < t ==> (#[trigger] reports@[k]).opened is Held,
            decreases ticks - t,
        {
            proof {
                lemma_same_setup_runs(*self, *old(self), world_ids(*world));
            }
            let ghost now = *self;
            let report = self.run_once(world, invoke);
            proof {
                lemma_describes_same(report, now.systems(), old(self).systems(), invoke);
            }
            reports.push(report);
            t = t + 1;
        }
        reports
    }

    /// Ends the scheduling: the systems are dropped and with them the keys
    /// of their functions, the VM forgets those functions, and the caller
    /// gets the VM, where the scheduler holds it.
    pub fn shut_down(self) -> (vm: Option<Lua>)
        ensures
            vm == self.vm(),
    {
        let Scheduler { systems, vm, .. } = self;
        discard(systems);
        match &vm {
            Some(held) => expire_registry(held),
            None => {},
        }
        vm
    }
}

/// Takes the systems and drops them.
fn discard(systems: Vec<ScriptSystem>) {
}

/// What can run in one scheduler can run in another with the same systems,
/// visible resources and borrows.
pub proof fn lemma_same_setup_runs(now: Scheduler, before: Scheduler, stored: Set<ResourceId>)
    requires
        now.same_setup(before),
        before.runnable(stored),
    ensures
        now.runnable(stored),
{
    assert forall|i: int| 0 <= i < now.systems().len() implies fault_of(
        (#[trigger] now.systems()[i]).dependencies(),
        stored,
        now.borrows(),
        now.visible(),
    ) is None by {
        assert(now.systems()[i].same_system(before.systems()[i]));
    }
}

/// A scheduler without systems can run on every store. Its ticks call no
/// script and leave the borrows as they were.
pub proof fn lemma_no_systems_runnable(scheduler: Scheduler, stored: Set<ResourceId>)
    requires
        scheduler.systems().len() == 0,
    ensures
        scheduler.runnable(stored),
{
}

/// Once a system got the VM, the VM is not lost, whether the script failed
/// or not: it is back in the channel, or the scheduler holds it where the
/// channel did not take it.
pub proof fn lemma_vm_comes_back(result: Result<(), Error>, unsent: Option<Lua>)
    ensures
        RunReport::settled(result, unsent).result() == Some(result),
        Step::of(RunReport::settled(result, unsent)).result() == Some(result),
        unsent is None ==> Handoff::Ready.after(Step::of(RunReport::settled(result, unsent)))
            == Handoff::Ready,
        unsent is Some ==> Handoff::Ready.after(Step::of(RunReport::settled(result, unsent)))
            == Handoff::Held,
        RunReport::settled(result, unsent).stranded() == unsent,
        Handoff::Ready.after(Step::of(RunReport::settled(result, unsent))) != Handoff::Stalled,
{
}

} // verus!
