use script_systems::scheduler::Handoff;
use crossbeam::channel::bounded;
use rlua::Lua;
use rlua::RegistryKey;
use script_systems::borrow::BorrowLedger;
use script_systems::dependencies::Dependencies;
use script_systems::reflection::Access;
use script_systems::reflection::ReflectionTable;
use script_systems::scheduler::DeclarationError;
use script_systems::scheduler::Fault;
use script_systems::scheduler::Scheduler;
use script_systems::scheduler::Step;
use script_systems::script_system::Event;
use script_systems::script_system::Phase;
use script_systems::script_system::RunReport;
use script_systems::script_system::ScriptResourceData;
use script_systems::script_system::ScriptSystem;
use script_systems::system_data::FetchError;
use script_systems::system_data::ScriptSystemData;
use shred::ResourceId;
use shred::World;

struct Health(u8);
struct Clock;
struct Marker;

fn health() -> ResourceId {
    ResourceId::new::<Health>()
}

fn clock() -> ResourceId {
    ResourceId::new::<Clock>()
}

fn marker() -> ResourceId {
    ResourceId::new::<Marker>()
}

fn some_key(lua: &Lua) -> RegistryKey {
    lua.context(|context| context.create_registry_value(7).unwrap())
}

fn stocked_world() -> World {
    let mut world = World::empty();
    world.insert(Health(3));
    world.insert(Clock);
    world.insert(Marker);
    world
}

fn visible_table() -> ReflectionTable {
    let mut table = ReflectionTable::new();
    table.register(health());
    table.register(clock());
    table
}

fn fetched(ledger: &mut BorrowLedger) -> ScriptSystemData {
    let accessor = Dependencies::new(&[clock()], &[health()], marker()).unwrap();
    ScriptSystemData::try_fetch(&accessor, &stocked_world(), ledger).ok().unwrap()
}

fn names(list: &[&str]) -> Vec<String> {
    list.iter().map(|name| name.to_string()).collect()
}

#[test]
fn phases_follow_the_run() {
    assert_eq!(Phase::Idle.step(Event::Begin), Some(Phase::Awaiting));
    assert_eq!(Phase::Awaiting.step(Event::Received), Some(Phase::Running));
    assert_eq!(Phase::Awaiting.step(Event::Disconnected), Some(Phase::Idle));
    assert_eq!(Phase::Running.step(Event::Finished), Some(Phase::Returning));
    assert_eq!(Phase::Returning.step(Event::Returned), Some(Phase::Idle));
    assert_eq!(Phase::Idle.step(Event::Received), None);
    assert_eq!(Phase::Idle.step(Event::Finished), None);
    assert_eq!(Phase::Running.step(Event::Begin), None);
    assert_eq!(Phase::Running.step(Event::Returned), None);
    assert_eq!(Phase::Returning.step(Event::Finished), None);
    assert_eq!(Phase::Awaiting.step(Event::Returned), None);
}

#[test]
fn narrowing_keeps_the_declared_order() {
    let mut ledger = BorrowLedger::new();
    let accessor = Dependencies::new(&[clock(), health()], &[marker()], clock()).unwrap();
    let data = ScriptSystemData::try_fetch(&accessor, &stocked_world(), &mut ledger).ok().unwrap();
    let mut table = visible_table();
    assert!(ScriptResourceData::narrow(&data, &table).is_none());
    table.register(marker());
    let bundle = ScriptResourceData::narrow(&data, &table).unwrap();
    assert_eq!(bundle.read_views().len(), 2);
    assert!(bundle.read_views()[0].id == clock());
    assert!(bundle.read_views()[1].id == health());
    assert_eq!(bundle.read_views()[0].access, Access::Shared);
    assert_eq!(bundle.read_views()[1].access, Access::Shared);
    assert_eq!(bundle.write_views().len(), 1);
    assert!(bundle.write_views()[0].id == marker());
    assert_eq!(bundle.write_views()[0].access, Access::Exclusive);
}

#[test]
fn run_calls_the_script_and_returns_the_vm() {
    let lua = Lua::new();
    let key = some_key(&lua);
    let (sender, receiver) = bounded(1);
    let accessor = Dependencies::new(&[clock()], &[health()], marker()).unwrap();
    let mut system = ScriptSystem::new(sender.clone(), receiver.clone(), key, accessor);
    assert!(system.idle());
    assert!(system.accessor().read_ids()[0] == clock());
    let mut ledger = BorrowLedger::new();
    let data = fetched(&mut ledger);
    sender.send(lua).unwrap();
    let invoke = |vm: &Lua, key: &RegistryKey, bundle: &ScriptResourceData| {
        let stored: i64 = vm.context(|context| context.registry_value(key))?;
        assert_eq!(stored, 7);
        assert!(bundle.read_views()[0].id == clock());
        assert!(bundle.write_views()[0].id == health());
        Ok(())
    };
    let report = system.run(&data, &visible_table(), &invoke);
    assert!(matches!(report, RunReport::Returned { result: Ok(()) }));
    assert!(system.idle());
    assert!(receiver.try_recv().is_ok());
    assert!(receiver.try_recv().is_err());
}

#[test]
fn failed_script_still_returns_the_vm() {
    let lua = Lua::new();
    let key = some_key(&lua);
    let (sender, receiver) = bounded(1);
    let accessor = Dependencies::new(&[clock()], &[health()], marker()).unwrap();
    let mut system = ScriptSystem::new(sender.clone(), receiver.clone(), key, accessor);
    let mut ledger = BorrowLedger::new();
    let data = fetched(&mut ledger);
    sender.send(lua).unwrap();
    let invoke = |_vm: &Lua, _key: &RegistryKey, _bundle: &ScriptResourceData| {
        Err(rlua::Error::RuntimeError("broken".to_string()))
    };
    let report = system.run(&data, &visible_table(), &invoke);
    match report {
        RunReport::Returned { result: Err(rlua::Error::RuntimeError(text)) } => {
            assert_eq!(text, "broken")
        }
        _ => panic!("the script error is reported and the VM is returned"),
    }
    assert!(system.idle());
    assert!(receiver.try_recv().is_ok());
}

#[test]
fn run_without_vm_calls_nothing() {
    let lua = Lua::new();
    let key = some_key(&lua);
    let (sender, _kept) = bounded(1);
    let (gone, receiver) = bounded::<Lua>(1);
    drop(gone);
    let accessor = Dependencies::new(&[clock()], &[health()], marker()).unwrap();
    let mut system = ScriptSystem::new(sender, receiver, key, accessor);
    let mut ledger = BorrowLedger::new();
    let data = fetched(&mut ledger);
    let invoke = |_vm: &Lua, _key: &RegistryKey, _bundle: &ScriptResourceData| {
        panic!("no VM, no call")
    };
    let report = system.run(&data, &visible_table(), &invoke);
    assert!(matches!(report, RunReport::NoVm));
    assert!(system.idle());
}

#[test]
fn closed_channel_hands_the_vm_to_the_caller() {
    let lua = Lua::new();
    let key = some_key(&lua);
    lua.context(|context| context.globals().set("mark", 41)).unwrap();
    let (sender, gone) = bounded::<Lua>(1);
    drop(gone);
    let (feed, receiver) = bounded(1);
    feed.send(lua).unwrap();
    let accessor = Dependencies::new(&[clock()], &[health()], marker()).unwrap();
    let mut system = ScriptSystem::new(sender, receiver, key, accessor);
    let mut ledger = BorrowLedger::new();
    let data = fetched(&mut ledger);
    let invoke = |_vm: &Lua, _key: &RegistryKey, _bundle: &ScriptResourceData| Ok(());
    let report = system.run(&data, &visible_table(), &invoke);
    match report {
        RunReport::Stranded { result, vm } => {
            assert!(result.is_ok());
            let mark: i64 = vm.context(|context| context.globals().get("mark")).unwrap();
            assert_eq!(mark, 41);
        }
        _ => panic!("the VM is handed to the caller"),
    }
    assert!(system.idle());
}

#[test]
fn begin_and_finish_make_a_run() {
    let lua = Lua::new();
    let key = some_key(&lua);
    let (sender, receiver) = bounded(1);
    let accessor = Dependencies::new(&[clock()], &[health()], marker()).unwrap();
    let mut system = ScriptSystem::new(sender.clone(), receiver.clone(), key, accessor);
    let mut ledger = BorrowLedger::new();
    let data = fetched(&mut ledger);
    sender.send(lua).unwrap();
    let (vm, bundle) = system.begin(&data, &visible_table()).unwrap();
    assert!(!system.idle());
    assert_eq!(bundle.read_views().len(), 1);
    assert_eq!(bundle.write_views().len(), 1);
    assert!(receiver.try_recv().is_err());
    let report = system.finish(vm, Err(rlua::Error::RuntimeError("late".to_string())));
    assert!(matches!(report, RunReport::Returned { result: Err(_) }));
    assert!(system.idle());
    assert!(receiver.try_recv().is_ok());
}

#[test]
fn settle_reports_where_the_vm_went() {
    assert!(matches!(RunReport::settle(Ok(()), None), RunReport::Returned { result: Ok(()) }));
    let report = RunReport::settle(Err(rlua::Error::RuntimeError("x".to_string())), Some(Lua::new()));
    assert!(matches!(report, RunReport::Stranded { result: Err(_), vm: _ }));
}

fn scheduler() -> Scheduler {
    let (sender, receiver) = bounded(1);
    let mut scheduler = Scheduler::new(sender, receiver, Lua::new(), marker());
    scheduler.register_resource("health", health());
    scheduler.register_resource("clock", clock());
    scheduler
}

#[test]
fn declarations_are_resolved_by_name() {
    let scheduler = scheduler();
    let accessor = scheduler.declare(&names(&["clock"]), &names(&["health"])).ok().unwrap();
    assert!(*accessor.read_ids() == vec![clock()]);
    assert!(*accessor.write_ids() == vec![health()]);
    assert!(*accessor.table() == marker());
    let declared = scheduler.declare(&names(&["ghost"]), &names(&["phantom"]));
    assert!(matches!(declared, Err(DeclarationError::UnknownRead(0))));
    let declared = scheduler.declare(&names(&["clock"]), &names(&["health", "phantom"]));
    assert!(matches!(declared, Err(DeclarationError::UnknownWrite(1))));
    let declared = scheduler.declare(&names(&["clock", "health"]), &names(&["health"]));
    assert!(matches!(declared, Err(DeclarationError::Conflict)));
    let declared = scheduler.declare(&names(&[]), &names(&["clock", "clock"]));
    assert!(matches!(declared, Err(DeclarationError::Conflict)));
}

#[test]
fn check_names_the_first_system_that_cannot_run() {
    let (sender, receiver) = bounded(1);
    let lua = Lua::new();
    let first_key = some_key(&lua);
    let second_key = some_key(&lua);
    let third_key = some_key(&lua);
    let mut scheduler = Scheduler::new(sender.clone(), receiver.clone(), lua, marker());
    scheduler.register_resource("health", health());
    let fine = scheduler.declare(&names(&["health"]), &names(&[])).ok().unwrap();
    scheduler.add_system(ScriptSystem::new(sender.clone(), receiver.clone(), first_key, fine));
    let hidden = Dependencies::new(&[health()], &[clock()], marker()).unwrap();
    scheduler.add_system(ScriptSystem::new(sender.clone(), receiver.clone(), second_key, hidden));
    let fine = scheduler.declare(&names(&[]), &names(&["health"])).ok().unwrap();
    scheduler.add_system(ScriptSystem::new(sender, receiver, third_key, fine));
    assert_eq!(scheduler.len(), 3);

    let mut world = World::empty();
    world.insert(Health(1));
    world.insert(Marker);
    let error = scheduler.check(&world).err().unwrap();
    assert_eq!(error.system, 1);
    assert!(matches!(error.fault, Fault::Refused(FetchError::Missing(id)) if id == clock()));

    world.insert(Clock);
    let error = scheduler.check(&world).err().unwrap();
    assert_eq!(error.system, 1);
    assert!(matches!(error.fault, Fault::Hidden(id) if id == clock()));

    world.remove::<Health>();
    let error = scheduler.check(&world).err().unwrap();
    assert_eq!(error.system, 0);
    assert!(matches!(error.fault, Fault::Refused(FetchError::Missing(id)) if id == health()));

    let invoke = |_vm: &Lua, _key: &RegistryKey, _bundle: &ScriptResourceData| {
        panic!("nothing runs while a system cannot")
    };
    let refused = scheduler.try_run_once(&world, &invoke);
    assert!(refused.is_err());
    assert!(scheduler.has_vm());

    world.insert(Health(1));
    scheduler.register_resource("clock", clock());
    assert!(scheduler.check(&world).is_ok());
}

#[test]
fn tick_without_vm_calls_nothing() {
    let (sender, receiver) = bounded(1);
    let (gone, dead) = bounded::<Lua>(1);
    drop(gone);
    let lua = Lua::new();
    let key = some_key(&lua);
    let mut scheduler = Scheduler::new(sender.clone(), receiver, lua, marker());
    scheduler.register_resource("health", health());
    let accessor = scheduler.declare(&names(&[]), &names(&["health"])).ok().unwrap();
    scheduler.add_system(ScriptSystem::new(sender, dead, key, accessor));
    let world = stocked_world();
    let invoke = |_vm: &Lua, _key: &RegistryKey, _bundle: &ScriptResourceData| {
        panic!("the system has no VM to call")
    };
    let report = scheduler.try_run_once(&world, &invoke).ok().unwrap();
    assert!(report.was_started());
    assert_eq!(report.steps.len(), 1);
    assert!(matches!(report.steps[0], Step::NoVm));
    assert!(report.steps[0].outcome().is_none());
    assert!(scheduler.has_vm());
    let report = scheduler.try_run_once(&world, &invoke).ok().unwrap();
    assert_eq!(report.opened, Handoff::Ready);
    assert!(matches!(report.steps[0], Step::NoVm));
    assert!(scheduler.has_vm());
}

#[test]
fn tick_after_the_vm_left_does_not_start() {
    let (sender, receiver) = bounded(1);
    let mut scheduler = Scheduler::new(sender, receiver, Lua::new(), marker());
    let world = stocked_world();
    let invoke = |_vm: &Lua, _key: &RegistryKey, _bundle: &ScriptResourceData| Ok(());
    let (gone, dead) = bounded::<Lua>(1);
    drop(dead);
    let key = some_key(&Lua::new());
    let accessor = scheduler.declare(&names(&[]), &names(&[])).ok().unwrap();
    let (_feed, idle) = bounded::<Lua>(1);
    scheduler.add_system(ScriptSystem::new(gone, idle, key, accessor));
    assert!(scheduler.has_vm());
    let vm = scheduler.shut_down();
    assert!(vm.is_some());
    let (sender, receiver) = bounded::<Lua>(1);
    drop(receiver);
    let (_other, receiver) = bounded::<Lua>(1);
    let mut closed = Scheduler::new(sender, receiver, vm.unwrap(), marker());
    let report = closed.try_run_once(&world, &invoke).ok().unwrap();
    assert!(!report.was_started());
    assert_eq!(report.opened, Handoff::Held);
    assert_eq!(report.steps.len(), 0);
    assert!(closed.has_vm());
}

#[test]
fn handoff_follows_the_reports() {
    assert_eq!(Handoff::open(&None), Handoff::Ready);
    assert_eq!(Handoff::open(&Some(Lua::new())), Handoff::Held);
    let returned = RunReport::settle(Ok(()), None);
    let failed = RunReport::settle(Err(rlua::Error::RuntimeError("x".to_string())), None);
    let stranded = RunReport::settle(Ok(()), Some(Lua::new()));
    let (returned, left) = Step::record(returned);
    assert!(matches!(returned, Step::Returned { result: Ok(()) }));
    assert!(left.is_none());
    assert!(matches!(returned.outcome(), Some(Ok(()))));
    let (failed, left) = Step::record(failed);
    assert!(matches!(failed, Step::Returned { result: Err(_) }));
    assert!(left.is_none());
    assert!(matches!(failed.outcome(), Some(Err(_))));
    let (stranded, left) = Step::record(stranded);
    assert!(matches!(stranded, Step::Stranded { result: Ok(()) }));
    assert!(left.is_some());
    let (no_vm, left) = Step::record(RunReport::NoVm);
    assert!(matches!(no_vm, Step::NoVm));
    assert!(left.is_none());
    assert!(no_vm.outcome().is_none());
    assert!(Step::Skipped.outcome().is_none());
    assert_eq!(Handoff::Ready.next(&returned), Handoff::Ready);
    assert_eq!(Handoff::Ready.next(&failed), Handoff::Ready);
    assert_eq!(Handoff::Ready.next(&stranded), Handoff::Held);
    assert_eq!(Handoff::Ready.next(&no_vm), Handoff::Stalled);
    assert_eq!(Handoff::Ready.next(&Step::Skipped), Handoff::Ready);
    assert_eq!(Handoff::Stalled.next(&returned), Handoff::Stalled);
    assert_eq!(Handoff::Stalled.next(&Step::Skipped), Handoff::Stalled);
    assert_eq!(Handoff::Held.next(&no_vm), Handoff::Held);
    assert_eq!(Handoff::Held.next(&Step::Skipped), Handoff::Held);
    assert!(Handoff::Ready.is_ready());
    assert!(!Handoff::Stalled.is_ready());
    assert!(!Handoff::Held.is_ready());
    assert!(Handoff::Ready.is_in_channel());
    assert!(Handoff::Stalled.is_in_channel());
    assert!(!Handoff::Held.is_in_channel());
}

#[test]
fn take_in_starts_a_run_only_with_a_vm() {
    let lua = Lua::new();
    let key = some_key(&lua);
    lua.context(|context| context.globals().set("mark", 12)).unwrap();
    let (sender, receiver) = bounded(1);
    let accessor = Dependencies::new(&[clock()], &[health()], marker()).unwrap();
    let mut system = ScriptSystem::new(sender, receiver.clone(), key, accessor);
    let mut ledger = BorrowLedger::new();
    let data = fetched(&mut ledger);
    assert!(system.take_in(None, &data, &visible_table()).is_none());
    assert!(system.idle());
    let (vm, bundle) = system.take_in(Some(lua), &data, &visible_table()).unwrap();
    assert!(!system.idle());
    let mark: i64 = vm.context(|context| context.globals().get("mark")).unwrap();
    assert_eq!(mark, 12);
    assert!(bundle.read_views()[0].id == clock());
    assert_eq!(bundle.read_views()[0].access, Access::Shared);
    assert!(bundle.write_views()[0].id == health());
    assert_eq!(bundle.write_views()[0].access, Access::Exclusive);
    let report = system.finish(vm, Ok(()));
    assert!(matches!(report, RunReport::Returned { result: Ok(()) }));
    assert!(system.idle());
    assert!(receiver.try_recv().is_ok());
}

#[test]
fn run_received_calls_the_script_on_the_vm_it_got() {
    let lua = Lua::new();
    let key = some_key(&lua);
    lua.context(|context| context.globals().set("mark", 5)).unwrap();
    let (sender, receiver) = bounded(1);
    let accessor = Dependencies::new(&[clock()], &[health()], marker()).unwrap();
    let mut system = ScriptSystem::new(sender, receiver.clone(), key, accessor);
    let mut ledger = BorrowLedger::new();
    let data = fetched(&mut ledger);
    let invoke = |vm: &Lua, key: &RegistryKey, bundle: &ScriptResourceData| {
        let mark: i64 = vm.context(|context| context.globals().get("mark"))?;
        let stored: i64 = vm.context(|context| context.registry_value(key))?;
        assert_eq!(mark, 5);
        assert_eq!(stored, 7);
        assert_eq!(bundle.read_views().len(), 1);
        assert_eq!(bundle.write_views().len(), 1);
        Err(rlua::Error::RuntimeError("failed".to_string()))
    };
    let report = system.run_received(None, &data, &visible_table(), &invoke);
    assert!(matches!(report, RunReport::NoVm));
    assert!(system.idle());
    assert!(receiver.try_recv().is_err());
    let report = system.run_received(Some(lua), &data, &visible_table(), &invoke);
    assert!(matches!(report, RunReport::Returned { result: Err(_) }));
    assert!(system.idle());
    assert!(receiver.try_recv().is_ok());
}

#[test]
fn tick_skips_every_system_while_the_vm_is_held() {
    let (sender, receiver) = bounded(1);
    let lua = Lua::new();
    let first = some_key(&lua);
    let second = some_key(&lua);
    let mut scheduler = Scheduler::new(sender.clone(), receiver.clone(), lua, marker());
    scheduler.register_resource("health", health());
    let accessor = scheduler.declare(&names(&[]), &names(&["health"])).ok().unwrap();
    scheduler.add_system(ScriptSystem::new(sender.clone(), receiver.clone(), first, accessor));
    let accessor = scheduler.declare(&names(&["health"]), &names(&[])).ok().unwrap();
    scheduler.add_system(ScriptSystem::new(sender, receiver, second, accessor));
    let world = stocked_world();
    assert!(scheduler.check(&world).is_ok());
    let invoke = |_vm: &Lua, _key: &RegistryKey, _bundle: &ScriptResourceData| {
        panic!("no system runs while the scheduler holds the VM")
    };
    let report = scheduler.tick(Handoff::Held, &world, &invoke);
    assert_eq!(report.opened, Handoff::Held);
    assert!(!report.was_started());
    assert_eq!(report.steps.len(), 2);
    assert!(matches!(report.steps[0], Step::Skipped));
    assert!(matches!(report.steps[1], Step::Skipped));
    assert!(scheduler.has_vm());
}

#[test]
fn tick_runs_every_system_while_the_vm_is_ready() {
    let (sender, receiver) = bounded(1);
    let (other, dead) = bounded::<Lua>(1);
    drop(other);
    let lua = Lua::new();
    let first = some_key(&lua);
    let second = some_key(&lua);
    let mut scheduler = Scheduler::new(sender.clone(), dead, lua, marker());
    let world = stocked_world();
    let calls = std::cell::Cell::new(0);
    let invoke = |_vm: &Lua, _key: &RegistryKey, _bundle: &ScriptResourceData| {
        calls.set(calls.get() + 1);
        if calls.get() == 1 {
            Err(rlua::Error::RuntimeError("first".to_string()))
        } else {
            Ok(())
        }
    };
    let report = scheduler.run_once(&world, &invoke);
    assert_eq!(report.opened, Handoff::Ready);
    assert_eq!(report.steps.len(), 0);
    assert!(!scheduler.has_vm());
    scheduler.register_resource("health", health());
    let accessor = scheduler.declare(&names(&[]), &names(&["health"])).ok().unwrap();
    scheduler.add_system(ScriptSystem::new(sender.clone(), receiver.clone(), first, accessor));
    let accessor = scheduler.declare(&names(&["health"]), &names(&[])).ok().unwrap();
    scheduler.add_system(ScriptSystem::new(sender, receiver.clone(), second, accessor));
    assert!(scheduler.check(&world).is_ok());
    let report = scheduler.tick(Handoff::Ready, &world, &invoke);
    assert_eq!(report.opened, Handoff::Ready);
    assert_eq!(report.steps.len(), 2);
    assert!(matches!(report.steps[0], Step::Returned { result: Err(_) }));
    assert!(matches!(report.steps[1], Step::Returned { result: Ok(()) }));
    assert_eq!(calls.get(), 2);
    assert!(receiver.try_recv().is_ok());
}

#[test]
fn tick_stops_after_a_stranded_vm() {
    let (sender, receiver) = bounded(1);
    let (closed, gone) = bounded::<Lua>(1);
    drop(gone);
    let lua = Lua::new();
    let first = some_key(&lua);
    let second = some_key(&lua);
    let mut scheduler = Scheduler::new(sender.clone(), receiver.clone(), lua, marker());
    let accessor = scheduler.declare(&names(&[]), &names(&[])).ok().unwrap();
    scheduler.add_system(ScriptSystem::new(closed, receiver.clone(), first, accessor));
    let accessor = scheduler.declare(&names(&[]), &names(&[])).ok().unwrap();
    scheduler.add_system(ScriptSystem::new(sender, receiver, second, accessor));
    let world = stocked_world();
    let calls = std::cell::Cell::new(0);
    let invoke = |_vm: &Lua, _key: &RegistryKey, _bundle: &ScriptResourceData| {
        calls.set(calls.get() + 1);
        Ok(())
    };
    let report = scheduler.try_run_once(&world, &invoke).ok().unwrap();
    assert_eq!(report.opened, Handoff::Ready);
    assert!(matches!(report.steps[0], Step::Stranded { result: Ok(()) }));
    assert!(matches!(report.steps[1], Step::Skipped));
    assert_eq!(calls.get(), 1);
    assert!(scheduler.has_vm());
}
