use crossbeam::channel::bounded;
use crossbeam::channel::Receiver;
use crossbeam::channel::Sender;
use rlua::Function;
use rlua::Lua;
use rlua::RegistryKey;
use script_systems::reflection::ReflectionTable;
use script_systems::scheduler::DeclarationError;
use script_systems::scheduler::Handoff;
use script_systems::scheduler::Scheduler;
use script_systems::scheduler::Step;
use script_systems::script_system::ScriptResourceData;
use script_systems::script_system::ScriptSystem;
use shred::ResourceId;
use shred::World;

struct Counter(i64);

fn names(list: &[&str]) -> Vec<String> {
    list.iter().map(|name| name.to_string()).collect()
}

fn function_key(lua: &Lua, source: &str) -> RegistryKey {
    lua.context(|context| {
        let function: Function = context.load(source).eval().unwrap();
        context.create_registry_value(function).unwrap()
    })
}

fn world_with_counter(start: i64) -> World {
    let mut world = World::empty();
    world.insert(Counter(start));
    world.insert(ReflectionTable::new());
    world
}

fn scheduler_with_counter(lua: Lua) -> (Scheduler, Sender<Lua>, Receiver<Lua>) {
    let (sender, receiver) = bounded(1);
    let mut scheduler = Scheduler::new(
        sender.clone(),
        receiver.clone(),
        lua,
        ResourceId::new::<ReflectionTable>(),
    );
    scheduler.register_resource("counter", ResourceId::new::<Counter>());
    (scheduler, sender, receiver)
}

fn call_on_counter(
    world: &World,
    vm: &Lua,
    key: &RegistryKey,
    bundle: &ScriptResourceData,
) -> Result<(), rlua::Error> {
    assert_eq!(bundle.read_views().len(), 0);
    assert_eq!(bundle.write_views().len(), 1);
    assert!(bundle.write_views()[0].id == ResourceId::new::<Counter>());
    let mut counter = world.fetch_mut::<Counter>();
    let next: i64 = vm.context(|context| {
        let function: Function = context.registry_value(key)?;
        function.call(counter.0)
    })?;
    counter.0 = next;
    Ok(())
}

#[test]
fn counter_is_ten_after_ten_ticks() {
    let lua = Lua::new();
    let key = function_key(&lua, "return function(c) return c + 1 end");
    let world = world_with_counter(0);
    let (mut scheduler, sender, receiver) = scheduler_with_counter(lua);
    let accessor = scheduler.declare(&names(&[]), &names(&["counter"])).ok().unwrap();
    scheduler.add_system(ScriptSystem::new(sender, receiver, key, accessor));
    let invoke = |vm: &Lua, key: &RegistryKey, bundle: &ScriptResourceData| {
        call_on_counter(&world, vm, key, bundle)
    };
    for _ in 0..10 {
        let report = scheduler.try_run_once(&world, &invoke).ok().unwrap();
        assert_eq!(report.opened, Handoff::Ready);
        assert_eq!(report.steps.len(), 1);
        assert!(matches!(report.steps[0], Step::Returned { result: Ok(()) }));
        assert!(scheduler.has_vm());
    }
    assert_eq!(world.fetch::<Counter>().0, 10);
}

#[test]
fn unregistered_name_fails_registration() {
    let (scheduler, _sender, _receiver) = scheduler_with_counter(Lua::new());
    let declared = scheduler.declare(&names(&["counter", "ghost"]), &names(&[]));
    assert!(matches!(declared, Err(DeclarationError::UnknownRead(1))));
    assert_eq!(scheduler.len(), 0);
}

#[test]
fn two_writers_run_in_declared_order() {
    let lua = Lua::new();
    let double = function_key(&lua, "return function(c) return c * 2 end");
    let increment = function_key(&lua, "return function(c) return c + 1 end");
    let world = world_with_counter(1);
    let (mut scheduler, sender, receiver) = scheduler_with_counter(lua);
    let first = scheduler.declare(&names(&[]), &names(&["counter"])).ok().unwrap();
    let second = scheduler.declare(&names(&[]), &names(&["counter"])).ok().unwrap();
    scheduler.add_system(ScriptSystem::new(sender.clone(), receiver.clone(), double, first));
    scheduler.add_system(ScriptSystem::new(sender, receiver, increment, second));
    let invoke = |vm: &Lua, key: &RegistryKey, bundle: &ScriptResourceData| {
        call_on_counter(&world, vm, key, bundle)
    };
    let report = scheduler.try_run_once(&world, &invoke).ok().unwrap();
    assert_eq!(report.steps.len(), 2);
    assert!(matches!(report.steps[0], Step::Returned { result: Ok(()) }));
    assert!(matches!(report.steps[1], Step::Returned { result: Ok(()) }));
    assert_eq!(world.fetch::<Counter>().0, 3);
    let report = scheduler.try_run_once(&world, &invoke).ok().unwrap();
    assert_eq!(report.steps.len(), 2);
    assert_eq!(world.fetch::<Counter>().0, 7);
}

#[test]
fn failing_script_does_not_lose_the_vm() {
    let lua = Lua::new();
    let key = function_key(
        &lua,
        "local n = 0
         return function(c)
             n = n + 1
             if n == 5 then error('tick five') end
             return c + 1
         end",
    );
    let world = world_with_counter(0);
    let (mut scheduler, sender, receiver) = scheduler_with_counter(lua);
    let accessor = scheduler.declare(&names(&[]), &names(&["counter"])).ok().unwrap();
    scheduler.add_system(ScriptSystem::new(sender, receiver, key, accessor));
    let invoke = |vm: &Lua, key: &RegistryKey, bundle: &ScriptResourceData| {
        call_on_counter(&world, vm, key, bundle)
    };
    for tick in 1..=20 {
        let report = scheduler.try_run_once(&world, &invoke).ok().unwrap();
        assert_eq!(report.opened, Handoff::Ready);
        assert_eq!(report.steps.len(), 1);
        if tick == 5 {
            assert!(matches!(report.steps[0], Step::Returned { result: Err(_) }));
        } else {
            assert!(matches!(report.steps[0], Step::Returned { result: Ok(()) }));
        }
        assert!(scheduler.has_vm());
    }
    assert_eq!(world.fetch::<Counter>().0, 19);
}

#[test]
fn ticks_without_systems_change_nothing() {
    let world = world_with_counter(4);
    let (mut scheduler, _sender, _receiver) = scheduler_with_counter(Lua::new());
    let invoke = |vm: &Lua, key: &RegistryKey, bundle: &ScriptResourceData| {
        call_on_counter(&world, vm, key, bundle)
    };
    assert!(scheduler.check(&world).is_ok());
    let reports = scheduler.run_for(&world, 7, &invoke);
    assert_eq!(reports.len(), 7);
    for report in reports.iter() {
        assert_eq!(report.opened, Handoff::Ready);
        assert_eq!(report.steps.len(), 0);
    }
    assert!(scheduler.has_vm());
    assert_eq!(world.fetch::<Counter>().0, 4);
    assert!(world.try_fetch_internal(ResourceId::new::<Counter>()).unwrap().try_borrow_mut().is_ok());
}

#[test]
fn shut_down_hands_the_vm_back() {
    let lua = Lua::new();
    let key = function_key(&lua, "return function(c) return c end");
    let (mut scheduler, sender, receiver) = scheduler_with_counter(lua);
    let accessor = scheduler.declare(&names(&["counter"]), &names(&[])).ok().unwrap();
    scheduler.add_system(ScriptSystem::new(sender, receiver, key, accessor));
    assert_eq!(scheduler.len(), 1);
    let vm = scheduler.shut_down();
    assert!(vm.is_some());
}
