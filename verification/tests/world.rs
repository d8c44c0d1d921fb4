use lumina_engine::ecs_core::system::System;
use lumina_engine::engine_core::core_loop::EngineLoop;
use lumina_engine::engine_core::temporal::AdvancedTime;
use lumina_engine::engine_core::temporal::MixedRadixTime;
use lumina_engine::engine_core::world::World;
use lumina_engine::systems::input_system::InputSystem;

const TRACE: u64 = 1;

/// Appends its tag and the frame's delta to the trace component of entity 0.
struct Tracer {
    tag: i64,
}

impl<'a> System<'a, Vec<i64>, String> for Tracer {
    fn update(&mut self, delta_time: u32, world: &mut World<'a, Vec<i64>, String>) {
        match world.components.get_mut(TRACE, &0) {
            Some(trace) => {
                trace.push(self.tag);
                trace.push(delta_time as i64);
            }
            None => panic!("entity 0 has a trace"),
        }
    }
}

#[test]
fn a_new_world_is_empty() {
    let mut world: World<i32, String> = World::new(Vec::new());
    assert!(world.components.storage(TRACE).is_none());
    assert!(world.resources.get(TRACE).is_none());
    assert_eq!(world.entities.create_entity(), 0);
}

#[test]
fn a_new_world_holds_the_resources_it_was_given() {
    let renderer = String::from("renderer");
    let network = String::from("network");
    let replaced = String::from("replaced");
    let world: World<i32, String> =
        World::new(vec![(1, &replaced), (2, &network), (1, &renderer)]);
    match world.resources.get(1) {
        Some(found) => assert!(std::ptr::eq(found, &renderer)),
        None => panic!("a resource of type 1 was supplied"),
    }
    match world.resources.get(2) {
        Some(found) => assert!(std::ptr::eq(found, &network)),
        None => panic!("a resource of type 2 was supplied"),
    }
    assert!(world.resources.get(3).is_none());
}

#[test]
fn a_frame_without_systems_of_its_own_leaves_the_world_alone() {
    let clock: AdvancedTime<&'static str> = AdvancedTime::new(10, 10);
    let mut world: World<i32, String> = World::new(Vec::new());
    let entity = world.entities.create_entity();
    world.components.insert(TRACE, entity, 5);
    let mut driver = EngineLoop::new(clock, world);
    driver.run_frame(1_000);
    driver.run_frame(9_000);
    assert_eq!(driver.temporal.get_delta_time(), 8);
    assert_eq!(driver.world.components.get(TRACE, &entity), Some(&5));
    assert!(driver.world.entities.is_alive(entity));
}

#[test]
fn a_paused_frame_hands_the_systems_the_last_delta() {
    let clock: AdvancedTime<&'static str> = AdvancedTime::new(10, 10);
    let mut world: World<Vec<i64>, String> = World::new(Vec::new());
    let entity = world.entities.create_entity();
    world.components.insert(TRACE, entity, Vec::new());
    let mut driver = EngineLoop::new(clock, world);
    driver.systems.push(Box::new(Tracer { tag: -1 }));
    driver.run_frame(1_000);
    driver.run_frame(8_000);
    driver.temporal.pause();
    driver.run_frame(50_000);
    assert_eq!(driver.world.components.get(TRACE, &entity), Some(&vec![-1, 0, -1, 7, -1, 7]));
}

#[test]
fn the_world_keeps_entities_components_and_resources() {
    let name = String::from("renderer");
    let mut world: World<i32, String> = World::new(Vec::new());
    let entity = world.entities.create_entity();
    world.components.insert(TRACE, entity, 5);
    world.resources.insert(TRACE, &name);
    assert_eq!(world.components.get(TRACE, &entity), Some(&5));
    assert_eq!(world.resources.get(TRACE), Some(&name));
}

#[test]
fn the_input_system_leaves_the_world_alone() {
    let mut world: World<i32, String> = World::new(Vec::new());
    let entity = world.entities.create_entity();
    world.components.insert(TRACE, entity, 5);
    let mut input = InputSystem::new();
    input.update(16, &mut world);
    assert_eq!(world.components.get(TRACE, &entity), Some(&5));
    assert!(world.entities.is_alive(entity));
    assert_eq!(world.entities.create_entity(), 1);
}

#[test]
fn a_new_driver_runs_the_input_system() {
    let clock: AdvancedTime<&'static str> = AdvancedTime::new(10, 10);
    let world: World<Vec<i64>, String> = World::new(Vec::new());
    let driver = EngineLoop::new(clock, world);
    assert_eq!(driver.systems.len(), 1);
}

#[test]
fn a_frame_updates_the_clock_then_each_system_in_order() {
    let clock: AdvancedTime<&'static str> = AdvancedTime::new(10, 10);
    let mut world: World<Vec<i64>, String> = World::new(Vec::new());
    let entity = world.entities.create_entity();
    world.components.insert(TRACE, entity, Vec::new());
    let mut driver = EngineLoop::new(clock, world);
    driver.systems.push(Box::new(Tracer { tag: -1 }));
    driver.systems.push(Box::new(Tracer { tag: -2 }));
    driver.temporal.schedule_event(
        MixedRadixTime { frame_count: 0, ticks: 0, sub_ticks: 0, milliseconds: 5 },
        "five",
    );

    assert!(driver.run_frame(1_000).is_empty());
    let fired = driver.run_frame(6_000);
    assert_eq!(fired.len(), 1);
    assert_eq!(fired[0].payload, "five");
    assert_eq!(driver.temporal.get_delta_time(), 5);
    assert_eq!(driver.systems.len(), 3);
    assert_eq!(
        driver.world.components.get(TRACE, &entity),
        Some(&vec![-1, 0, -2, 0, -1, 5, -2, 5])
    );
}
