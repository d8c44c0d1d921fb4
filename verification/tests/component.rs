use lumina_engine::ecs_core::component::ComponentManager;
use lumina_engine::ecs_core::component::ComponentManagerTrait;
use lumina_engine::ecs_core::component::ComponentStorage;

const POSITION: u64 = 1;
const HEALTH: u64 = 2;

#[test]
fn storage_insert_then_get() {
    let mut storage: ComponentStorage<String> = ComponentStorage::new();
    assert!(storage.get(&4).is_none());
    storage.insert(4, String::from("a"));
    assert_eq!(storage.get(&4), Some(&String::from("a")));
    assert!(storage.get(&5).is_none());
}

#[test]
fn storage_insert_overwrites() {
    let mut storage: ComponentStorage<i32> = ComponentStorage::new();
    storage.insert(1, 10);
    storage.insert(1, 20);
    assert_eq!(storage.get(&1), Some(&20));
    assert_eq!(storage.iter().len(), 1);
}

#[test]
fn storage_remove_is_a_no_op_without_an_entry() {
    let mut storage: ComponentStorage<i32> = ComponentStorage::new();
    storage.insert(1, 10);
    storage.remove(&2);
    assert_eq!(storage.get(&1), Some(&10));
    storage.remove(&1);
    assert!(storage.get(&1).is_none());
    storage.remove(&1);
    assert!(storage.get(&1).is_none());
}

#[test]
fn storage_get_mut_changes_in_place() {
    let mut storage: ComponentStorage<i32> = ComponentStorage::new();
    storage.insert(1, 10);
    storage.insert(2, 20);
    match storage.get_mut(&1) {
        Some(value) => *value += 5,
        None => panic!("entity 1 has a component"),
    }
    assert_eq!(storage.get(&1), Some(&15));
    assert_eq!(storage.get(&2), Some(&20));
    assert!(storage.get_mut(&3).is_none());
}

#[test]
fn storage_iter_yields_each_entry_once() {
    let mut storage: ComponentStorage<i32> = ComponentStorage::new();
    storage.insert(3, 30);
    storage.insert(1, 10);
    storage.insert(2, 20);
    let mut entries: Vec<(u32, i32)> =
        storage.iter().into_iter().map(|(entity, value)| (entity, *value)).collect();
    entries.sort();
    assert_eq!(entries, vec![(1, 10), (2, 20), (3, 30)]);
}

#[test]
fn storage_iter_of_an_empty_store_is_empty() {
    let storage: ComponentStorage<i32> = ComponentStorage::new();
    assert!(storage.iter().is_empty());
}

#[test]
fn insert_then_get_returns_the_value() {
    let mut components: ComponentManager<i32> = ComponentManager::new();
    components.insert(POSITION, 7, 42);
    assert_eq!(components.get(POSITION, &7), Some(&42));
}

#[test]
fn remove_then_get_returns_absent() {
    let mut components: ComponentManager<i32> = ComponentManager::new();
    components.insert(POSITION, 7, 42);
    components.remove(POSITION, &7);
    assert!(components.get(POSITION, &7).is_none());
}

#[test]
fn get_of_a_type_never_registered_is_absent() {
    let mut components: ComponentManager<i32> = ComponentManager::new();
    assert!(components.get(POSITION, &7).is_none());
    assert!(components.get_mut(POSITION, &7).is_none());
    assert!(components.storage(POSITION).is_none());
    assert!(components.storage_mut(POSITION).is_none());
}

#[test]
fn insert_registers_the_type() {
    let mut components: ComponentManager<i32> = ComponentManager::new();
    components.insert(POSITION, 7, 42);
    assert!(components.storage(POSITION).is_some());
    assert!(components.storage(HEALTH).is_none());
}

#[test]
fn register_is_idempotent() {
    let mut components: ComponentManager<i32> = ComponentManager::new();
    components.register_component(POSITION);
    assert!(components.storage(POSITION).is_some());
    assert!(components.get(POSITION, &7).is_none());
    components.insert(POSITION, 7, 42);
    components.register_component(POSITION);
    assert_eq!(components.get(POSITION, &7), Some(&42));
}

#[test]
fn remove_of_a_type_never_registered_changes_nothing() {
    let mut components: ComponentManager<i32> = ComponentManager::new();
    components.insert(POSITION, 7, 42);
    components.remove(HEALTH, &7);
    assert!(components.storage(HEALTH).is_none());
    assert_eq!(components.get(POSITION, &7), Some(&42));
}

#[test]
fn types_and_entities_are_kept_apart() {
    let mut components: ComponentManager<i32> = ComponentManager::new();
    components.insert(POSITION, 7, 1);
    components.insert(HEALTH, 7, 2);
    components.insert(POSITION, 8, 3);
    assert_eq!(components.get(POSITION, &7), Some(&1));
    assert_eq!(components.get(HEALTH, &7), Some(&2));
    assert_eq!(components.get(POSITION, &8), Some(&3));
    assert!(components.get(HEALTH, &8).is_none());
    components.remove(POSITION, &7);
    assert!(components.get(POSITION, &7).is_none());
    assert_eq!(components.get(HEALTH, &7), Some(&2));
    assert_eq!(components.get(POSITION, &8), Some(&3));
}

#[test]
fn get_mut_changes_in_place() {
    let mut components: ComponentManager<i32> = ComponentManager::new();
    components.insert(POSITION, 7, 1);
    match components.get_mut(POSITION, &7) {
        Some(value) => *value = 9,
        None => panic!("entity 7 has a position"),
    }
    assert_eq!(components.get(POSITION, &7), Some(&9));
}

#[test]
fn storage_mut_reaches_the_store_of_the_type() {
    let mut components: ComponentManager<i32> = ComponentManager::new();
    components.register_component(HEALTH);
    match components.storage_mut(HEALTH) {
        Some(storage) => storage.insert(3, 100),
        None => panic!("health is registered"),
    }
    assert_eq!(components.get(HEALTH, &3), Some(&100));
    match components.storage(HEALTH) {
        Some(storage) => assert_eq!(storage.get(&3), Some(&100)),
        None => panic!("health is registered"),
    }
}

#[test]
fn the_trait_forwards_to_the_manager() {
    let mut components: ComponentManager<i32> = ComponentManager::new();
    ComponentManagerTrait::register_component(&mut components, HEALTH);
    assert!(components.storage(HEALTH).is_some());
    components.insert_component(POSITION, 7, 42);
    assert_eq!(components.get_component(POSITION, &7), Some(&42));
    match components.get_component_mut(POSITION, &7) {
        Some(value) => *value = 43,
        None => panic!("entity 7 has a position"),
    }
    assert_eq!(components.get_component(POSITION, &7), Some(&43));
    components.remove_component(POSITION, &7);
    assert!(components.get_component(POSITION, &7).is_none());
}
