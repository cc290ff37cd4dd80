use ceiling_rt::registry::{Registry, RegistryError, Task};

fn task(source: usize, priority: u8, enabled: bool) -> Task {
    Task { source, priority, enabled }
}

#[test]
fn a_list_in_any_order_becomes_a_table_by_source() {
    let list = vec![task(2, 3, true), task(0, 1, false), task(1, 2, true)];
    let registry = Registry::build(3, &list).unwrap();
    assert_eq!(registry.len(), 3);
    assert_eq!(registry.task(0), Some(task(0, 1, false)));
    assert_eq!(registry.task(1), Some(task(1, 2, true)));
    assert_eq!(registry.task(2), Some(task(2, 3, true)));
    assert_eq!(registry.task(3), None);
}

#[test]
fn a_device_without_sources_has_an_empty_registry() {
    let registry = Registry::build(0, &Vec::new()).unwrap();
    assert_eq!(registry.len(), 0);
    assert_eq!(registry.task(0), None);
}

#[test]
fn a_source_beyond_the_device_is_refused() {
    let list = vec![task(0, 1, true), task(2, 1, true)];
    assert_eq!(Registry::build(2, &list).err(), Some(RegistryError::OutOfRange));
    assert_eq!(Registry::build(0, &vec![task(0, 1, true)]).err(), Some(RegistryError::OutOfRange));
}

#[test]
fn the_idle_priority_is_refused() {
    let list = vec![task(0, 1, true), task(1, 0, true)];
    assert_eq!(Registry::build(2, &list).err(), Some(RegistryError::ReservedPriority));
}

#[test]
fn two_tasks_on_one_source_are_refused() {
    let list = vec![task(0, 1, true), task(1, 2, true), task(0, 3, true)];
    assert_eq!(Registry::build(3, &list).err(), Some(RegistryError::Collision));
    let same = vec![task(1, 2, true), task(1, 2, true)];
    assert_eq!(Registry::build(2, &same).err(), Some(RegistryError::Collision));
}

#[test]
fn a_source_without_a_task_is_refused() {
    let list = vec![task(0, 1, true), task(2, 1, true)];
    assert_eq!(Registry::build(3, &list).err(), Some(RegistryError::Unbound));
    assert_eq!(Registry::build(1, &Vec::new()).err(), Some(RegistryError::Unbound));
}

#[test]
fn defects_are_reported_in_a_fixed_order() {
    // out of range comes before everything, wherever it stands in the list
    let list = vec![task(0, 0, true), task(0, 1, true), task(9, 1, true)];
    assert_eq!(Registry::build(3, &list).err(), Some(RegistryError::OutOfRange));
    // then the reserved priority
    let list = vec![task(0, 1, true), task(0, 1, true), task(1, 0, true)];
    assert_eq!(Registry::build(3, &list).err(), Some(RegistryError::ReservedPriority));
    // then the collision
    let list = vec![task(0, 1, true), task(0, 1, true)];
    assert_eq!(Registry::build(3, &list).err(), Some(RegistryError::Collision));
}
