use geese::gate_entities::Entity;
use geese::gate_entities::EntityManager;

#[test]
fn entity_connections_are_recorded_and_forgotten() {
    let mut e: Entity<u32> = Entity::new("e1".to_string(), "hub_a".to_string());
    assert_eq!(e.get_entity_id(), "e1");
    assert_eq!(e.get_hub_name(), "hub_a");
    assert_eq!(e.get_main_conn_id(), None);
    e.add_conn_id("c1".to_string());
    e.add_conn_id("c2".to_string());
    e.add_conn_id("c1".to_string());
    e.delete_conn_id(&"c1".to_string());
    assert_eq!(e.get_conn_ids(), &vec!["c2".to_string(), "c1".to_string()]);
    e.delete_conn_id(&"missing".to_string());
    assert_eq!(e.get_conn_ids().len(), 2);
    e.set_main_conn_id(Some("main".to_string()));
    assert_eq!(e.get_main_conn_id(), Some("main".to_string()));
}

#[test]
fn migration_messages_are_kept_in_order() {
    let mut e: Entity<u32> = Entity::new("e1".to_string(), "hub_a".to_string());
    assert!(!e.is_migrate());
    e.cache_migrate_msg(7);
    e.cache_migrate_msg(9);
    assert_eq!(e.cached_messages(), &[7, 9]);
}

#[test]
fn manager_stores_replaces_and_deletes_entities() {
    let mut m: EntityManager<u32> = EntityManager::new();
    let id = "e1".to_string();
    assert!(m.get_entity(&id).is_none());
    m.update_entity(Entity::new("e1".to_string(), "hub_a".to_string()));
    assert_eq!(m.get_entity(&id).unwrap().get_hub_name(), "hub_a");
    m.update_entity(Entity::new("e1".to_string(), "hub_b".to_string()));
    assert_eq!(m.get_entity(&id).unwrap().get_hub_name(), "hub_b");
    let removed = m.delete_entity(&id).unwrap();
    assert_eq!(removed.get_hub_name(), "hub_b");
    assert!(m.get_entity(&id).is_none());
    assert!(m.delete_entity(&id).is_none());
}

#[test]
fn main_connection_collects_hubs() {
    let mut m: EntityManager<u32> = EntityManager::new();
    let mut a: Entity<u32> = Entity::new("e1".to_string(), "hub_a".to_string());
    a.set_main_conn_id(Some("client".to_string()));
    let mut b: Entity<u32> = Entity::new("e2".to_string(), "hub_b".to_string());
    b.set_main_conn_id(Some("client".to_string()));
    m.update_entity(a);
    m.update_entity(b);
    m.update_entity(Entity::new("e3".to_string(), "hub_c".to_string()));
    let hubs = m.delete_client(&"client".to_string()).unwrap();
    assert_eq!(hubs, vec!["hub_a".to_string(), "hub_b".to_string()]);
    assert!(m.delete_client(&"client".to_string()).is_none());
    assert!(m.get_entity(&"e2".to_string()).is_some());
}

#[test]
fn entities_can_be_edited_in_place() {
    let mut m: EntityManager<u32> = EntityManager::new();
    m.update_entity(Entity::new("e1".to_string(), "hub_a".to_string()));
    let id = "e1".to_string();
    match m.get_entity_mut(&id) {
        Some(e) => e.add_conn_id("watcher".to_string()),
        None => panic!("entity e1 is stored"),
    }
    assert_eq!(m.get_entity(&id).unwrap().get_conn_ids(), &vec!["watcher".to_string()]);
    assert!(m.get_entity_mut(&"none".to_string()).is_none());
}
