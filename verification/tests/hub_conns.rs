use geese::hub_conns::ConnManager;
use geese::hub_conns::NameMap;

#[test]
fn locks_are_recorded_and_released() {
    let mut c: ConnManager<u8, u8, u8, u8> = ConnManager::new("hub1".to_string());
    assert_eq!(c.get_hub_name(), "hub1");
    c.add_lock("lock:a".to_string(), "v1".to_string());
    c.add_lock("lock:b".to_string(), "v2".to_string());
    c.add_lock("lock:a".to_string(), "v3".to_string());
    assert_eq!(c.remove_lock("lock:a".to_string()), "v3");
    assert_eq!(c.remove_lock("lock:b".to_string()), "v2");
}

#[test]
fn proxies_are_found_by_name() {
    let mut c: ConnManager<u8, u16, u32, u64> = ConnManager::new("hub1".to_string());
    c.add_hub_proxy("hub2".to_string(), 2);
    c.add_gate_proxy("gate1".to_string(), 7);
    c.add_dbproxy_proxy("db".to_string(), 9);
    c.add_writer("hub2".to_string(), 1);
    assert_eq!(c.get_hub_proxy(&"hub2".to_string()), Some(&2));
    assert_eq!(c.get_hub_proxy(&"hub3".to_string()), None);
    assert_eq!(c.get_gate_proxy(&"gate1".to_string()), Some(&7));
    assert_eq!(c.get_dbproxy_proxy(&"db".to_string()), Some(&9));
    assert_eq!(c.get_writer("hub2"), Some(&1));
    assert_eq!(c.get_writer("gate1"), None);
}

#[test]
fn name_map_replaces_and_removes() {
    let mut m: NameMap<i32> = NameMap::new();
    m.insert("a".to_string(), 1);
    m.insert("a".to_string(), 2);
    assert_eq!(m.get("a"), Some(&2));
    assert_eq!(m.remove("a"), Some(2));
    assert_eq!(m.remove("a"), None);
}
