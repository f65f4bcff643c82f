use pullpiri::config::{
    default_node_name, default_node_role, default_node_type, default_yaml_storage, dotted_ip,
    node_name_or_unknown, select_host_ip, Config, ConfigSlot, HostAddr,
};

#[test]
fn test_set_and_get_global_config() {
    let mut slot = ConfigSlot::new();
    let config = Config::default();
    Config::set_global(&mut slot, config.clone());
    let loaded = Config::get(&mut slot);
    assert_eq!(loaded.get_host_ip(), config.get_host_ip());
}

#[test]
fn first_global_config_wins() {
    let mut slot = ConfigSlot::new();
    let mut first = Config::default();
    first.nodeagent.node_name = "first".to_string();
    let mut second = Config::default();
    second.nodeagent.node_name = "second".to_string();
    Config::set_global(&mut slot, first);
    Config::set_global(&mut slot, second);
    assert_eq!(Config::get(&mut slot).get_node_name(), "first");
}

#[test]
fn get_on_empty_slot_stores_default() {
    let mut slot = ConfigSlot::new();
    assert_eq!(Config::get(&mut slot), Config::default());
    let mut other = Config::default();
    other.nodeagent.node_name = "late".to_string();
    Config::set_global(&mut slot, other);
    assert_eq!(Config::get(&mut slot), Config::default());
}

#[test]
fn test_node_type_and_role_mapping() {
    let mut config = Config::default();
    config.nodeagent.node_type = "cloud".to_string();
    config.nodeagent.node_role = "master".to_string();
    assert_eq!(
        match config.nodeagent.node_type.as_str() {
            "cloud" => 1,
            "vehicle" => 2,
            _ => 0,
        },
        1
    );
    assert_eq!(
        match config.nodeagent.node_role.as_str() {
            "master" => 1,
            "nodeagent" => 2,
            "bluechi" => 3,
            _ => 0,
        },
        1
    );
}

#[test]
fn test_config_clone_and_eq() {
    let config1 = Config::default();
    let config2 = config1.clone();
    assert_eq!(config1, config2);
    assert_eq!(config1.duplicate(), config1);
}

#[test]
fn test_config_defaults() {
    let name = default_node_name();
    assert!(!name.is_empty());
    assert_eq!(default_node_type(), "cloud");
    assert_eq!(default_node_role(), "nodeagent");
    assert_eq!(default_yaml_storage(), "/etc/piccolo/yaml");
}

#[test]
fn node_name_fallback() {
    assert_eq!(node_name_or_unknown(None), "unknown");
    assert_eq!(node_name_or_unknown(Some("car-1".to_string())), "car-1");
}

#[test]
fn test_get_host_ip_fallback() {
    let mut config = Config::default();
    config.nodeagent.node_ip = "".to_string();
    config.nodeagent.master_ip = "192.168.1.5".to_string();

    let ip = config.get_host_ip();
    assert!(!ip.is_empty());
}

#[test]
fn test_config_get_default_fallback() {
    let mut slot = ConfigSlot::new();
    let config = Config::get(&mut slot);
    assert!(!config.get_host_ip().is_empty() || config.nodeagent.master_ip.is_empty());
}

#[test]
fn configured_node_ip_wins() {
    let mut config = Config::default();
    config.nodeagent.node_ip = "10.0.0.2".to_string();
    config.nodeagent.master_ip = "10.0.0.1".to_string();
    assert_eq!(config.get_host_ip(), "10.0.0.2");
}

#[test]
fn host_ip_selection() {
    let empty = String::new();
    let master = "10.0.0.1".to_string();
    let addrs = vec![
        HostAddr::V4(127, 0, 0, 1),
        HostAddr::V6,
        HostAddr::V4(192, 168, 10, 20),
        HostAddr::V4(172, 16, 0, 1),
    ];
    assert_eq!(select_host_ip(&empty, Some(addrs), &master), "192.168.10.20");
    assert_eq!(
        select_host_ip(&empty, Some(vec![HostAddr::V4(127, 1, 2, 3)]), &master),
        "10.0.0.1"
    );
    assert_eq!(select_host_ip(&empty, None, &master), "10.0.0.1");
    assert_eq!(
        select_host_ip(&"9.9.9.9".to_string(), None, &master),
        "9.9.9.9"
    );
    assert_eq!(dotted_ip(0, 10, 255, 7), "0.10.255.7");
}

#[test]
fn getters_return_fields() {
    let mut config = Config::default();
    config.nodeagent.node_name = "test-node".to_string();
    config.nodeagent.system.hostname = "test-host".to_string();
    config.nodeagent.yaml_storage = "/tmp/piccolo/yaml".to_string();
    assert_eq!(config.get_node_name(), "test-node");
    assert_eq!(config.get_hostname(), "test-host");
    assert_eq!(config.get_yaml_storage(), "/tmp/piccolo/yaml");
}
