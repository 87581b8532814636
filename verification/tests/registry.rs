use xilers::ClientGroup;
use xilers::DeviceManager;
use xilers::DeviceSpec;
use xilers::FileNode;
use xilers::FileSystem;
use xilers::LookupError;
use xilers::Uid;

fn linux_spec() -> DeviceSpec {
    DeviceSpec {
        ip: "10.0.0.1".to_string(),
        os: "linux".to_string(),
        os_version: "6.1".to_string(),
        listen_port: Some("8081".to_string()),
    }
}

fn macos_spec() -> DeviceSpec {
    DeviceSpec {
        ip: "10.0.0.2".to_string(),
        os: "macos".to_string(),
        os_version: "14.2".to_string(),
        listen_port: None,
    }
}

fn leaf_fs(name: &str) -> FileSystem {
    FileSystem {
        node: FileNode {
            file_name: name.to_string(),
            children: Vec::new(),
        },
    }
}

#[test]
fn create_group_then_get_succeeds_and_is_empty() {
    let mut registry = ClientGroup::new();
    let g = registry.create_group();
    let manager = registry.get_device_manager(g);
    assert!(manager.is_some());
    let manager = manager.unwrap();
    assert!(manager.get_device_spec(Uid::new(1)).is_none());
    assert!(manager.get_device_fs(Uid::new(1)).is_none());
}

#[test]
fn delete_group_absent_then_present() {
    let mut registry = ClientGroup::new();
    assert!(!registry.delete_device_manager(Uid::new(42)));
    let g = registry.create_group();
    assert!(registry.delete_device_manager(g));
    assert!(registry.get_device_manager(g).is_none());
    assert!(!registry.delete_device_manager(g));
}

#[test]
fn last_upsert_wins_and_delete_clears() {
    let mut registry = ClientGroup::new();
    let g = registry.create_group();
    let d = Uid::new(7);
    assert!(registry.upsert_spec(g, d, linux_spec()));
    assert!(registry.upsert_spec(g, d, macos_spec()));
    assert_eq!(registry.get_spec(g, d), Ok(&macos_spec()));
    assert!(registry.delete_spec(g, d));
    assert_eq!(registry.get_spec(g, d), Err(LookupError::DeviceNotFound));
    assert!(!registry.delete_spec(g, d));
}

#[test]
fn spec_ops_on_missing_group_fail() {
    let mut registry = ClientGroup::new();
    let g = Uid::new(9);
    assert!(!registry.upsert_spec(g, Uid::new(1), linux_spec()));
    assert_eq!(
        registry.get_spec(g, Uid::new(1)),
        Err(LookupError::GroupNotFound)
    );
    assert!(!registry.delete_spec(g, Uid::new(1)));
    assert!(registry.register_spec(g, linux_spec()).is_none());
}

#[test]
fn distinct_upserts_are_all_visible() {
    let mut registry = ClientGroup::new();
    let g = registry.create_group();
    let devices = [Uid::new(1), Uid::new(2), Uid::new(3)];
    let specs = [linux_spec(), macos_spec(), linux_spec()];
    for (d, s) in devices.iter().zip(specs.iter()) {
        assert!(registry.upsert_spec(g, *d, s.clone()));
    }
    for (d, s) in devices.iter().zip(specs.iter()) {
        assert_eq!(registry.get_spec(g, *d), Ok(s));
    }
}

#[test]
fn snapshot_ops_mirror_spec_ops() {
    let mut registry = ClientGroup::new();
    let g = registry.create_group();
    let d = Uid::new(5);
    assert!(registry.upsert_fs(g, d, leaf_fs("/home")));
    let fetched = registry.get_fs(g, d).unwrap();
    assert_eq!(fetched.node.file_name, "/home");
    assert!(registry.upsert_fs(g, d, leaf_fs("/srv")));
    assert_eq!(registry.get_fs(g, d).unwrap().node.file_name, "/srv");
    assert!(registry.delete_fs(g, d));
    assert!(matches!(registry.get_fs(g, d), Err(LookupError::DeviceNotFound)));
}

#[test]
fn spec_and_snapshot_facets_are_independent() {
    let mut registry = ClientGroup::new();
    let g = registry.create_group();
    let d = Uid::new(11);
    assert!(registry.upsert_spec(g, d, linux_spec()));
    assert!(matches!(registry.get_fs(g, d), Err(LookupError::DeviceNotFound)));
    assert!(registry.delete_spec(g, d));
    assert!(registry.upsert_fs(g, d, leaf_fs("/data")));
    assert_eq!(registry.get_spec(g, d), Err(LookupError::DeviceNotFound));
}

#[test]
fn register_spec_allocates_a_fresh_device_entry() {
    let mut registry = ClientGroup::new();
    let g = registry.create_group();
    let d = registry.register_spec(g, linux_spec()).unwrap();
    assert_eq!(registry.get_spec(g, d), Ok(&linux_spec()));
    let d2 = registry.register_fs(g, leaf_fs("/home")).unwrap();
    assert_eq!(registry.get_fs(g, d2).unwrap().node.file_name, "/home");
}

#[test]
fn add_device_manager_inserts_under_given_id() {
    let mut registry = ClientGroup::new();
    let g = Uid::new(77);
    assert!(registry.add_device_manager(g, DeviceManager::new()).is_ok());
    assert!(registry.get_device_manager(g).is_some());
}

#[test]
fn spec_summary_and_peer_addr() {
    let spec = linux_spec();
    assert_eq!(spec.summary(3), "3> linux(6.1)_10.0.0.1");
    assert_eq!(spec.peer_addr(), Some("10.0.0.1:8081".to_string()));
    assert_eq!(macos_spec().peer_addr(), None);
}

#[test]
fn device_manager_holds_both_facets() {
    let mut manager = DeviceManager::new();
    let d = Uid::new(3);
    manager.add_device_spec(d, linux_spec());
    manager.add_device_fs(d, leaf_fs("/home"));
    assert_eq!(manager.get_device_spec(d), Some(&linux_spec()));
    assert_eq!(manager.get_device_fs(d).unwrap().node.file_name, "/home");
    assert_eq!(manager.delete_device_spec(d), Some(linux_spec()));
    assert_eq!(manager.get_device_spec(d), None);
    assert!(manager.delete_device_fs(d).is_some());
    assert!(manager.delete_device_fs(d).is_none());
}
