use logpose::health::HealthStatus;
use logpose::instance::{Address, ServiceInstance};
use logpose::metadata::Metadata;
use logpose::protocol::Protocol;
use logpose::registry::Registry;
use logpose::runtime::Runtime;
use logpose::service::Service;
use logpose::RegistryError;
use logpose::{Identity, Role};

fn sample_instance(id: u128, service: &str, port: u16) -> ServiceInstance {
    ServiceInstance {
        id,
        service_name: service.to_string(),
        address: Address { host: "127.0.0.1".to_string(), port },
        protocol: Protocol::Http,
        runtime: Runtime::Container { container_id: "abc".to_string() },
        metadata: Metadata::new(),
        last_seen: 0,
        health: HealthStatus::Unknown,
    }
}

#[test]
fn add_service_twice_keeps_one_row_with_latest_description() {
    let mut reg = Registry::new();
    let first = Service::new("Auth".to_string(), "auth-svc".to_string(), "old".to_string());
    let second = Service::new("Auth".to_string(), "auth-svc".to_string(), "new".to_string());
    reg.add_service(&first).unwrap();
    reg.add_service(&second).unwrap();
    let all = reg.get_all_services().unwrap();
    assert_eq!(all.len(), 1);
    assert_eq!(all[0].code, "auth-svc");
    assert_eq!(all[0].description, "new");
    let got = reg.get_service("auth-svc").unwrap();
    assert_eq!(got.description, "new");
    assert!(got.instances.is_empty());
}

#[test]
fn add_instance_twice_same_id_updates_in_place() {
    let mut reg = Registry::new();
    let a = sample_instance(42, "auth-svc", 8000);
    let mut b = sample_instance(42, "auth-svc", 9000);
    b.last_seen = 7;
    reg.add_instance(&a).unwrap();
    let before = reg.get_all_instances().unwrap().len();
    reg.add_instance(&b).unwrap();
    let all = reg.get_all_instances().unwrap();
    assert_eq!(all.len(), before);
    assert_eq!(all.len(), 1);
    assert_eq!(all[0].address.port, 9000);
    assert_eq!(all[0].last_seen, 7);
}

#[test]
fn get_service_nonexistent_fails_service_not_found() {
    let reg = Registry::new();
    match reg.get_service("nonexistent") {
        Err(RegistryError::ServiceNotFound) => {}
        other => panic!("expected ServiceNotFound, got {:?}", other.map(|s| s.code)),
    }
}

#[test]
fn update_health_of_random_id_fails_instance_not_found() {
    let mut reg = Registry::new();
    reg.add_instance(&sample_instance(1, "svc", 80)).unwrap();
    match reg.update_instance_health(0xdead_beef, HealthStatus::Healthy) {
        Err(RegistryError::InstanceNotFound) => {}
        other => panic!("expected InstanceNotFound, got {:?}", other),
    }
    let all = reg.get_all_instances().unwrap();
    assert_eq!(all[0].health, HealthStatus::Unknown);
}

#[test]
fn get_instances_of_unknown_service_is_empty_not_error() {
    let reg = Registry::new();
    let got = reg.get_instances("no-such-service").unwrap();
    assert!(got.is_empty());
}

#[test]
fn get_instances_filters_by_service_code() {
    let mut reg = Registry::new();
    reg.add_instance(&sample_instance(1, "alpha", 80)).unwrap();
    reg.add_instance(&sample_instance(2, "beta", 81)).unwrap();
    reg.add_instance(&sample_instance(3, "alpha", 82)).unwrap();
    let alphas = reg.get_instances("alpha").unwrap();
    assert_eq!(alphas.len(), 2);
    assert!(alphas.iter().all(|i| i.service_name == "alpha"));
    let betas = reg.get_instances("beta").unwrap();
    assert_eq!(betas.len(), 1);
    assert_eq!(betas[0].id, 2);
}

#[test]
fn end_to_end_register_probe_and_update() {
    let mut reg = Registry::new();
    let svc = Service::new(
        "Auth Service".to_string(),
        "auth-svc".to_string(),
        "authentication".to_string(),
    );
    reg.add_service(&svc).unwrap();
    let inst = ServiceInstance {
        id: 77,
        service_name: "auth-svc".to_string(),
        address: Address { host: "127.0.0.1".to_string(), port: 9999 },
        protocol: Protocol::Http,
        runtime: Runtime::Container { container_id: "abc".to_string() },
        metadata: Metadata::new(),
        last_seen: 0,
        health: HealthStatus::Unknown,
    };
    reg.add_instance(&inst).unwrap();

    // One monitor cycle against an unreachable address.
    let outcomes = vec![(77u128, false)];
    logpose::monitor::monitor_cycle(&mut reg, &outcomes);
    let all = reg.get_instances("auth-svc").unwrap();
    assert_eq!(all.len(), 1);
    assert_eq!(all[0].health, HealthStatus::Unhealthy);

    // A direct health update overrides the probe's verdict.
    reg.update_instance_health(77, HealthStatus::Healthy).unwrap();
    let all = reg.get_instances("auth-svc").unwrap();
    assert_eq!(all.len(), 1);
    assert_eq!(all[0].health, HealthStatus::Healthy);
    assert!(matches!(
        &all[0].runtime,
        Runtime::Container { container_id } if container_id == "abc"
    ));
}

#[test]
fn add_identity_replaces_role_set_whole() {
    let mut reg = Registry::new();
    let admin = Identity {
        common_name: "admin.local".to_string(),
        organization: Some("Ops".to_string()),
        roles: vec![Role::Admin, Role::Viewer, Role::Admin],
    };
    reg.add_identity(&admin).unwrap();
    let got = reg.get_identity("admin.local").unwrap();
    assert_eq!(got.common_name, "admin.local");
    assert_eq!(got.organization.as_deref(), Some("Ops"));
    // Duplicates collapse.
    assert_eq!(got.roles.len(), 2);
    assert!(got.roles.contains(&Role::Admin));
    assert!(got.roles.contains(&Role::Viewer));

    // Re-adding overwrites the role set, it does not merge.
    let downgraded = Identity {
        common_name: "admin.local".to_string(),
        organization: None,
        roles: vec![Role::Agent],
    };
    reg.add_identity(&downgraded).unwrap();
    let got = reg.get_identity("admin.local").unwrap();
    assert_eq!(got.roles, vec![Role::Agent]);
    assert_eq!(got.organization, None);
}

#[test]
fn add_role_is_additive_and_idempotent() {
    let mut reg = Registry::new();
    let viewer = Identity {
        common_name: "carol".to_string(),
        organization: None,
        roles: vec![Role::Viewer],
    };
    reg.add_identity(&viewer).unwrap();
    reg.add_role_to_identity("carol", Role::Agent).unwrap();
    reg.add_role_to_identity("carol", Role::Agent).unwrap();
    let got = reg.get_identity("carol").unwrap();
    assert_eq!(got.roles.len(), 2);
    assert!(got.roles.contains(&Role::Viewer));
    assert!(got.roles.contains(&Role::Agent));

    // Granting a role to an unknown identity changes nothing and
    // still succeeds.
    reg.add_role_to_identity("nobody", Role::Admin).unwrap();
    assert!(matches!(
        reg.get_identity("nobody"),
        Err(RegistryError::ServiceNotFound)
    ));
}

#[test]
fn metadata_insert_get_and_overwrite() {
    let mut inst = sample_instance(5, "svc", 80);
    assert!(inst.get_metadata("zone").is_none());
    inst.add_metadata("zone".to_string(), "eu-1".to_string());
    inst.add_metadata("owner".to_string(), "team-a".to_string());
    inst.add_metadata("zone".to_string(), "eu-2".to_string());
    assert_eq!(inst.get_metadata("zone").map(String::as_str), Some("eu-2"));
    assert_eq!(inst.get_metadata("owner").map(String::as_str), Some("team-a"));
    assert_eq!(inst.metadata.len(), 2);

    let mut svc = Service::new("n".to_string(), "c".to_string(), "d".to_string());
    svc.add_metadata("tier".to_string(), "gold".to_string());
    assert_eq!(svc.get_metadata("tier").map(String::as_str), Some("gold"));
    assert!(svc.get_metadata("absent").is_none());
}

#[test]
fn service_instance_mutators() {
    let mut inst = ServiceInstance::new(
        "auth-svc".to_string(),
        Address { host: "10.0.0.1".to_string(), port: 8080 },
        Protocol::Grpc,
        Runtime::Vm { provider: Some("kvm".to_string()), id: None },
        100,
    );
    assert_eq!(inst.health, HealthStatus::Unknown);
    assert_eq!(inst.last_seen, 100);
    inst.set_health(HealthStatus::Healthy);
    assert_eq!(inst.health, HealthStatus::Healthy);
    inst.update_heartbeat(250);
    assert_eq!(inst.last_seen, 250);

    let other = ServiceInstance::new(
        "auth-svc".to_string(),
        Address { host: "10.0.0.1".to_string(), port: 8080 },
        Protocol::Http,
        Runtime::Custom("bare".to_string()),
        100,
    );
    // Fresh ids are distinct in practice.
    assert_ne!(inst.id, other.id);
}

#[test]
fn service_add_instance_collects_instances() {
    let mut svc = Service::new("n".to_string(), "c".to_string(), "d".to_string());
    svc.add_instance(sample_instance(9, "c", 80));
    assert_eq!(svc.instances.len(), 1);
    assert_eq!(svc.instances[0].id, 9);
}

#[test]
fn error_messages() {
    assert_eq!(RegistryError::ServiceNotFound.message(), "Service not found");
    assert_eq!(RegistryError::InstanceNotFound.message(), "Instance not found");
    assert_eq!(RegistryError::DuplicateInstance.message(), "Duplicate instance");
}
