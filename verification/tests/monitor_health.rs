use logpose::health::HealthStatus;
use logpose::instance::{Address, ServiceInstance};
use logpose::metadata::Metadata;
use logpose::monitor::{monitor_cycle, record_probe};
use logpose::protocol::Protocol;
use logpose::registry::Registry;
use logpose::runtime::Runtime;

fn registered(id: u128) -> ServiceInstance {
    ServiceInstance {
        id,
        service_name: "svc".to_string(),
        address: Address { host: "127.0.0.1".to_string(), port: 9999 },
        protocol: Protocol::Tcp,
        runtime: Runtime::Custom("bare".to_string()),
        metadata: Metadata::new(),
        last_seen: 0,
        health: HealthStatus::Unknown,
    }
}

fn health_of(reg: &Registry, id: u128) -> HealthStatus {
    reg.get_all_instances()
        .unwrap()
        .into_iter()
        .find(|i| i.id == id)
        .expect("instance should be registered")
        .health
}

#[test]
fn fresh_instance_is_unknown_until_probed() {
    let inst = ServiceInstance::new(
        "svc".to_string(),
        Address { host: "127.0.0.1".to_string(), port: 9999 },
        Protocol::Http,
        Runtime::Custom("bare".to_string()),
        0,
    );
    assert_eq!(inst.health, HealthStatus::Unknown);
}

#[test]
fn failed_probe_marks_unhealthy_and_successful_probe_heals() {
    let mut reg = Registry::new();
    reg.add_instance(&registered(1)).unwrap();
    assert_eq!(health_of(&reg, 1), HealthStatus::Unknown);

    monitor_cycle(&mut reg, &vec![(1u128, false)]);
    assert_eq!(health_of(&reg, 1), HealthStatus::Unhealthy);

    monitor_cycle(&mut reg, &vec![(1u128, true)]);
    assert_eq!(health_of(&reg, 1), HealthStatus::Healthy);

    // A later failure flips it back: no state is terminal.
    monitor_cycle(&mut reg, &vec![(1u128, false)]);
    assert_eq!(health_of(&reg, 1), HealthStatus::Unhealthy);
}

#[test]
fn one_missing_instance_does_not_abort_the_cycle() {
    let mut reg = Registry::new();
    reg.add_instance(&registered(1)).unwrap();
    reg.add_instance(&registered(2)).unwrap();
    // Id 999 was deleted mid-cycle; its outcome is swallowed and the
    // rest of the cycle still lands.
    monitor_cycle(&mut reg, &vec![(1u128, true), (999u128, true), (2u128, false)]);
    assert_eq!(health_of(&reg, 1), HealthStatus::Healthy);
    assert_eq!(health_of(&reg, 2), HealthStatus::Unhealthy);
    assert_eq!(reg.get_all_instances().unwrap().len(), 2);
}

#[test]
fn record_probe_touches_only_its_instance() {
    let mut reg = Registry::new();
    reg.add_instance(&registered(1)).unwrap();
    reg.add_instance(&registered(2)).unwrap();
    record_probe(&mut reg, 1, true);
    assert_eq!(health_of(&reg, 1), HealthStatus::Healthy);
    assert_eq!(health_of(&reg, 2), HealthStatus::Unknown);
    record_probe(&mut reg, 404, false);
    assert_eq!(health_of(&reg, 1), HealthStatus::Healthy);
    assert_eq!(health_of(&reg, 2), HealthStatus::Unknown);
}
