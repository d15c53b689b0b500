use vstd::prelude::*;

verus! {

use crate::health::HealthStatus;
use crate::metadata::Metadata;
use crate::protocol::{Protocol, ProtocolView};
use crate::runtime::{Runtime, RuntimeView};

/// A network address: a host (an IP or a name) and a port.
pub struct Address {
    pub host: String,
    pub port: u16,
}

/// Mathematical image of an [`Address`].
pub struct AddressView {
    pub host: Seq<char>,
    pub port: u16,
}

impl View for Address {
    type V = AddressView;

    open spec fn view(&self) -> AddressView {
        AddressView { host: self.host@, port: self.port }
    }
}

impl Clone for Address {
    fn clone(&self) -> (r: Self)
        ensures
            r@ == self@,
    {
        Address { host: self.host.clone(), port: self.port }
    }
}

/// Relies on `uuid::Uuid::new_v4` for a fresh random id, read out with
/// `Uuid::as_u128`; nothing is assumed of the value.
#[verifier::external_body]
fn fresh_id() -> u128 {
    uuid::Uuid::new_v4().as_u128()
}

/// One network-reachable deployment of a service. The id is assigned
/// at creation and never changes; health starts at `Unknown`.
pub struct ServiceInstance {
    pub id: u128,
    pub service_name: String,
    pub address: Address,
    pub protocol: Protocol,
    pub runtime: Runtime,
    pub metadata: Metadata,
    pub last_seen: u64,
    pub health: HealthStatus,
}

/// Mathematical image of a [`ServiceInstance`].
pub struct InstanceView {
    pub id: u128,
    pub service_name: Seq<char>,
    pub address: AddressView,
    pub protocol: ProtocolView,
    pub runtime: RuntimeView,
    pub metadata: Map<Seq<char>, Seq<char>>,
    pub last_seen: u64,
    pub health: HealthStatus,
}

impl View for ServiceInstance {
    type V = InstanceView;

    open spec fn view(&self) -> InstanceView {
        InstanceView {
            id: self.id,
            service_name: self.service_name@,
            address: self.address@,
            protocol: self.protocol@,
            runtime: self.runtime@,
            metadata: self.metadata@,
            last_seen: self.last_seen,
            health: self.health,
        }
    }
}

impl ServiceInstance {
    /// The instance's internal invariant: its metadata map is well
    /// formed.
    pub open spec fn wf(self) -> bool {
        self.metadata.wf()
    }

    /// Creates an instance with a freshly generated id, no metadata,
    /// and health `Unknown`.
    pub fn new(
        service_name: String,
        address: Address,
        protocol: Protocol,
        runtime: Runtime,
        last_seen: u64,
    ) -> (r: ServiceInstance)
        ensures
            r.wf(),
            r@.service_name == service_name@,
            r@.address == address@,
            r@.protocol == protocol@,
            r@.runtime == runtime@,
            r@.metadata == Map::<Seq<char>, Seq<char>>::empty(),
            r@.last_seen == last_seen,
            r@.health == HealthStatus::Unknown,
    {
        ServiceInstance {
            id: fresh_id(),
            service_name,
            address,
            protocol,
            runtime,
            metadata: Metadata::new(),
            last_seen,
            health: HealthStatus::Unknown,
        }
    }

    /// Sets the health field; everything else stays.
    pub fn set_health(&mut self, health: HealthStatus)
        ensures
            final(self)@ == (InstanceView { health, ..old(self)@ }),
            final(self).wf() <==> old(self).wf(),
    {
        self.health = health;
    }

    /// Records a heartbeat timestamp; everything else stays.
    pub fn update_heartbeat(&mut self, timestamp: u64)
        ensures
            final(self)@ == (InstanceView { last_seen: timestamp, ..old(self)@ }),
            final(self).wf() <==> old(self).wf(),
    {
        self.last_seen = timestamp;
    }

    /// Inserts or replaces one metadata entry; everything else stays.
    pub fn add_metadata(&mut self, key: String, value: String)
        requires
            old(self).wf(),
        ensures
            final(self).wf(),
            final(self)@ == (InstanceView {
                metadata: old(self)@.metadata.insert(key@, value@),
                ..old(self)@
            }),
    {
        self.metadata.insert(key, value);
    }

    /// The metadata value at `key`, if any.
    pub fn get_metadata(&self, key: &str) -> (r: Option<&String>)
        requires
            self.wf(),
        ensures
            match r {
                Some(v) => self@.metadata.contains_key(key@) && self@.metadata[key@] == v@,
                None => !self@.metadata.contains_key(key@),
            },
    {
        self.metadata.get(key)
    }
}

impl Clone for ServiceInstance {
    fn clone(&self) -> (r: Self)
        ensures
            r@ == self@,
            r.wf() <==> self.wf(),
    {
        ServiceInstance {
            id: self.id,
            service_name: self.service_name.clone(),
            address: self.address.clone(),
            protocol: self.protocol.clone(),
            runtime: self.runtime.clone(),
            metadata: self.metadata.clone(),
            last_seen: self.last_seen,
            health: self.health,
        }
    }
}

} // verus!
