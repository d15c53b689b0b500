use vstd::prelude::*;

verus! {

use crate::auth::{Identity, IdentityView, Role};
use crate::errors::RegistryError;
use crate::health::HealthStatus;
use crate::instance::{InstanceView, ServiceInstance};
use crate::kv::{kv_map, keys_distinct, lemma_kv_map_dom, lemma_kv_map_index, lemma_kv_map_len,
    lemma_kv_map_push, lemma_kv_map_update, lemma_keys_distinct_push, lemma_keys_distinct_update};
use crate::service::{Service, ServiceView};
use crate::strutil::str_eq;

/// What the store keeps of a service: everything but the code that
/// keys it and the instances, which live in their own table.
pub struct ServiceRec {
    pub name: Seq<char>,
    pub description: Seq<char>,
    pub metadata: Map<Seq<char>, Seq<char>>,
}

/// The record a service value denotes.
pub open spec fn svc_rec(s: ServiceView) -> ServiceRec {
    ServiceRec { name: s.name, description: s.description, metadata: s.metadata }
}

/// What the store keeps of an identity: the organization and the role
/// set; the common name keys it. Duplicate roles collapse.
pub struct IdentityRec {
    pub organization: Option<Seq<char>>,
    pub roles: Set<Role>,
}

/// The record an identity value denotes.
pub open spec fn id_rec(i: IdentityView) -> IdentityRec {
    IdentityRec { organization: i.organization, roles: i.roles.to_set() }
}

/// The registry store: three tables with upsert semantics, keyed by
/// service code, instance id, and identity common name. This is the
/// in-memory form of the store; a persistent adapter mirrors it row
/// for row through the codecs.
pub struct Registry {
    services: Vec<Service>,
    instances: Vec<ServiceInstance>,
    identities: Vec<Identity>,
}

impl Registry {
    /// The service table as key-record pairs, in storage order.
    pub closed spec fn svc_entries(self) -> Seq<(Seq<char>, ServiceRec)> {
        self.services@.map_values(|s: Service| (s.code@, svc_rec(s@)))
    }

    /// The service table: code to record.
    pub closed spec fn services_map(self) -> Map<Seq<char>, ServiceRec> {
        kv_map(self.svc_entries())
    }

    /// The instance table as key-value pairs, in storage order.
    pub closed spec fn inst_entries(self) -> Seq<(u128, InstanceView)> {
        self.instances@.map_values(|i: ServiceInstance| (i.id, i@))
    }

    /// The instance table: id to instance.
    pub closed spec fn instances_map(self) -> Map<u128, InstanceView> {
        kv_map(self.inst_entries())
    }

    /// The identity table as key-record pairs, in storage order.
    pub closed spec fn id_entries(self) -> Seq<(Seq<char>, IdentityRec)> {
        self.identities@.map_values(|i: Identity| (i.common_name@, id_rec(i@)))
    }

    /// The identity table: common name to record.
    pub closed spec fn identities_map(self) -> Map<Seq<char>, IdentityRec> {
        kv_map(self.id_entries())
    }

    /// The store's internal invariant: each table's keys are unique,
    /// stored values are well formed, stored services carry no
    /// instances, and stored role lists carry no duplicates.
    pub closed spec fn wf(self) -> bool {
        &&& keys_distinct(self.svc_entries())
        &&& keys_distinct(self.inst_entries())
        &&& keys_distinct(self.id_entries())
        &&& forall|i: int|
            0 <= i < self.services@.len() ==> (#[trigger] self.services@[i]).wf()
                && self.services@[i].instances@.len() == 0
        &&& forall|i: int| 0 <= i < self.instances@.len() ==> (#[trigger] self.instances@[i]).wf()
        &&& forall|i: int|
            0 <= i < self.identities@.len() ==> (#[trigger] self.identities@[i]).roles@.no_duplicates()
    }

    /// An empty store.
    pub fn new() -> (r: Registry)
        ensures
            r.wf(),
            r.services_map() == Map::<Seq<char>, ServiceRec>::empty(),
            r.instances_map() == Map::<u128, InstanceView>::empty(),
            r.identities_map() == Map::<Seq<char>, IdentityRec>::empty(),
    {
        let r = Registry { services: Vec::new(), instances: Vec::new(), identities: Vec::new() };
        proof {
            assert(r.svc_entries() =~= Seq::<(Seq<char>, ServiceRec)>::empty());
            assert(r.inst_entries() =~= Seq::<(u128, InstanceView)>::empty());
            assert(r.id_entries() =~= Seq::<(Seq<char>, IdentityRec)>::empty());
        }
        r
    }

    /// The index of the service stored under `code`, if any.
    fn find_service(&self, code: &str) -> (r: Option<usize>)
        ensures
            match r {
                Some(i) => i < self.svc_entries().len() && self.svc_entries()[i as int].0 == code@,
                None => forall|i: int|
                    0 <= i < self.svc_entries().len() ==> (#[trigger] self.svc_entries()[i]).0
                        != code@,
            },
    {
        let mut i: usize = 0;
        while i < self.services.len()
            invariant
                0 <= i <= self.services@.len(),
                self.svc_entries().len() == self.services@.len(),
                forall|j: int|
                    0 <= j < i ==> (#[trigger] self.svc_entries()[j]).0 != code@,
            decreases self.services@.len() - i,
        {
            if str_eq(self.services[i].code.as_str(), code) {
                return Some(i);
            }
            i = i + 1;
        }
        None
    }

    /// Registers or replaces a service, keyed by its code. A duplicate
    /// code is an overwrite, never an error; this operation always
    /// succeeds. The stored entry carries no instances.
    pub fn add_service(&mut self, service: &Service) -> (r: Result<(), RegistryError>)
        requires
            old(self).wf(),
            service.wf(),
        ensures
            final(self).wf(),
            r is Ok,
            final(self).services_map() == old(self).services_map().insert(
                service@.code,
                svc_rec(service@),
            ),
            final(self).instances_map() == old(self).instances_map(),
            final(self).identities_map() == old(self).identities_map(),
    {
        let stored = Service {
            name: service.name.clone(),
            code: service.code.clone(),
            description: service.description.clone(),
            instances: Vec::new(),
            metadata: service.metadata.clone(),
        };
        proof {
            assert(stored@.instances =~= Seq::<InstanceView>::empty());
            assert(svc_rec(stored@) == svc_rec(service@));
        }
        let ghost oldents = self.svc_entries();
        match self.find_service(service.code.as_str()) {
            Some(i) => {
                proof {
                    lemma_kv_map_update(oldents, i as int, svc_rec(service@));
                    lemma_keys_distinct_update(oldents, i as int, svc_rec(service@));
                }
                self.services[i] = stored;
                proof {
                    assert(self.svc_entries() =~= oldents.update(
                        i as int,
                        (oldents[i as int].0, svc_rec(service@)),
                    ));
                    assert(self.inst_entries() =~= old(self).inst_entries());
                    assert(self.id_entries() =~= old(self).id_entries());
                }
            },
            None => {
                proof {
                    lemma_kv_map_push(oldents, service.code@, svc_rec(service@));
                    lemma_keys_distinct_push(oldents, service.code@, svc_rec(service@));
                }
                self.services.push(stored);
                proof {
                    assert(self.svc_entries() =~= oldents.push((service.code@, svc_rec(service@))));
                    assert(self.inst_entries() =~= old(self).inst_entries());
                    assert(self.id_entries() =~= old(self).id_entries());
                }
            },
        }
        Ok(())
    }

    /// Looks a service up by code; fails with `ServiceNotFound` exactly
    /// when no service is stored under it. The returned service carries
    /// no instances; they are fetched separately.
    pub fn get_service(&self, code: &str) -> (r: Result<Service, RegistryError>)
        requires
            self.wf(),
        ensures
            match r {
                Ok(s) => self.services_map().contains_key(code@) && s.wf() && s@.code == code@
                    && svc_rec(s@) == self.services_map()[code@] && s@.instances.len() == 0,
                Err(e) => e == RegistryError::ServiceNotFound && !self.services_map().contains_key(
                    code@,
                ),
            },
    {
        proof {
            lemma_kv_map_dom(self.svc_entries(), code@);
        }
        match self.find_service(code) {
            Some(i) => {
                proof {
                    lemma_kv_map_index(self.svc_entries(), i as int);
                }
                let stored = &self.services[i];
                let s = Service {
                    name: stored.name.clone(),
                    code: stored.code.clone(),
                    description: stored.description.clone(),
                    instances: Vec::new(),
                    metadata: stored.metadata.clone(),
                };
                proof {
                    assert(s@.instances =~= Seq::<InstanceView>::empty());
                }
                Ok(s)
            },
            None => Err(RegistryError::ServiceNotFound),
        }
    }

    /// A snapshot of all services, one per stored code, each carrying
    /// no instances. The order is not part of the contract.
    pub fn get_all_services(&self) -> (r: Result<Vec<Service>, RegistryError>)
        requires
            self.wf(),
        ensures
            match r {
                Ok(v) => {
                    &&& v@.len() == self.services_map().len()
                    &&& forall|j: int|
                        0 <= j < v@.len() ==> {
                            &&& self.services_map().contains_key((#[trigger] v@[j])@.code)
                            &&& svc_rec(v@[j]@) == self.services_map()[v@[j]@.code]
                            &&& v@[j]@.instances.len() == 0
                            &&& v@[j].wf()
                        }
                    &&& forall|j1: int, j2: int|
                        0 <= j1 < j2 < v@.len() ==> (#[trigger] v@[j1])@.code != (
                        #[trigger] v@[j2])@.code
                    &&& forall|k: Seq<char>|
                        #[trigger] self.services_map().contains_key(k) ==> exists|j: int|
                            0 <= j < v@.len() && (#[trigger] v@[j])@.code == k
                },
                Err(_) => false,
            },
    {
        proof {
            lemma_kv_map_len(self.svc_entries());
        }
        let mut v: Vec<Service> = Vec::new();
        let mut i: usize = 0;
        while i < self.services.len()
            invariant
                self.wf(),
                0 <= i <= self.services@.len(),
                v@.len() == i,
                forall|j: int| 0 <= j < i ==> (#[trigger] v@[j])@ == self.services@[j]@,
                forall|j: int| 0 <= j < i ==> (#[trigger] v@[j]).wf(),
            decreases self.services@.len() - i,
        {
            v.push(self.services[i].clone());
            i = i + 1;
        }
        proof {
            assert forall|j: int| 0 <= j < v@.len() implies {
                &&& self.services_map().contains_key((#[trigger] v@[j])@.code)
                &&& svc_rec(v@[j]@) == self.services_map()[v@[j]@.code]
                &&& v@[j]@.instances.len() == 0
            } by {
                lemma_kv_map_index(self.svc_entries(), j);
                assert(self.svc_entries()[j].0 == v@[j]@.code);
                assert(self.svc_entries()[j].1 == svc_rec(v@[j]@));
                assert(self.services@[j].instances@.len() == 0);
                assert(v@[j]@.instances =~= self.services@[j]@.instances);
            }
            assert forall|j1: int, j2: int| 0 <= j1 < j2 < v@.len() implies (
            #[trigger] v@[j1])@.code != (#[trigger] v@[j2])@.code by {
                assert(self.svc_entries()[j1].0 == self.services@[j1].code@);
                assert(self.svc_entries()[j2].0 == self.services@[j2].code@);
            }
            assert forall|k: Seq<char>| #[trigger] self.services_map().contains_key(k)
                implies exists|j: int| 0 <= j < v@.len() && (#[trigger] v@[j])@.code == k by {
                lemma_kv_map_dom(self.svc_entries(), k);
                let idx = choose|idx: int|
                    0 <= idx < self.svc_entries().len() && (#[trigger] self.svc_entries()[idx]).0
                        == k;
                assert(v@[idx]@.code == k);
            }
        }
        Ok(v)
    }

    /// The index of the instance stored under `id`, if any.
    fn find_instance(&self, id: u128) -> (r: Option<usize>)
        ensures
            match r {
                Some(i) => i < self.inst_entries().len() && self.inst_entries()[i as int].0 == id,
                None => forall|i: int|
                    0 <= i < self.inst_entries().len() ==> (#[trigger] self.inst_entries()[i]).0
                        != id,
            },
    {
        let mut i: usize = 0;
        while i < self.instances.len()
            invariant
                0 <= i <= self.instances@.len(),
                self.inst_entries().len() == self.instances@.len(),
                forall|j: int|
                    0 <= j < i ==> (#[trigger] self.inst_entries()[j]).0 != id,
            decreases self.instances@.len() - i,
        {
            if self.instances[i].id == id {
                return Some(i);
            }
            i = i + 1;
        }
        None
    }

    /// Adds or replaces an instance, keyed by its id. A duplicate id
    /// updates in place; this operation always succeeds.
    pub fn add_instance(&mut self, instance: &ServiceInstance) -> (r: Result<(), RegistryError>)
        requires
            old(self).wf(),
            instance.wf(),
        ensures
            final(self).wf(),
            r is Ok,
            final(self).instances_map() == old(self).instances_map().insert(
                instance@.id,
                instance@,
            ),
            final(self).services_map() == old(self).services_map(),
            final(self).identities_map() == old(self).identities_map(),
    {
        let stored = instance.clone();
        let ghost oldents = self.inst_entries();
        match self.find_instance(instance.id) {
            Some(i) => {
                proof {
                    lemma_kv_map_update(oldents, i as int, instance@);
                    lemma_keys_distinct_update(oldents, i as int, instance@);
                }
                self.instances[i] = stored;
                proof {
                    assert(self.inst_entries() =~= oldents.update(
                        i as int,
                        (oldents[i as int].0, instance@),
                    ));
                    assert(self.svc_entries() =~= old(self).svc_entries());
                    assert(self.id_entries() =~= old(self).id_entries());
                }
            },
            None => {
                proof {
                    lemma_kv_map_push(oldents, instance.id, instance@);
                    lemma_keys_distinct_push(oldents, instance.id, instance@);
                }
                self.instances.push(stored);
                proof {
                    assert(self.inst_entries() =~= oldents.push((instance@.id, instance@)));
                    assert(self.svc_entries() =~= old(self).svc_entries());
                    assert(self.id_entries() =~= old(self).id_entries());
                }
            },
        }
        Ok(())
    }

    /// Sets the health of the instance stored under `id`; fails with
    /// `InstanceNotFound`, leaving the store unchanged, exactly when no
    /// instance is stored under it.
    pub fn update_instance_health(&mut self, id: u128, health: HealthStatus) -> (r: Result<
        (),
        RegistryError,
    >)
        requires
            old(self).wf(),
        ensures
            final(self).wf(),
            final(self).services_map() == old(self).services_map(),
            final(self).identities_map() == old(self).identities_map(),
            match r {
                Ok(()) => old(self).instances_map().contains_key(id) && final(self).instances_map()
                    == old(self).instances_map().insert(
                    id,
                    InstanceView { health, ..old(self).instances_map()[id] },
                ),
                Err(e) => e == RegistryError::InstanceNotFound && !old(
                    self,
                ).instances_map().contains_key(id) && final(self).instances_map() == old(
                    self,
                ).instances_map(),
            },
    {
        proof {
            lemma_kv_map_dom(self.inst_entries(), id);
        }
        let ghost oldents = self.inst_entries();
        match self.find_instance(id) {
            Some(i) => {
                proof {
                    lemma_kv_map_index(oldents, i as int);
                }
                let mut inst = self.instances.remove(i);
                inst.set_health(health);
                let ghost newview = inst@;
                self.instances.insert(i, inst);
                proof {
                    assert(self.instances@ =~= old(self).instances@.update(i as int, inst));
                    assert(self.inst_entries() =~= oldents.update(i as int, (oldents[i as int].0, newview)));
                    lemma_kv_map_update(oldents, i as int, newview);
                    lemma_keys_distinct_update(oldents, i as int, newview);
                    assert(newview == (InstanceView { health, ..old(self).instances_map()[id] }));
                    assert(self.svc_entries() =~= old(self).svc_entries());
                    assert(self.id_entries() =~= old(self).id_entries());
                }
                Ok(())
            },
            None => Err(RegistryError::InstanceNotFound),
        }
    }

    /// A snapshot of all instances, one per stored id. The order is
    /// not part of the contract.
    pub fn get_all_instances(&self) -> (r: Result<Vec<ServiceInstance>, RegistryError>)
        requires
            self.wf(),
        ensures
            match r {
                Ok(v) => {
                    &&& v@.len() == self.instances_map().len()
                    &&& forall|j: int|
                        0 <= j < v@.len() ==> {
                            &&& self.instances_map().contains_key((#[trigger] v@[j])@.id)
                            &&& self.instances_map()[v@[j]@.id] == v@[j]@
                            &&& v@[j].wf()
                        }
                    &&& forall|j1: int, j2: int|
                        0 <= j1 < j2 < v@.len() ==> (#[trigger] v@[j1])@.id != (
                        #[trigger] v@[j2])@.id
                    &&& forall|k: u128|
                        #[trigger] self.instances_map().contains_key(k) ==> exists|j: int|
                            0 <= j < v@.len() && (#[trigger] v@[j])@.id == k
                },
                Err(_) => false,
            },
    {
        proof {
            lemma_kv_map_len(self.inst_entries());
        }
        let mut v: Vec<ServiceInstance> = Vec::new();
        let mut i: usize = 0;
        while i < self.instances.len()
            invariant
                self.wf(),
                0 <= i <= self.instances@.len(),
                v@.len() == i,
                forall|j: int| 0 <= j < i ==> (#[trigger] v@[j])@ == self.instances@[j]@,
                forall|j: int| 0 <= j < i ==> (#[trigger] v@[j]).wf(),
            decreases self.instances@.len() - i,
        {
            v.push(self.instances[i].clone());
            i = i + 1;
        }
        proof {
            assert forall|j: int| 0 <= j < v@.len() implies {
                &&& self.instances_map().contains_key((#[trigger] v@[j])@.id)
                &&& self.instances_map()[v@[j]@.id] == v@[j]@
            } by {
                lemma_kv_map_index(self.inst_entries(), j);
                assert(self.inst_entries()[j].0 == v@[j]@.id);
                assert(self.inst_entries()[j].1 == v@[j]@);
            }
            assert forall|j1: int, j2: int| 0 <= j1 < j2 < v@.len() implies (
            #[trigger] v@[j1])@.id != (#[trigger] v@[j2])@.id by {
                assert(self.inst_entries()[j1].0 == self.instances@[j1].id);
                assert(self.inst_entries()[j2].0 == self.instances@[j2].id);
            }
            assert forall|k: u128| #[trigger] self.instances_map().contains_key(k)
                implies exists|j: int| 0 <= j < v@.len() && (#[trigger] v@[j])@.id == k by {
                lemma_kv_map_dom(self.inst_entries(), k);
                let idx = choose|idx: int|
                    0 <= idx < self.inst_entries().len() && (#[trigger] self.inst_entries()[idx]).0
                        == k;
                assert(v@[idx]@.id == k);
            }
        }
        Ok(v)
    }

    /// The instances registered under a service code. A service with
    /// no instances yields an empty vector, not an error; this
    /// operation always succeeds. Each matching stored instance
    /// appears exactly once.
    pub fn get_instances(&self, service_code: &str) -> (r: Result<Vec<ServiceInstance>, RegistryError>)
        requires
            self.wf(),
        ensures
            match r {
                Ok(v) => {
                    &&& forall|j: int|
                        0 <= j < v@.len() ==> {
                            &&& self.instances_map().contains_key((#[trigger] v@[j])@.id)
                            &&& self.instances_map()[v@[j]@.id] == v@[j]@
                            &&& v@[j]@.service_name == service_code@
                            &&& v@[j].wf()
                        }
                    &&& forall|k: u128|
                        #[trigger] self.instances_map().contains_key(k)
                            && self.instances_map()[k].service_name == service_code@
                            ==> exists|j: int| 0 <= j < v@.len() && (#[trigger] v@[j])@.id == k
                    &&& forall|j1: int, j2: int|
                        0 <= j1 < j2 < v@.len() ==> (#[trigger] v@[j1])@.id != (
                        #[trigger] v@[j2])@.id
                },
                Err(_) => false,
            },
    {
        let mut v: Vec<ServiceInstance> = Vec::new();
        let mut i: usize = 0;
        while i < self.instances.len()
            invariant
                self.wf(),
                0 <= i <= self.instances@.len(),
                forall|j: int|
                    0 <= j < v@.len() ==> exists|idx: int|
                        0 <= idx < i && (#[trigger] v@[j])@ == (
                        #[trigger] self.instances@[idx])@,
                forall|j: int|
                    0 <= j < v@.len() ==> (#[trigger] v@[j])@.service_name == service_code@
                        && v@[j].wf(),
                forall|idx: int|
                    0 <= idx < i && (#[trigger] self.instances@[idx])@.service_name
                        == service_code@ ==> exists|j: int|
                        0 <= j < v@.len() && (#[trigger] v@[j])@.id == self.instances@[idx].id,
                forall|j1: int, j2: int|
                    0 <= j1 < j2 < v@.len() ==> (#[trigger] v@[j1])@.id != (#[trigger] v@[j2])@.id,
            decreases self.instances@.len() - i,
        {
            if str_eq(self.instances[i].service_name.as_str(), service_code) {
                let ghost oldv = v@;
                v.push(self.instances[i].clone());
                proof {
                    assert(v@[oldv.len() as int]@ == self.instances@[i as int]@);
                    assert forall|j1: int, j2: int| 0 <= j1 < j2 < v@.len() implies (
                    #[trigger] v@[j1])@.id != (#[trigger] v@[j2])@.id by {
                        if j2 == v@.len() - 1 {
                            let idx = choose|idx: int|
                                0 <= idx < i && (#[trigger] oldv[j1])@ == (
                                #[trigger] self.instances@[idx])@;
                            assert(self.inst_entries()[idx].0 == self.instances@[idx].id);
                            assert(self.inst_entries()[i as int].0 == self.instances@[i as int].id);
                            assert(self.instances@[idx].id != self.instances@[i as int].id);
                        }
                    }
                    assert forall|j: int| 0 <= j < v@.len() implies exists|idx: int|
                        0 <= idx < i + 1 && (#[trigger] v@[j])@ == (
                        #[trigger] self.instances@[idx])@ by {
                        if j < v@.len() - 1 {
                            let idx = choose|idx: int|
                                0 <= idx < i && (#[trigger] oldv[j])@ == (
                                #[trigger] self.instances@[idx])@;
                            assert(0 <= idx < i + 1 && v@[j]@ == self.instances@[idx]@);
                        } else {
                            assert(0 <= i < i + 1 && v@[j]@ == self.instances@[i as int]@);
                        }
                    }
                    assert forall|idx: int|
                        0 <= idx < i + 1 && (#[trigger] self.instances@[idx])@.service_name
                            == service_code@ implies exists|j: int|
                        0 <= j < v@.len() && (#[trigger] v@[j])@.id == self.instances@[idx].id by {
                        if idx < i {
                            let j = choose|j: int|
                                0 <= j < oldv.len() && (#[trigger] oldv[j])@.id
                                    == self.instances@[idx].id;
                            assert(v@[j]@.id == self.instances@[idx].id);
                        } else {
                            assert(v@[v@.len() - 1]@.id == self.instances@[i as int].id);
                        }
                    }
                }
            }
            i = i + 1;
        }
        proof {
            assert forall|j: int| 0 <= j < v@.len() implies {
                &&& self.instances_map().contains_key((#[trigger] v@[j])@.id)
                &&& self.instances_map()[v@[j]@.id] == v@[j]@
            } by {
                let idx = choose|idx: int|
                    0 <= idx < self.instances@.len() && (#[trigger] v@[j])@ == (
                    #[trigger] self.instances@[idx])@;
                lemma_kv_map_index(self.inst_entries(), idx);
                assert(self.inst_entries()[idx].0 == v@[j]@.id);
                assert(self.inst_entries()[idx].1 == v@[j]@);
            }
            assert forall|k: u128|
                #[trigger] self.instances_map().contains_key(k) && self.instances_map()[
                    k
                ].service_name == service_code@ implies exists|j: int|
                0 <= j < v@.len() && (#[trigger] v@[j])@.id == k by {
                lemma_kv_map_dom(self.inst_entries(), k);
                let idx = choose|idx: int|
                    0 <= idx < self.inst_entries().len() && (#[trigger] self.inst_entries()[
                        idx
                    ]).0 == k;
                lemma_kv_map_index(self.inst_entries(), idx);
                assert(self.instances@[idx].id == k);
                assert(self.instances@[idx]@ == self.instances_map()[k]);
                assert(self.instances@[idx]@.service_name == service_code@);
            }
        }
        Ok(v)
    }

    /// The index of the identity stored under `common_name`, if any.
    fn find_identity(&self, common_name: &str) -> (r: Option<usize>)
        ensures
            match r {
                Some(i) => i < self.id_entries().len() && self.id_entries()[i as int].0
                    == common_name@,
                None => forall|i: int|
                    0 <= i < self.id_entries().len() ==> (#[trigger] self.id_entries()[i]).0
                        != common_name@,
            },
    {
        let mut i: usize = 0;
        while i < self.identities.len()
            invariant
                0 <= i <= self.identities@.len(),
                self.id_entries().len() == self.identities@.len(),
                forall|j: int|
                    0 <= j < i ==> (#[trigger] self.id_entries()[j]).0 != common_name@,
            decreases self.identities@.len() - i,
        {
            if str_eq(self.identities[i].common_name.as_str(), common_name) {
                return Some(i);
            }
            i = i + 1;
        }
        None
    }

    /// Adds or replaces an identity, keyed by its common name. The
    /// stored role set is replaced whole — a destructive overwrite,
    /// not a merge — and duplicate roles collapse. Always succeeds.
    pub fn add_identity(&mut self, identity: &Identity) -> (r: Result<(), RegistryError>)
        requires
            old(self).wf(),
        ensures
            final(self).wf(),
            r is Ok,
            final(self).identities_map() == old(self).identities_map().insert(
                identity@.common_name,
                id_rec(identity@),
            ),
            final(self).services_map() == old(self).services_map(),
            final(self).instances_map() == old(self).instances_map(),
    {
        let stored = Identity {
            common_name: identity.common_name.clone(),
            organization: match &identity.organization {
                Some(o) => Some(o.clone()),
                None => None,
            },
            roles: dedup_roles(&identity.roles),
        };
        proof {
            assert(id_rec(stored@) == id_rec(identity@));
        }
        let ghost oldents = self.id_entries();
        match self.find_identity(identity.common_name.as_str()) {
            Some(i) => {
                proof {
                    lemma_kv_map_update(oldents, i as int, id_rec(identity@));
                    lemma_keys_distinct_update(oldents, i as int, id_rec(identity@));
                }
                self.identities[i] = stored;
                proof {
                    assert(self.id_entries() =~= oldents.update(
                        i as int,
                        (oldents[i as int].0, id_rec(identity@)),
                    ));
                    assert(self.svc_entries() =~= old(self).svc_entries());
                    assert(self.inst_entries() =~= old(self).inst_entries());
                }
            },
            None => {
                proof {
                    lemma_kv_map_push(oldents, identity.common_name@, id_rec(identity@));
                    lemma_keys_distinct_push(oldents, identity.common_name@, id_rec(identity@));
                }
                self.identities.push(stored);
                proof {
                    assert(self.id_entries() =~= oldents.push(
                        (identity.common_name@, id_rec(identity@)),
                    ));
                    assert(self.svc_entries() =~= old(self).svc_entries());
                    assert(self.inst_entries() =~= old(self).inst_entries());
                }
            },
        }
        Ok(())
    }

    /// Looks an identity up by common name; fails with the store's
    /// not-found kind exactly when none is stored under it. The
    /// returned role list carries no duplicates.
    pub fn get_identity(&self, common_name: &str) -> (r: Result<Identity, RegistryError>)
        requires
            self.wf(),
        ensures
            match r {
                Ok(id) => self.identities_map().contains_key(common_name@) && id@.common_name
                    == common_name@ && id_rec(id@) == self.identities_map()[common_name@]
                    && id@.roles.no_duplicates(),
                Err(e) => e == RegistryError::ServiceNotFound
                    && !self.identities_map().contains_key(common_name@),
            },
    {
        proof {
            lemma_kv_map_dom(self.id_entries(), common_name@);
        }
        match self.find_identity(common_name) {
            Some(i) => {
                proof {
                    lemma_kv_map_index(self.id_entries(), i as int);
                }
                Ok(self.identities[i].clone())
            },
            None => Err(RegistryError::ServiceNotFound),
        }
    }

    /// Grants one role to a stored identity: an additive, idempotent
    /// upsert of the (common name, role) pair. For an unknown common
    /// name the store is unchanged; either way the call succeeds.
    pub fn add_role_to_identity(&mut self, common_name: &str, role: Role) -> (r: Result<
        (),
        RegistryError,
    >)
        requires
            old(self).wf(),
        ensures
            final(self).wf(),
            r is Ok,
            final(self).services_map() == old(self).services_map(),
            final(self).instances_map() == old(self).instances_map(),
            old(self).identities_map().contains_key(common_name@) ==> final(self).identities_map()
                == old(self).identities_map().insert(
                common_name@,
                IdentityRec {
                    organization: old(self).identities_map()[common_name@].organization,
                    roles: old(self).identities_map()[common_name@].roles.insert(role),
                },
            ),
            !old(self).identities_map().contains_key(common_name@) ==> final(self).identities_map()
                == old(self).identities_map(),
    {
        proof {
            lemma_kv_map_dom(self.id_entries(), common_name@);
        }
        let ghost oldents = self.id_entries();
        let ghost oldmap = self.identities_map();
        match self.find_identity(common_name) {
            Some(i) => {
                proof {
                    lemma_kv_map_index(oldents, i as int);
                }
                let ghost oldrec = oldmap[common_name@];
                let ghost newrec = IdentityRec {
                    organization: oldrec.organization,
                    roles: oldrec.roles.insert(role),
                };
                if roles_contain(&self.identities[i].roles, role) {
                    proof {
                        broadcast use vstd::seq_lib::lemma_seq_contains_after_push;

                        assert(oldrec.roles.contains(role));
                        assert(newrec.roles =~= oldrec.roles);
                        assert(oldmap.insert(common_name@, newrec) =~= oldmap);
                    }
                    Ok(())
                } else {
                    let mut ident = self.identities.remove(i);
                    let ghost oldroles = ident.roles@;
                    ident.roles.push(role);
                    let ghost newview = ident@;
                    self.identities.insert(i, ident);
                    proof {
                        broadcast use vstd::seq_lib::lemma_seq_contains_after_push;

                        assert(self.identities@ =~= old(self).identities@.update(i as int, ident));
                        assert(!oldroles.contains(role));
                        assert(oldroles.push(role).no_duplicates()) by {
                            assert(oldroles.no_duplicates());
                            assert forall|a: int, b: int|
                                0 <= a < b < oldroles.push(role).len() implies oldroles.push(
                                role,
                            )[a] != oldroles.push(role)[b] by {
                                if b == oldroles.len() {
                                    if oldroles.push(role)[a] == role {
                                        assert(oldroles.contains(oldroles[a]));
                                    }
                                }
                            }
                        }
                        assert(newview.roles.to_set() =~= oldroles.to_set().insert(role));
                        assert(id_rec(newview) == newrec);
                        assert(self.id_entries() =~= oldents.update(
                            i as int,
                            (oldents[i as int].0, newrec),
                        ));
                        lemma_kv_map_update(oldents, i as int, newrec);
                        lemma_keys_distinct_update(oldents, i as int, newrec);
                        assert(self.svc_entries() =~= old(self).svc_entries());
                        assert(self.inst_entries() =~= old(self).inst_entries());
                    }
                    Ok(())
                }
            },
            None => Ok(()),
        }
    }
}

/// Registering a service twice under one code is idempotent: the
/// table keeps exactly one entry for the code, bearing the latest
/// record, as if only the second registration had happened.
pub proof fn lemma_add_service_idempotent(
    m: Map<Seq<char>, ServiceRec>,
    code: Seq<char>,
    first: ServiceRec,
    second: ServiceRec,
)
    ensures
        m.insert(code, first).insert(code, second) == m.insert(code, second),
        m.insert(code, first).insert(code, second)[code] == second,
{
    assert(m.insert(code, first).insert(code, second) =~= m.insert(code, second));
}

/// Adding an instance under an id the table already holds updates in
/// place: the table's size — what a full snapshot returns — is
/// unchanged, and the entry bears the latest value.
pub proof fn lemma_add_instance_upsert(m: Map<u128, InstanceView>, id: u128, v: InstanceView)
    requires
        m.dom().finite(),
        m.contains_key(id),
    ensures
        m.insert(id, v).len() == m.len(),
        m.insert(id, v)[id] == v,
{
    assert(m.insert(id, v).dom() =~= m.dom());
}

/// Whether the vector holds the given role.
fn roles_contain(roles: &Vec<Role>, role: Role) -> (r: bool)
    ensures
        r == roles@.contains(role),
{
    let mut i: usize = 0;
    while i < roles.len()
        invariant
            0 <= i <= roles@.len(),
            forall|j: int| 0 <= j < i ==> roles@[j] != role,
        decreases roles@.len() - i,
    {
        if roles[i] == role {
            return true;
        }
        i = i + 1;
    }
    proof {
        if roles@.contains(role) {
            let j = choose|j: int| 0 <= j < roles@.len() && roles@[j] == role;
        }
    }
    false
}

/// Copies a role list, collapsing duplicates and keeping first
/// occurrences in order.
fn dedup_roles(roles: &Vec<Role>) -> (r: Vec<Role>)
    ensures
        r@.no_duplicates(),
        r@.to_set() == roles@.to_set(),
{
    broadcast use vstd::seq_lib::lemma_seq_contains_after_push;

    let mut r: Vec<Role> = Vec::new();
    let mut i: usize = 0;
    while i < roles.len()
        invariant
            0 <= i <= roles@.len(),
            r@.no_duplicates(),
            r@.to_set() == roles@.take(i as int).to_set(),
        decreases roles@.len() - i,
    {
        let ghost oldr = r@;
        let x = roles[i];
        if !roles_contain(&r, x) {
            r.push(x);
            proof {
                assert forall|a: int, b: int| 0 <= a < b < r@.len() implies r@[a] != r@[b] by {
                    if b == oldr.len() {
                        if r@[a] == x {
                            assert(oldr.contains(oldr[a]));
                        }
                    }
                }
            }
        }
        proof {
            let t0 = roles@.take(i as int);
            let t1 = roles@.take(i as int + 1);
            assert(t1 =~= t0.push(x));
            assert(oldr.to_set() == t0.to_set());
            assert forall|y: Role| r@.contains(y) <==> t1.contains(y) by {
                vstd::seq_lib::lemma_seq_contains_after_push(t0, x, y);
                assert(t1.contains(y) <==> t0.contains(y) || y == x);
                assert(t0.contains(y) <==> t0.to_set().contains(y));
                assert(oldr.contains(y) <==> oldr.to_set().contains(y));
                vstd::seq_lib::lemma_seq_contains_after_push(oldr, x, y);
                if oldr.contains(x) {
                    assert(r@ == oldr);
                } else {
                    assert(r@ == oldr.push(x));
                    assert(r@.contains(y) <==> oldr.contains(y) || y == x);
                }
            }
            assert(r@.to_set() =~= t1.to_set());
        }
        i = i + 1;
    }
    proof {
        assert(roles@.take(roles@.len() as int) =~= roles@);
    }
    r
}

} // verus!
