use vstd::prelude::*;

verus! {

use crate::instance::{InstanceView, ServiceInstance};
use crate::metadata::Metadata;

/// A named catalog entry. The `code` is the unique stable identifier;
/// re-registering the same code replaces the entry. The store never
/// populates `instances`; they are fetched separately.
pub struct Service {
    pub name: String,
    pub code: String,
    pub description: String,
    pub instances: Vec<ServiceInstance>,
    pub metadata: Metadata,
}

/// Mathematical image of a [`Service`].
pub struct ServiceView {
    pub name: Seq<char>,
    pub code: Seq<char>,
    pub description: Seq<char>,
    pub instances: Seq<InstanceView>,
    pub metadata: Map<Seq<char>, Seq<char>>,
}

impl View for Service {
    type V = ServiceView;

    open spec fn view(&self) -> ServiceView {
        ServiceView {
            name: self.name@,
            code: self.code@,
            description: self.description@,
            instances: self.instances@.map_values(|i: ServiceInstance| i@),
            metadata: self.metadata@,
        }
    }
}

impl Service {
    /// The service's internal invariant: its metadata map and every
    /// held instance are well formed.
    pub open spec fn wf(self) -> bool {
        &&& self.metadata.wf()
        &&& forall|i: int| 0 <= i < self.instances@.len() ==> (#[trigger] self.instances@[i]).wf()
    }

    /// Creates a catalog entry with no instances and no metadata.
    pub fn new(name: String, code: String, description: String) -> (r: Service)
        ensures
            r.wf(),
            r@.name == name@,
            r@.code == code@,
            r@.description == description@,
            r@.instances == Seq::<InstanceView>::empty(),
            r@.metadata == Map::<Seq<char>, Seq<char>>::empty(),
    {
        let r = Service {
            name,
            code,
            description,
            instances: Vec::new(),
            metadata: Metadata::new(),
        };
        proof {
            assert(r@.instances =~= Seq::<InstanceView>::empty());
        }
        r
    }

    /// Appends an instance; everything else stays.
    pub fn add_instance(&mut self, instance: ServiceInstance)
        requires
            old(self).wf(),
            instance.wf(),
        ensures
            final(self).wf(),
            final(self)@ == (ServiceView {
                instances: old(self)@.instances.push(instance@),
                ..old(self)@
            }),
    {
        self.instances.push(instance);
        proof {
            assert(final(self)@.instances =~= old(self)@.instances.push(instance@));
        }
    }

    /// Inserts or replaces one metadata entry; everything else stays.
    pub fn add_metadata(&mut self, key: String, value: String)
        requires
            old(self).wf(),
        ensures
            final(self).wf(),
            final(self)@ == (ServiceView {
                metadata: old(self)@.metadata.insert(key@, value@),
                ..old(self)@
            }),
    {
        self.metadata.insert(key, value);
    }

    /// The metadata value at `key`, if any.
    pub fn get_metadata(&self, key: &str) -> (r: Option<&String>)
        requires
            self.wf(),
        ensures
            match r {
                Some(v) => self@.metadata.contains_key(key@) && self@.metadata[key@] == v@,
                None => !self@.metadata.contains_key(key@),
            },
    {
        self.metadata.get(key)
    }
}

impl Clone for Service {
    fn clone(&self) -> (r: Self)
        ensures
            r@ == self@,
            r.wf() <==> self.wf(),
    {
        let mut instances: Vec<ServiceInstance> = Vec::new();
        let mut i: usize = 0;
        while i < self.instances.len()
            invariant
                0 <= i <= self.instances@.len(),
                instances@.len() == i,
                forall|j: int|
                    0 <= j < i ==> (#[trigger] instances@[j])@ == self.instances@[j]@
                        && (instances@[j].wf() <==> self.instances@[j].wf()),
            decreases self.instances@.len() - i,
        {
            instances.push(self.instances[i].clone());
            i = i + 1;
        }
        let r = Service {
            name: self.name.clone(),
            code: self.code.clone(),
            description: self.description.clone(),
            instances,
            metadata: self.metadata.clone(),
        };
        proof {
            assert(r@.instances =~= self@.instances);
            if self.wf() {
                assert forall|j: int| 0 <= j < r.instances@.len() implies (
                #[trigger] r.instances@[j]).wf() by {
                    assert(self.instances@[j].wf());
                }
            }
            if r.wf() {
                assert forall|j: int| 0 <= j < self.instances@.len() implies (
                #[trigger] self.instances@[j]).wf() by {
                    assert(r.instances@[j].wf());
                }
            }
        }
        r
    }
}

} // verus!
