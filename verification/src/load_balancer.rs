//! Round-robin load balancer over the service registry.
//!
//! A wrapping counter selects, per call, the next instance of the requested
//! service in registration order; a service with no instances yields none
//! and leaves the counter untouched.

use crate::service_registry::{view_insts, ServiceInstance, ServiceRegistry};
use vstd::prelude::*;

verus! {

pub struct LoadBalancer {
    registry: ServiceRegistry,
    round_robin_counter: usize,
}

impl LoadBalancer {
    /// The registry consulted for instances.
    pub closed spec fn spec_registry(self) -> ServiceRegistry {
        self.registry
    }

    /// How many instances have been handed out so far, wrapping.
    pub closed spec fn spec_counter(self) -> usize {
        self.round_robin_counter
    }

    pub open spec fn wf(self) -> bool {
        self.spec_registry().wf()
    }

    /// The instance views the balancer cycles over for a service name.
    pub open spec fn instances_of(self, name: Seq<char>) -> Seq<(Seq<char>, u16)> {
        if self.spec_registry()@.contains_key(name) {
            self.spec_registry()@[name]
        } else {
            Seq::empty()
        }
    }

    /// Takes ownership of the registry; the counter starts at zero.
    pub fn new(registry: ServiceRegistry) -> (lb: LoadBalancer)
        requires
            registry.wf(),
        ensures
            lb.wf(),
            lb.spec_registry() == registry,
            lb.spec_counter() == 0,
    {
        LoadBalancer { registry, round_robin_counter: 0 }
    }

    /// The next instance of the service, round-robin: the counter value
    /// modulo the instance count picks the instance, and the counter then
    /// advances (wrapping).  A service with no instances yields `None` and
    /// changes nothing.
    pub fn get_next_instance(&mut self, service_name: &str) -> (r: Option<ServiceInstance>)
        requires
            old(self).wf(),
        ensures
            final(self).wf(),
            final(self).spec_registry() == old(self).spec_registry(),
            old(self).instances_of(service_name@).len() == 0 ==> r is None && *final(self) == *old(
                self,
            ),
            old(self).instances_of(service_name@).len() > 0 ==> ({
                let insts = old(self).instances_of(service_name@);
                &&& r matches Some(inst) && inst@ == insts[old(self).spec_counter() as int % (
                insts.len() as int)]
                &&& final(self).spec_counter() == (if old(self).spec_counter() == usize::MAX {
                    0usize
                } else {
                    (old(self).spec_counter() + 1) as usize
                })
            }),
    {
        let mut instances = self.registry.get_service_instances(service_name);
        let n = instances.len();
        if n == 0 {
            None
        } else {
            let index = self.round_robin_counter % n;
            if self.round_robin_counter == usize::MAX {
                self.round_robin_counter = 0;
            } else {
                self.round_robin_counter = self.round_robin_counter + 1;
            }
            let inst = instances.remove(index);
            Some(inst)
        }
    }
}

} // verus!
