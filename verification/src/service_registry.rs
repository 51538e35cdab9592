//! In-memory service registry: service name to its list of instances.
//!
//! The registry is a map from service name to the sequence of registered
//! instances, in registration order.  Registration appends (duplicates are
//! allowed and count twice); deregistration removes every instance matching
//! the given host and port; lookup returns a copy of the list.

use crate::assoc::{
    distinct_keys,
    lemma_seq_to_map_contains,
    lemma_seq_to_map_index,
    lemma_seq_to_map_push,
    lemma_seq_to_map_update,
    seq_to_map,
};
use vstd::prelude::*;
use vstd::string::StringExecFns;

verus! {

/// One reachable endpoint of a service.
#[derive(Clone, Debug, PartialEq, Eq)]
pub struct ServiceInstance {
    pub host: String,
    pub port: u16,
}

impl View for ServiceInstance {
    type V = (Seq<char>, u16);

    open spec fn view(&self) -> (Seq<char>, u16) {
        (self.host@, self.port)
    }
}

/// The views of a sequence of instances.
pub open spec fn view_insts(s: Seq<ServiceInstance>) -> Seq<(Seq<char>, u16)> {
    s.map_values(|i: ServiceInstance| i@)
}

/// Views commute with appending an instance.
pub proof fn lemma_view_insts_push(s: Seq<ServiceInstance>, x: ServiceInstance)
    ensures
        view_insts(s.push(x)) == view_insts(s).push(x@),
{
    assert(view_insts(s.push(x)) =~~= view_insts(s).push(x@));
}

/// The view-level entry list of the registry.
pub open spec fn view_entries(s: Seq<(String, Vec<ServiceInstance>)>) -> Seq<
    (Seq<char>, Seq<(Seq<char>, u16)>),
> {
    s.map_values(|e: (String, Vec<ServiceInstance>)| (e.0@, view_insts(e.1@)))
}

/// Whether two strings hold the same characters.
pub fn str_eq(a: &str, b: &str) -> (r: bool)
    ensures
        r == (a@ == b@),
{
    let ab = a.as_bytes();
    let bb = b.as_bytes();
    let n = ab.len();
    if n != bb.len() {
        proof {
            assert(a@ != b@);
        }
        return false;
    }
    let mut i: usize = 0;
    while i < n
        invariant
            n == ab@.len() == bb@.len(),
            i <= n,
            ab@ == vstd::utf8::encode_utf8(a@),
            bb@ == vstd::utf8::encode_utf8(b@),
            forall|j: int| 0 <= j < i ==> ab@[j] == bb@[j],
        decreases n - i,
    {
        let x = *vstd::slice::slice_index_get(ab, i);
        let y = *vstd::slice::slice_index_get(bb, i);
        if x != y {
            proof {
                assert(a@ != b@);
            }
            return false;
        }
        i = i + 1;
    }
    proof {
        assert(ab@ =~= bb@);
        vstd::utf8::encode_utf8_decode_utf8(a@);
        vstd::utf8::encode_utf8_decode_utf8(b@);
    }
    true
}

pub struct ServiceRegistry {
    services: Vec<(String, Vec<ServiceInstance>)>,
}

impl View for ServiceRegistry {
    type V = Map<Seq<char>, Seq<(Seq<char>, u16)>>;

    open spec fn view(&self) -> Map<Seq<char>, Seq<(Seq<char>, u16)>> {
        seq_to_map(self.spec_entries())
    }
}

impl ServiceRegistry {
    /// The view-level entry list, registration order.
    pub closed spec fn spec_entries(self) -> Seq<(Seq<char>, Seq<(Seq<char>, u16)>)> {
        view_entries(self.services@)
    }

    /// Every reachable registry has one entry per service name.
    pub open spec fn wf(self) -> bool {
        distinct_keys(self.spec_entries())
    }

    pub fn new() -> (r: ServiceRegistry)
        ensures
            r.wf(),
            r@ == Map::<Seq<char>, Seq<(Seq<char>, u16)>>::empty(),
    {
        ServiceRegistry { services: Vec::new() }
    }

    /// Index of the entry for `name`, if any.
    fn find(&self, name: &str) -> (r: Option<usize>)
        requires
            self.wf(),
        ensures
            match r {
                Some(i) => i < self.spec_entries().len() && self.spec_entries()[i as int].0
                    == name@,
                None => !self@.contains_key(name@),
            },
    {
        let n = self.services.len();
        let mut i: usize = 0;
        while i < n
            invariant
                self.wf(),
                n == self.spec_entries().len(),
                n == self.services@.len(),
                i <= n,
                forall|j: int| 0 <= j < i ==> (#[trigger] self.spec_entries()[j]).0 != name@,
            decreases n - i,
        {
            if str_eq(self.services[i].0.as_str(), name) {
                return Some(i);
            }
            i = i + 1;
        }
        proof {
            lemma_seq_to_map_contains(self.spec_entries(), name@);
        }
        None
    }

    /// Appends an instance under the service name, creating the entry if the
    /// name is new.  Duplicate instances are kept and count separately.
    pub fn register_service(&mut self, service_name: &str, host: String, port: u16)
        requires
            old(self).wf(),
        ensures
            final(self).wf(),
            final(self)@ == old(self)@.insert(
                service_name@,
                (if old(self)@.contains_key(service_name@) {
                    old(self)@[service_name@]
                } else {
                    Seq::empty()
                }).push((host@, port)),
            ),
    {
        let inst = ServiceInstance { host, port };
        let ghost instv = inst@;
        match self.find(service_name) {
            Some(i) => {
                let ghost pre = self.spec_entries();
                let mut entry = self.services.remove(i);
                entry.1.push(inst);
                self.services.insert(i, entry);
                proof {
                    lemma_seq_to_map_index(pre, i as int);
                    assert(self.spec_entries() =~~= pre.update(
                        i as int,
                        (pre[i as int].0, pre[i as int].1.push(instv)),
                    ));
                    lemma_seq_to_map_update(pre, i as int, pre[i as int].1.push(instv));
                }
            },
            None => {
                let ghost pre = self.spec_entries();
                let key = String::from_str(service_name);
                let mut lst: Vec<ServiceInstance> = Vec::new();
                lst.push(inst);
                self.services.push((key, lst));
                proof {
                    lemma_seq_to_map_contains(pre, service_name@);
                    assert(forall|j: int| 0 <= j < pre.len() ==> (#[trigger] pre[j]).0 != service_name@);
                    assert(self.spec_entries() =~~= pre.push(
                        (service_name@, Seq::empty().push(instv)),
                    ));
                    lemma_seq_to_map_push(pre, service_name@, Seq::empty().push(instv));
                }
            },
        }
    }

    /// Removes every instance under the service name whose host and port
    /// both match; an unknown name changes nothing.  The entry stays (it may
    /// become empty), so registration order of other instances is kept.
    pub fn deregister_service(&mut self, service_name: &str, host: &str, port: u16)
        requires
            old(self).wf(),
        ensures
            final(self).wf(),
            final(self)@ == (if old(self)@.contains_key(service_name@) {
                old(self)@.insert(
                    service_name@,
                    old(self)@[service_name@].filter(
                        |iv: (Seq<char>, u16)| !(iv.0 == host@ && iv.1 == port),
                    ),
                )
            } else {
                old(self)@
            }),
    {
        let ghost keep = |iv: (Seq<char>, u16)| !(iv.0 == host@ && iv.1 == port);
        match self.find(service_name) {
            Some(i) => {
                let ghost pre = self.spec_entries();
                let mut entry = self.services.remove(i);
                let mut kept: Vec<ServiceInstance> = Vec::new();
                let n = entry.1.len();
                let mut j: usize = 0;
                while j < n
                    invariant
                        n == entry.1@.len(),
                        j <= n,
                        view_insts(kept@) == view_insts(entry.1@.subrange(0, j as int)).filter(
                            keep,
                        ),
                        keep == (|iv: (Seq<char>, u16)| !(iv.0 == host@ && iv.1 == port)),
                    decreases n - j,
                {
                    let cur = &entry.1[j];
                    let matches_host = str_eq(cur.host.as_str(), host);
                    let ghost prefix = view_insts(entry.1@.subrange(0, j as int));
                    let ghost next = view_insts(entry.1@.subrange(0, j + 1));
                    proof {
                        assert(next.drop_last() =~= prefix);
                        assert(next.last() == entry.1@[j as int]@);
                    }
                    let ghost kept_pre = kept@;
                    if !(matches_host && cur.port == port) {
                        let copy = ServiceInstance { host: cur.host.clone(), port: cur.port };
                        proof {
                            assert(copy@ == entry.1@[j as int]@);
                            lemma_view_insts_push(kept_pre, copy);
                        }
                        kept.push(copy);
                    }
                    proof {
                        reveal(Seq::filter);
                        assert(next.drop_last() == prefix);
                        assert(keep(next.last()) <==> !(matches_host && cur.port == port));
                        assert(view_insts(kept@) =~~= next.filter(keep));
                    }
                    j = j + 1;
                }
                proof {
                    assert(entry.1@.subrange(0, n as int) =~= entry.1@);
                }
                let new_entry = (entry.0, kept);
                self.services.insert(i, new_entry);
                proof {
                    lemma_seq_to_map_index(pre, i as int);
                    assert(self.spec_entries() =~= pre.update(
                        i as int,
                        (pre[i as int].0, pre[i as int].1.filter(keep)),
                    ));
                    lemma_seq_to_map_update(pre, i as int, pre[i as int].1.filter(keep));
                }
            },
            None => {},
        }
    }

    /// A copy of the instances registered under the service name, in
    /// registration order; empty for an unknown name.
    pub fn get_service_instances(&self, service_name: &str) -> (r: Vec<ServiceInstance>)
        requires
            self.wf(),
        ensures
            view_insts(r@) == (if self@.contains_key(service_name@) {
                self@[service_name@]
            } else {
                Seq::<(Seq<char>, u16)>::empty()
            }),
    {
        match self.find(service_name) {
            Some(i) => {
                proof {
                    lemma_seq_to_map_index(self.spec_entries(), i as int);
                }
                let entry = &self.services[i];
                let n = entry.1.len();
                let mut out: Vec<ServiceInstance> = Vec::new();
                let mut j: usize = 0;
                while j < n
                    invariant
                        n == entry.1@.len(),
                        j <= n,
                        view_insts(out@) == view_insts(entry.1@.subrange(0, j as int)),
                    decreases n - j,
                {
                    let cur = &entry.1[j];
                    let copy = ServiceInstance { host: cur.host.clone(), port: cur.port };
                    let ghost out_pre = out@;
                    proof {
                        assert(copy@ == entry.1@[j as int]@);
                        lemma_view_insts_push(out_pre, copy);
                    }
                    out.push(copy);
                    proof {
                        assert(view_insts(out@) =~~= view_insts(entry.1@.subrange(0, j + 1)));
                    }
                    j = j + 1;
                }
                proof {
                    assert(entry.1@.subrange(0, n as int) =~= entry.1@);
                }
                out
            },
            None => Vec::new(),
        }
    }
}

} // verus!
