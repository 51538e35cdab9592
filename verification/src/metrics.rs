//! Process metrics: named counters, gauges and histograms.
//!
//! Each family is a map from metric name to its state: counters accumulate
//! increments (wrapping, as a relaxed atomic does), gauges hold the last
//! value stored, histograms hold a running sum and a sample count.  A metric
//! springs into being at zero on first touch.  The process-wide singleton
//! and its locking live outside this crate around this sequential state.

use crate::assoc::{
    distinct_keys,
    lemma_seq_to_map_contains,
    lemma_seq_to_map_index,
    lemma_seq_to_map_push,
    lemma_seq_to_map_update,
    seq_to_map,
};
use crate::service_registry::str_eq;
use vstd::prelude::*;
use vstd::string::StringExecFns;

verus! {

/// The view-level entry list of one metric family.
pub open spec fn view_metric_entries<T>(s: Seq<(String, T)>) -> Seq<(Seq<char>, T)> {
    s.map_values(|e: (String, T)| (e.0@, e.1))
}

/// Views commute with appending an entry.
pub proof fn lemma_view_metric_push<T>(s: Seq<(String, T)>, x: (String, T))
    ensures
        view_metric_entries(s.push(x)) == view_metric_entries(s).push((x.0@, x.1)),
{
    assert(view_metric_entries(s.push(x)) =~~= view_metric_entries(s).push((x.0@, x.1)));
}

pub struct Metrics {
    counters: Vec<(String, i64)>,
    gauges: Vec<(String, usize)>,
    histograms: Vec<(String, (usize, usize))>,
}

impl Metrics {
    /// The counters as a map from name to value.
    pub closed spec fn spec_counter_entries(self) -> Seq<(Seq<char>, i64)> {
        view_metric_entries(self.counters@)
    }

    pub open spec fn counters_map(self) -> Map<Seq<char>, i64> {
        seq_to_map(self.spec_counter_entries())
    }

    /// The gauges as a map from name to value.
    pub closed spec fn spec_gauge_entries(self) -> Seq<(Seq<char>, usize)> {
        view_metric_entries(self.gauges@)
    }

    pub open spec fn gauges_map(self) -> Map<Seq<char>, usize> {
        seq_to_map(self.spec_gauge_entries())
    }

    /// The histograms as a map from name to running sum and sample count.
    pub closed spec fn spec_histogram_entries(self) -> Seq<(Seq<char>, (usize, usize))> {
        view_metric_entries(self.histograms@)
    }

    pub open spec fn histograms_map(self) -> Map<Seq<char>, (usize, usize)> {
        seq_to_map(self.spec_histogram_entries())
    }

    /// Every reachable state names each metric once per family.
    pub open spec fn wf(self) -> bool {
        &&& distinct_keys(self.spec_counter_entries())
        &&& distinct_keys(self.spec_gauge_entries())
        &&& distinct_keys(self.spec_histogram_entries())
    }

    pub fn new() -> (m: Metrics)
        ensures
            m.wf(),
            m.counters_map() == Map::<Seq<char>, i64>::empty(),
            m.gauges_map() == Map::<Seq<char>, usize>::empty(),
            m.histograms_map() == Map::<Seq<char>, (usize, usize)>::empty(),
    {
        Metrics { counters: Vec::new(), gauges: Vec::new(), histograms: Vec::new() }
    }

    /// Adds one to the named counter, which starts at zero when new; the
    /// count wraps as a relaxed atomic increment does.
    pub fn increment_counter(&mut self, name: &str)
        requires
            old(self).wf(),
        ensures
            final(self).wf(),
            final(self).counters_map() == old(self).counters_map().insert(
                name@,
                (if old(self).counters_map().contains_key(name@) {
                    old(self).counters_map()[name@]
                } else {
                    0i64
                }).wrapping_add(1),
            ),
            final(self).gauges_map() == old(self).gauges_map(),
            final(self).histograms_map() == old(self).histograms_map(),
    {
        let n = self.counters.len();
        let mut i: usize = 0;
        while i < n
            invariant
                old(self) == self,
                self.wf(),
                n == self.counters@.len(),
                i <= n,
                forall|j: int|
                    0 <= j < i ==> (#[trigger] self.spec_counter_entries()[j]).0 != name@,
            decreases n - i,
        {
            if str_eq(self.counters[i].0.as_str(), name) {
                let ghost pre = self.spec_counter_entries();
                let cur = self.counters[i].1;
                let updated = cur.wrapping_add(1);
                let mut entry = self.counters.remove(i);
                entry.1 = updated;
                self.counters.insert(i, entry);
                proof {
                    lemma_seq_to_map_index(pre, i as int);
                    assert(self.spec_counter_entries() =~~= pre.update(
                        i as int,
                        (pre[i as int].0, updated),
                    ));
                    lemma_seq_to_map_update(pre, i as int, updated);
                    assert(self.spec_gauge_entries() =~~= old(self).spec_gauge_entries());
                    assert(self.spec_histogram_entries() =~~= old(
                        self,
                    ).spec_histogram_entries());
                }
                return ;
            }
            i = i + 1;
        }
        let ghost pre = self.spec_counter_entries();
        proof {
            lemma_seq_to_map_contains(pre, name@);
        }
        let key = String::from_str(name);
        let value = 0i64.wrapping_add(1);
        self.counters.push((key, value));
        proof {
            assert(forall|j: int| 0 <= j < pre.len() ==> (#[trigger] pre[j]).0 != name@);
            assert(self.spec_counter_entries() =~~= pre.push((name@, value)));
            lemma_seq_to_map_push(pre, name@, value);
            assert(self.spec_gauge_entries() =~~= old(self).spec_gauge_entries());
            assert(self.spec_histogram_entries() =~~= old(self).spec_histogram_entries());
        }
    }

    /// Stores a value under the named gauge, which springs into being on
    /// first touch; the last store wins.
    pub fn set_gauge(&mut self, name: &str, value: usize)
        requires
            old(self).wf(),
        ensures
            final(self).wf(),
            final(self).gauges_map() == old(self).gauges_map().insert(name@, value),
            final(self).counters_map() == old(self).counters_map(),
            final(self).histograms_map() == old(self).histograms_map(),
    {
        let n = self.gauges.len();
        let mut i: usize = 0;
        while i < n
            invariant
                old(self) == self,
                self.wf(),
                n == self.gauges@.len(),
                i <= n,
                forall|j: int| 0 <= j < i ==> (#[trigger] self.spec_gauge_entries()[j]).0 != name@,
            decreases n - i,
        {
            if str_eq(self.gauges[i].0.as_str(), name) {
                let ghost pre = self.spec_gauge_entries();
                let mut entry = self.gauges.remove(i);
                entry.1 = value;
                self.gauges.insert(i, entry);
                proof {
                    lemma_seq_to_map_index(pre, i as int);
                    assert(self.spec_gauge_entries() =~~= pre.update(
                        i as int,
                        (pre[i as int].0, value),
                    ));
                    lemma_seq_to_map_update(pre, i as int, value);
                    assert(self.spec_counter_entries() =~~= old(self).spec_counter_entries());
                    assert(self.spec_histogram_entries() =~~= old(
                        self,
                    ).spec_histogram_entries());
                }
                return ;
            }
            i = i + 1;
        }
        let ghost pre = self.spec_gauge_entries();
        proof {
            lemma_seq_to_map_contains(pre, name@);
        }
        let key = String::from_str(name);
        self.gauges.push((key, value));
        proof {
            assert(forall|j: int| 0 <= j < pre.len() ==> (#[trigger] pre[j]).0 != name@);
            assert(self.spec_gauge_entries() =~~= pre.push((name@, value)));
            lemma_seq_to_map_push(pre, name@, value);
            assert(self.spec_counter_entries() =~~= old(self).spec_counter_entries());
            assert(self.spec_histogram_entries() =~~= old(self).spec_histogram_entries());
        }
    }

    /// Adds a sample to the named histogram, which starts at zero sum and
    /// zero count when new; sum and count wrap as relaxed atomics do.
    pub fn update_histogram(&mut self, name: &str, value: usize)
        requires
            old(self).wf(),
        ensures
            final(self).wf(),
            final(self).histograms_map() == old(self).histograms_map().insert(
                name@,
                ({
                    let prev = if old(self).histograms_map().contains_key(name@) {
                        old(self).histograms_map()[name@]
                    } else {
                        (0usize, 0usize)
                    };
                    (prev.0.wrapping_add(value), prev.1.wrapping_add(1))
                }),
            ),
            final(self).counters_map() == old(self).counters_map(),
            final(self).gauges_map() == old(self).gauges_map(),
    {
        let n = self.histograms.len();
        let mut i: usize = 0;
        while i < n
            invariant
                old(self) == self,
                self.wf(),
                n == self.histograms@.len(),
                i <= n,
                forall|j: int|
                    0 <= j < i ==> (#[trigger] self.spec_histogram_entries()[j]).0 != name@,
            decreases n - i,
        {
            if str_eq(self.histograms[i].0.as_str(), name) {
                let ghost pre = self.spec_histogram_entries();
                let cur = self.histograms[i].1;
                let updated = (cur.0.wrapping_add(value), cur.1.wrapping_add(1));
                let mut entry = self.histograms.remove(i);
                entry.1 = updated;
                self.histograms.insert(i, entry);
                proof {
                    lemma_seq_to_map_index(pre, i as int);
                    assert(self.spec_histogram_entries() =~~= pre.update(
                        i as int,
                        (pre[i as int].0, updated),
                    ));
                    lemma_seq_to_map_update(pre, i as int, updated);
                    assert(self.spec_counter_entries() =~~= old(self).spec_counter_entries());
                    assert(self.spec_gauge_entries() =~~= old(self).spec_gauge_entries());
                }
                return ;
            }
            i = i + 1;
        }
        let ghost pre = self.spec_histogram_entries();
        proof {
            lemma_seq_to_map_contains(pre, name@);
        }
        let key = String::from_str(name);
        let fresh = (0usize.wrapping_add(value), 0usize.wrapping_add(1));
        self.histograms.push((key, fresh));
        proof {
            assert(forall|j: int| 0 <= j < pre.len() ==> (#[trigger] pre[j]).0 != name@);
            assert(self.spec_histogram_entries() =~~= pre.push((name@, fresh)));
            lemma_seq_to_map_push(pre, name@, fresh);
            assert(self.spec_counter_entries() =~~= old(self).spec_counter_entries());
            assert(self.spec_gauge_entries() =~~= old(self).spec_gauge_entries());
        }
    }

    /// A copy of all counters, in creation order.
    pub fn get_counters(&self) -> (out: Vec<(String, i64)>)
        requires
            self.wf(),
        ensures
            view_metric_entries(out@) == self.spec_counter_entries(),
    {
        let n = self.counters.len();
        let mut out: Vec<(String, i64)> = Vec::new();
        let mut i: usize = 0;
        while i < n
            invariant
                self.wf(),
                n == self.counters@.len(),
                i <= n,
                view_metric_entries(out@) == self.spec_counter_entries().subrange(0, i as int),
            decreases n - i,
        {
            let entry = &self.counters[i];
            let copy = (entry.0.clone(), entry.1);
            let ghost out_pre = out@;
            proof {
                assert((copy.0@, copy.1) == self.spec_counter_entries()[i as int]);
                lemma_view_metric_push(out_pre, copy);
            }
            out.push(copy);
            proof {
                assert(view_metric_entries(out@) =~~= self.spec_counter_entries().subrange(
                    0,
                    i + 1,
                ));
            }
            i = i + 1;
        }
        proof {
            assert(self.spec_counter_entries().subrange(0, n as int) =~~= self
                .spec_counter_entries());
        }
        out
    }

    /// A copy of all gauges, in creation order.
    pub fn get_gauges(&self) -> (out: Vec<(String, usize)>)
        requires
            self.wf(),
        ensures
            view_metric_entries(out@) == self.spec_gauge_entries(),
    {
        let n = self.gauges.len();
        let mut out: Vec<(String, usize)> = Vec::new();
        let mut i: usize = 0;
        while i < n
            invariant
                self.wf(),
                n == self.gauges@.len(),
                i <= n,
                view_metric_entries(out@) == self.spec_gauge_entries().subrange(0, i as int),
            decreases n - i,
        {
            let entry = &self.gauges[i];
            let copy = (entry.0.clone(), entry.1);
            let ghost out_pre = out@;
            proof {
                assert((copy.0@, copy.1) == self.spec_gauge_entries()[i as int]);
                lemma_view_metric_push(out_pre, copy);
            }
            out.push(copy);
            proof {
                assert(view_metric_entries(out@) =~~= self.spec_gauge_entries().subrange(
                    0,
                    i + 1,
                ));
            }
            i = i + 1;
        }
        proof {
            assert(self.spec_gauge_entries().subrange(0, n as int) =~~= self.spec_gauge_entries());
        }
        out
    }

    /// A copy of all histograms (running sum, sample count), creation order.
    pub fn get_histograms(&self) -> (out: Vec<(String, (usize, usize))>)
        requires
            self.wf(),
        ensures
            view_metric_entries(out@) == self.spec_histogram_entries(),
    {
        let n = self.histograms.len();
        let mut out: Vec<(String, (usize, usize))> = Vec::new();
        let mut i: usize = 0;
        while i < n
            invariant
                self.wf(),
                n == self.histograms@.len(),
                i <= n,
                view_metric_entries(out@) == self.spec_histogram_entries().subrange(0, i as int),
            decreases n - i,
        {
            let entry = &self.histograms[i];
            let copy = (entry.0.clone(), entry.1);
            let ghost out_pre = out@;
            proof {
                assert((copy.0@, copy.1) == self.spec_histogram_entries()[i as int]);
                lemma_view_metric_push(out_pre, copy);
            }
            out.push(copy);
            proof {
                assert(view_metric_entries(out@) =~~= self.spec_histogram_entries().subrange(
                    0,
                    i + 1,
                ));
            }
            i = i + 1;
        }
        proof {
            assert(self.spec_histogram_entries().subrange(0, n as int) =~~= self
                .spec_histogram_entries());
        }
        out
    }
}

} // verus!
