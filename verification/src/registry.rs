//! The service registry: the owning, name-keyed store of all supervised
//! services.
//!
//! The registry is the sole owner of every [`Service`]; other components
//! reach a service through it by index and never hold a private copy of
//! mutable state.  Names are unique within one registry, and every
//! lifecycle operation routes through the registry so that a service's
//! state cell is only mutated while the caller holds exclusive access
//! to the whole store.

use vstd::prelude::*;

use crate::resolver::resolve_order;
use crate::resolver::valid_order;
use crate::service::finish_start_transition;
use crate::service::finish_stop_transition;
use crate::service::kill_transition;
use crate::service::restart_transition;
use crate::service::same_config;
use crate::service::start_transition;
use crate::service::startable;
use crate::service::stop_transition;
use crate::service::ExecStatus;
use crate::service::RestartMethod;
use crate::service::Service;
use crate::service::SpawnRequest;
use crate::service::StopCompletion;
use crate::service::StopMethod;
use crate::service::StopOutcome;
use crate::ErrorType;

verus! {

/// Replacing one entry of a uniquely-named sequence with a service of
/// the same name keeps the names unique.
proof fn lemma_unique_names_update(pre: Seq<Service>, post: Seq<Service>, i: int)
    requires
        post.len() == pre.len(),
        0 <= i < pre.len(),
        forall|k: int| 0 <= k < pre.len() && k != i ==> post[k] == #[trigger] pre[k],
        same_config(post[i], pre[i]),
        forall|p: int, q: int| 0 <= p < q < pre.len() ==> pre[p].name@ != pre[q].name@,
    ensures
        forall|p: int, q: int| 0 <= p < q < post.len() ==> post[p].name@ != post[q].name@,
{
    assert forall|p: int, q: int|
        0 <= p < q < post.len() implies post[p].name@ != post[q].name@ by {
        assert(post[p].name@ == pre[p].name@);
        assert(post[q].name@ == pre[q].name@);
    }
}

/// The concurrency-safe owning store of all known services, keyed by
/// their unique names.
pub struct Registry {
    services: Vec<Service>,
}

impl View for Registry {
    type V = Seq<Service>;

    closed spec fn view(&self) -> Seq<Service> {
        self.services@
    }
}

impl Registry {
    /// Names are unique within the registry.
    pub open spec fn wf(&self) -> bool {
        forall|i: int, j: int| 0 <= i < j < self@.len() ==> self@[i].name@ != self@[j].name@
    }

    /// An empty registry.
    pub fn new() -> (r: Registry)
        ensures
            r@.len() == 0,
            r.wf(),
    {
        Registry { services: Vec::new() }
    }

    /// How many services the registry owns.
    pub fn len(&self) -> (n: usize)
        ensures
            n == self@.len(),
    {
        self.services.len()
    }

    /// Borrows the service at `i`.
    pub fn get(&self, i: usize) -> (s: &Service)
        requires
            i < self@.len(),
        ensures
            *s == self@[i as int],
    {
        &self.services[i]
    }

    /// The index of the service named `name`, if the registry owns one.
    pub fn find(&self, name: &String) -> (r: Option<usize>)
        ensures
            match r {
                Some(i) => i < self@.len() && self@[i as int].name@ == name@,
                None => forall|i: int|
                    0 <= i < self@.len() ==> (#[trigger] self@[i]).name@ != name@,
            },
    {
        let n = self.services.len();
        let mut i: usize = 0;
        while i < n
            invariant
                n == self@.len(),
                i <= n,
                forall|k: int| 0 <= k < i ==> (#[trigger] self@[k]).name@ != name@,
            decreases n - i,
        {
            if self.services[i].name == *name {
                return Some(i);
            }
            i += 1;
        }
        None
    }

    /// Inserts a service, taking ownership.  Fails, leaving the
    /// registry unchanged, when a service of the same name is already
    /// registered; the name invariant is thereby preserved.
    pub fn insert(&mut self, s: Service) -> (r: bool)
        ensures
            r ==> final(self)@ == old(self)@.push(s),
            r ==> forall|i: int|
                0 <= i < old(self)@.len() ==> (#[trigger] old(self)@[i]).name@ != s.name@,
            !r ==> final(self)@ == old(self)@ && exists|i: int|
                0 <= i < old(self)@.len() && (#[trigger] old(self)@[i]).name@ == s.name@,
            old(self).wf() ==> final(self).wf(),
    {
        match self.find(&s.name) {
            Some(_) => false,
            None => {
                let ghost pre = self@;
                self.services.push(s);
                proof {
                    if forall|p: int, q: int|
                        0 <= p < q < pre.len() ==> pre[p].name@ != pre[q].name@ {
                        assert forall|p: int, q: int|
                            0 <= p < q < self@.len() implies self@[p].name@ != self@[q].name@ by {
                            if q < pre.len() {
                                assert(pre[p].name@ != pre[q].name@);
                            } else {
                                assert(self@[q] == s);
                                assert(pre[p].name@ != s.name@);
                            }
                        }
                    }
                }
                true
            },
        }
    }

    /// Computes a start order over the owned services; see
    /// [`resolve_order`].
    pub fn resolve(&self) -> (r: Result<Vec<usize>, ErrorType>)
        ensures
            match r {
                Ok(order) => valid_order(self@, order@),
                Err(e) => {
                    &&& e == ErrorType::CyclicDependency
                    &&& forall|ord: Seq<usize>| !valid_order(self@, ord)
                },
            },
    {
        resolve_order(&self.services)
    }

    /// Begins starting the service at `i`; see [`Service::start`].
    pub fn start_at(&mut self, i: usize, exec: ExecStatus) -> (r: Result<SpawnRequest, ErrorType>)
        requires
            i < old(self)@.len(),
        ensures
            final(self)@.len() == old(self)@.len(),
            forall|k: int|
                0 <= k < old(self)@.len() && k != i ==> final(self)@[k] == #[trigger] old(
                    self,
                )@[k],
            start_transition(old(self)@[i as int], final(self)@[i as int], exec, r),
            old(self).wf() ==> final(self).wf(),
    {
        let r = self.services[i].start(exec);
        proof {
            if old(self).wf() {
                lemma_unique_names_update(old(self)@, self@, i as int);
            }
        }
        r
    }

    /// Completes starting the service at `i`; see
    /// [`Service::finish_start`].
    pub fn finish_start_at(&mut self, i: usize, spawn_accepted: bool) -> (r: Result<
        (),
        ErrorType,
    >)
        requires
            i < old(self)@.len(),
            startable(old(self)@[i as int].state) || old(self)@[i as int].state is Restarting,
        ensures
            final(self)@.len() == old(self)@.len(),
            forall|k: int|
                0 <= k < old(self)@.len() && k != i ==> final(self)@[k] == #[trigger] old(
                    self,
                )@[k],
            finish_start_transition(old(self)@[i as int], final(self)@[i as int], spawn_accepted, r),
            old(self).wf() ==> final(self).wf(),
    {
        let r = self.services[i].finish_start(spawn_accepted);
        proof {
            if old(self).wf() {
                lemma_unique_names_update(old(self)@, self@, i as int);
            }
        }
        r
    }

    /// Begins stopping the service at `i`; see [`Service::stop`].
    pub fn stop_at(&mut self, i: usize) -> (r: Result<StopMethod, ErrorType>)
        requires
            i < old(self)@.len(),
        ensures
            final(self)@.len() == old(self)@.len(),
            forall|k: int|
                0 <= k < old(self)@.len() && k != i ==> final(self)@[k] == #[trigger] old(
                    self,
                )@[k],
            stop_transition(old(self)@[i as int], final(self)@[i as int], r),
            old(self).wf() ==> final(self).wf(),
    {
        let r = self.services[i].stop();
        proof {
            if old(self).wf() {
                lemma_unique_names_update(old(self)@, self@, i as int);
            }
        }
        r
    }

    /// Completes stopping the service at `i`; see
    /// [`Service::finish_stop`].
    pub fn finish_stop_at(&mut self, i: usize, outcome: StopOutcome) -> (r: Result<
        StopCompletion,
        ErrorType,
    >)
        requires
            i < old(self)@.len(),
            old(self)@[i as int].state is Active,
        ensures
            final(self)@.len() == old(self)@.len(),
            forall|k: int|
                0 <= k < old(self)@.len() && k != i ==> final(self)@[k] == #[trigger] old(
                    self,
                )@[k],
            finish_stop_transition(old(self)@[i as int], final(self)@[i as int], outcome, r),
            old(self).wf() ==> final(self).wf(),
    {
        let r = self.services[i].finish_stop(outcome);
        proof {
            if old(self).wf() {
                lemma_unique_names_update(old(self)@, self@, i as int);
            }
        }
        r
    }

    /// Begins restarting the service at `i`; see [`Service::restart`].
    pub fn restart_at(&mut self, i: usize) -> (r: Result<RestartMethod, ErrorType>)
        requires
            i < old(self)@.len(),
        ensures
            final(self)@.len() == old(self)@.len(),
            forall|k: int|
                0 <= k < old(self)@.len() && k != i ==> final(self)@[k] == #[trigger] old(
                    self,
                )@[k],
            restart_transition(old(self)@[i as int], final(self)@[i as int], r),
            old(self).wf() ==> final(self).wf(),
    {
        let r = self.services[i].restart();
        proof {
            if old(self).wf() {
                lemma_unique_names_update(old(self)@, self@, i as int);
            }
        }
        r
    }

    /// Kills the service at `i`; see [`Service::kill`].
    pub fn kill_at(&mut self, i: usize) -> (r: Result<(), ErrorType>)
        requires
            i < old(self)@.len(),
        ensures
            final(self)@.len() == old(self)@.len(),
            forall|k: int|
                0 <= k < old(self)@.len() && k != i ==> final(self)@[k] == #[trigger] old(
                    self,
                )@[k],
            kill_transition(old(self)@[i as int], final(self)@[i as int], r),
            old(self).wf() ==> final(self).wf(),
    {
        let r = self.services[i].kill();
        proof {
            if old(self).wf() {
                lemma_unique_names_update(old(self)@, self@, i as int);
            }
        }
        r
    }
}

} // verus!
