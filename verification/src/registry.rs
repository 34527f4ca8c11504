//! Observer Broadcast Registry: the one resource shared across calls. It holds
//! observer connections (as plain handles the transport layer assigns) either
//! globally or in per-call scopes keyed by stream identifier. A broadcast
//! fans an event out to every observer of a scope; whichever observers' sends
//! failed are pruned from the scope in the same exclusive-access window, so no
//! torn set is ever observable. Delivery is best effort: pruning never errors.

use vstd::prelude::*;

verus! {

/// One per-call set of observers, keyed by the call's stream identifier.
pub struct CallScope {
    pub key: String,
    pub subscribers: Vec<u64>,
}

/// The shape of one scope: its key and its observer handles, in subscription
/// order.
#[verifier::ext_equal]
pub struct ScopeView {
    pub key: Seq<char>,
    pub subscribers: Seq<u64>,
}

impl View for CallScope {
    type V = ScopeView;

    open spec fn view(&self) -> ScopeView {
        ScopeView { key: self.key@, subscribers: self.subscribers@ }
    }
}

/// The registry: observers subscribed to any call, and per-call scopes.
pub struct Registry {
    global: Vec<u64>,
    scopes: Vec<CallScope>,
}

/// The shape of the whole registry.
#[verifier::ext_equal]
pub struct RegistryView {
    pub global: Seq<u64>,
    pub scopes: Seq<ScopeView>,
}

impl View for Registry {
    type V = RegistryView;

    closed spec fn view(&self) -> RegistryView {
        RegistryView {
            global: self.global@,
            scopes: self.scopes@.map_values(|s: CallScope| s@),
        }
    }
}

/// The index of the first scope with this key, or -1 when no scope has it.
pub open spec fn spec_scope_index(scopes: Seq<ScopeView>, key: Seq<char>) -> int
    decreases scopes.len(),
{
    if scopes.len() == 0 {
        -1
    } else if scopes[0].key == key {
        0
    } else {
        let rest = spec_scope_index(scopes.drop_first(), key);
        if rest < 0 {
            -1
        } else {
            rest + 1
        }
    }
}

/// Whether some scope carries this key.
pub open spec fn spec_has_scope(scopes: Seq<ScopeView>, key: Seq<char>) -> bool {
    spec_scope_index(scopes, key) >= 0
}

/// The index a scope lookup returns is a real index, its scope has the key,
/// and no earlier scope does.
pub proof fn lemma_scope_index_found(scopes: Seq<ScopeView>, key: Seq<char>)
    requires
        spec_has_scope(scopes, key),
    ensures
        0 <= spec_scope_index(scopes, key) < scopes.len(),
        scopes[spec_scope_index(scopes, key)].key == key,
    decreases scopes.len(),
{
    if scopes.len() > 0 && scopes[0].key != key {
        lemma_scope_index_found(scopes.drop_first(), key);
    }
}

/// The observers that stay after one broadcast: those whose send succeeded,
/// in their original order.
pub open spec fn spec_keep_successes(subs: Seq<u64>, ok: Seq<bool>) -> Seq<u64>
    decreases subs.len(),
{
    if subs.len() == 0 {
        Seq::empty()
    } else {
        let rest = spec_keep_successes(subs.drop_last(), ok.drop_last());
        if ok.last() {
            rest.push(subs.last())
        } else {
            rest
        }
    }
}

/// Broadcasting to a scope with no live observers is a no-op: nothing is
/// kept because nothing was there, and nothing errors.
pub proof fn lemma_prune_empty_is_noop()
    ensures
        spec_keep_successes(Seq::<u64>::empty(), Seq::<bool>::empty()) == Seq::<u64>::empty(),
{
}

/// Keeps exactly the subscribers whose send succeeded, in order.
fn keep_successes(subs: &Vec<u64>, results: &Vec<bool>) -> (r: Vec<u64>)
    requires
        subs@.len() == results@.len(),
    ensures
        r@ == spec_keep_successes(subs@, results@),
{
    let mut r: Vec<u64> = Vec::new();
    let mut i: usize = 0;
    while i < subs.len()
        invariant
            subs@.len() == results@.len(),
            0 <= i <= subs@.len(),
            r@ == spec_keep_successes(subs@.take(i as int), results@.take(i as int)),
        decreases subs@.len() - i,
    {
        proof {
            assert(subs@.take(i + 1).drop_last() =~= subs@.take(i as int));
            assert(results@.take(i + 1).drop_last() =~= results@.take(i as int));
        }
        if results[i] {
            r.push(subs[i]);
        }
        i = i + 1;
    }
    proof {
        assert(subs@.take(subs@.len() as int) =~= subs@);
        assert(results@.take(results@.len() as int) =~= results@);
    }
    r
}

impl Registry {
    /// An empty registry: no observers anywhere, no call scopes.
    pub fn new() -> (r: Self)
        ensures
            r@.global == Seq::<u64>::empty(),
            r@.scopes == Seq::<ScopeView>::empty(),
    {
        Registry { global: Vec::new(), scopes: Vec::new() }
    }

    /// Opens a scope for a starting call. A key already present is left as it
    /// is; otherwise an empty scope is appended.
    pub fn create_scope(&mut self, key: &str)
        ensures
            final(self)@.global == old(self)@.global,
            spec_has_scope(old(self)@.scopes, key@) ==> final(self)@.scopes == old(self)@.scopes,
            !spec_has_scope(old(self)@.scopes, key@) ==> final(self)@.scopes == old(
                self,
            )@.scopes.push(ScopeView { key: key@, subscribers: Seq::empty() }),
    {
        if self.find_scope(key).is_none() {
            self.scopes.push(CallScope { key: key.to_owned(), subscribers: Vec::new() });
            proof {
                assert(self@.scopes =~~= old(self)@.scopes.push(
                    ScopeView { key: key@, subscribers: Seq::empty() },
                ));
            }
        }
    }

    /// Drops a call's scope (and its observers) when the call is destroyed.
    /// Without the key, nothing changes.
    pub fn remove_scope(&mut self, key: &str)
        ensures
            final(self)@.global == old(self)@.global,
            !spec_has_scope(old(self)@.scopes, key@) ==> final(self)@.scopes == old(self)@.scopes,
            spec_has_scope(old(self)@.scopes, key@) ==> final(self)@.scopes == old(
                self,
            )@.scopes.remove(spec_scope_index(old(self)@.scopes, key@)),
    {
        proof {
            if spec_has_scope(self@.scopes, key@) {
                lemma_scope_index_found(self@.scopes, key@);
            }
        }
        match self.find_scope(key) {
            Some(i) => {
                self.scopes.remove(i);
                proof {
                    assert(self@.scopes =~~= old(self)@.scopes.remove(
                        spec_scope_index(old(self)@.scopes, key@),
                    ));
                }
            },
            None => {},
        }
    }

    /// Registers an observer for every call.
    pub fn subscribe_global(&mut self, id: u64)
        ensures
            final(self)@.global == old(self)@.global.push(id),
            final(self)@.scopes == old(self)@.scopes,
    {
        self.global.push(id);
    }

    /// Registers an observer for one call. The call's scope must already
    /// exist (it is created when the call starts); with no such scope the
    /// subscription is silently dropped, and the result says which happened.
    pub fn subscribe_scoped(&mut self, key: &str, id: u64) -> (added: bool)
        ensures
            added == spec_has_scope(old(self)@.scopes, key@),
            final(self)@.global == old(self)@.global,
            !added ==> final(self)@.scopes == old(self)@.scopes,
            added ==> ({
                let i = spec_scope_index(old(self)@.scopes, key@);
                final(self)@.scopes == old(self)@.scopes.update(
                    i,
                    ScopeView {
                        key: old(self)@.scopes[i].key,
                        subscribers: old(self)@.scopes[i].subscribers.push(id),
                    },
                )
            }),
    {
        proof {
            if spec_has_scope(self@.scopes, key@) {
                lemma_scope_index_found(self@.scopes, key@);
            }
        }
        match self.find_scope(key) {
            Some(i) => {
                let mut scope = self.scopes.remove(i);
                scope.subscribers.push(id);
                self.scopes.insert(i, scope);
                proof {
                    let gi = spec_scope_index(old(self)@.scopes, key@);
                    assert(self@.scopes =~~= old(self)@.scopes.update(
                        gi,
                        ScopeView {
                            key: old(self)@.scopes[gi].key,
                            subscribers: old(self)@.scopes[gi].subscribers.push(id),
                        },
                    ));
                }
                true
            },
            None => false,
        }
    }

    /// The observers subscribed to every call, for the transport layer to
    /// send one broadcast to.
    pub fn global_subscribers(&self) -> (r: &Vec<u64>)
        ensures
            r@ == self@.global,
    {
        &self.global
    }

    /// The observers of the scope with this key, if it exists.
    pub fn call_subscribers(&self, key: &str) -> (r: Option<&Vec<u64>>)
        ensures
            r is Some <==> spec_has_scope(self@.scopes, key@),
            r matches Some(v) ==> v@ == self@.scopes[spec_scope_index(
                self@.scopes,
                key@,
            )].subscribers,
    {
        proof {
            if spec_has_scope(self@.scopes, key@) {
                lemma_scope_index_found(self@.scopes, key@);
            }
        }
        match self.find_scope(key) {
            Some(i) => Some(&self.scopes[i].subscribers),
            None => None,
        }
    }

    /// Applies one global broadcast's outcome: the observers whose send
    /// failed are pruned, atomically with the broadcast that found them dead.
    /// With no observers there is nothing to prune and nothing fails.
    pub fn prune_global(&mut self, results: &Vec<bool>)
        requires
            results@.len() == old(self)@.global.len(),
        ensures
            final(self)@.global == spec_keep_successes(old(self)@.global, results@),
            final(self)@.scopes == old(self)@.scopes,
    {
        self.global = keep_successes(&self.global, results);
    }

    /// Applies one scoped broadcast's outcome, pruning within that scope
    /// alone. Without the key, nothing changes.
    pub fn prune_scoped(&mut self, key: &str, results: &Vec<bool>)
        requires
            spec_has_scope(old(self)@.scopes, key@) ==> results@.len() == old(self)@.scopes[
                spec_scope_index(old(self)@.scopes, key@)
            ].subscribers.len(),
        ensures
            final(self)@.global == old(self)@.global,
            !spec_has_scope(old(self)@.scopes, key@) ==> final(self)@.scopes == old(self)@.scopes,
            spec_has_scope(old(self)@.scopes, key@) ==> ({
                let i = spec_scope_index(old(self)@.scopes, key@);
                final(self)@.scopes == old(self)@.scopes.update(
                    i,
                    ScopeView {
                        key: old(self)@.scopes[i].key,
                        subscribers: spec_keep_successes(
                            old(self)@.scopes[i].subscribers,
                            results@,
                        ),
                    },
                )
            }),
    {
        proof {
            if spec_has_scope(self@.scopes, key@) {
                lemma_scope_index_found(self@.scopes, key@);
            }
        }
        match self.find_scope(key) {
            Some(i) => {
                let mut scope = self.scopes.remove(i);
                let kept = keep_successes(&scope.subscribers, results);
                scope.subscribers = kept;
                self.scopes.insert(i, scope);
                proof {
                    let gi = spec_scope_index(old(self)@.scopes, key@);
                    assert(self@.scopes =~~= old(self)@.scopes.update(
                        gi,
                        ScopeView {
                            key: old(self)@.scopes[gi].key,
                            subscribers: spec_keep_successes(
                                old(self)@.scopes[gi].subscribers,
                                results@,
                            ),
                        },
                    ));
                }
            },
            None => {},
        }
    }

    /// The position of the first scope with this key.
    fn find_scope(&self, key: &str) -> (r: Option<usize>)
        ensures
            r is Some <==> spec_has_scope(self@.scopes, key@),
            r matches Some(i) ==> i == spec_scope_index(self@.scopes, key@),
    {
        let target = key.to_owned();
        let mut i: usize = 0;
        while i < self.scopes.len()
            invariant
                target@ == key@,
                0 <= i <= self.scopes@.len(),
                forall|j: int| 0 <= j < i ==> self@.scopes[j].key != key@,
                spec_scope_index(self@.scopes, key@) >= 0 ==> spec_scope_index(
                    self@.scopes,
                    key@,
                ) >= i,
            decreases self.scopes@.len() - i,
        {
            if self.scopes[i].key == target {
                proof {
                    lemma_scope_index_first_match(self@.scopes, key@, i as int);
                }
                return Some(i);
            }
            proof {
                lemma_scope_index_skips_mismatches(self@.scopes, key@, i + 1);
            }
            i = i + 1;
        }
        proof {
            if spec_has_scope(self@.scopes, key@) {
                lemma_scope_index_found(self@.scopes, key@);
            }
        }
        None
    }
}

/// When every scope before `i` misses the key and scope `i` has it, the
/// lookup lands exactly on `i`.
proof fn lemma_scope_index_first_match(scopes: Seq<ScopeView>, key: Seq<char>, i: int)
    requires
        0 <= i < scopes.len(),
        scopes[i].key == key,
        forall|j: int| 0 <= j < i ==> scopes[j].key != key,
    ensures
        spec_scope_index(scopes, key) == i,
    decreases i,
{
    if i > 0 {
        lemma_scope_index_first_match(scopes.drop_first(), key, i - 1);
    }
}

/// When every scope before `i` misses the key, the lookup (if it finds the
/// key at all) lands at `i` or beyond.
proof fn lemma_scope_index_skips_mismatches(scopes: Seq<ScopeView>, key: Seq<char>, i: int)
    requires
        0 <= i <= scopes.len(),
        forall|j: int| 0 <= j < i ==> scopes[j].key != key,
    ensures
        spec_has_scope(scopes, key) ==> spec_scope_index(scopes, key) >= i,
    decreases i,
{
    if i > 0 && scopes.len() > 0 {
        lemma_scope_index_skips_mismatches(scopes.drop_first(), key, i - 1);
    }
}

} // verus!
