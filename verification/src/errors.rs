//! The error registry: a mapping from error identity to error value that an
//! error boundary owns. A boundary shows its fallback exactly while this
//! registry is non-empty.

use std::collections::HashMap;
use vstd::prelude::*;

verus! {

broadcast use vstd::std_specs::hash::group_hash_axioms;

/// Identity assigned to a thrown error. The default identity is the
/// well-known "unkeyed" identity, used when no identity generator is in
/// scope at the time of the throw.
#[derive(Clone, Copy, PartialEq, Eq, Structural, Hash, Debug)]
pub struct ErrorId(pub u64);

impl Default for ErrorId {
    fn default() -> (r: Self)
        ensures
            r == ErrorId(0),
    {
        ErrorId(0)
    }
}

/// An error payload thrown by a view during a render step, carried opaquely
/// as its rendered message.
#[derive(Debug)]
pub struct ErrorValue {
    pub msg: String,
}

impl ErrorValue {
    pub fn new(msg: String) -> (r: Self)
        ensures
            r.msg == msg,
    {
        ErrorValue { msg }
    }
}

impl View for ErrorValue {
    type V = Seq<char>;

    open spec fn view(&self) -> Seq<char> {
        self.msg@
    }
}

impl Clone for ErrorValue {
    fn clone(&self) -> (r: Self)
        ensures
            r == *self,
    {
        ErrorValue { msg: self.msg.clone() }
    }
}

/// All the errors currently reported by child views, keyed by identity;
/// processed by an error boundary. Keys are unique, iteration order is
/// unspecified.
#[derive(Debug)]
pub struct Errors {
    map: HashMap<u64, ErrorValue>,
    keys: Vec<u64>,
}

impl View for Errors {
    type V = Map<u64, ErrorValue>;

    closed spec fn view(&self) -> Map<u64, ErrorValue> {
        self.map@
    }
}

impl Errors {
    #[verifier::type_invariant]
    closed spec fn inv(self) -> bool {
        &&& self.keys@.no_duplicates()
        &&& self.keys@.to_set() == self.map@.dom()
    }

    /// A registry with no errors in it.
    pub fn new() -> (r: Self)
        ensures
            r@ == Map::<u64, ErrorValue>::empty(),
    {
        let map: HashMap<u64, ErrorValue> = HashMap::new();
        let keys: Vec<u64> = Vec::new();
        proof {
            assert(keys@.to_set() =~= map@.dom());
        }
        Errors { map, keys }
    }

    /// Returns `true` if there are no errors.
    pub fn is_empty(&self) -> (r: bool)
        ensures
            r == self@.is_empty(),
    {
        self.map.is_empty()
    }

    /// Add an error that will be processed by an error boundary. An entry
    /// already registered under the same identity is replaced.
    pub fn insert(&mut self, key: ErrorId, error: ErrorValue)
        ensures
            final(self)@ == old(self)@.insert(key.0, error),
    {
        proof {
            use_type_invariant(&*self);
        }
        let mut tmp = Errors::new();
        core::mem::swap(&mut tmp, self);
        let Errors { mut map, mut keys } = tmp;
        let ghost old_keys = keys@;
        let ghost old_dom = map@.dom();
        let prev = map.insert(key.0, error);
        if prev.is_none() {
            keys.push(key.0);
            proof {
                broadcast use vstd::seq_lib::group_seq_properties;

                assert(!old_keys.contains(key.0));
                assert(keys@ == old_keys + seq![key.0]);
                Seq::lemma_to_set_insert_commutes(old_keys, key.0);
                assert(keys@.to_set() =~= map@.dom());
            }
        } else {
            proof {
                assert(old_dom.contains(key.0));
                assert(keys@.to_set() =~= map@.dom());
            }
        }
        *self = Errors { map, keys };
    }

    /// Add an error under the default identity, for errors raised outside
    /// any tracking scope.
    pub fn insert_with_default_key(&mut self, error: ErrorValue)
        ensures
            final(self)@ == old(self)@.insert(0, error),
    {
        self.insert(ErrorId::default(), error);
    }

    /// Remove the error registered under `key`, if any. Removing an
    /// identity that was never inserted leaves the registry unchanged.
    pub fn remove(&mut self, key: &ErrorId) -> (r: Option<ErrorValue>)
        ensures
            final(self)@ == old(self)@.remove(key.0),
            r is Some <==> old(self)@.contains_key(key.0),
            r matches Some(v) ==> v == old(self)@[key.0],
            !old(self)@.contains_key(key.0) ==> final(self)@ == old(self)@,
    {
        proof {
            use_type_invariant(&*self);
        }
        let mut tmp = Errors::new();
        core::mem::swap(&mut tmp, self);
        let Errors { mut map, mut keys } = tmp;
        let ghost old_keys = keys@;
        let ghost old_map = map@;
        let r = map.remove(&key.0);
        if r.is_some() {
            proof {
                assert(old_keys.to_set().contains(key.0));
                assert(old_keys.contains(key.0));
            }
            let mut i: usize = 0;
            while i < keys.len() && keys[i] != key.0
                invariant
                    keys@ == old_keys,
                    0 <= i <= keys@.len(),
                    forall|j: int| 0 <= j < i ==> keys@[j] != key.0,
                    keys@.contains(key.0),
                decreases keys@.len() - i,
            {
                i = i + 1;
            }
            proof {
                if i == keys@.len() {
                    let j = keys@.lemma_contains_to_index(key.0);
                    assert(false);
                }
            }
            keys.remove(i);
            proof {
                old_keys.remove_ensures(i as int);
                let new_keys = keys@;
                assert(new_keys.no_duplicates()) by {
                    assert forall|p: int, q: int| 0 <= p < q < new_keys.len() implies new_keys[p]
                        != new_keys[q] by {
                        let p0: int = if p < i { p } else { p + 1 };
                        let q0: int = if q < i { q } else { q + 1 };
                        assert(new_keys[p] == old_keys[p0]);
                        assert(new_keys[q] == old_keys[q0]);
                    }
                }
                assert(new_keys.to_set() =~= map@.dom()) by {
                    assert forall|x: u64| new_keys.contains(x) implies map@.dom().contains(x) by {
                        let j = new_keys.lemma_contains_to_index(x);
                        let j0: int = if j < i { j } else { j + 1 };
                        assert(old_keys[j0] == x);
                        assert(old_keys.contains(x));
                        assert(old_keys[i as int] == key.0);
                        assert(x != key.0);
                    }
                    assert forall|x: u64| map@.dom().contains(x) implies new_keys.contains(x) by {
                        assert(old_map.dom().contains(x));
                        assert(old_keys.contains(x));
                        let j = old_keys.lemma_contains_to_index(x);
                        assert(x != key.0);
                        assert(j != i);
                        if j < i {
                            assert(keys@[j] == x);
                        } else {
                            assert(keys@[j - 1] == x);
                        }
                    }
                }
            }
        } else {
            proof {
                assert(map@ =~= old_map);
                assert(keys@.to_set() == map@.dom());
                assert(old_map.remove(key.0) =~= old_map);
            }
        }
        *self = Errors { map, keys };
        r
    }

    /// A snapshot iterator over all the errors, in unspecified order.
    pub fn iter(&self) -> (it: Iter)
        ensures
            it.pos == 0,
            it.entries@.len() == self@.dom().len(),
            forall|i: int|
                0 <= i < it.entries@.len() ==> self@.contains_key(#[trigger] it.entries@[i].0.0)
                    && it.entries@[i].1 == self@[it.entries@[i].0.0],
            forall|k: u64| #[trigger]
                self@.contains_key(k) ==> exists|i: int|
                    0 <= i < it.entries@.len() && #[trigger] it.entries@[i].0.0 == k,
    {
        proof {
            use_type_invariant(self);
        }
        let mut entries: Vec<(ErrorId, ErrorValue)> = Vec::new();
        let mut i: usize = 0;
        while i < self.keys.len()
            invariant
                self.inv(),
                0 <= i <= self.keys@.len(),
                entries@.len() == i,
                forall|j: int|
                    0 <= j < i ==> (#[trigger] entries@[j].0).0 == self.keys@[j] && entries@[j].1
                        == self@[self.keys@[j]],
            decreases self.keys@.len() - i,
        {
            let k = self.keys[i];
            proof {
                assert(self.keys@.contains(k));
                assert(self.keys@.to_set().contains(k));
                assert(self@.dom().contains(k));
            }
            let v = match self.map.get(&k) {
                Some(v) => v.clone(),
                None => {
                    proof {
                        assert(false);
                    }
                    ErrorValue::new(String::new())
                },
            };
            entries.push((ErrorId(k), v));
            i = i + 1;
        }
        proof {
            self.keys@.unique_seq_to_set();
            assert forall|k: u64| #[trigger] self@.contains_key(k) implies exists|j: int|
                0 <= j < entries@.len() && #[trigger] entries@[j].0.0 == k by {
                assert(self.keys@.to_set().contains(k));
                assert(self.keys@.contains(k));
                let j = self.keys@.lemma_contains_to_index(k);
                assert(entries@[j].0.0 == k);
            }
        }
        Iter { entries, pos: 0 }
    }

    /// A snapshot iterator that takes ownership of the registry.
    pub fn into_iter(self) -> (it: IntoIter)
        ensures
            it.pos == 0,
            it.entries@.len() == self@.dom().len(),
            forall|i: int|
                0 <= i < it.entries@.len() ==> self@.contains_key(#[trigger] it.entries@[i].0.0)
                    && it.entries@[i].1 == self@[it.entries@[i].0.0],
            forall|k: u64| #[trigger]
                self@.contains_key(k) ==> exists|i: int|
                    0 <= i < it.entries@.len() && #[trigger] it.entries@[i].0.0 == k,
    {
        let it = self.iter();
        IntoIter { entries: it.entries, pos: 0 }
    }
}

impl Default for Errors {
    fn default() -> (r: Self)
        ensures
            r@ == Map::<u64, ErrorValue>::empty(),
    {
        Errors::new()
    }
}

impl Clone for Errors {
    fn clone(&self) -> (r: Self)
        ensures
            r@ == self@,
    {
        proof {
            use_type_invariant(self);
        }
        let map = self.map.clone();
        let mut keys: Vec<u64> = Vec::new();
        let mut i: usize = 0;
        while i < self.keys.len()
            invariant
                0 <= i <= self.keys@.len(),
                keys@ == self.keys@.subrange(0, i as int),
            decreases self.keys@.len() - i,
        {
            keys.push(self.keys[i]);
            i = i + 1;
        }
        proof {
            assert(keys@ =~= self.keys@);
        }
        Errors { map, keys }
    }
}

/// An iterator over a snapshot of the errors in a registry.
pub struct Iter {
    pub entries: Vec<(ErrorId, ErrorValue)>,
    pub pos: usize,
}

impl Iter {
    pub fn next(&mut self) -> (r: Option<(ErrorId, ErrorValue)>)
        ensures
            old(self).pos < old(self).entries@.len() ==> r == Some(
                old(self).entries@[old(self).pos as int],
            ) && final(self).pos == old(self).pos + 1 && final(self).entries == old(self).entries,
            old(self).pos >= old(self).entries@.len() ==> r is None && *final(self) == *old(self),
    {
        if self.pos < self.entries.len() {
            let e = &self.entries[self.pos];
            let out = (e.0, e.1.clone());
            self.pos = self.pos + 1;
            Some(out)
        } else {
            None
        }
    }
}

/// An owning iterator over a snapshot of the errors in a registry.
pub struct IntoIter {
    pub entries: Vec<(ErrorId, ErrorValue)>,
    pub pos: usize,
}

impl IntoIter {
    pub fn next(&mut self) -> (r: Option<(ErrorId, ErrorValue)>)
        ensures
            old(self).pos < old(self).entries@.len() ==> r == Some(
                old(self).entries@[old(self).pos as int],
            ) && final(self).pos == old(self).pos + 1 && final(self).entries == old(self).entries,
            old(self).pos >= old(self).entries@.len() ==> r is None && *final(self) == *old(self),
    {
        if self.pos < self.entries.len() {
            let e = &self.entries[self.pos];
            let out = (e.0, e.1.clone());
            self.pos = self.pos + 1;
            Some(out)
        } else {
            None
        }
    }
}

/// One mutation of a registry: a throw inserts an identity, a clear removes
/// one.
pub enum RegistryOp {
    Throw(u64, ErrorValue),
    Clear(u64),
}

/// The registry contents after a sequence of throw/clear operations.
pub open spec fn apply_ops(m: Map<u64, ErrorValue>, ops: Seq<RegistryOp>) -> Map<u64, ErrorValue>
    decreases ops.len(),
{
    if ops.len() == 0 {
        m
    } else {
        let rest = apply_ops(m, ops.drop_last());
        match ops.last() {
            RegistryOp::Throw(k, v) => rest.insert(k, v),
            RegistryOp::Clear(k) => rest.remove(k),
        }
    }
}

/// The net set of registered identities after a sequence of throw/clear
/// operations.
pub open spec fn net_ids(ids: Set<u64>, ops: Seq<RegistryOp>) -> Set<u64>
    decreases ops.len(),
{
    if ops.len() == 0 {
        ids
    } else {
        let rest = net_ids(ids, ops.drop_last());
        match ops.last() {
            RegistryOp::Throw(k, _) => rest.insert(k),
            RegistryOp::Clear(k) => rest.remove(k),
        }
    }
}

/// Law: for any sequence of throw and clear operations, the registry is
/// empty exactly when the net set of currently registered identities is
/// empty. `Errors::insert` and `Errors::remove` realize `RegistryOp::Throw`
/// and `RegistryOp::Clear` on the registry's view, and `Errors::is_empty`
/// returns the view's emptiness.
pub proof fn lemma_registry_reflects_net_ops(m: Map<u64, ErrorValue>, ops: Seq<RegistryOp>)
    ensures
        apply_ops(m, ops).dom() == net_ids(m.dom(), ops),
        apply_ops(m, ops).is_empty() <==> net_ids(m.dom(), ops).is_empty(),
    decreases ops.len(),
{
    if ops.len() > 0 {
        lemma_registry_reflects_net_ops(m, ops.drop_last());
        let rest = apply_ops(m, ops.drop_last());
        match ops.last() {
            RegistryOp::Throw(k, v) => {
                assert(rest.insert(k, v).dom() =~= rest.dom().insert(k));
            },
            RegistryOp::Clear(k) => {
                assert(rest.remove(k).dom() =~= rest.dom().remove(k));
            },
        }
    }
}

} // verus!
