//! The error hook: the sink that rendering code calls when a fallible render
//! step fails. It assigns an identity to each thrown error, records the
//! error in the boundary's registry, and forwards it to a cross-boundary
//! serialization context when one is present, so that a later render pass
//! can seed its registry with the same errors.

use crate::errors::ErrorId;
use crate::errors::ErrorValue;
use crate::errors::Errors;
use vstd::prelude::*;

verus! {

/// The identities recorded for one boundary in a serialization context, in
/// the order they were registered.
pub open spec fn errors_recorded_for(
    log: Seq<(u64, ErrorId, ErrorValue)>,
    boundary: u64,
) -> Seq<(ErrorId, ErrorValue)>
    decreases log.len(),
{
    if log.len() == 0 {
        Seq::empty()
    } else {
        let rest = errors_recorded_for(log.drop_last(), boundary);
        if log.last().0 == boundary {
            rest.push((log.last().1, log.last().2))
        } else {
            rest
        }
    }
}

/// A cross-boundary serialization context: a fresh-identity generator and a
/// record of `(boundary, error identity, error)` registrations, which a
/// boundary on a later render pass looks up to seed its initial registry.
pub struct SharedContext {
    pub next: u64,
    pub registered: Vec<(u64, ErrorId, ErrorValue)>,
}

impl SharedContext {
    pub fn new() -> (r: Self)
        ensures
            r.next == 0,
            r.registered@ == Seq::<(u64, ErrorId, ErrorValue)>::empty(),
    {
        SharedContext { next: 0, registered: Vec::new() }
    }

    /// Hand out the next identity. The counter saturates at the largest
    /// representable identity; nothing here claims that identities are
    /// never reused.
    pub fn next_id(&mut self) -> (r: u64)
        ensures
            r == old(self).next,
            final(self).registered == old(self).registered,
            final(self).next == (if old(self).next < u64::MAX {
                old(self).next + 1int
            } else {
                old(self).next as int
            }),
    {
        let r = self.next;
        if self.next < u64::MAX {
            self.next = self.next + 1;
        }
        r
    }

    /// Record an error thrown under `boundary`, so a later render pass can
    /// reconstruct it.
    pub fn register_error(&mut self, boundary: u64, key: ErrorId, error: ErrorValue)
        ensures
            final(self).next == old(self).next,
            final(self).registered@ == old(self).registered@.push((boundary, key, error)),
    {
        self.registered.push((boundary, key, error));
    }

    /// The errors previously registered for `boundary`, in registration
    /// order.
    pub fn errors(&self, boundary: u64) -> (r: Vec<(ErrorId, ErrorValue)>)
        ensures
            r@ == errors_recorded_for(self.registered@, boundary),
    {
        let mut r: Vec<(ErrorId, ErrorValue)> = Vec::new();
        let mut i: usize = 0;
        while i < self.registered.len()
            invariant
                0 <= i <= self.registered@.len(),
                r@ == errors_recorded_for(self.registered@.take(i as int), boundary),
            decreases self.registered@.len() - i,
        {
            let e = &self.registered[i];
            if e.0 == boundary {
                r.push((e.1, e.2.clone()));
            }
            proof {
                let pre = self.registered@.take(i as int);
                let post = self.registered@.take(i + 1 as int);
                assert(post.drop_last() =~= pre);
                assert(post.last() == self.registered@[i as int]);
            }
            i = i + 1;
        }
        proof {
            assert(self.registered@.take(self.registered@.len() as int) =~= self.registered@);
        }
        r
    }
}

/// The registry contents seeded from a list of `(identity, error)` pairs,
/// later entries overriding earlier ones of the same identity.
pub open spec fn pairs_to_map(pairs: Seq<(ErrorId, ErrorValue)>) -> Map<u64, ErrorValue>
    decreases pairs.len(),
{
    if pairs.len() == 0 {
        Map::empty()
    } else {
        pairs_to_map(pairs.drop_last()).insert(pairs.last().0.0, pairs.last().1)
    }
}

/// The error hook owned by one error boundary. A throw assigns an identity
/// (from the serialization context's generator when one is present, the
/// default identity otherwise), records the error in the registry, and
/// forwards it to the serialization context; a clear removes an entry by
/// identity.
pub struct ErrorBoundaryErrorHook {
    pub errors: Errors,
    pub id: u64,
    pub shared_context: Option<SharedContext>,
}

impl ErrorBoundaryErrorHook {
    pub fn new(
        id: u64,
        initial_errors: Vec<(ErrorId, ErrorValue)>,
        shared_context: Option<SharedContext>,
    ) -> (r: Self)
        ensures
            r.errors@ == pairs_to_map(initial_errors@),
            r.id == id,
            r.shared_context == shared_context,
    {
        let mut errors = Errors::new();
        let mut i: usize = 0;
        while i < initial_errors.len()
            invariant
                0 <= i <= initial_errors@.len(),
                errors@ == pairs_to_map(initial_errors@.take(i as int)),
            decreases initial_errors@.len() - i,
        {
            let e = &initial_errors[i];
            errors.insert(e.0, e.1.clone());
            proof {
                let pre = initial_errors@.take(i as int);
                let post = initial_errors@.take(i + 1 as int);
                assert(post.drop_last() =~= pre);
                assert(post.last() == initial_errors@[i as int]);
            }
            i = i + 1;
        }
        proof {
            assert(initial_errors@.take(initial_errors@.len() as int) =~= initial_errors@);
        }
        ErrorBoundaryErrorHook { errors, id, shared_context }
    }

    /// Report a failed render step. Never fails: this is how error-producing
    /// views report failure without an error-propagation return path. The
    /// returned identity is owned by the throwing view, which clears it when
    /// it is rebuilt or torn down.
    pub fn throw(&mut self, error: ErrorValue) -> (key: ErrorId)
        ensures
            final(self).errors@ == old(self).errors@.insert(key.0, error),
            final(self).id == old(self).id,
            old(self).shared_context is None ==> key == ErrorId(0) && final(self).shared_context
                is None,
            old(self).shared_context matches Some(sc) ==> key.0 == sc.next
                && (final(self).shared_context matches Some(sc2)
                && sc2.registered@ == sc.registered@.push((old(self).id, key, error))
                && sc2.next == (if sc.next < u64::MAX { sc.next + 1int } else { sc.next as int })),
    {
        let key = match &mut self.shared_context {
            Some(sc) => ErrorId(sc.next_id()),
            None => ErrorId::default(),
        };
        match &mut self.shared_context {
            Some(sc) => {
                let boundary = self.id;
                sc.register_error(boundary, key, error.clone());
            },
            None => {},
        }
        self.errors.insert(key, error);
        key
    }

    /// Remove the error previously thrown under `id`, if it is still
    /// registered. Clearing an identity that is not registered is a no-op.
    pub fn clear(&mut self, id: &ErrorId)
        ensures
            final(self).errors@ == old(self).errors@.remove(id.0),
            !old(self).errors@.contains_key(id.0) ==> final(self).errors@ == old(self).errors@,
            final(self).id == old(self).id,
            final(self).shared_context == old(self).shared_context,
    {
        let _cleared = self.errors.remove(id);
    }
}

/// What any render step may do to a boundary's hook: report errors, each
/// under an identity the generator assigned during the step. An entry
/// already registered under an identity below the generator's position is
/// never disturbed, no entry is dropped, and the generator only advances.
/// Without a serialization context every new entry takes the default
/// identity, and everything else is untouched.
pub open spec fn hook_preserved(pre: ErrorBoundaryErrorHook, post: ErrorBoundaryErrorHook) -> bool {
    &&& post.id == pre.id
    &&& forall|k: u64| pre.errors@.contains_key(k) ==> post.errors@.contains_key(k)
    &&& match (pre.shared_context, post.shared_context) {
        (Some(sc), Some(sc2)) => {
            &&& sc2.next >= sc.next
            &&& forall|k: u64|
                pre.errors@.contains_key(k) && k < sc.next ==> post.errors@.contains_key(k)
                    && post.errors@[k] == pre.errors@[k]
            &&& forall|k: u64| #[trigger]
                post.errors@.contains_key(k) ==> pre.errors@.contains_key(k) || (sc.next <= k
                    <= sc2.next)
        },
        (None, None) => {
            &&& forall|k: u64|
                pre.errors@.contains_key(k) && k != 0 ==> post.errors@.contains_key(k)
                    && post.errors@[k] == pre.errors@[k]
            &&& forall|k: u64| #[trigger]
                post.errors@.contains_key(k) ==> pre.errors@.contains_key(k) || k == 0
        },
        _ => false,
    }
}

/// A hook is preserved across a step that did nothing.
pub proof fn lemma_hook_preserved_refl(h: ErrorBoundaryErrorHook)
    ensures
        hook_preserved(h, h),
{
}

/// Preservation composes across consecutive render steps.
pub proof fn lemma_hook_preserved_trans(
    a: ErrorBoundaryErrorHook,
    b: ErrorBoundaryErrorHook,
    c: ErrorBoundaryErrorHook,
)
    requires
        hook_preserved(a, b),
        hook_preserved(b, c),
    ensures
        hook_preserved(a, c),
{
}

/// The dynamically scoped "current hook" slot. Installing a hook returns a
/// guard holding the previously active hook; handing the guard back
/// restores it, so nested boundaries each see their own hook for the
/// duration of their own render step only.
pub struct HookScope {
    pub current: Option<ErrorBoundaryErrorHook>,
}

/// Returned by [`HookScope::set_error_hook`]; holds the hook that was
/// active before, for restoration.
pub struct HookGuard {
    pub prev: Option<ErrorBoundaryErrorHook>,
}

impl HookScope {
    pub fn new() -> (r: Self)
        ensures
            r.current is None,
    {
        HookScope { current: None }
    }

    /// Make `hook` the current hook, returning a guard that remembers the
    /// hook that was active before.
    pub fn set_error_hook(&mut self, hook: ErrorBoundaryErrorHook) -> (guard: HookGuard)
        ensures
            final(self).current == Some(hook),
            guard.prev == old(self).current,
    {
        let mut prev = Some(hook);
        core::mem::swap(&mut prev, &mut self.current);
        HookGuard { prev }
    }

    /// Release a guard: the hook that was active when the guard was taken
    /// becomes current again, whatever happened in between.
    pub fn reset_error_hook(&mut self, guard: HookGuard)
        ensures
            final(self).current == guard.prev,
    {
        self.current = guard.prev;
    }
}

} // verus!
