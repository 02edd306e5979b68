//! The error boundary: composes the registry, the hook and the view tree
//! into a toggle between child content and fallback content, driven by
//! whether the registry is empty, across four render modes — client-side
//! build, synchronous server HTML, streamed server HTML, and hydration of
//! pre-rendered markup.

use crate::errors::ErrorId;
use crate::errors::ErrorValue;
use crate::hook::ErrorBoundaryErrorHook;
use crate::hook::SharedContext;
use crate::hook::errors_recorded_for;
use crate::hook::hook_preserved;
use crate::hook::lemma_hook_preserved_refl;
use crate::hook::lemma_hook_preserved_trans;
use crate::hook::pairs_to_map;
use crate::ssr::StreamBuilder;
use crate::ssr::StreamChunk;
use crate::ssr::chunks_text;
use crate::ssr::flatten_chunks;
use crate::ssr::flattened_chunks;
use crate::ssr::lemma_chunks_text_singleton;
use crate::view::BuiltView;
use crate::view::ViewNode;
use crate::view::node_count;
use crate::view::suspend_count;
use crate::view::sync_html;
use crate::view::throw_count;
use vstd::prelude::*;

verus! {

/// The per-render boundary descriptor: owns the error hook (and through it
/// the registry), the boundary identity, the child view, the
/// fallback-producing view, and the count of suspended descendants
/// registered beneath it.
pub struct ErrorBoundaryView {
    pub hook: ErrorBoundaryErrorHook,
    pub boundary_id: u64,
    pub children: ViewNode,
    pub fallback: ViewNode,
    pub suspended_children: usize,
}

/// The built (live) counterpart: child state is always present and
/// retained even while hidden; fallback state is present exactly while the
/// fallback is the visible presentation.
#[derive(Debug)]
pub struct ErrorBoundaryViewState {
    pub children: BuiltView,
    pub fallback: Option<BuiltView>,
}

impl ErrorBoundaryViewState {
    /// Whether the fallback is the visible presentation.
    pub open spec fn showing_fallback(&self) -> bool {
        self.fallback is Some
    }

    /// The invariant every transition maintains: while the fallback is the
    /// visible presentation, the retained child state is detached — at most
    /// one of the two presentations is ever mounted.
    pub open spec fn one_presentation(&self) -> bool {
        self.showing_fallback() ==> !self.children.mounted
    }

    /// The built state that is currently presented: the fallback when one
    /// is shown, the children otherwise.
    pub open spec fn active(&self) -> BuiltView {
        match self.fallback {
            Some(f) => f,
            None => self.children,
        }
    }

    /// Detach the visible presentation from its parent.
    pub fn unmount(&mut self)
        ensures
            final(self).children == (if old(self).showing_fallback() {
                old(self).children
            } else {
                (BuiltView { mounted: false, ..old(self).children })
            }),
            old(self).fallback matches Some(f) ==> final(self).fallback == Some(
                (BuiltView { mounted: false, ..f }),
            ),
            old(self).fallback is None ==> final(self).fallback is None,
            old(self).one_presentation() ==> final(self).one_presentation(),
    {
        match &mut self.fallback {
            Some(f) => f.unmount(),
            None => self.children.unmount(),
        }
    }

    /// Attach the visible presentation under `parent` at `marker`.
    pub fn mount(&mut self, parent: u64, marker: Option<u64>)
        ensures
            final(self).children == (if old(self).showing_fallback() {
                old(self).children
            } else {
                (BuiltView { mounted: true, ..old(self).children })
            }),
            old(self).fallback matches Some(f) ==> final(self).fallback == Some(
                (BuiltView { mounted: true, ..f }),
            ),
            old(self).fallback is None ==> final(self).fallback is None,
            old(self).one_presentation() ==> final(self).one_presentation(),
    {
        match &mut self.fallback {
            Some(f) => f.mount(parent, marker),
            None => self.children.mount(parent, marker),
        }
    }

    /// Splice `child` in immediately before the visible presentation.
    /// Returns whether insertion was possible: `false` when the visible
    /// state occupies no nodes.
    pub fn insert_before_this(&self, child: &mut BuiltView) -> (ok: bool)
        ensures
            ok == (self.active().elements@.len() > 0),
            ok ==> *final(child) == (BuiltView { mounted: true, ..*old(child) }),
            !ok ==> *final(child) == *old(child),
    {
        match &self.fallback {
            Some(f) => f.insert_before_this(child),
            None => self.children.insert_before_this(child),
        }
    }

    /// The nodes the visible presentation occupies, in document order.
    pub fn elements(&self) -> (r: Vec<u64>)
        ensures
            r@ == self.active().elements@,
    {
        match &self.fallback {
            Some(f) => f.elements(),
            None => self.children.elements(),
        }
    }
}

/// What one reactive update does, as a function of the current presentation
/// and the new value of the "errors empty" signal.
pub enum TransitionAction {
    /// Splice the retained children back in before the fallback, detach the
    /// fallback and drop it.
    SwapToChildren,
    /// Build the fallback from the current registry, splice it in before
    /// the children, detach the children but retain them.
    SwapToFallback,
    /// The presentation already agrees with the signal: do nothing.
    Keep,
}

/// The boundary's transition table: evaluated whenever the "errors empty"
/// signal changes, uniformly across all render modes.
pub open spec fn transition_action(showing_fallback: bool, errors_empty: bool) -> TransitionAction {
    if errors_empty && showing_fallback {
        TransitionAction::SwapToChildren
    } else if !errors_empty && !showing_fallback {
        TransitionAction::SwapToFallback
    } else {
        TransitionAction::Keep
    }
}

/// The boundary descriptor's fields that one render step never changes.
pub open spec fn same_descriptor(a: ErrorBoundaryView, b: ErrorBoundaryView) -> bool {
    &&& a.children == b.children
    &&& a.fallback == b.fallback
    &&& a.boundary_id == b.boundary_id
    &&& a.hook.id == b.hook.id
}

/// Construct an error boundary around `children`, with `fallback` to show
/// while any descendant error is registered. When a serialization context
/// is present, the boundary takes its identity from the context's generator
/// and seeds its registry with the errors a previous render pass recorded
/// for that identity; otherwise it starts with the default identity and an
/// empty registry.
#[allow(non_snake_case)]
pub fn ErrorBoundary(
    children: ViewNode,
    fallback: ViewNode,
    shared_context: Option<SharedContext>,
) -> (r: ErrorBoundaryView)
    ensures
        r.children == children,
        r.fallback == fallback,
        r.suspended_children == 0,
        r.hook.id == r.boundary_id,
        shared_context is None ==> r.boundary_id == 0 && r.hook.errors@ == Map::<
            u64,
            ErrorValue,
        >::empty() && r.hook.shared_context is None,
        shared_context matches Some(sc) ==> r.boundary_id == sc.next && r.hook.errors@
            == pairs_to_map(errors_recorded_for(sc.registered@, sc.next)) && (r.hook.shared_context
            matches Some(sc2) && sc2.registered == sc.registered && sc2.next == (if sc.next
            < u64::MAX {
            sc.next + 1int
        } else {
            sc.next as int
        })),
{
    match shared_context {
        Some(mut sc) => {
            let boundary_id = sc.next_id();
            let initial_errors = sc.errors(boundary_id);
            let hook = ErrorBoundaryErrorHook::new(boundary_id, initial_errors, Some(sc));
            ErrorBoundaryView { hook, boundary_id, children, fallback, suspended_children: 0 }
        },
        None => {
            let initial_errors: Vec<(ErrorId, ErrorValue)> = Vec::new();
            let hook = ErrorBoundaryErrorHook::new(0, initial_errors, None);
            ErrorBoundaryView { hook, boundary_id: 0, children, fallback, suspended_children: 0 }
        },
    }
}

impl ErrorBoundaryView {
    /// The derived "errors empty" signal, read from the registry.
    pub fn errors_empty(&self) -> (r: bool)
        ensures
            r == self.hook.errors@.is_empty(),
    {
        self.hook.errors.is_empty()
    }

    /// Register one suspended descendant: a pending receiver that will be
    /// signalled once the descendant has resolved. The streamed HTML path
    /// waits for all of them before its emptiness decision is finalized.
    pub fn register_suspended_child(&mut self)
        ensures
            final(self).suspended_children == (if old(self).suspended_children < usize::MAX {
                old(self).suspended_children + 1int
            } else {
                old(self).suspended_children as int
            }),
            final(self).hook == old(self).hook,
            same_descriptor(*old(self), *final(self)),
    {
        if self.suspended_children < usize::MAX {
            self.suspended_children = self.suspended_children + 1;
        }
    }

    /// Client-side build: the children are always built (and retained even
    /// if hidden); the fallback is built immediately exactly when the
    /// registry ends up non-empty — in particular, a boundary constructed
    /// over a pre-populated registry presents its fallback on this very
    /// first build, without waiting for a reactive update.
    pub fn build(&mut self) -> (state: ErrorBoundaryViewState)
        ensures
            state.children.content@ == sync_html(old(self).children),
            state.children.elements@.len() == node_count(old(self).children),
            !state.children.mounted,
            !state.children.hydrated,
            state.one_presentation(),
            state.showing_fallback() <==> !(old(self).hook.errors@.is_empty() && throw_count(
                old(self).children,
            ) == 0),
            !old(self).hook.errors@.is_empty() ==> state.showing_fallback(),
            state.fallback matches Some(f) ==> f.content@ == sync_html(old(self).fallback)
                && !f.mounted && !f.hydrated,
            final(self).hook.errors@.is_empty() <==> (old(self).hook.errors@.is_empty()
                && throw_count(old(self).children) == 0),
            hook_preserved(old(self).hook, final(self).hook),
            final(self).suspended_children == old(self).suspended_children,
            same_descriptor(*old(self), *final(self)),
    {
        let children_state = (&self.children).build(&mut self.hook);
        let ghost mid = self.hook;
        let fallback = if !self.hook.errors.is_empty() {
            Some((&self.fallback).build(&mut self.hook))
        } else {
            None
        };
        proof {
            lemma_hook_preserved_trans(old(self).hook, mid, self.hook);
        }
        ErrorBoundaryViewState { children: children_state, fallback }
    }

    /// One reactive update: re-read the "errors empty" signal and apply the
    /// transition table. When the signal and the visible presentation
    /// already agree, this is a no-op: nothing is built, mounted or
    /// unmounted, and both the boundary and the state are left exactly as
    /// they were. Otherwise the boundary swaps presentations, always
    /// retaining the built child state. The last clause is the idempotence
    /// law: after one transition the table reads `Keep`, so re-running it
    /// with unchanged emptiness does nothing.
    pub fn apply_transition(&mut self, state: &mut ErrorBoundaryViewState)
        ensures
            final(state).showing_fallback() == !old(self).hook.errors@.is_empty(),
            transition_action(old(state).showing_fallback(), old(self).hook.errors@.is_empty())
                is Keep ==> *final(state) == *old(state) && *final(self) == *old(self),
            transition_action(
                final(state).showing_fallback(),
                final(self).hook.errors@.is_empty(),
            ) is Keep,
            hook_preserved(old(self).hook, final(self).hook),
            old(state).one_presentation() ==> final(state).one_presentation(),
            old(self).hook.errors@.is_empty() ==> (old(state).fallback matches Some(f) ==> {
                &&& final(state).fallback is None
                &&& final(state).children == (BuiltView {
                    mounted: (if f.elements@.len() > 0 {
                        true
                    } else {
                        old(state).children.mounted
                    }),
                    ..old(state).children
                })
                &&& *final(self) == *old(self)
            }),
            (!old(self).hook.errors@.is_empty() && !old(state).showing_fallback()) ==> {
                &&& final(state).children == (BuiltView { mounted: false, ..old(state).children })
                &&& (final(state).fallback matches Some(f2) && f2.content@ == sync_html(
                    old(self).fallback,
                ) && !f2.hydrated && f2.elements@.len() == node_count(old(self).fallback)
                    && f2.mounted == (old(state).children.elements@.len() > 0))
                &&& !final(self).hook.errors@.is_empty()
                &&& final(self).suspended_children == old(self).suspended_children
                &&& same_descriptor(*old(self), *final(self))
            },
    {
        let empty = self.hook.errors.is_empty();
        if empty {
            let fb = state.fallback.take();
            match fb {
                Some(mut f) => {
                    // no errors, and was showing fallback: splice the
                    // retained children back in before it, then detach it
                    let _ok = f.insert_before_this(&mut state.children);
                    f.unmount();
                },
                None => {},
            }
            proof {
                lemma_hook_preserved_refl(self.hook);
            }
        } else {
            if state.fallback.is_none() {
                // errors, and was showing children: build the fallback,
                // splice it in before the children, detach the children
                let mut f = (&self.fallback).build(&mut self.hook);
                let _ok = state.children.insert_before_this(&mut f);
                state.children.unmount();
                state.fallback = Some(f);
            } else {
                proof {
                    lemma_hook_preserved_refl(self.hook);
                }
            }
        }
    }

    /// Replace `state` wholesale with freshly built state, spliced in at
    /// the old state's position; the old state is detached.
    pub fn rebuild(&mut self, state: &mut ErrorBoundaryViewState)
        ensures
            final(state).children.content@ == sync_html(old(self).children),
            !final(state).children.hydrated,
            final(state).showing_fallback() <==> !(old(self).hook.errors@.is_empty()
                && throw_count(old(self).children) == 0),
            final(state).fallback matches Some(f) ==> f.content@ == sync_html(old(self).fallback)
                && !f.hydrated,
            final(state).active().mounted == (old(state).active().elements@.len() > 0),
            final(state).one_presentation(),
            final(self).hook.errors@.is_empty() <==> (old(self).hook.errors@.is_empty()
                && throw_count(old(self).children) == 0),
            hook_preserved(old(self).hook, final(self).hook),
            same_descriptor(*old(self), *final(self)),
    {
        let mut new_state = self.build();
        match &mut new_state.fallback {
            Some(f) => {
                let _ok = state.insert_before_this(f);
            },
            None => {
                let _ok = state.insert_before_this(&mut new_state.children);
            },
        }
        state.unmount();
        *state = new_state;
    }

    /// Resolution of embedded async sub-views: the boundary travels on with
    /// its children resolved; the hook, identity, fallback and suspension
    /// count are carried through unchanged.
    pub fn resolve(self) -> (r: Self)
        ensures
            sync_html(r.children) == sync_html(self.children),
            throw_count(r.children) == throw_count(self.children),
            suspend_count(r.children) == 0,
            r.hook == self.hook,
            r.boundary_id == self.boundary_id,
            r.fallback == self.fallback,
            r.suspended_children == self.suspended_children,
    {
        let ErrorBoundaryView { hook, boundary_id, children, fallback, suspended_children } = self;
        ErrorBoundaryView {
            hook,
            boundary_id,
            children: children.resolve(),
            fallback,
            suspended_children,
        }
    }

    /// Synchronous HTML serialization. The children are serialized into a
    /// scratch buffer first — errors are discovered only as a side effect
    /// of serialization — and only then the registry decides: if it ended
    /// up empty the scratch buffer is emitted, otherwise it is discarded
    /// and the fallback is serialized in its place. The output is never a
    /// mix of partial children output and fallback output.
    pub fn to_html_with_buf(&mut self, buf: &mut String)
        ensures
            (old(self).hook.errors@.is_empty() && throw_count(old(self).children) == 0) ==> final(buf)@ == old(buf)@ + sync_html(old(self).children),
            !(old(self).hook.errors@.is_empty() && throw_count(old(self).children) == 0) ==> final(buf)@ == old(buf)@ + sync_html(old(self).fallback),
            final(self).hook.errors@.is_empty() <==> (old(self).hook.errors@.is_empty()
                && throw_count(old(self).children) == 0),
            hook_preserved(old(self).hook, final(self).hook),
            final(self).suspended_children == old(self).suspended_children,
            same_descriptor(*old(self), *final(self)),
    {
        let mut new_buf = String::new();
        (&self.children).to_html_with_buf(&mut self.hook, &mut new_buf);
        let ghost mid = self.hook;
        // any thrown errors have been caught here
        if self.hook.errors.is_empty() {
            buf.append(new_buf.as_str());
            proof {
                lemma_hook_preserved_refl(self.hook);
                lemma_hook_preserved_trans(old(self).hook, mid, self.hook);
                assert(Seq::<char>::empty() + sync_html(old(self).children) =~= sync_html(
                    old(self).children,
                ));
            }
        } else {
            (&self.fallback).to_html_with_buf(&mut self.hook, buf);
            proof {
                lemma_hook_preserved_trans(old(self).hook, mid, self.hook);
            }
        }
    }

    /// The finishing step of streamed serialization for a boundary with
    /// suspended descendants; it runs only after every registered receiver
    /// has been signalled, with the registry as the suspended children left
    /// it. The children's chunks are flattened in place — each deferred
    /// chunk resolving in the position slot reserved for it — and the same
    /// emptiness decision is applied: the flattened chunks are emitted, or
    /// discarded and replaced by the serialized fallback as a single chunk.
    pub fn finish_async_boundary(&mut self, child_chunks: Vec<StreamChunk>) -> (out: Vec<
        StreamChunk,
    >)
        ensures
            old(self).hook.errors@.is_empty() ==> out@ == flattened_chunks(child_chunks@)
                && chunks_text(out@) == chunks_text(child_chunks@),
            !old(self).hook.errors@.is_empty() ==> chunks_text(out@) == sync_html(
                old(self).fallback,
            ) && out@.len() == 1 && out@[0] is Sync,
            old(self).hook.errors@.is_empty() ==> *final(self) == *old(self),
            final(self).hook.errors@.is_empty() == old(self).hook.errors@.is_empty(),
            hook_preserved(old(self).hook, final(self).hook),
            final(self).suspended_children == old(self).suspended_children,
            same_descriptor(*old(self), *final(self)),
    {
        if self.hook.errors.is_empty() {
            proof {
                lemma_hook_preserved_refl(self.hook);
            }
            flatten_chunks(child_chunks)
        } else {
            let mut fallback = String::new();
            (&self.fallback).to_html_with_buf(&mut self.hook, &mut fallback);
            let mut out: Vec<StreamChunk> = Vec::new();
            proof {
                assert(Seq::<char>::empty() + sync_html(old(self).fallback) =~= sync_html(
                    old(self).fallback,
                ));
            }
            out.push(StreamChunk::Sync(fallback));
            proof {
                lemma_chunks_text_singleton(StreamChunk::Sync(fallback));
                assert(out@ =~= seq![StreamChunk::Sync(fallback)]);
            }
            out
        }
    }

    /// Streamed HTML serialization. The children are serialized into an
    /// async-capable scratch buffer. With no suspended descendants this
    /// degenerates to the synchronous decision: the scratch buffer is
    /// appended, or the fallback serialized as one resolved chunk. With
    /// suspended descendants the boundary instead reserves a single
    /// deferred slot holding the finishing step's output, since the
    /// emptiness decision must wait for them; the host joins all registered
    /// receivers before that slot's content is produced.
    pub fn to_html_async_with_buf(&mut self, buf: &mut StreamBuilder, out_of_order: bool)
        ensures
            (old(self).hook.errors@.is_empty() && throw_count(old(self).children) == 0) ==> final(buf).text() == old(buf).text() + sync_html(old(self).children),
            !(old(self).hook.errors@.is_empty() && throw_count(old(self).children) == 0) ==> final(buf).text() == old(buf).text() + sync_html(old(self).fallback),
            final(self).hook.errors@.is_empty() <==> (old(self).hook.errors@.is_empty()
                && throw_count(old(self).children) == 0),
            hook_preserved(old(self).hook, final(self).hook),
            final(self).suspended_children == 0,
            same_descriptor(*old(self), *final(self)),
    {
        let mut new_buf = StreamBuilder::new();
        (&self.children).to_html_async_with_buf(&mut self.hook, &mut new_buf, out_of_order);
        let ghost mid = self.hook;
        let suspense_children = self.suspended_children;
        self.suspended_children = 0;
        if suspense_children == 0 {
            // not waiting for any suspended children: decide now
            if self.hook.errors.is_empty() {
                buf.append(new_buf);
                proof {
                    lemma_hook_preserved_refl(self.hook);
                    lemma_hook_preserved_trans(old(self).hook, mid, self.hook);
                    assert(Seq::<char>::empty() + sync_html(old(self).children) =~= sync_html(
                        old(self).children,
                    ));
                }
            } else {
                let mut fallback = String::new();
                (&self.fallback).to_html_with_buf(&mut self.hook, &mut fallback);
                buf.push_sync(fallback.as_str());
                proof {
                    lemma_hook_preserved_trans(old(self).hook, mid, self.hook);
                }
            }
        } else {
            // waiting for suspended children: reserve one deferred slot for
            // the whole boundary, resolved by the finishing step once every
            // receiver has been signalled
            let chunks = new_buf.take_chunks();
            let finished = self.finish_async_boundary(chunks);
            buf.push_async(finished);
            proof {
                lemma_hook_preserved_trans(old(self).hook, mid, self.hook);
                assert(Seq::<char>::empty() + sync_html(old(self).children) =~= sync_html(
                    old(self).children,
                ));
            }
        }
    }

    /// Hydration without async waiting: the presentation choice is made
    /// immediately from the current registry. With an empty registry the
    /// children are hydrated against the existing markup; otherwise the
    /// children are freshly built off the live tree — the markup may
    /// represent the error case — and the fallback is hydrated against the
    /// existing markup instead.
    pub fn hydrate(&mut self) -> (state: ErrorBoundaryViewState)
        ensures
            state.children.content@ == sync_html(old(self).children),
            !state.children.mounted,
            state.one_presentation(),
            state.showing_fallback() == !old(self).hook.errors@.is_empty(),
            old(self).hook.errors@.is_empty() ==> state.children.hydrated,
            !old(self).hook.errors@.is_empty() ==> !state.children.hydrated && (state.fallback
                matches Some(f) && f.hydrated && !f.mounted && f.content@ == sync_html(
                old(self).fallback,
            )),
            final(self).hook.errors@.is_empty() <==> (old(self).hook.errors@.is_empty()
                && throw_count(old(self).children) == 0),
            hook_preserved(old(self).hook, final(self).hook),
            final(self).suspended_children == old(self).suspended_children,
            same_descriptor(*old(self), *final(self)),
    {
        if self.hook.errors.is_empty() {
            let children = (&self.children).hydrate(&mut self.hook);
            ErrorBoundaryViewState { children, fallback: None }
        } else {
            let children = (&self.children).build(&mut self.hook);
            let ghost mid = self.hook;
            let fallback = (&self.fallback).hydrate(&mut self.hook);
            proof {
                lemma_hook_preserved_trans(old(self).hook, mid, self.hook);
            }
            ErrorBoundaryViewState { children, fallback: Some(fallback) }
        }
    }

    /// Hydration with async waiting: the identical decision, deferred until
    /// the initial registry state is known. The host awaits whatever
    /// resolves the initial errors before calling this, and drives later
    /// transitions through `apply_transition` as usual.
    pub fn hydrate_async(&mut self) -> (state: ErrorBoundaryViewState)
        ensures
            state.children.content@ == sync_html(old(self).children),
            !state.children.mounted,
            state.one_presentation(),
            state.showing_fallback() == !old(self).hook.errors@.is_empty(),
            old(self).hook.errors@.is_empty() ==> state.children.hydrated,
            !old(self).hook.errors@.is_empty() ==> !state.children.hydrated && (state.fallback
                matches Some(f) && f.hydrated && !f.mounted && f.content@ == sync_html(
                old(self).fallback,
            )),
            final(self).hook.errors@.is_empty() <==> (old(self).hook.errors@.is_empty()
                && throw_count(old(self).children) == 0),
            hook_preserved(old(self).hook, final(self).hook),
            final(self).suspended_children == old(self).suspended_children,
            same_descriptor(*old(self), *final(self)),
    {
        self.hydrate()
    }
}

} // verus!
