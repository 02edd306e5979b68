//! The view tree that an error boundary renders: a closed set of concrete
//! view node variants, each supporting the render capabilities the boundary
//! relies on — build (produce live state), synchronous HTML serialization,
//! and hydration against pre-rendered markup. A `Throw` node is a view whose
//! render step fails: it renders nothing and reports its error to the
//! current hook.

use crate::errors::ErrorValue;
use crate::hook::ErrorBoundaryErrorHook;
use crate::hook::hook_preserved;
use crate::hook::lemma_hook_preserved_refl;
use crate::hook::lemma_hook_preserved_trans;
use vstd::prelude::*;
use vstd::string::StringExecFns;

verus! {

/// A view descriptor. `Pair` composes two sibling sub-views in document
/// order; `Suspend` wraps a sub-view whose streamed serialization is
/// deferred (an async sub-view); `Throw` reports an error to the current
/// hook whenever it is built, serialized or hydrated, and renders nothing.
pub enum ViewNode {
    Nothing,
    Text(String),
    Throw(ErrorValue),
    Pair(Box<ViewNode>, Box<ViewNode>),
    Suspend(Box<ViewNode>),
}

/// The text a view contributes to synchronous HTML output, in document
/// order. A failing view contributes nothing; a suspended sub-view is
/// serialized in place on the synchronous path.
pub open spec fn sync_html(v: ViewNode) -> Seq<char>
    decreases v,
{
    match v {
        ViewNode::Nothing => Seq::empty(),
        ViewNode::Text(s) => s@,
        ViewNode::Throw(_) => Seq::empty(),
        ViewNode::Pair(a, b) => sync_html(*a) + sync_html(*b),
        ViewNode::Suspend(c) => sync_html(*c),
    }
}

/// How many errors a view throws during one render step.
pub open spec fn throw_count(v: ViewNode) -> nat
    decreases v,
{
    match v {
        ViewNode::Nothing => 0,
        ViewNode::Text(_) => 0,
        ViewNode::Throw(_) => 1,
        ViewNode::Pair(a, b) => throw_count(*a) + throw_count(*b),
        ViewNode::Suspend(c) => throw_count(*c),
    }
}

/// How many suspended sub-views a view still embeds.
pub open spec fn suspend_count(v: ViewNode) -> nat
    decreases v,
{
    match v {
        ViewNode::Nothing => 0,
        ViewNode::Text(_) => 0,
        ViewNode::Throw(_) => 0,
        ViewNode::Pair(a, b) => suspend_count(*a) + suspend_count(*b),
        ViewNode::Suspend(c) => 1 + suspend_count(*c),
    }
}

/// How many nodes a built view occupies.
pub open spec fn node_count(v: ViewNode) -> nat
    decreases v,
{
    match v {
        ViewNode::Nothing => 0,
        ViewNode::Text(_) => 1,
        ViewNode::Throw(_) => 0,
        ViewNode::Pair(a, b) => node_count(*a) + node_count(*b),
        ViewNode::Suspend(c) => node_count(*c),
    }
}

/// Built (live) view state: the capability contract any built state must
/// satisfy — attach to a parent, detach, report occupied nodes, and splice
/// another state in before itself.
#[derive(Debug)]
pub struct BuiltView {
    /// The rendered content this state holds.
    pub content: String,
    /// The nodes this state occupies, in document order.
    pub elements: Vec<u64>,
    /// Whether this state is currently attached to a parent.
    pub mounted: bool,
    /// Whether this state was attached to pre-rendered markup rather than
    /// built off-tree.
    pub hydrated: bool,
}

fn copy_ids(v: &Vec<u64>) -> (r: Vec<u64>)
    ensures
        r@ == v@,
{
    let mut r: Vec<u64> = Vec::new();
    let mut i: usize = 0;
    while i < v.len()
        invariant
            0 <= i <= v@.len(),
            r@ == v@.subrange(0, i as int),
        decreases v@.len() - i,
    {
        r.push(v[i]);
        i = i + 1;
    }
    proof {
        assert(r@ =~= v@);
    }
    r
}

impl BuiltView {
    /// Attach this state under `parent` at the position `marker` denotes.
    pub fn mount(&mut self, _parent: u64, _marker: Option<u64>)
        ensures
            *final(self) == (BuiltView { mounted: true, ..*old(self) }),
    {
        self.mounted = true;
    }

    /// Detach this state from its parent: afterwards none of its elements
    /// is attached.
    pub fn unmount(&mut self)
        ensures
            *final(self) == (BuiltView { mounted: false, ..*old(self) }),
    {
        self.mounted = false;
    }

    /// Splice `child` in immediately before this state's position. Returns
    /// whether insertion was possible: `false` when this state occupies no
    /// nodes, signalling the caller to recurse to a more specific anchor.
    pub fn insert_before_this(&self, child: &mut BuiltView) -> (ok: bool)
        ensures
            ok == (self.elements@.len() > 0),
            ok ==> *final(child) == (BuiltView { mounted: true, ..*old(child) }),
            !ok ==> *final(child) == *old(child),
    {
        if self.elements.len() > 0 {
            child.mounted = true;
            true
        } else {
            false
        }
    }

    /// The nodes this state occupies, in document order.
    pub fn elements(&self) -> (r: Vec<u64>)
        ensures
            r@ == self.elements@,
    {
        copy_ids(&self.elements)
    }
}

/// One render step over a view: append its text to `content`, its occupied
/// nodes to `elements`, and report every thrown error to `hook`.
fn render_into(
    v: &ViewNode,
    hook: &mut ErrorBoundaryErrorHook,
    content: &mut String,
    elements: &mut Vec<u64>,
)
    ensures
        final(content)@ == old(content)@ + sync_html(*v),
        final(elements)@.len() == old(elements)@.len() + node_count(*v),
        final(hook).errors@.is_empty() <==> (old(hook).errors@.is_empty() && throw_count(*v) == 0),
        final(hook).id == old(hook).id,
        final(hook).shared_context is Some <==> old(hook).shared_context is Some,
        hook_preserved(*old(hook), *final(hook)),
        forall|k: u64|
            old(hook).errors@.contains_key(k) ==> final(hook).errors@.contains_key(k),
    decreases *v,
{
    match v {
        ViewNode::Nothing => {
            proof {
                lemma_hook_preserved_refl(*hook);
                assert(old(content)@ + sync_html(*v) =~= old(content)@);
            }
        },
        ViewNode::Text(s) => {
            content.append(s.as_str());
            let id = elements.len() as u64;
            elements.push(id);
            proof {
                lemma_hook_preserved_refl(*hook);
            }
        },
        ViewNode::Throw(e) => {
            let _key = hook.throw(e.clone());
            proof {
                assert(old(content)@ + sync_html(*v) =~= old(content)@);
            }
        },
        ViewNode::Pair(a, b) => {
            render_into(&*a, hook, content, elements);
            let ghost mid = *hook;
            render_into(&*b, hook, content, elements);
            proof {
                lemma_hook_preserved_trans(*old(hook), mid, *hook);
                assert((old(content)@ + sync_html(**a)) + sync_html(**b) =~= old(content)@ + (
                sync_html(**a) + sync_html(**b)));
            }
        },
        ViewNode::Suspend(c) => {
            render_into(&*c, hook, content, elements);
        },
    }
}

impl ViewNode {
    /// Build live state for this view: its content and occupied nodes, not
    /// yet attached to a parent. Any error thrown while building lands in
    /// the hook's registry.
    pub fn build(&self, hook: &mut ErrorBoundaryErrorHook) -> (s: BuiltView)
        ensures
            s.content@ == sync_html(*self),
            s.elements@.len() == node_count(*self),
            !s.mounted,
            !s.hydrated,
            final(hook).errors@.is_empty() <==> (old(hook).errors@.is_empty() && throw_count(*self)
                == 0),
            final(hook).id == old(hook).id,
            final(hook).shared_context is Some <==> old(hook).shared_context is Some,
            hook_preserved(*old(hook), *final(hook)),
            forall|k: u64|
                old(hook).errors@.contains_key(k) ==> final(hook).errors@.contains_key(k),
    {
        let mut content = String::new();
        let mut elements: Vec<u64> = Vec::new();
        render_into(self, hook, &mut content, &mut elements);
        BuiltView { content, elements, mounted: false, hydrated: false }
    }

    /// Attach behavior to this view's pre-rendered markup. The resulting
    /// state is live over the existing nodes. Any error thrown while
    /// hydrating lands in the hook's registry.
    pub fn hydrate(&self, hook: &mut ErrorBoundaryErrorHook) -> (s: BuiltView)
        ensures
            s.content@ == sync_html(*self),
            s.elements@.len() == node_count(*self),
            !s.mounted,
            s.hydrated,
            final(hook).errors@.is_empty() <==> (old(hook).errors@.is_empty() && throw_count(*self)
                == 0),
            final(hook).id == old(hook).id,
            final(hook).shared_context is Some <==> old(hook).shared_context is Some,
            hook_preserved(*old(hook), *final(hook)),
            forall|k: u64|
                old(hook).errors@.contains_key(k) ==> final(hook).errors@.contains_key(k),
    {
        let mut content = String::new();
        let mut elements: Vec<u64> = Vec::new();
        render_into(self, hook, &mut content, &mut elements);
        BuiltView { content, elements, mounted: false, hydrated: true }
    }

    /// Resolution of embedded async sub-views: the same content with every
    /// suspension settled. Text, occupied nodes and thrown errors are
    /// exactly those of the unresolved view.
    pub fn resolve(self) -> (r: Self)
        ensures
            sync_html(r) == sync_html(self),
            throw_count(r) == throw_count(self),
            node_count(r) == node_count(self),
            suspend_count(r) == 0,
        decreases self,
    {
        match self {
            ViewNode::Nothing => ViewNode::Nothing,
            ViewNode::Text(s) => ViewNode::Text(s),
            ViewNode::Throw(e) => ViewNode::Throw(e),
            ViewNode::Pair(a, b) => ViewNode::Pair(
                Box::new((*a).resolve()),
                Box::new((*b).resolve()),
            ),
            ViewNode::Suspend(c) => (*c).resolve(),
        }
    }

    /// Serialize this view to HTML, appending to `buf`. Any error thrown
    /// during serialization lands in the hook's registry as a side effect.
    pub fn to_html_with_buf(&self, hook: &mut ErrorBoundaryErrorHook, buf: &mut String)
        ensures
            final(buf)@ == old(buf)@ + sync_html(*self),
            final(hook).errors@.is_empty() <==> (old(hook).errors@.is_empty() && throw_count(*self)
                == 0),
            final(hook).id == old(hook).id,
            final(hook).shared_context is Some <==> old(hook).shared_context is Some,
            hook_preserved(*old(hook), *final(hook)),
            forall|k: u64|
                old(hook).errors@.contains_key(k) ==> final(hook).errors@.contains_key(k),
    {
        let mut elements: Vec<u64> = Vec::new();
        render_into(self, hook, buf, &mut elements);
    }
}

} // verus!
