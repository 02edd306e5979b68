//! An error-boundary rendering core: a registry of errors thrown by
//! descendant views, a pluggable error hook that records them, and a
//! boundary component that atomically swaps between child content and a
//! fallback, across client builds, synchronous and streamed HTML
//! serialization, and hydration of pre-rendered markup.

mod boundary;
mod errors;
mod hook;
mod ssr;
mod view;

pub use boundary::ErrorBoundary;
pub use boundary::ErrorBoundaryView;
pub use boundary::ErrorBoundaryViewState;
pub use boundary::TransitionAction;
pub use boundary::same_descriptor;
pub use boundary::transition_action;

pub use ssr::StreamBuilder;
pub use ssr::StreamChunk;
pub use ssr::chunk_text;
pub use ssr::chunks_text;
pub use ssr::chunks_text_from;
pub use ssr::flatten_chunks;
pub use ssr::flatten_one;
pub use ssr::flattened_chunks;
pub use ssr::lemma_chunks_text_concat;
pub use ssr::lemma_chunks_text_push;
pub use ssr::lemma_chunks_text_singleton;
pub use ssr::lemma_flatten_preserves_order;

pub use view::BuiltView;
pub use view::ViewNode;
pub use view::node_count;
pub use view::suspend_count;
pub use view::sync_html;
pub use view::throw_count;

pub use hook::ErrorBoundaryErrorHook;
pub use hook::HookGuard;
pub use hook::HookScope;
pub use hook::SharedContext;
pub use hook::errors_recorded_for;
pub use hook::hook_preserved;
pub use hook::lemma_hook_preserved_refl;
pub use hook::lemma_hook_preserved_trans;
pub use hook::pairs_to_map;
pub use errors::ErrorId;
pub use errors::ErrorValue;
pub use errors::Errors;
pub use errors::IntoIter;
pub use errors::Iter;
pub use errors::RegistryOp;
pub use errors::apply_ops;
pub use errors::net_ids;
pub use errors::lemma_registry_reflects_net_ops;
