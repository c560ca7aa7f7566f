//! Client-side peer synchronization for a replicated document store: decoding
//! of the identifier event stream, classification of the nodes' failures, a
//! record of the three synchronization mechanisms, one-shot sync requests, and
//! the decisions of a convergence verifier that polls within a budget.

pub mod api;
pub mod convergence;
pub mod error;
pub mod json;
pub mod peer;
pub mod registry;
pub mod sets;
pub mod stream;
pub mod sync;
pub mod text;
