//! Composition of feedback-coupled shader fragments: parameter discovery from
//! shader text, snippet imports, shader declarations, binding order and the
//! per-frame render plan.
pub mod bindgroups;
pub mod fragment;
pub mod model;
pub mod serial;
pub mod shapes;
pub mod text;
