//! Instrumentation of boundary components in JSX modules: elements bound to
//! a configured boundary import (`Suspense` from `react`, and any configured
//! `{ component, from }` pair) are rewritten into a tracker element that
//! carries a deterministic id, and the tracker import is injected once.
use vstd::prelude::*;

pub mod ast;
pub mod helpers;
pub mod fixpoint;
pub mod lemmas;
pub mod settings;
pub mod spec;
pub mod transform;

pub use helpers::{extract_line_number, generate_boundary_id, normalize_filename};
pub use settings::{default_enabled, Boundary, Config, Context, Environment};
pub use transform::{transform_module, TransformVisitor};

verus! {

} // verus!
