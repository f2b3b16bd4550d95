//! The evaluator's boundary.
//!
//! Evaluation itself is an external collaborator of this core: the core
//! guarantees the IR it hands over is scope-resolved and collision-free,
//! and states here only the expected input boundary — an IR element plus
//! an identifier-to-value environment, producing an optional value or a
//! fault description.

use crate::ir::{Ident, Prim};
use std::collections::HashMap;
use vstd::prelude::*;

verus! {

/// A runtime value.
#[derive(Debug, Clone, PartialEq, Eq)]
pub enum Value {
    Prim(Prim),
}

/// What an evaluator consumes and produces.
pub trait Eval {
    /// Evaluates `self` under the given environment, yielding an
    /// optional value or a fault description.
    fn eval(&self, ctxt: &mut HashMap<Ident, Value>) -> Result<Option<Value>, &'static str>;
}

} // verus!
