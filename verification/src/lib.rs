//! The core of an interactive arbitrary-precision calculator: source-position
//! tracking, tokenizing, precedence-reduction parsing into a syntax tree,
//! exact rational evaluation against a variable store, and the numeric
//! routines for rational exponentiation and radix-aware decimal rendering.
//!
//! Data flows one way: text to tokens (`token`), tokens to a tree
//! (`syntax_tree`), the tree to an exact rational (`syntax_tree`, `numbers`,
//! `variable`), and the rational to a display string (`operations`). The
//! line-editing terminal, the on-disk persistence of history and variables,
//! and command dispatch are collaborators outside this library; `args` and
//! `input_history` carry the state they share with the core.

use vstd::prelude::*;

pub mod args;
pub mod digits;
pub mod errors;
pub mod input_history;
pub mod numbers;
pub mod operations;
pub mod position;
pub mod syntax_tree;
pub mod text;
pub mod token;
pub mod variable;

verus! {

} // verus!
