//! An interpreter for a small dynamically typed language written as a
//! markup tree: every construct is a tagged element with attributes and
//! ordered children, and tag names are the operations.
//!
//! - [`value`]: the five kinds of values, their coercions and operators.
//! - [`float`]: binary64 numbers as bit patterns, and the float unit that
//!   supplies rounding arithmetic.
//! - [`text`]: character-level string helpers.
//! - [`element`]: the tree; [`tree`] builds it from markup events.
//! - [`env`]: variables, special frames and the function table.
//! - [`opcode`]: the operations that tag names stand for.
//! - [`fold`]: folds, chained comparisons and joins over children's values.
//! - [`interpreter`]: the evaluator; [`semantics`] states what it gives.
pub mod element;
pub mod env;
pub mod float;
pub mod fold;
pub mod interpreter;
pub mod opcode;
pub mod semantics;
pub mod text;
pub mod tree;
pub mod value;
