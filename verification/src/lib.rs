//! Verified core of a PHP static analyzer: expression identifiers and
//! variable keys, the shape-driven decisions of type reconciliation, guard
//! tracking, loop analysis, class constant resolution, magic method calls
//! and method-signature checks.
use vstd::prelude::*;

pub mod assignments;
pub mod conditional;
pub mod constants;
pub mod expr;
pub mod expr_id;
pub mod expr_props;
pub mod foreach;
pub mod guards;
pub mod instance_access;
pub mod integer_narrowing;
pub mod iteration;
pub mod jumps;
pub mod keys;
pub mod literal_equality;
pub mod loop_control;
pub mod loops;
pub mod magic_calls;
pub mod null_access;
pub mod path;
pub mod reconcile;
pub mod references;
pub mod resolution;
pub mod signature;
pub mod text;

verus! {

} // verus!
