//! A small query engine that runs `SELECT`-style queries directly against
//! structured access-log text (ELB, ALB, Squid and S3 log formats): a syntax
//! parser, a logical planner, a physical-plan compiler and a pull-based
//! streaming executor, each with a full functional contract.

pub mod codec;
pub mod driver;
pub mod execution;
pub mod laws;
pub mod logical;
pub mod physical;
pub mod schema;
pub mod syntax;
pub mod text;
pub mod values;

use vstd::prelude::*;

verus! {

} // verus!
