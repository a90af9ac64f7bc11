//! The constraint system the tables are written against: columns, queries,
//! polynomial expressions and gates, and an assignment to check them on.

pub mod circuit;
pub mod constraint_system;
pub mod expression;
pub mod permutation;
pub mod sealed;
pub mod witness;
