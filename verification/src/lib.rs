//! Execution core of a parser-combinator library: a parse-outcome algebra
//! that accumulates failures across alternatives, a trampoline driver that
//! performs deferred calls iteratively so continuation chains run in constant
//! host stack depth, and a literal matcher as the reference primitive.

pub mod outcome;
pub mod primitives;
pub mod stream;
pub mod trampoline;
