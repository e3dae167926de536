//! Execution core of a black-box optimization engine: a run supervisor that
//! arbitrates between an optimization driver and a caller's control stream,
//! and the decision logic of a process-based objective-function evaluator.

pub mod error;
pub mod evaluator;
pub mod json;
pub mod value;
pub mod supervisor;
