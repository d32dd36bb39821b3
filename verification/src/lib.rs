//! Core of an interactive calculator: an expression model with source spans,
//! an evaluator over checked 64-bit unsigned arithmetic, and a renderer that
//! turns lex, parse and evaluation failures into annotated reports.
//!
//! Producing the expression tree from text is the job of an external parser
//! service; this crate only consumes the spans, repair sequences and opaque
//! help strings that such a service hands over as plain values.

pub mod error;
pub mod eval;
pub mod expr;
pub mod span;
pub mod stackhashmap;

pub use error::Failure;
pub use error::Label;
pub use error::Repair;
pub use error::Report;
pub use error::Severity;
pub use eval::EvalFailure;
pub use expr::Expr;
pub use expr::Op;
pub use span::Span;
pub use stackhashmap::StackHashMap;
