//! Lambda-calculus evaluation by interaction nets with Lévy-optimal sharing.
//!
//! Terms are compiled into a net of 3-port nodes (abstractions, applications
//! and sharing fans), the net is rewritten to normal form by local
//! interactions, and the result is read back as a lambda term.

pub mod ast;
pub mod net;
pub mod gc;
pub mod compactor;
pub mod conversion;
pub mod reduce;
pub mod text;
