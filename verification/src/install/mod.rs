//! Installing an instance: classifying the installer source, rewriting the
//! installer into the instance, the installer's environment, and picking the
//! installed binary.

pub mod download;
pub mod rewriter;
pub mod detect;
pub mod executor;
