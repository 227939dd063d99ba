//! One function, two targets: the token-level engine that turns an annotated
//! function into a device entry point and a host mirror, and the decisions of
//! the backend that dispatches the entry point.

pub mod backend;
pub mod emit;
pub mod error;
pub mod laws;
pub mod marker;
pub mod rebind;
pub mod signature;
pub mod token;

pub use crate::backend::{Context, SpvFile};
pub use crate::error::TransformError;
pub use crate::marker::{cpu_only, entry, expand, gpu, BuildTarget, Marker};
pub use crate::token::{Delimiter, Spacing, Token};
