//! Algebra objects: numeric algorithms written once against capability
//! interfaces and applied to any value representation.
//!
//! A value type is a bare carrier. An algebra object decides what the
//! operations on it mean, including how a result that leaves the domain is
//! brought back into it. Each capability is a trait of its own, so that an
//! algebra takes on only what it supports and an algorithm asks only for what
//! it uses.

pub mod capability;
pub mod decimal;
pub mod error;
pub mod laws;
pub mod sint4;
pub mod storage;
pub mod transform;
