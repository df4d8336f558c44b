//! The schema versions that the canonical model is projected to.
pub mod v1_3;
