//! Marshaling of TPM 2.0 structures to and from their wire format.
//!
//! Values are written big-endian into caller-supplied buffers and read back
//! from borrowed input without copying; nothing here allocates. Which
//! algorithms a build accepts is fixed by a [`Limits`](marshal::Limits) type
//! that every call is generic over.

pub mod algs;
pub mod base;
pub mod conventions;
pub mod endian;
pub mod errors;
pub mod marshal;
pub mod profiles;
pub mod tpmt_ha;

pub use algs::{TpmiAlgHash, TpmiEccCurve};
pub use tpmt_ha::TpmtHa;
