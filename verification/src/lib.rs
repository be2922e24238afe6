//! A binary data representation layer: byte buffers reinterpreted as typed
//! data, with validation, byte-order normalization, and a little-endian
//! fast path.
//!
//! The heart of the crate is a pair of wire-type contracts. A fixed-width
//! wire type ([`ule::ULE`]) views a byte buffer as a sequence of equally
//! sized little-endian values; a variable-width wire type ([`ule::VarULE`])
//! views a whole buffer as a single self-describing value. Logical types
//! bridge to their wire counterparts through [`ule::AsULE`] and
//! [`ule::AsVarULE`], and [`ule::EqULE`] marks the types whose native layout
//! already matches the wire on little-endian targets.

pub mod pair;
pub mod plain;
pub mod sign;
pub mod text;
pub mod ule;
