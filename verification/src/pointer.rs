//! Tagged references used as register payloads and pool keys.
use vstd::prelude::*;

verus! {

/// A tagged reference. Only `Register` handles are valid pool keys; the pool
/// rejects the other kinds. `Static` reserves an offset into static storage
/// and `Memory` an address in the external byte-memory module; `Null` is the
/// points-nowhere sentinel.
#[derive(Debug, Clone, Copy, PartialEq, Eq, Structural)]
pub enum Ptr {
    Register(u16),
    Static(u16),
    Memory(u16),
    Null,
}

} // verus!
