//! Gene-set enrichment core: bit-vector encodings of gene sets against a
//! background universe, exact contingency-table construction, text filtering,
//! pagination, and the keyed index store that holds one compiled index per
//! background.
//!
//! Gene and background identifiers are carried as plain 128-bit integers.
//! Quality scores are carried opaquely as 64-bit patterns; every ordering or
//! threshold decision on them is made outside this crate.
use vstd::prelude::*;

pub mod bitvec;
pub mod fingerprint;
pub mod index;
pub mod store;
pub mod paging;
pub mod stats;
pub mod text;

verus! {

/// Hard cap on the number of columns (genes) in one background index.
/// Column indices are assigned 0..n-1, so a background may hold at most
/// this many genes; larger universes must be rejected before building.
pub const MAX_COLUMNS: usize = 65535;

/// The failure taxonomy of the core: a request named an identifier that does
/// not parse, named a background (or the latest-built sentinel) that resolves
/// to nothing, or the external data source failed mid-build.
pub enum EnrichError {
    MalformedIdentifier,
    NotFound,
    UpstreamFailure,
}

impl EnrichError {
    /// Stable short code for each failure kind, for boundary layers to map
    /// onto their own status vocabulary.
    pub fn code(&self) -> (r: u16)
        ensures
            r == match self {
                EnrichError::MalformedIdentifier => 400u16,
                EnrichError::NotFound => 404u16,
                EnrichError::UpstreamFailure => 500u16,
            },
    {
        match self {
            EnrichError::MalformedIdentifier => 400,
            EnrichError::NotFound => 404,
            EnrichError::UpstreamFailure => 500,
        }
    }
}

} // verus!
