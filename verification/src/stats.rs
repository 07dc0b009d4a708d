//! Construction of the 2x2 contingency table handed to the exact test.
//!
//! The test itself works in floating point over a log-factorial table and
//! lives outside the verified core; what is verified here is that the four
//! cell counts are built exactly as the scoring pipeline defines them and
//! cannot underflow or overflow.
use vstd::prelude::*;

verus! {

/// The four cells of the enrichment contingency table, in the order the
/// exact test consumes them: (overlap, user-only, row-only, rest).
pub struct ContingencyTable {
    pub a: u32,
    pub b: u32,
    pub c: u32,
    pub d: u32,
}

/// Build the table for one scored row:
/// a = overlap, b = userSize - a, c = rowSize - a, d = backgroundSize - b - c + a.
///
/// The caller guarantees the margins are consistent (overlap no larger than
/// either set, user set inside the background, and a non-negative rest cell);
/// with an inconsistent table the test would be meaningless, so such inputs
/// are a programming error, not a runtime case.
pub fn contingency(n_overlap: u32, n_user: u32, n_gs: u32, n_background: u32) -> (t:
    ContingencyTable)
    requires
        n_overlap <= n_user,
        n_overlap <= n_gs,
        n_user <= n_background,
        n_user + n_gs <= n_background + n_overlap,
        n_background + n_overlap <= u32::MAX,
    ensures
        t.a == n_overlap,
        t.b == n_user - n_overlap,
        t.c == n_gs - n_overlap,
        t.d == n_background - t.b - t.c + t.a,
{
    let a: u32 = n_overlap;
    let b: u32 = n_user - a;
    let c: u32 = n_gs - a;
    let d: u32 = ((n_background - b) + a) - c;
    ContingencyTable { a, b, c, d }
}

} // verus!
