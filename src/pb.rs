use vstd::prelude::*;

verus! {

/// One non-zero bucket of a sparse histogram: `flips` runs at `position`.
#[derive(Clone, Copy, Debug, PartialEq, Eq, Structural)]
pub struct Coinflip {
    pub position: u32,
    pub flips: u64,
}

/// A batch submitted by a worker: its client id, a sparse histogram
/// fragment and the number of flips it covers.
#[derive(Clone, Debug)]
pub struct Coinbatch {
    pub hash: i64,
    pub flips: Vec<Coinflip>,
    pub total_flips: i64,
}

/// Throughput of one client, in flips per second.
#[derive(Clone, Copy, Debug, PartialEq, Eq, Structural)]
pub struct Coinstats {
    pub hash: i64,
    pub flips_per_second: i64,
}

/// The collector's status: merged sparse histogram, grand total, aggregate
/// throughput and per-client throughput.
#[derive(Clone, Debug)]
pub struct Coinstatus {
    pub flips: Vec<Coinflip>,
    pub total_flips: i64,
    pub flips_per_second: u64,
    pub stats: Vec<Coinstats>,
}

} // verus!
