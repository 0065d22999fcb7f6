use vstd::prelude::*;

verus! {

/// Parts per million: `1_000_000` stands for a ratio of 1.
pub const PPM_ONE: u32 = 1_000_000;

/// One row of the utilization endpoint, with ratios held in fixed point.
#[derive(Clone, Debug)]
pub struct UtilizationSample {
    pub name: String,
    pub active_instance_count: u64,
    /// `utilization_current`, in parts per million.
    pub utilization_ppm: u32,
    /// `rate_limit_ratio_5m`, in parts per million.
    pub rate_limit_ppm: u32,
    pub scalable: bool,
    /// `scale_allowance`, in thousandths, when the endpoint reports one.
    pub scale_allowance_milli: Option<u32>,
}

/// The fleet state as last fetched: replaced whole, never edited in place.
#[derive(Clone, Debug)]
pub struct ControlPlaneSnapshot {
    /// The ids of the model catalog, in the order the endpoint gave them.
    pub models: Vec<String>,
    /// The utilization rows, in the order the endpoint gave them.
    pub utilization: Vec<UtilizationSample>,
    /// When the later of the two halves was fetched, in milliseconds.
    pub fetched_at_ms: u64,
}

impl ControlPlaneSnapshot {
    /// A snapshot that holds nothing yet.
    pub fn empty() -> (r: Self)
        ensures
            r.models@.len() == 0,
            r.utilization@.len() == 0,
            r.fetched_at_ms == 0,
    {
        ControlPlaneSnapshot { models: Vec::new(), utilization: Vec::new(), fetched_at_ms: 0 }
    }
}

} // verus!
