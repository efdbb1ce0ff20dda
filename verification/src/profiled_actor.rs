//! Metrics of profiled actors that can be compiled out.

use vstd::prelude::*;

verus! {

/// A metric that do not generate any code but is a drop in replacement to other Metric.
pub struct DeactivatedMetric();

impl DeactivatedMetric {
    /// The name is ignored.
    pub fn new(_name: &'static str) -> (r: Self) {
        Self()
    }
}

} // verus!
