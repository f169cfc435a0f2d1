//! Policies for common IoT scenarios.

use vstd::prelude::*;

verus! {

/// Builder of rules for common IoT scenarios (threshold alerts, ranges to
/// maintain). The rules themselves are built by the agent runtime.
pub struct IoTPolicyBuilder;

} // verus!
