use vstd::prelude::*;

verus! {

/// The pacing delay for a given base: simulation rounds run at two percent
/// of the interactive delay (rounded down), interactive rounds at full.
pub fn get_delay_multiplied(base_millis: u64, simulation_active: bool) -> (r: u64)
    ensures
        simulation_active ==> r == base_millis / 50,
        !simulation_active ==> r == base_millis,
{
    if simulation_active {
        base_millis / 50
    } else {
        base_millis
    }
}

} // verus!
