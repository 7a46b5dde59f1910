use vstd::prelude::*;

use crate::address::UniversalAddress;

verus! {

/// The router's one global record: the deployment owner, the pause flag the
/// owner may toggle, and the counter handing out integrator ids.
#[derive(Clone, Copy, Debug, PartialEq, Eq, Structural)]
pub struct Config {
    /// The deployment owner, the only identity allowed to toggle `paused`.
    pub owner: UniversalAddress,
    /// The pause flag; false at deployment.
    pub paused: bool,
    /// The id the next integrator registration receives. Only ever
    /// increases, so an id is never reused.
    pub next_integrator_id: u64,
}

impl Config {
    /// The state created once at deployment.
    pub fn new(owner: UniversalAddress) -> (r: Self)
        ensures
            r.owner == owner,
            !r.paused,
            r.next_integrator_id == 0,
    {
        Config { owner, paused: false, next_integrator_id: 0 }
    }
}

} // verus!
