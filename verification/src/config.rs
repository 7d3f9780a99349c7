use vstd::prelude::*;

use crate::query::resolved_zone;
use crate::zones::Zones;

verus! {

/// Configuration: the zone queried when the command line names none.
pub struct Config {
    pub default_zone: Zones,
}

impl Config {
    /// A configuration from an optionally supplied zone; without one, the
    /// designated default zone stands in.
    pub fn new(default_zone: Option<Zones>) -> (r: Config)
        ensures
            r.default_zone == resolved_zone(default_zone),
    {
        match default_zone {
            Some(z) => Config { default_zone: z },
            None => Config { default_zone: Zones::SGR01 },
        }
    }

    pub fn get_default_zone(&self) -> (r: Zones)
        ensures
            r == self.default_zone,
    {
        self.default_zone
    }
}

} // verus!
