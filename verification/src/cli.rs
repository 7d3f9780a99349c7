use vstd::prelude::*;

use crate::zones::Zones;

verus! {

/// The argument of the `Today` subcommand: which zone to query.
pub struct ZoneInfo {
    pub zone: Zones,
}

/// A zone and time pair as raw command-line text.
pub struct ZoneTimeInfo {
    pub zone: Option<String>,
    pub time: String,
}

/// The subcommands the tool understands: today's prayer times for a zone,
/// or the list of known zones.
pub enum Commands {
    Today(ZoneInfo),
    List,
}

} // verus!
