//! Configuration records for the parts of the engine that are
//! configured at startup. Angles are integer micro-degrees, so
//! `41_008_200` means 41.0082 degrees.

use vstd::prelude::*;

verus! {

/// Default wake time used when none is configured.
pub fn default_wake_time() -> (s: String)
    ensures
        s@ == "07:00"@,
{
    "07:00".to_owned()
}

/// Default duration of a smooth transition, in milliseconds.
pub fn default_transition_duration_ms() -> (r: u64)
    ensures
        r == 750,
{
    750
}

#[derive(Debug, Clone)]
pub struct GeneralConfig {
    pub enabled: bool,
    pub mode: String,
    pub log_level: String,
    pub wake_time: String,
}

/// Geographic position used by the solar calculator, in
/// micro-degrees; `None` falls back to the built-in default location.
#[derive(Debug, Clone)]
pub struct LocationConfig {
    pub method: String,
    pub latitude: Option<i64>,
    pub longitude: Option<i64>,
    pub timezone: String,
}

impl LocationConfig {
    /// Coordinates, where given, are real places on the globe.
    pub open spec fn wf(self) -> bool {
        &&& match self.latitude {
            Some(lat) => -90_000_000 <= lat <= 90_000_000,
            None => true,
        }
        &&& match self.longitude {
            Some(lon) => -180_000_000 <= lon <= 180_000_000,
            None => true,
        }
    }
}

} // verus!
