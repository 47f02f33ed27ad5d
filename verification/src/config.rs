//! Persisted application settings.

use vstd::prelude::*;

verus! {

/// Persisted application settings.
/// A brightness/temperature of -1 (any negative value) means "unset, skip".
#[derive(Debug, Clone)]
pub struct Config {
    pub ip_address: String,
    pub brightness: i32,
    pub temperature: i32,
}

/// Whether a saved brightness or temperature holds a value (is not the unset sentinel).
pub open spec fn is_saved(v: int) -> bool {
    v >= 0
}

impl Default for Config {
    fn default() -> (r: Self)
        ensures
            r.ip_address@.len() == 0,
            r.brightness == -1,
            r.temperature == -1,
    {
        Config { ip_address: String::new(), brightness: -1, temperature: -1 }
    }
}

} // verus!
