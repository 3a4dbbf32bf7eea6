//! The application's own environment settings.

use vstd::prelude::*;

verus! {

/// Application environment variables (none yet).
pub struct AppEnv {}

impl AppEnv {
    /// The application's environment settings.
    pub fn new() -> (env: AppEnv)
        ensures
            env == (AppEnv {}),
    {
        AppEnv {}
    }
}

} // verus!
