//! The hooks run around the server's start and shutdown.

use vstd::prelude::*;

verus! {

/// Work a lifecycle hook asks for.
pub enum LifecycleEffect {
    /// Log a warning.
    Warn(String),
    /// Log an informational message.
    Info(String),
    /// Close the database connection pool.
    ClosePool,
}

/// Hooks run before the server starts, once it has started, when it begins
/// to shut down and once it has stopped. Each returns, in order, the work it
/// asks for.
pub trait AxumLifecycleTrait {
    fn before_axum_start() -> Vec<LifecycleEffect>;

    fn after_axum_start() -> Vec<LifecycleEffect>;

    fn before_axum_close() -> Vec<LifecycleEffect>;

    fn after_axum_close() -> Vec<LifecycleEffect>;
}

/// The application's lifecycle hooks.
pub struct AxumLifecycle;

impl AxumLifecycleTrait for AxumLifecycle {
    /// Nothing to do before the start.
    fn before_axum_start() -> (effects: Vec<LifecycleEffect>)
        ensures
            effects@.len() == 0,
    {
        Vec::new()
    }

    /// Nothing to do after the start.
    fn after_axum_start() -> (effects: Vec<LifecycleEffect>)
        ensures
            effects@.len() == 0,
    {
        Vec::new()
    }

    /// Announces the shutdown and the wait for pending requests.
    fn before_axum_close() -> (effects: Vec<LifecycleEffect>)
        ensures
            effects@.len() == 2,
            effects@[0] matches LifecycleEffect::Warn(m) && m@ == "The server is shutting down!"@,
            effects@[1] matches LifecycleEffect::Info(m) && m@
                == "Waiting for pending requests (max. 15s)..."@,
    {
        let mut effects: Vec<LifecycleEffect> = Vec::new();
        effects.push(LifecycleEffect::Warn("The server is shutting down!".to_owned()));
        effects.push(LifecycleEffect::Info("Waiting for pending requests (max. 15s)...".to_owned()));
        effects
    }

    /// Reports that every pending request was served, then closes the pool.
    fn after_axum_close() -> (effects: Vec<LifecycleEffect>)
        ensures
            effects@.len() == 2,
            effects@[0] matches LifecycleEffect::Info(m) && m@
                == "All pending requests have been processed!"@,
            effects@[1] is ClosePool,
    {
        let mut effects: Vec<LifecycleEffect> = Vec::new();
        effects.push(LifecycleEffect::Info("All pending requests have been processed!".to_owned()));
        effects.push(LifecycleEffect::ClosePool);
        effects
    }
}

} // verus!
