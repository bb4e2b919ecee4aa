//! Asset delivery for a desktop game client: a fetch-through cache that serves
//! resources from disk and downloads them from the content server on first use,
//! together with the rules of the local HTTP surface, the update check and the
//! configuration files around it.
//!
//! Everything here is pure: disk, network and timers belong to the caller, who
//! performs the actions this library asks for and reports back what happened.

pub mod account_manager;
pub mod commands;
pub mod config_manager;
pub mod fetch;
pub mod gateway;
pub mod laws;
pub mod normalize;
pub mod probe;
pub mod resource_manager;
pub mod text;
pub mod updater;
