//! Verified core of the cheesecake web application skeleton: the pure
//! decisions behind error reporting, logging set-up, template reloading,
//! routing limits and the server lifecycle.

pub mod trace;
pub mod app_error;
pub mod logging;
pub mod path_search;
pub mod routing;
pub mod view;
pub mod lifecycle;
pub mod env;
