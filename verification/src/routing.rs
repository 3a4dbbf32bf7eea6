//! The limits and routes the application's router is built with.

use vstd::prelude::*;

verus! {

/// The most requests served at once for a connection pool of the given
/// size: one and a half times the pool, rounded down, and no more than a
/// `usize` holds.
pub open spec fn concurrency_limit_spec(max_connections: nat) -> int {
    let limit: nat = max_connections + max_connections / 2;
    if limit > usize::MAX {
        usize::MAX as int
    } else {
        limit as int
    }
}

/// The concurrency limit is one and a half times the pool, rounded down,
/// whenever that fits in a `usize` (so never below the pool's size), and the
/// largest `usize` otherwise.
pub proof fn lemma_concurrency_limit_three_halves(max_connections: nat)
    ensures
        3 * max_connections / 2 <= usize::MAX ==> 2 * concurrency_limit_spec(max_connections)
            <= 3 * max_connections < 2 * concurrency_limit_spec(max_connections) + 2,
        3 * max_connections / 2 <= usize::MAX ==> concurrency_limit_spec(max_connections)
            >= max_connections,
        3 * max_connections / 2 > usize::MAX ==> concurrency_limit_spec(max_connections)
            == usize::MAX,
{
}

/// The limits put on request handling.
pub struct RouterLimits {
    /// The most requests served at once.
    pub concurrency_limit: usize,
    /// How long a request may take, in seconds.
    pub timeout_secs: u64,
}

/// The most requests served at once for a connection pool of the given size.
pub fn concurrency_limit(max_connections: u32) -> (limit: usize)
    ensures
        limit == concurrency_limit_spec(max_connections as nat),
        3 * max_connections / 2 <= usize::MAX ==> 2 * limit <= 3 * max_connections < 2 * limit + 2,
        3 * max_connections / 2 <= usize::MAX ==> limit >= max_connections,
        3 * max_connections / 2 > usize::MAX ==> limit == usize::MAX,
{
    let n: u64 = max_connections as u64;
    let limit: u64 = n + n / 2;
    if limit > usize::MAX as u64 {
        usize::MAX
    } else {
        limit as usize
    }
}

/// The limits of the application's router for a connection pool of the
/// given size: concurrency as above and a ten-second timeout per request.
pub fn router_limits(max_connections: u32) -> (limits: RouterLimits)
    ensures
        limits.concurrency_limit == concurrency_limit_spec(max_connections as nat),
        3 * max_connections / 2 <= usize::MAX ==> 2 * limits.concurrency_limit <= 3
            * max_connections < 2 * limits.concurrency_limit + 2,
        3 * max_connections / 2 > usize::MAX ==> limits.concurrency_limit == usize::MAX,
        limits.timeout_secs == 10,
{
    RouterLimits { concurrency_limit: concurrency_limit(max_connections), timeout_secs: 10 }
}

/// Where static files are served from, and the route of the development
/// server's live-reload socket.
pub struct ServePlan {
    /// The route under which static files are served.
    pub static_route: &'static str,
    /// The directory static files are read from.
    pub static_dir: &'static str,
    /// The live-reload socket's route, in development builds only.
    pub dev_server_route: Option<&'static str>,
}

/// The static-file and live-reload routes: in development builds files come
/// from `resources/static` and the live-reload socket is served; otherwise
/// files come from `dist/static`.
pub fn serve_plan(dev: bool) -> (plan: ServePlan)
    ensures
        plan.static_route@ == "/static"@,
        dev ==> plan.static_dir@ == "resources/static"@,
        !dev ==> plan.static_dir@ == "dist/static"@,
        dev ==> (plan.dev_server_route matches Some(r) && r@ == "/dev-server"@),
        !dev ==> plan.dev_server_route is None,
{
    if dev {
        ServePlan {
            static_route: "/static",
            static_dir: "resources/static",
            dev_server_route: Some("/dev-server"),
        }
    } else {
        ServePlan { static_route: "/static", static_dir: "dist/static", dev_server_route: None }
    }
}

} // verus!
