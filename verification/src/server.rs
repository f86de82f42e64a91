//! What the serving layer computes: the address it binds and the notice it
//! sends at shutdown.

use crate::text::{decimal, decimal_string, joined};
use vstd::prelude::*;

verus! {

/// Directory from which the page's assets are served when none is named.
pub const FRONTEND_DIST_DEFAULT: &'static str = "frontend/dist";

/// Port on which the server listens when none is given.
pub const DEFAULT_PORT: u16 = 3000;

/// Notice that subscribers get when the server shuts down.
pub const SHUTDOWN_NOTICE: &'static str = "Server is shutting down for maintenance";

/// The address on which the server listens: every interface, at `port`.
pub fn bind_address(port: u16) -> (address: String)
    ensures
        address@ == "0.0.0.0:"@ + decimal(port as nat),
{
    let digits = decimal_string(port as u64);
    joined("0.0.0.0:", digits.as_str())
}

/// The port to listen on: the one given, or `DEFAULT_PORT`.
pub fn port_or_default(given: Option<u16>) -> (port: u16)
    ensures
        port == match given {
            Some(p) => p,
            None => DEFAULT_PORT,
        },
{
    match given {
        Some(p) => p,
        None => DEFAULT_PORT,
    }
}

} // verus!
