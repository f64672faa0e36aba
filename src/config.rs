use vstd::prelude::*;

verus! {

/// The proxy's settings.
pub struct Config {
    /// Callsign sent in `LSTN` and `PONG`; `NONE` asks for a random listener callsign.
    pub callsign: String,
    /// `host:port` that the WebSocket server listens on.
    pub ws_listener_address: String,
    /// Comma-separated `REFLECTOR_MODULES` entries.
    pub subscription: String,
}

} // verus!
