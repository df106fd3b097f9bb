//! The TURN server's settings.

use vstd::prelude::*;

verus! {

/// Where the TURN server listens and the one account it serves.
pub struct Configs<'a> {
    pub public_ip: &'a str,
    pub port: usize,
    pub realm: &'a str,
    pub username: &'a str,
    pub password: &'a str,
}

/// The settings of the deployed TURN server.
pub fn get_configs() -> (c: Configs<'static>)
    ensures
        c.public_ip@ == "81.68.166.119"@,
        c.port == 3478,
        c.realm@ == "i-seek-you.dist.run"@,
        c.username@ == "webrtc"@,
        c.password@ == "webrtc"@,
{
    Configs {
        public_ip: "81.68.166.119",
        port: 3478,
        realm: "i-seek-you.dist.run",
        username: "webrtc",
        password: "webrtc",
    }
}

} // verus!
