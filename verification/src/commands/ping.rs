use vstd::prelude::*;

use crate::handler::{spec_ping_reply, spec_uptime, uptime_text};
use crate::platform::Permissions;

verus! {

/// The ping builtin as a value: it answers with the uptime, runs for
/// anyone, and carries the default five-second cooldown.
#[derive(Clone, Debug)]
pub struct Ping {
    pub startup_instant: u64,
}

impl Ping {
    /// The names the command answers to.
    pub fn get_names(&self) -> (r: Vec<String>)
        ensures
            r.deep_view() == seq!["ping"@],
    {
        let mut v: Vec<String> = Vec::new();
        v.push(String::from_str("ping"));
        proof {
            assert(v.deep_view() =~= seq!["ping"@]);
        }
        v
    }

    /// The command's cooldown, in seconds.
    pub fn get_cooldown(&self) -> (r: u64)
        ensures
            r == 5,
    {
        5
    }

    /// The level the command requires: anyone may ping.
    pub fn get_permissions(&self) -> (r: Permissions)
        ensures
            r == Permissions::Default,
    {
        Permissions::Default
    }

    /// The uptime reply.
    pub fn execute(&self, now: u64) -> (r: String)
        ensures
            r@ == spec_ping_reply(spec_uptime(self.startup_instant, now)),
    {
        let secs = if now >= self.startup_instant {
            now - self.startup_instant
        } else {
            0
        };
        let mut s = String::from_str("Pong! Uptime ");
        let u = uptime_text(secs);
        s.append(u.as_str());
        s
    }
}

} // verus!
