use vstd::prelude::*;

use crate::handler::spec_whoami_reply;
use crate::models::User;
use crate::platform::ExecutionContext;
use crate::strutil::u64_to_string;

verus! {

/// The identity builtin as a value: it describes the caller's record and
/// permission level.
#[derive(Clone, Debug)]
pub struct Command;

impl Command {
    /// The reply: which user record the caller resolves to, and the
    /// caller's permission level in this channel.
    pub fn execute(user: &Option<User>, execution_context: &ExecutionContext) -> (r: String)
        ensures
            r@ == spec_whoami_reply(user.deep_view(), execution_context@.permissions),
    {
        let mut s = match user {
            Some(us) => {
                let mut t = String::from_str("user ");
                let d = u64_to_string(us.id);
                t.append(d.as_str());
                t
            },
            None => String::from_str("no user"),
        };
        s.append(", permissions: ");
        match execution_context.permissions {
            crate::platform::Permissions::Default => s.append("Default"),
            crate::platform::Permissions::ChannelMod => s.append("ChannelMod"),
        }
        proof {
            assert(s@ =~= spec_whoami_reply(user.deep_view(), execution_context@.permissions));
        }
        s
    }
}

} // verus!
