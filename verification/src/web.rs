use vstd::prelude::*;

use crate::database::{same_outbox, same_store, spec_find_session, Database};
use crate::models::{Channel, Command};

verus! {

/// What the signed-in banner of every dashboard page shows.
#[derive(Clone, Debug)]
pub struct AuthInfo {
    pub username: String,
    pub user_id: u64,
}

impl AuthInfo {
    /// Resolves a session cookie to the signed-in user, if the session
    /// is (still) known; an unknown or absent cookie shows nobody.
    pub fn new(db: &mut Database, session_id: Option<&str>) -> (r: Option<AuthInfo>)
        requires
            old(db).wf(),
        ensures
            final(db).wf(),
            same_store(*old(db), *final(db)),
            same_outbox(*old(db), *final(db)),
            match session_id {
                None => r is None,
                Some(sid) => match spec_find_session(old(db).store_sessions(), sid@) {
                    Some(ws) => r matches Some(a) && a.username@ == ws.username && a.user_id
                        == ws.user_id,
                    None => r is None,
                },
            },
    {
        match session_id {
            None => None,
            Some(sid) => match db.get_web_session(sid) {
                Ok(Some(ws)) => Some(AuthInfo { username: ws.username, user_id: ws.user_id }),
                Ok(None) => None,
                Err(_) => {
                    proof {
                        assert(false);
                    }
                    None
                },
            },
        }
    }
}

/// The fields every dashboard page's layout carries.
#[derive(Clone, Debug)]
pub struct LayoutContext {
    pub name: &'static str,
    pub auth_info: Option<AuthInfo>,
}

impl LayoutContext {
    /// Builds the layout: the fixed template name plus whoever the
    /// session cookie signs in.
    pub fn new(db: &mut Database, session_id: Option<&str>) -> (r: LayoutContext)
        requires
            old(db).wf(),
        ensures
            final(db).wf(),
            same_store(*old(db), *final(db)),
            same_outbox(*old(db), *final(db)),
            r.name@ == "layout"@,
            match session_id {
                None => r.auth_info is None,
                Some(sid) => match spec_find_session(old(db).store_sessions(), sid@) {
                    Some(ws) => r.auth_info matches Some(a) && a.username@ == ws.username
                        && a.user_id == ws.user_id,
                    None => r.auth_info is None,
                },
            },
    {
        LayoutContext { name: "layout", auth_info: AuthInfo::new(db, session_id) }
    }
}

/// The landing page's data: how many channels the bot serves.
pub struct IndexContext {
    pub parent_context: LayoutContext,
    pub channel_amount: i64,
}

/// The channel list page's data.
pub struct ChannelsContext {
    pub parent_context: LayoutContext,
    pub channels: Vec<Channel>,
}

/// One channel's command list page's data.
pub struct CommandsContext {
    pub parent_context: LayoutContext,
    pub channel: String,
    pub commands: Vec<Command>,
}

/// The sign-in page's data.
pub struct AuthenticateContext {
    pub parent_context: LayoutContext,
}

} // verus!
