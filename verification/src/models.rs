use vstd::prelude::*;

use crate::platform::{Permissions, UserIdentifierV};
use crate::strutil::spec_decimal;

verus! {

/// Mathematical image of a `User` row.
pub struct UserV {
    pub id: u64,
    pub twitch_id: Option<Seq<char>>,
    pub discord_id: Option<Seq<char>>,
    pub irc_name: Option<Seq<char>>,
    pub telegram_id: Option<Seq<char>>,
    pub local_addr: Option<Seq<char>>,
}

/// A durable person record. One person may be known under identities of
/// several platforms at once; each column holds at most one of them.
#[derive(Clone, Debug)]
pub struct User {
    pub id: u64,
    pub twitch_id: Option<String>,
    pub discord_id: Option<String>,
    pub irc_name: Option<String>,
    pub telegram_id: Option<String>,
    pub local_addr: Option<String>,
}

impl View for User {
    type V = UserV;

    open spec fn view(&self) -> UserV {
        UserV {
            id: self.id,
            twitch_id: self.twitch_id.deep_view(),
            discord_id: self.discord_id.deep_view(),
            irc_name: self.irc_name.deep_view(),
            telegram_id: self.telegram_id.deep_view(),
            local_addr: self.local_addr.deep_view(),
        }
    }
}

impl DeepView for User {
    type V = UserV;

    open spec fn deep_view(&self) -> UserV {
        self.view()
    }
}

/// How the merged record keeps its own identities and takes the other's
/// where it has none.
pub open spec fn spec_merge_users(a: UserV, b: UserV) -> UserV {
    UserV {
        id: a.id,
        twitch_id: if a.twitch_id is Some {
            a.twitch_id
        } else {
            b.twitch_id
        },
        discord_id: if a.discord_id is Some {
            a.discord_id
        } else {
            b.discord_id
        },
        irc_name: if a.irc_name is Some {
            a.irc_name
        } else {
            b.irc_name
        },
        telegram_id: if a.telegram_id is Some {
            a.telegram_id
        } else {
            b.telegram_id
        },
        local_addr: if a.local_addr is Some {
            a.local_addr
        } else {
            b.local_addr
        },
    }
}

/// Whether a user row carries the given platform identity.
pub open spec fn spec_user_has_ident(u: UserV, ident: UserIdentifierV) -> bool {
    match ident {
        UserIdentifierV::TwitchID(s) => u.twitch_id == Some(s),
        UserIdentifierV::DiscordID(s) => u.discord_id == Some(s),
        UserIdentifierV::TelegramId(n) => u.telegram_id == Some(spec_decimal(n as nat)),
        UserIdentifierV::IrcName(s) => u.irc_name == Some(s),
        UserIdentifierV::IpAddr(s) => u.local_addr == Some(s),
    }
}

impl User {
    /// Takes the other record's identities where this record has none;
    /// run when two users are administratively merged.
    pub fn merge(&mut self, other: User)
        ensures
            final(self)@ == spec_merge_users(old(self)@, other@),
    {
        if self.twitch_id.is_none() {
            self.twitch_id = other.twitch_id;
        }
        if self.discord_id.is_none() {
            self.discord_id = other.discord_id;
        }
        if self.irc_name.is_none() {
            self.irc_name = other.irc_name;
        }
        if self.telegram_id.is_none() {
            self.telegram_id = other.telegram_id;
        }
        if self.local_addr.is_none() {
            self.local_addr = other.local_addr;
        }
    }

    /// A field-wise copy whose image equals this record's.
    pub fn duplicate(&self) -> (r: User)
        ensures
            r@ == self@,
    {
        User {
            id: self.id,
            twitch_id: clone_opt(&self.twitch_id),
            discord_id: clone_opt(&self.discord_id),
            irc_name: clone_opt(&self.irc_name),
            telegram_id: clone_opt(&self.telegram_id),
            local_addr: clone_opt(&self.local_addr),
        }
    }
}

/// Copies an optional string.
pub fn clone_opt(s: &Option<String>) -> (r: Option<String>)
    ensures
        r.deep_view() == s.deep_view(),
        r is Some <==> s is Some,
{
    match s {
        Some(v) => Some(v.clone()),
        None => None,
    }
}

/// Mathematical image of a `Channel` row.
pub struct ChannelV {
    pub id: u64,
    pub platform: Seq<char>,
    pub channel: Seq<char>,
}

/// A chat channel: a platform tag, the platform's channel string, and the
/// synthetic id under which per-channel configuration is keyed.
#[derive(Clone, Debug)]
pub struct Channel {
    pub id: u64,
    pub platform: String,
    pub channel: String,
}

impl View for Channel {
    type V = ChannelV;

    open spec fn view(&self) -> ChannelV {
        ChannelV { id: self.id, platform: self.platform@, channel: self.channel@ }
    }
}

impl DeepView for Channel {
    type V = ChannelV;

    open spec fn deep_view(&self) -> ChannelV {
        self.view()
    }
}

impl Channel {
    /// A field-wise copy whose image equals this record's.
    pub fn duplicate(&self) -> (r: Channel)
        ensures
            r@ == self@,
    {
        Channel { id: self.id, platform: self.platform.clone(), channel: self.channel.clone() }
    }
}

/// Mathematical image of a `Command` row.
pub struct CommandV {
    pub channel_id: u64,
    pub name: Seq<char>,
    pub action: Seq<char>,
    pub permissions: Option<Permissions>,
    pub cooldown: u64,
}

/// A stored custom command: unique per (channel, name), expanded by the
/// action interpreter, optionally overriding the required permission
/// level, and rate-limited by its cooldown in seconds.
#[derive(Clone, Debug)]
pub struct Command {
    pub channel_id: u64,
    pub name: String,
    pub action: String,
    pub permissions: Option<Permissions>,
    pub cooldown: u64,
}

impl View for Command {
    type V = CommandV;

    open spec fn view(&self) -> CommandV {
        CommandV {
            channel_id: self.channel_id,
            name: self.name@,
            action: self.action@,
            permissions: self.permissions,
            cooldown: self.cooldown,
        }
    }
}

impl DeepView for Command {
    type V = CommandV;

    open spec fn deep_view(&self) -> CommandV {
        self.view()
    }
}

impl Command {
    /// A field-wise copy whose image equals this record's.
    pub fn duplicate(&self) -> (r: Command)
        ensures
            r@ == self@,
    {
        Command {
            channel_id: self.channel_id,
            name: self.name.clone(),
            action: self.action.clone(),
            permissions: self.permissions,
            cooldown: self.cooldown,
        }
    }
}

/// A new command row, before insertion.
#[derive(Clone, Debug)]
pub struct NewCommand {
    pub channel_id: u64,
    pub name: String,
    pub action: String,
    pub permissions: Option<Permissions>,
    pub cooldown: u64,
}

impl View for NewCommand {
    type V = CommandV;

    open spec fn view(&self) -> CommandV {
        CommandV {
            channel_id: self.channel_id,
            name: self.name@,
            action: self.action@,
            permissions: self.permissions,
            cooldown: self.cooldown,
        }
    }
}

impl DeepView for NewCommand {
    type V = CommandV;

    open spec fn deep_view(&self) -> CommandV {
        self.view()
    }
}

/// Mathematical image of a `Filter` row.
pub struct FilterV {
    pub channel_id: u64,
    pub regex: Seq<char>,
    pub block_message: bool,
    pub replacement: Option<Seq<char>>,
}

/// A per-channel rule applied to outgoing text: a regex that either blocks
/// the whole message or replaces every match.
#[derive(Clone, Debug)]
pub struct Filter {
    pub channel_id: u64,
    pub regex: String,
    pub block_message: bool,
    pub replacement: Option<String>,
}

impl View for Filter {
    type V = FilterV;

    open spec fn view(&self) -> FilterV {
        FilterV {
            channel_id: self.channel_id,
            regex: self.regex@,
            block_message: self.block_message,
            replacement: self.replacement.deep_view(),
        }
    }
}

impl DeepView for Filter {
    type V = FilterV;

    open spec fn deep_view(&self) -> FilterV {
        self.view()
    }
}

impl Filter {
    /// A field-wise copy whose image equals this record's.
    pub fn duplicate(&self) -> (r: Filter)
        ensures
            r@ == self@,
    {
        Filter {
            channel_id: self.channel_id,
            regex: self.regex.clone(),
            block_message: self.block_message,
            replacement: clone_opt(&self.replacement),
        }
    }
}

/// Mathematical image of a `WebSession` row.
pub struct WebSessionV {
    pub session_id: Seq<char>,
    pub user_id: u64,
    pub username: Seq<char>,
}

/// A dashboard login session, read by the core to resolve a session id to
/// the user behind it.
#[derive(Clone, Debug)]
pub struct WebSession {
    pub session_id: String,
    pub user_id: u64,
    pub username: String,
}

impl View for WebSession {
    type V = WebSessionV;

    open spec fn view(&self) -> WebSessionV {
        WebSessionV {
            session_id: self.session_id@,
            user_id: self.user_id,
            username: self.username@,
        }
    }
}

impl DeepView for WebSession {
    type V = WebSessionV;

    open spec fn deep_view(&self) -> WebSessionV {
        self.view()
    }
}

impl WebSession {
    /// A field-wise copy whose image equals this record's.
    pub fn duplicate(&self) -> (r: WebSession)
        ensures
            r@ == self@,
    {
        WebSession {
            session_id: self.session_id.clone(),
            user_id: self.user_id,
            username: self.username.clone(),
        }
    }
}

/// Mathematical image of a `UserData` row.
pub struct UserDataV {
    pub user_id: u64,
    pub name: Seq<char>,
    pub value: Seq<char>,
    pub public: bool,
}

/// One key/value entry of a user's data, such as a linked account name.
#[derive(Clone, Debug)]
pub struct UserData {
    pub user_id: u64,
    pub name: String,
    pub value: String,
    pub public: bool,
}

impl View for UserData {
    type V = UserDataV;

    open spec fn view(&self) -> UserDataV {
        UserDataV {
            user_id: self.user_id,
            name: self.name@,
            value: self.value@,
            public: self.public,
        }
    }
}

impl DeepView for UserData {
    type V = UserDataV;

    open spec fn deep_view(&self) -> UserDataV {
        self.view()
    }
}

impl UserData {
    /// A field-wise copy whose image equals this record's.
    pub fn duplicate(&self) -> (r: UserData)
        ensures
            r@ == self@,
    {
        UserData {
            user_id: self.user_id,
            name: self.name.clone(),
            value: self.value.clone(),
            public: self.public,
        }
    }
}

/// Mathematical image of a `Prefix` row.
pub struct PrefixV {
    pub channel_id: u64,
    pub prefix: Seq<char>,
}

/// The command prefix configured for a channel.
#[derive(Clone, Debug)]
pub struct Prefix {
    pub channel_id: u64,
    pub prefix: String,
}

impl View for Prefix {
    type V = PrefixV;

    open spec fn view(&self) -> PrefixV {
        PrefixV { channel_id: self.channel_id, prefix: self.prefix@ }
    }
}

impl DeepView for Prefix {
    type V = PrefixV;

    open spec fn deep_view(&self) -> PrefixV {
        self.view()
    }
}

/// Mathematical image of an `AuthRow`.
pub struct AuthRowV {
    pub name: Seq<char>,
    pub value: Seq<char>,
}

/// One entry of the auth key/value table, such as a stored token.
#[derive(Clone, Debug)]
pub struct AuthRow {
    pub name: String,
    pub value: String,
}

impl View for AuthRow {
    type V = AuthRowV;

    open spec fn view(&self) -> AuthRowV {
        AuthRowV { name: self.name@, value: self.value@ }
    }
}

impl DeepView for AuthRow {
    type V = AuthRowV;

    open spec fn deep_view(&self) -> AuthRowV {
        self.view()
    }
}

} // verus!
