use vstd::prelude::*;

use crate::strutil::{chars_to_string, copy_slice, lemma_span_until_of, parse_u64, span_until,
    spec_parse_u64, str_to_chars};

verus! {

/// Permission level carried by an execution context and required by commands.
#[derive(Clone, Copy, Debug, PartialEq, Eq, Structural)]
pub enum Permissions {
    Default,
    ChannelMod,
}

/// Mathematical image of a `UserIdentifier`.
pub enum UserIdentifierV {
    TwitchID(Seq<char>),
    DiscordID(Seq<char>),
    TelegramId(u64),
    IrcName(Seq<char>),
    IpAddr(Seq<char>),
}

/// One platform-specific identity of a person. Identities of different
/// platforms never compare equal, even when the payload strings coincide.
#[derive(Clone, Debug, Eq, Hash)]
pub enum UserIdentifier {
    TwitchID(String),
    DiscordID(String),
    TelegramId(u64),
    IrcName(String),
    IpAddr(String),
}

impl View for UserIdentifier {
    type V = UserIdentifierV;

    open spec fn view(&self) -> UserIdentifierV {
        match self {
            UserIdentifier::TwitchID(s) => UserIdentifierV::TwitchID(s@),
            UserIdentifier::DiscordID(s) => UserIdentifierV::DiscordID(s@),
            UserIdentifier::TelegramId(n) => UserIdentifierV::TelegramId(*n),
            UserIdentifier::IrcName(s) => UserIdentifierV::IrcName(s@),
            UserIdentifier::IpAddr(s) => UserIdentifierV::IpAddr(s@),
        }
    }
}

impl PartialEq for UserIdentifier {
    fn eq(&self, other: &Self) -> (r: bool)
        ensures
            r == (self@ == other@),
    {
        match (self, other) {
            (UserIdentifier::TwitchID(a), UserIdentifier::TwitchID(b)) => a.eq(b),
            (UserIdentifier::DiscordID(a), UserIdentifier::DiscordID(b)) => a.eq(b),
            (UserIdentifier::TelegramId(a), UserIdentifier::TelegramId(b)) => a == b,
            (UserIdentifier::IrcName(a), UserIdentifier::IrcName(b)) => a.eq(b),
            (UserIdentifier::IpAddr(a), UserIdentifier::IpAddr(b)) => a.eq(b),
            _ => false,
        }
    }
}

impl vstd::std_specs::cmp::PartialEqSpecImpl for UserIdentifier {
    open spec fn obeys_eq_spec() -> bool {
        true
    }

    open spec fn eq_spec(&self, other: &Self) -> bool {
        self@ == other@
    }
}

impl UserIdentifier {
    /// A copy whose image equals this identifier's.
    pub fn duplicate(&self) -> (r: UserIdentifier)
        ensures
            r@ == self@,
    {
        match self {
            UserIdentifier::TwitchID(s) => UserIdentifier::TwitchID(s.clone()),
            UserIdentifier::DiscordID(s) => UserIdentifier::DiscordID(s.clone()),
            UserIdentifier::TelegramId(n) => UserIdentifier::TelegramId(*n),
            UserIdentifier::IrcName(s) => UserIdentifier::IrcName(s.clone()),
            UserIdentifier::IpAddr(s) => UserIdentifier::IpAddr(s.clone()),
        }
    }
}

/// Why a textual identifier could not be read.
#[derive(Clone, Copy, Debug, PartialEq, Eq, Structural)]
pub enum UserIdentifierError {
    MissingDelimiter,
    InvalidPlatform,
    InvalidPayload,
}

/// What reading a textual identifier of the form `platform:payload`
/// yields: the part before the first colon picks the platform, the rest
/// is the payload, and a telegram payload must be a decimal number.
pub open spec fn spec_parse_user_identifier(s: Seq<char>) -> Result<
    UserIdentifierV,
    UserIdentifierError,
> {
    let k = span_until(s, ':');
    if k >= s.len() {
        Err(UserIdentifierError::MissingDelimiter)
    } else {
        let tag = s.take(k as int);
        let rest = s.skip(k as int + 1);
        if tag == "twitch"@ {
            Ok(UserIdentifierV::TwitchID(rest))
        } else if tag == "discord"@ {
            Ok(UserIdentifierV::DiscordID(rest))
        } else if tag == "irc"@ {
            Ok(UserIdentifierV::IrcName(rest))
        } else if tag == "local"@ {
            Ok(UserIdentifierV::IpAddr(rest))
        } else if tag == "telegram"@ {
            match spec_parse_u64(rest) {
                Some(n) => Ok(UserIdentifierV::TelegramId(n)),
                None => Err(UserIdentifierError::InvalidPayload),
            }
        } else {
            Err(UserIdentifierError::InvalidPlatform)
        }
    }
}

impl UserIdentifier {
    /// Reads a textual identifier of the form `platform:payload`, as
    /// configuration hands it over.
    pub fn from_string(s: &str) -> (r: Result<UserIdentifier, UserIdentifierError>)
        ensures
            match spec_parse_user_identifier(s@) {
                Ok(v) => r matches Ok(u) && u@ == v,
                Err(e) => r == Err::<UserIdentifier, _>(e),
            },
    {
        let chars = str_to_chars(s);
        let n = chars.len();
        let mut k: usize = 0;
        while k < n && chars[k] != ':'
            invariant
                n == chars@.len(),
                chars@ == s@,
                k <= n,
                forall|m: int| 0 <= m < k ==> chars@[m] != ':',
            decreases n - k,
        {
            k += 1;
        }
        proof {
            lemma_span_until_of(s@, ':', k as int);
        }
        if k == n {
            return Err(UserIdentifierError::MissingDelimiter);
        }
        let tag = chars_to_string(&copy_slice(&chars, 0, k));
        let rest = chars_to_string(&copy_slice(&chars, k + 1, n));
        proof {
            assert(tag@ =~= s@.take(k as int));
            assert(rest@ =~= s@.skip(k as int + 1));
        }
        if tag.eq(&String::from_str("twitch")) {
            Ok(UserIdentifier::TwitchID(rest))
        } else if tag.eq(&String::from_str("discord")) {
            Ok(UserIdentifier::DiscordID(rest))
        } else if tag.eq(&String::from_str("irc")) {
            Ok(UserIdentifier::IrcName(rest))
        } else if tag.eq(&String::from_str("local")) {
            Ok(UserIdentifier::IpAddr(rest))
        } else if tag.eq(&String::from_str("telegram")) {
            match parse_u64(rest.as_str()) {
                Some(id) => Ok(UserIdentifier::TelegramId(id)),
                None => Err(UserIdentifierError::InvalidPayload),
            }
        } else {
            Err(UserIdentifierError::InvalidPlatform)
        }
    }
}

/// Mathematical image of a `ChannelIdentifier`.
pub enum ChannelIdentifierV {
    TwitchChannel(Seq<char>),
    DiscordGuildID(Seq<char>),
    IrcChannel(Seq<char>),
    Anonymous,
}

/// The canonical key of per-channel configuration: a platform tag plus the
/// platform's own channel string. Two identifiers are equal exactly when
/// platform and channel string match.
#[derive(Clone, Debug, Eq, Hash)]
pub enum ChannelIdentifier {
    TwitchChannel(String),
    DiscordGuildID(String),
    IrcChannel(String),
    Anonymous,
}

impl View for ChannelIdentifier {
    type V = ChannelIdentifierV;

    open spec fn view(&self) -> ChannelIdentifierV {
        match self {
            ChannelIdentifier::TwitchChannel(s) => ChannelIdentifierV::TwitchChannel(s@),
            ChannelIdentifier::DiscordGuildID(s) => ChannelIdentifierV::DiscordGuildID(s@),
            ChannelIdentifier::IrcChannel(s) => ChannelIdentifierV::IrcChannel(s@),
            ChannelIdentifier::Anonymous => ChannelIdentifierV::Anonymous,
        }
    }
}

impl PartialEq for ChannelIdentifier {
    fn eq(&self, other: &Self) -> (r: bool)
        ensures
            r == (self@ == other@),
    {
        match (self, other) {
            (ChannelIdentifier::TwitchChannel(a), ChannelIdentifier::TwitchChannel(b)) => a.eq(b),
            (ChannelIdentifier::DiscordGuildID(a), ChannelIdentifier::DiscordGuildID(b)) => a.eq(b),
            (ChannelIdentifier::IrcChannel(a), ChannelIdentifier::IrcChannel(b)) => a.eq(b),
            (ChannelIdentifier::Anonymous, ChannelIdentifier::Anonymous) => true,
            _ => false,
        }
    }
}

impl vstd::std_specs::cmp::PartialEqSpecImpl for ChannelIdentifier {
    open spec fn obeys_eq_spec() -> bool {
        true
    }

    open spec fn eq_spec(&self, other: &Self) -> bool {
        self@ == other@
    }
}

impl ChannelIdentifier {
    /// A copy whose image equals this identifier's.
    pub fn duplicate(&self) -> (r: ChannelIdentifier)
        ensures
            r@ == self@,
    {
        match self {
            ChannelIdentifier::TwitchChannel(s) => ChannelIdentifier::TwitchChannel(s.clone()),
            ChannelIdentifier::DiscordGuildID(s) => ChannelIdentifier::DiscordGuildID(s.clone()),
            ChannelIdentifier::IrcChannel(s) => ChannelIdentifier::IrcChannel(s.clone()),
            ChannelIdentifier::Anonymous => ChannelIdentifier::Anonymous,
        }
    }
}

/// The platform tag under which a channel identifier is stored.
pub open spec fn spec_platform_name(c: ChannelIdentifierV) -> Option<Seq<char>> {
    match c {
        ChannelIdentifierV::TwitchChannel(_) => Some("twitch"@),
        ChannelIdentifierV::DiscordGuildID(_) => Some("discord_guild"@),
        ChannelIdentifierV::IrcChannel(_) => Some("irc"@),
        ChannelIdentifierV::Anonymous => None,
    }
}

/// The channel string of a channel identifier.
pub open spec fn spec_channel_string(c: ChannelIdentifierV) -> Option<Seq<char>> {
    match c {
        ChannelIdentifierV::TwitchChannel(s) => Some(s),
        ChannelIdentifierV::DiscordGuildID(s) => Some(s),
        ChannelIdentifierV::IrcChannel(s) => Some(s),
        ChannelIdentifierV::Anonymous => None,
    }
}

impl ChannelIdentifier {
    /// Rebuilds an identifier from a stored (platform, channel) pair.
    pub fn new(platform: &str, channel: String) -> (r: Result<ChannelIdentifier, UserIdentifierError>)
        ensures
            r == (if platform@ == "twitch"@ {
                Ok::<_, UserIdentifierError>(ChannelIdentifier::TwitchChannel(channel))
            } else if platform@ == "discord_guild"@ {
                Ok::<_, UserIdentifierError>(ChannelIdentifier::DiscordGuildID(channel))
            } else if platform@ == "irc"@ {
                Ok::<_, UserIdentifierError>(ChannelIdentifier::IrcChannel(channel))
            } else {
                Err::<ChannelIdentifier, _>(UserIdentifierError::InvalidPlatform)
            }),
            r matches Ok(c) ==> spec_platform_name(c@) == Some(platform@)
                && spec_channel_string(c@) == Some(channel@),
    {
        let p = String::from_str(platform);
        if p == String::from_str("twitch") {
            Ok(ChannelIdentifier::TwitchChannel(channel))
        } else if p == String::from_str("discord_guild") {
            Ok(ChannelIdentifier::DiscordGuildID(channel))
        } else if p == String::from_str("irc") {
            Ok(ChannelIdentifier::IrcChannel(channel))
        } else {
            Err(UserIdentifierError::InvalidPlatform)
        }
    }

    /// The platform tag, absent for the anonymous channel.
    pub fn get_platform_name(&self) -> (r: Option<&'static str>)
        ensures
            r matches Some(p) ==> spec_platform_name(self@) == Some(p@),
            r is None <==> spec_platform_name(self@) is None,
    {
        match self {
            ChannelIdentifier::TwitchChannel(_) => Some("twitch"),
            ChannelIdentifier::DiscordGuildID(_) => Some("discord_guild"),
            ChannelIdentifier::IrcChannel(_) => Some("irc"),
            ChannelIdentifier::Anonymous => None,
        }
    }

    /// The platform's own channel string, absent for the anonymous channel.
    pub fn get_channel(&self) -> (r: Option<String>)
        ensures
            r matches Some(s) ==> spec_channel_string(self@) == Some(s@),
            r is None <==> spec_channel_string(self@) is None,
    {
        match self {
            ChannelIdentifier::TwitchChannel(s) => Some(s.clone()),
            ChannelIdentifier::DiscordGuildID(s) => Some(s.clone()),
            ChannelIdentifier::IrcChannel(s) => Some(s.clone()),
            ChannelIdentifier::Anonymous => None,
        }
    }
}

/// The per-dispatch bundle: destination channel plus the caller's
/// permission level, as the connector determined it at receipt time.
#[derive(Clone, Debug)]
pub struct ExecutionContext {
    pub channel: ChannelIdentifier,
    pub permissions: Permissions,
}

/// Mathematical image of an `ExecutionContext`.
pub struct ExecutionContextV {
    pub channel: ChannelIdentifierV,
    pub permissions: Permissions,
}

impl View for ExecutionContext {
    type V = ExecutionContextV;

    open spec fn view(&self) -> ExecutionContextV {
        ExecutionContextV { channel: self.channel@, permissions: self.permissions }
    }
}

/// Decides the caller's permission level from the badge names that a
/// platform attaches to a message: moderators and the broadcaster count
/// as channel moderators.
pub fn permissions_from_badges(badges: &Vec<String>) -> (r: Permissions)
    ensures
        r == (if (exists|i: int|
            0 <= i < badges@.len() && (badges@[i]@ == "moderator"@ || badges@[i]@ == "broadcaster"@))
        {
            Permissions::ChannelMod
        } else {
            Permissions::Default
        }),
{
    let n = badges.len();
    for i in 0..n
        invariant
            n == badges@.len(),
            forall|j: int|
                0 <= j < i ==> badges@[j]@ != "moderator"@ && badges@[j]@ != "broadcaster"@,
    {
        let b = &badges[i];
        let moderator = String::from_str("moderator");
        let broadcaster = String::from_str("broadcaster");
        if b.eq(&moderator) || b.eq(&broadcaster) {
            return Permissions::ChannelMod;
        }
    }
    Permissions::Default
}

} // verus!
