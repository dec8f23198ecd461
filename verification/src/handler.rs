use vstd::prelude::*;

use crate::bus::{spec_channels_key, BusMessageV};
use crate::database::{lemma_first_match_at, spec_channel_lookup, spec_database_error_message,
    spec_find_channel, spec_find_command, spec_find_user_by_ident, spec_first_match,
    spec_is_builtin_name, spec_remove_command, Database, DatabaseError, DatabaseErrorV};
use crate::interpreter::{interpret, spec_inquiry_error_message, spec_interpret, InquiryError,
    InquiryErrorV, InquiryHandler};
use crate::models::{ChannelV, Command, CommandV, UserV};
use crate::platform::{spec_channel_string, spec_platform_name, ChannelIdentifierV,
    ExecutionContext, ExecutionContextV, Permissions, UserIdentifier, UserIdentifierV};
use crate::strutil::{char_is_whitespace, chars_to_string, lemma_skip_succ, spec_decimal,
    str_to_chars, u64_to_string, whitespace_char};

verus! {

/// Mathematical image of a `CommandError`.
pub enum CommandErrorV {
    MissingArgument(Seq<char>),
    InvalidArgument(Seq<char>),
    NoPermissions,
    DatabaseError(DatabaseErrorV),
    InquiryError(InquiryErrorV),
}

/// Why a dispatch produced no ordinary reply: a missing or unusable
/// argument, a caller below the required level, a store failure, or a
/// malformed inquiry. Every variant becomes a single textual reply.
#[derive(Clone, Debug)]
pub enum CommandError {
    MissingArgument(String),
    InvalidArgument(String),
    NoPermissions,
    DatabaseError(DatabaseError),
    InquiryError(InquiryError),
}

impl View for CommandError {
    type V = CommandErrorV;

    open spec fn view(&self) -> CommandErrorV {
        match self {
            CommandError::MissingArgument(s) => CommandErrorV::MissingArgument(s@),
            CommandError::InvalidArgument(s) => CommandErrorV::InvalidArgument(s@),
            CommandError::NoPermissions => CommandErrorV::NoPermissions,
            CommandError::DatabaseError(e) => CommandErrorV::DatabaseError(e@),
            CommandError::InquiryError(e) => CommandErrorV::InquiryError(e@),
        }
    }
}

/// The wording of a command error, as the dispatcher replies with it.
pub open spec fn spec_command_error_message(e: CommandErrorV) -> Seq<char> {
    match e {
        CommandErrorV::MissingArgument(a) => "missing argument: "@ + a,
        CommandErrorV::InvalidArgument(a) => "invalid argument: "@ + a,
        CommandErrorV::NoPermissions => "you don't have the permissions to use this command"@,
        CommandErrorV::DatabaseError(d) => "database error: "@ + spec_database_error_message(d),
        CommandErrorV::InquiryError(i) => "inquiry error: "@ + spec_inquiry_error_message(i),
    }
}

impl CommandError {
    /// Renders the error for a user-visible reply.
    pub fn message(&self) -> (r: String)
        ensures
            r@ == spec_command_error_message(self@),
    {
        match self {
            CommandError::MissingArgument(a) => {
                let mut m = String::from_str("missing argument: ");
                m.append(a.as_str());
                m
            },
            CommandError::InvalidArgument(a) => {
                let mut m = String::from_str("invalid argument: ");
                m.append(a.as_str());
                m
            },
            CommandError::NoPermissions => String::from_str(
                "you don't have the permissions to use this command",
            ),
            CommandError::DatabaseError(d) => {
                let mut m = String::from_str("database error: ");
                let dm = d.message();
                m.append(dm.as_str());
                m
            },
            CommandError::InquiryError(i) => {
                let mut m = String::from_str("inquiry error: ");
                let im = i.message();
                m.append(im.as_str());
                m
            },
        }
    }
}

/// An inbound chat message, as the dispatcher reads it: the raw text with
/// its command prefix already stripped, and the sender's identity.
pub trait CommandMessage {
    /// The message text's image.
    spec fn text_view(&self) -> Seq<char>;

    /// The sender's image.
    spec fn ident_view(&self) -> UserIdentifierV;

    /// The message text, with the command prefix already stripped.
    fn get_text(&self) -> (r: String)
        ensures
            r@ == self.text_view(),
    ;

    /// The sender's platform identity.
    fn get_user_identifier(&self) -> (r: UserIdentifier)
        ensures
            r@ == self.ident_view(),
    ;
}

/// A plain inbound message, as a connector hands it over.
#[derive(Clone, Debug)]
pub struct InboundMessage {
    pub text: String,
    pub sender: UserIdentifier,
}

impl CommandMessage for InboundMessage {
    open spec fn text_view(&self) -> Seq<char> {
        self.text@
    }

    open spec fn ident_view(&self) -> UserIdentifierV {
        self.sender@
    }

    fn get_text(&self) -> (r: String)
        ensures
            r@ == self.text_view(),
    {
        self.text.clone()
    }

    fn get_user_identifier(&self) -> (r: UserIdentifier)
        ensures
            r@ == self.ident_view(),
    {
        self.sender.duplicate()
    }
}

/// Mathematical image of a `CooldownEntry`.
pub struct CooldownEntryV {
    pub channel_id: u64,
    pub name: Seq<char>,
    pub last: u64,
}

/// The last time a stored command ran in a channel.
#[derive(Clone, Debug)]
pub struct CooldownEntry {
    pub channel_id: u64,
    pub name: String,
    pub last: u64,
}

impl View for CooldownEntry {
    type V = CooldownEntryV;

    open spec fn view(&self) -> CooldownEntryV {
        CooldownEntryV { channel_id: self.channel_id, name: self.name@, last: self.last }
    }
}

impl DeepView for CooldownEntry {
    type V = CooldownEntryV;

    open spec fn deep_view(&self) -> CooldownEntryV {
        self.view()
    }
}

/// The predicate a cooldown find scans with.
pub open spec fn cooldown_key_pred(channel_id: u64, name: Seq<char>) -> spec_fn(CooldownEntryV)
    -> bool {
    |e: CooldownEntryV| e.channel_id == channel_id && e.name == name
}

/// When a (channel, command) pair last ran, if it ever did.
pub open spec fn spec_find_cooldown(
    entries: Seq<CooldownEntryV>,
    channel_id: u64,
    name: Seq<char>,
) -> Option<u64> {
    match spec_first_match(entries, cooldown_key_pred(channel_id, name)) {
        Some(e) => Some(e.last),
        None => None,
    }
}

/// Whether a stored command is out of its cooldown window: it never ran,
/// or at least its cooldown has passed since it last ran.
pub open spec fn spec_cooldown_ready(
    entries: Seq<CooldownEntryV>,
    channel_id: u64,
    name: Seq<char>,
    cooldown: u64,
    now: u64,
) -> bool {
    match spec_find_cooldown(entries, channel_id, name) {
        None => true,
        Some(last) => now >= last + cooldown,
    }
}

/// The cooldown table with one (channel, command) stamped at `now`.
pub open spec fn spec_touch_cooldown(
    entries: Seq<CooldownEntryV>,
    channel_id: u64,
    name: Seq<char>,
    now: u64,
) -> Seq<CooldownEntryV>
    decreases entries.len(),
{
    if entries.len() == 0 {
        seq![CooldownEntryV { channel_id, name, last: now }]
    } else if entries[0].channel_id == channel_id && entries[0].name == name {
        seq![CooldownEntryV { channel_id, name, last: now }] + entries.drop_first()
    } else {
        seq![entries[0]] + spec_touch_cooldown(entries.drop_first(), channel_id, name, now)
    }
}

/// A touch is decided by the position of the first entry of the same key.
proof fn lemma_touch_cooldown_at(
    entries: Seq<CooldownEntryV>,
    channel_id: u64,
    name: Seq<char>,
    now: u64,
    k: int,
)
    requires
        0 <= k <= entries.len(),
        forall|j: int|
            0 <= j < k ==> !(entries[j].channel_id == channel_id && entries[j].name == name),
        k == entries.len() || (entries[k].channel_id == channel_id && entries[k].name == name),
    ensures
        spec_touch_cooldown(entries, channel_id, name, now) == (if k == entries.len() {
            entries.push(CooldownEntryV { channel_id, name, last: now })
        } else {
            entries.update(k, CooldownEntryV { channel_id, name, last: now })
        }),
    decreases entries.len(),
{
    if entries.len() == 0 {
        assert(spec_touch_cooldown(entries, channel_id, name, now) =~= entries.push(
            CooldownEntryV { channel_id, name, last: now },
        ));
    } else if k == 0 {
        assert(spec_touch_cooldown(entries, channel_id, name, now) =~= entries.update(
            0,
            CooldownEntryV { channel_id, name, last: now },
        ));
    } else {
        assert(forall|i: int|
            0 <= i < entries.drop_first().len() ==> entries.drop_first()[i] == entries[i + 1]);
        lemma_touch_cooldown_at(entries.drop_first(), channel_id, name, now, k - 1);
        let e = CooldownEntryV { channel_id, name, last: now };
        if k == entries.len() {
            assert(seq![entries[0]] + entries.drop_first().push(e) =~= entries.push(e));
        } else {
            assert(seq![entries[0]] + entries.drop_first().update(k - 1, e) =~= entries.update(
                k,
                e,
            ));
        }
    }
}

/// Checks a stored command's cooldown and, when the window is open,
/// stamps the pair at `now` in the same step, so two back-to-back
/// invocations cannot both pass.
pub fn cooldown_gate(
    entries: &mut Vec<CooldownEntry>,
    channel_id: u64,
    name: &String,
    cooldown: u64,
    now: u64,
) -> (r: bool)
    ensures
        r == spec_cooldown_ready(old(entries).deep_view(), channel_id, name@, cooldown, now),
        r ==> final(entries).deep_view() == spec_touch_cooldown(
            old(entries).deep_view(),
            channel_id,
            name@,
            now,
        ),
        !r ==> final(entries).deep_view() == old(entries).deep_view(),
{
    let n = entries.len();
    let mut i: usize = 0;
    while i < n
        invariant
            n == entries@.len(),
            entries.deep_view() == old(entries).deep_view(),
            forall|j: int|
                0 <= j < i ==> !(cooldown_key_pred(channel_id, name@)(entries.deep_view()[j])),
        decreases n - i,
    {
        if entries[i].channel_id == channel_id && entries[i].name.eq(name) {
            proof {
                lemma_first_match_at(
                    entries.deep_view(),
                    cooldown_key_pred(channel_id, name@),
                    i as int,
                );
                lemma_touch_cooldown_at(entries.deep_view(), channel_id, name@, now, i as int);
            }
            let last = entries[i].last;
            if now >= last && now - last >= cooldown {
                let ghost before = entries.deep_view();
                entries.set(
                    i,
                    CooldownEntry { channel_id, name: name.clone(), last: now },
                );
                proof {
                    assert(entries.deep_view() =~= before.update(
                        i as int,
                        CooldownEntryV { channel_id, name: name@, last: now },
                    ));
                }
                return true;
            }
            return false;
        }
        i += 1;
    }
    proof {
        lemma_first_match_at(entries.deep_view(), cooldown_key_pred(channel_id, name@), n as int);
        lemma_touch_cooldown_at(entries.deep_view(), channel_id, name@, now, n as int);
    }
    let ghost before = entries.deep_view();
    entries.push(CooldownEntry { channel_id, name: name.clone(), last: now });
    proof {
        assert(entries.deep_view() =~= before.push(
            CooldownEntryV { channel_id, name: name@, last: now },
        ));
    }
    true
}

/// Length of the leading run of non-separator characters.
pub open spec fn span_nonws(s: Seq<char>) -> nat
    decreases s.len(),
{
    if s.len() == 0 {
        0
    } else if whitespace_char(s[0]) {
        0
    } else {
        (1 + span_nonws(s.drop_first())) as nat
    }
}

/// The run of non-separators ends at the first separator.
pub proof fn lemma_span_nonws_of(s: Seq<char>, k: int)
    requires
        0 <= k <= s.len(),
        forall|m: int| 0 <= m < k ==> !whitespace_char(s[m]),
        k == s.len() || whitespace_char(s[k]),
    ensures
        span_nonws(s) == k,
    decreases s.len(),
{
    if s.len() == 0 {
    } else if k == 0 {
    } else {
        assert(!whitespace_char(s[0]));
        lemma_span_nonws_of(s.drop_first(), k - 1);
    }
}

/// The whitespace-separated words of a text, in order, separators dropped.
pub open spec fn spec_tokens(s: Seq<char>) -> Seq<Seq<char>>
    decreases s.len(),
{
    if s.len() == 0 {
        Seq::empty()
    } else if whitespace_char(s[0]) {
        spec_tokens(s.drop_first())
    } else {
        let k = span_nonws(s);
        if k >= s.len() {
            seq![s]
        } else {
            seq![s.take(k as int)] + spec_tokens(s.skip(k as int))
        }
    }
}

/// Splits a text into its whitespace-separated words.
pub fn tokenize(text: &str) -> (r: Vec<String>)
    ensures
        r.deep_view() == spec_tokens(text@),
{
    let chars = str_to_chars(text);
    let n = chars.len();
    let mut out: Vec<String> = Vec::new();
    let mut i: usize = 0;
    proof {
        assert(chars@.skip(0) =~= chars@);
        assert(out.deep_view() + spec_tokens(chars@.skip(0)) =~= spec_tokens(text@));
    }
    while i < n
        invariant
            n == chars@.len(),
            chars@ == text@,
            i <= n,
            out.deep_view() + spec_tokens(chars@.skip(i as int)) == spec_tokens(text@),
        decreases n - i,
    {
        let ghost pre = chars@.skip(i as int);
        proof {
            lemma_skip_succ(chars@, i as int);
        }
        let c = chars[i];
        if char_is_whitespace(c) {
            i += 1;
            proof {
                assert(out.deep_view() + spec_tokens(chars@.skip(i as int)) =~= spec_tokens(
                    text@,
                ));
            }
        } else {
            let mut j = i + 1;
            while j < n && !char_is_whitespace(chars[j])
                invariant
                    n == chars@.len(),
                    i + 1 <= j <= n,
                    forall|m: int| i + 1 <= m < j ==> !whitespace_char(chars@[m]),
                    !whitespace_char(chars@[i as int]),
                decreases n - j,
            {
                j += 1;
            }
            let ghost i0 = i as int;
            proof {
                assert(forall|m: int|
                    0 <= m < j - i0 ==> pre[m] == chars@[m + i0] && !whitespace_char(pre[m]));
                if j < n {
                    assert(pre[j - i0] == chars@[j as int]);
                }
                lemma_span_nonws_of(pre, j - i0);
            }
            let word = chars_to_string(&crate::strutil::copy_slice(&chars, i, j));
            let ghost out_old = out.deep_view();
            out.push(word);
            proof {
                assert(word@ =~= pre.take(j - i0));
                assert(out.deep_view() =~= out_old.push(pre.take(j - i0)));
                if j < n {
                    assert(pre.skip(j - i0) =~= chars@.skip(j as int));
                    assert(spec_tokens(pre) == seq![pre.take(j - i0)] + spec_tokens(
                        chars@.skip(j as int),
                    ));
                    assert(out.deep_view() + spec_tokens(chars@.skip(j as int)) =~= out_old
                        + spec_tokens(pre));
                } else {
                    assert(pre.take(j - i0) =~= pre);
                    assert(spec_tokens(pre) == seq![pre]);
                    assert(chars@.skip(n as int) =~= Seq::<char>::empty());
                    assert(out.deep_view() + spec_tokens(chars@.skip(n as int)) =~= out_old
                        + spec_tokens(pre));
                }
            }
            i = j;
        }
    }
    proof {
        assert(chars@.skip(n as int) =~= Seq::<char>::empty());
        assert(out.deep_view() + spec_tokens(chars@.skip(n as int)) =~= out.deep_view());
    }
    out
}

/// The words joined with single spaces.
pub open spec fn spec_join_space(args: Seq<Seq<char>>) -> Seq<char>
    decreases args.len(),
{
    if args.len() == 0 {
        Seq::empty()
    } else if args.len() == 1 {
        args[0]
    } else {
        args[0] + seq![' '] + spec_join_space(args.drop_first())
    }
}

/// Joins the words from position `from` on with single spaces.
pub fn join_space(args: &Vec<String>, from: usize) -> (r: String)
    requires
        from <= args@.len(),
    ensures
        r@ == spec_join_space(args.deep_view().skip(from as int)),
    decreases args@.len() - from,
{
    let ghost dv = args.deep_view();
    if from == args.len() {
        proof {
            assert(dv.skip(from as int) =~= Seq::<Seq<char>>::empty());
        }
        String::new()
    } else if from + 1 == args.len() {
        proof {
            lemma_skip_succ(dv, from as int);
            assert(dv.skip(from as int).len() == 1);
        }
        args[from].clone()
    } else {
        proof {
            lemma_skip_succ(dv, from as int);
        }
        let mut s = args[from].clone();
        s.append(" ");
        let rest = join_space(args, from + 1);
        s.append(rest.as_str());
        proof {
            reveal_strlit(" ");
            assert(s@ =~= dv.skip(from as int)[0] + seq![' '] + spec_join_space(
                dv.skip(from as int + 1),
            ));
        }
        s
    }
}

/// The caller-facing name of a permission level.
pub open spec fn spec_permissions_name(p: Permissions) -> Seq<char> {
    match p {
        Permissions::Default => "Default"@,
        Permissions::ChannelMod => "ChannelMod"@,
    }
}

/// The reply of the identity builtin: which user record the caller
/// resolves to, and the caller's permission level.
pub open spec fn spec_whoami_reply(u: Option<crate::models::UserV>, p: Permissions) -> Seq<char> {
    (match u {
        Some(us) => "user "@ + spec_decimal(us.id as nat),
        None => "no user"@,
    }) + ", permissions: "@ + spec_permissions_name(p)
}

/// The uptime rendering: hours and minutes where they are not zero, bare
/// seconds when less than a minute has passed.
pub open spec fn spec_uptime_text(secs: nat) -> Seq<char> {
    let minutes = (secs / 60) % 60;
    let hours = (secs / 60) / 60;
    if hours == 0 && minutes == 0 {
        spec_decimal(secs) + "s"@
    } else {
        (if hours != 0 {
            spec_decimal(hours) + "h "@
        } else {
            Seq::empty()
        }) + (if minutes != 0 {
            spec_decimal(minutes) + "m "@
        } else {
            Seq::empty()
        })
    }
}

/// The reply of the ping builtin.
pub open spec fn spec_ping_reply(secs: nat) -> Seq<char> {
    "Pong! Uptime "@ + spec_uptime_text(secs)
}

/// Renders the uptime of the ping reply.
pub fn uptime_text(secs: u64) -> (r: String)
    ensures
        r@ == spec_uptime_text(secs as nat),
{
    let minutes = (secs / 60) % 60;
    let hours = (secs / 60) / 60;
    if hours == 0 && minutes == 0 {
        let mut s = u64_to_string(secs);
        s.append("s");
        proof {
            reveal_strlit("s");
            assert(s@ =~= spec_uptime_text(secs as nat));
        }
        s
    } else {
        let mut s = String::new();
        if hours != 0 {
            s.append(u64_to_string(hours).as_str());
            s.append("h ");
        }
        if minutes != 0 {
            s.append(u64_to_string(minutes).as_str());
            s.append("m ");
        }
        proof {
            reveal_strlit("h ");
            reveal_strlit("m ");
            assert(s@ =~= spec_uptime_text(secs as nat));
        }
        s
    }
}

/// The parts of the engine one dispatch may change, beyond the caches:
/// the channel and command tables, the pending bus traffic, and the
/// cooldown stamps.
pub struct DispatchStateV {
    pub channels: Seq<ChannelV>,
    pub next_channel_id: u64,
    pub commands: Seq<CommandV>,
    pub outbox: Seq<BusMessageV>,
    pub cooldowns: Seq<CooldownEntryV>,
}

/// The reply side of a dispatch, carried into the mathematical world.
pub open spec fn reply_view(r: Result<Option<String>, CommandError>) -> Result<
    Option<Seq<char>>,
    CommandErrorV,
> {
    match r {
        Ok(o) => Ok(o.deep_view()),
        Err(e) => Err(e@),
    }
}

/// The state after a channel was created on first reference: the
/// known-channels set on the bus grows and the change is announced on
/// the platform's update topic.
pub open spec fn spec_create_channel(st: DispatchStateV, p: Seq<char>, c: Seq<char>)
    -> DispatchStateV {
    DispatchStateV {
        channels: st.channels.push(ChannelV { id: st.next_channel_id, platform: p, channel: c }),
        next_channel_id: (st.next_channel_id + 1) as u64,
        outbox: st.outbox.push(
            BusMessageV::SetAdd { key: spec_channels_key(p), members: seq![c] },
        ).push(
            BusMessageV::Notify {
                topic: crate::bus::spec_update_topic(p),
                text: "Channel list updated"@,
            },
        ),
        ..st
    }
}

/// What `command add` does once the channel id is known.
pub open spec fn spec_cmd_add_at(
    st: DispatchStateV,
    channel_id: u64,
    name: Seq<char>,
    action: Seq<char>,
) -> (DispatchStateV, Result<Option<Seq<char>>, CommandErrorV>) {
    if spec_is_builtin_name(name) {
        (st, Err(CommandErrorV::DatabaseError(DatabaseErrorV::InvalidValue)))
    } else {
        match spec_find_command(st.commands, channel_id, name) {
            Some(_) => (st, Ok(Some("Command already exists"@))),
            None => (
                DispatchStateV {
                    commands: st.commands.push(
                        CommandV { channel_id, name, action, permissions: None, cooldown: 5 },
                    ),
                    ..st
                },
                Ok(Some("Command successfully added"@)),
            ),
        }
    }
}

/// What `command add` does: the channel is resolved or created first,
/// then the command inserted under it.
pub open spec fn spec_cmd_add(
    st: DispatchStateV,
    chident: ChannelIdentifierV,
    name: Seq<char>,
    action: Seq<char>,
) -> (DispatchStateV, Result<Option<Seq<char>>, CommandErrorV>) {
    match spec_platform_name(chident) {
        None => (st, Err(CommandErrorV::DatabaseError(DatabaseErrorV::InvalidValue))),
        Some(p) => {
            let c = spec_channel_string(chident)->Some_0;
            match spec_find_channel(st.channels, p, c) {
                Some(ch) => spec_cmd_add_at(st, ch.id, name, action),
                None => {
                    if st.next_channel_id < u64::MAX {
                        spec_cmd_add_at(
                            spec_create_channel(st, p, c),
                            st.next_channel_id,
                            name,
                            action,
                        )
                    } else {
                        (
                            st,
                            Err(
                                CommandErrorV::DatabaseError(
                                    DatabaseErrorV::StoreError("channel ids exhausted"@),
                                ),
                            ),
                        )
                    }
                },
            }
        },
    }
}

/// What `command remove` does once the channel id is known.
pub open spec fn spec_cmd_del_at(st: DispatchStateV, channel_id: u64, name: Seq<char>) -> (
    DispatchStateV,
    Result<Option<Seq<char>>, CommandErrorV>,
) {
    match spec_find_command(st.commands, channel_id, name) {
        Some(_) => (
            DispatchStateV { commands: spec_remove_command(st.commands, channel_id, name), ..st },
            Ok(Some("Command succesfully removed"@)),
        ),
        None => (st, Err(CommandErrorV::DatabaseError(DatabaseErrorV::InvalidValue))),
    }
}

/// What `command remove` does: the channel is resolved or created first.
pub open spec fn spec_cmd_del(st: DispatchStateV, chident: ChannelIdentifierV, name: Seq<char>)
    -> (DispatchStateV, Result<Option<Seq<char>>, CommandErrorV>) {
    match spec_platform_name(chident) {
        None => (st, Err(CommandErrorV::DatabaseError(DatabaseErrorV::InvalidValue))),
        Some(p) => {
            let c = spec_channel_string(chident)->Some_0;
            match spec_find_channel(st.channels, p, c) {
                Some(ch) => spec_cmd_del_at(st, ch.id, name),
                None => {
                    if st.next_channel_id < u64::MAX {
                        spec_cmd_del_at(spec_create_channel(st, p, c), st.next_channel_id, name)
                    } else {
                        (
                            st,
                            Err(
                                CommandErrorV::DatabaseError(
                                    DatabaseErrorV::StoreError("channel ids exhausted"@),
                                ),
                            ),
                        )
                    }
                },
            }
        },
    }
}

/// What the command-management builtin does. A caller below channel
/// moderator is turned away before anything is touched; only the listing
/// reply is open to everyone.
pub open spec fn spec_cmd(
    st: DispatchStateV,
    command_word: Seq<char>,
    args: Seq<Seq<char>>,
    ctx: ExecutionContextV,
) -> (DispatchStateV, Result<Option<Seq<char>>, CommandErrorV>) {
    if args.len() == 0 {
        (st, Ok(Some("Command list"@)))
    } else if ctx.permissions != Permissions::ChannelMod {
        (st, Err(CommandErrorV::NoPermissions))
    } else if args[0] == "add"@ || args[0] == "create"@ {
        if args.len() < 2 {
            (st, Err(CommandErrorV::MissingArgument("command name"@)))
        } else {
            let action = spec_join_space(args.skip(2));
            if action.len() == 0 {
                (st, Err(CommandErrorV::MissingArgument("command action"@)))
            } else {
                spec_cmd_add(st, ctx.channel, args[1], action)
            }
        }
    } else if args[0] == "del"@ || args[0] == "delete"@ || args[0] == "remove"@ {
        if args.len() < 2 {
            (st, Err(CommandErrorV::MissingArgument("command name"@)))
        } else {
            spec_cmd_del(st, ctx.channel, args[1])
        }
    } else {
        (st, Err(CommandErrorV::InvalidArgument(command_word)))
    }
}

/// How long the engine has been up.
pub open spec fn spec_uptime(startup: u64, now: u64) -> nat {
    if now >= startup {
        (now - startup) as nat
    } else {
        0
    }
}

/// What running a stored command does: the permission gate turns a
/// caller below the command's requirement away; an invocation inside the
/// cooldown window is dropped without a reply; otherwise the pair is
/// stamped and the action string expanded.
pub open spec fn spec_stored<H: InquiryHandler>(
    h: &H,
    st: DispatchStateV,
    ctx: ExecutionContextV,
    cmd: CommandV,
    now: u64,
) -> (DispatchStateV, Result<Option<Seq<char>>, CommandErrorV>) {
    let required = match cmd.permissions {
        Some(p) => p,
        None => Permissions::Default,
    };
    if required == Permissions::ChannelMod && ctx.permissions != Permissions::ChannelMod {
        (st, Err(CommandErrorV::NoPermissions))
    } else if !spec_cooldown_ready(st.cooldowns, cmd.channel_id, cmd.name, cmd.cooldown, now) {
        (st, Ok(None))
    } else {
        let st2 = DispatchStateV {
            cooldowns: spec_touch_cooldown(st.cooldowns, cmd.channel_id, cmd.name, now),
            ..st
        };
        match spec_interpret(h, cmd.action, ctx) {
            Err(e) => (st2, Err(CommandErrorV::InquiryError(e))),
            Ok(out) => (
                st2,
                Ok(
                    if out.len() == 0 {
                        None
                    } else {
                        Some(out)
                    },
                ),
            ),
        }
    }
}

/// The whole per-token dispatch: the fixed builtins run directly, legacy
/// aliases are rewritten to the command builtin with their subcommand
/// injected, and any other token is looked up as a stored command of the
/// destination channel; an unknown token does nothing.
pub open spec fn spec_run_command<H: InquiryHandler>(
    h: &H,
    st: DispatchStateV,
    users: Seq<UserV>,
    command: Seq<char>,
    args: Seq<Seq<char>>,
    ident: UserIdentifierV,
    ctx: ExecutionContextV,
    startup: u64,
    now: u64,
) -> (DispatchStateV, Result<Option<Seq<char>>, CommandErrorV>) {
    if command == "ping"@ {
        (st, Ok(Some(spec_ping_reply(spec_uptime(startup, now)))))
    } else if command == "whoami"@ || command == "id"@ {
        (
            st,
            Ok(
                Some(
                    spec_whoami_reply(spec_find_user_by_ident(users, ident), ctx.permissions),
                ),
            ),
        )
    } else if command == "cmd"@ || command == "command"@ || command == "commands"@ {
        spec_cmd(st, command, args, ctx)
    } else if command == "addcmd"@ || command == "cmdadd"@ {
        spec_cmd(st, "command"@, seq!["add"@] + args, ctx)
    } else if command == "delcmd"@ || command == "cmddel"@ {
        spec_cmd(st, "command"@, seq!["remove"@] + args, ctx)
    } else {
        match spec_channel_lookup(st.channels, ctx.channel) {
            None => (st, Ok(None)),
            Some(ch) => match spec_find_command(st.commands, ch.id, command) {
                None => (st, Ok(None)),
                Some(cmd) => spec_stored(h, st, ctx, cmd, now),
            },
        }
    }
}

/// The dispatcher: resolves each inbound message to at most one reply,
/// running builtins itself and stored commands through the permission
/// gate, the cooldown and the action interpreter.
pub struct CommandHandler<H> {
    pub db: Database,
    pub inquiries: H,
    pub startup_time: u64,
    pub cooldowns: Vec<CooldownEntry>,
}

impl<H: InquiryHandler> CommandHandler<H> {
    /// The dispatch-visible state.
    pub open spec fn dstate(&self) -> DispatchStateV {
        DispatchStateV {
            channels: self.db.store_channels(),
            next_channel_id: self.db.next_channel_id,
            commands: self.db.store_commands(),
            outbox: self.db.outbox.deep_view(),
            cooldowns: self.cooldowns.deep_view(),
        }
    }

    /// The engine is usable: its store and caches agree.
    pub open spec fn wf(&self) -> bool {
        self.db.wf()
    }

    /// The parts of the engine a dispatch never touches.
    pub open spec fn fixed_unchanged(a: &Self, b: &Self) -> bool {
        &&& b.inquiries == a.inquiries
        &&& b.startup_time == a.startup_time
        &&& b.db.store_users() == a.db.store_users()
        &&& b.db.next_user_id == a.db.next_user_id
        &&& b.db.store_filters() == a.db.store_filters()
        &&& b.db.store_user_data() == a.db.store_user_data()
        &&& b.db.store_auth() == a.db.store_auth()
        &&& b.db.store_sessions() == a.db.store_sessions()
        &&& b.db.store_prefixes() == a.db.store_prefixes()
    }

    /// Builds the dispatcher around a store and an inquiry registry.
    pub fn init(db: Database, inquiries: H, startup_time: u64) -> (r: Self)
        ensures
            r.db == db,
            r.inquiries == inquiries,
            r.startup_time == startup_time,
            r.cooldowns.deep_view() == Seq::<CooldownEntryV>::empty(),
    {
        let r = CommandHandler { db, inquiries, startup_time, cooldowns: Vec::new() };
        proof {
            assert(r.cooldowns.deep_view() =~= Seq::<CooldownEntryV>::empty());
        }
        r
    }

    /// The uptime reply of the ping builtin.
    fn ping(&self, now: u64) -> (r: String)
        ensures
            r@ == spec_ping_reply(spec_uptime(self.startup_time, now)),
    {
        let secs = if now >= self.startup_time {
            now - self.startup_time
        } else {
            0
        };
        let mut s = String::from_str("Pong! Uptime ");
        let u = uptime_text(secs);
        s.append(u.as_str());
        s
    }

    /// The command-management builtin: `add`/`create` stores a new
    /// command, `del`/`delete`/`remove` drops one, and a caller below
    /// channel moderator is turned away with nothing stored.
    #[verifier::rlimit(60)]
    pub fn cmd(&mut self, command: &str, arguments: Vec<String>, execution_context:
        &ExecutionContext) -> (r: Result<Option<String>, CommandError>)
        requires
            old(self).wf(),
        ensures
            final(self).wf(),
            Self::fixed_unchanged(old(self), final(self)),
            (final(self).dstate(), reply_view(r)) == spec_cmd(
                old(self).dstate(),
                command@,
                arguments.deep_view(),
                execution_context@,
            ),
    {
        if arguments.len() == 0 {
            return Ok(Some(String::from_str("Command list")));
        }
        match execution_context.permissions {
            Permissions::ChannelMod => {
                let add_w = String::from_str("add");
                let create_w = String::from_str("create");
                let del_w = String::from_str("del");
                let delete_w = String::from_str("delete");
                let remove_w = String::from_str("remove");
                let sub = &arguments[0];
                if sub.eq(&add_w) || sub.eq(&create_w) {
                    if arguments.len() < 2 {
                        return Err(
                            CommandError::MissingArgument(String::from_str("command name")),
                        );
                    }
                    let action = join_space(&arguments, 2);
                    if action.unicode_len() == 0 {
                        return Err(
                            CommandError::MissingArgument(String::from_str("command action")),
                        );
                    }
                    let ghost st0 = old(self).dstate();
                    let ghost argsdv = arguments.deep_view();
                    let outcome = self.db.add_command_to_channel(
                        &execution_context.channel,
                        arguments[1].as_str(),
                        action.as_str(),
                    );
                    let res: Result<Option<String>, CommandError> = match outcome {
                        Ok(_) => Ok(Some(String::from_str("Command successfully added"))),
                        Err(DatabaseError::DuplicateValue) => Ok(
                            Some(String::from_str("Command already exists")),
                        ),
                        Err(e) => Err(CommandError::DatabaseError(e)),
                    };
                    proof {
                        let target = spec_cmd_add(st0, execution_context@.channel, argsdv[1], action@);
                        assert(self.dstate() == target.0);
                        assert(reply_view(res) == target.1);
                    }
                    res
                } else if sub.eq(&del_w) || sub.eq(&delete_w) || sub.eq(&remove_w) {
                    if arguments.len() < 2 {
                        return Err(
                            CommandError::MissingArgument(String::from_str("command name")),
                        );
                    }
                    let ghost st0 = old(self).dstate();
                    let ghost argsdv = arguments.deep_view();
                    let outcome = self.db.delete_command_from_channel(
                        &execution_context.channel,
                        arguments[1].as_str(),
                    );
                    let res: Result<Option<String>, CommandError> = match outcome {
                        Ok(_) => Ok(Some(String::from_str("Command succesfully removed"))),
                        Err(e) => Err(CommandError::DatabaseError(e)),
                    };
                    proof {
                        let target = spec_cmd_del(st0, execution_context@.channel, argsdv[1]);
                        assert(self.dstate() == target.0);
                        assert(reply_view(res) == target.1);
                    }
                    res
                } else {
                    Err(CommandError::InvalidArgument(String::from_str(command)))
                }
            },
            Permissions::Default => Err(CommandError::NoPermissions),
        }
    }

    /// Dispatches one resolved command token with its arguments.
    pub fn run_command(
        &mut self,
        command: &str,
        arguments: Vec<String>,
        user_identifier: &UserIdentifier,
        execution_context: &ExecutionContext,
        now: u64,
    ) -> (r: Result<Option<String>, CommandError>)
        requires
            old(self).wf(),
        ensures
            final(self).wf(),
            Self::fixed_unchanged(old(self), final(self)),
            (final(self).dstate(), reply_view(r)) == spec_run_command(
                &old(self).inquiries,
                old(self).dstate(),
                old(self).db.store_users(),
                command@,
                arguments.deep_view(),
                user_identifier@,
                execution_context@,
                old(self).startup_time,
                now,
            ),
    {
        let cw = String::from_str(command);
        if cw.eq(&String::from_str("ping")) {
            Ok(Some(self.ping(now)))
        } else if cw.eq(&String::from_str("whoami")) || cw.eq(&String::from_str("id")) {
            let found = match self.db.get_user(user_identifier) {
                Ok(o) => o,
                Err(e) => {
                    proof {
                        assert(false);
                    }
                    return Err(CommandError::DatabaseError(e));
                },
            };
            let mut s = match found {
                Some(us) => {
                    let mut t = String::from_str("user ");
                    let d = u64_to_string(us.id);
                    t.append(d.as_str());
                    t
                },
                None => String::from_str("no user"),
            };
            s.append(", permissions: ");
            match execution_context.permissions {
                Permissions::Default => s.append("Default"),
                Permissions::ChannelMod => s.append("ChannelMod"),
            }
            Ok(Some(s))
        } else if cw.eq(&String::from_str("cmd")) || cw.eq(&String::from_str("command"))
            || cw.eq(&String::from_str("commands")) {
            self.cmd(command, arguments, execution_context)
        } else if cw.eq(&String::from_str("addcmd")) || cw.eq(&String::from_str("cmdadd")) {
            let ghost args0 = arguments.deep_view();
            let mut arguments = arguments;
            arguments.insert(0, String::from_str("add"));
            proof {
                assert(arguments.deep_view() =~= seq!["add"@] + args0);
            }
            self.cmd("command", arguments, execution_context)
        } else if cw.eq(&String::from_str("delcmd")) || cw.eq(&String::from_str("cmddel")) {
            let ghost args0 = arguments.deep_view();
            let mut arguments = arguments;
            arguments.insert(0, String::from_str("remove"));
            proof {
                assert(arguments.deep_view() =~= seq!["remove"@] + args0);
            }
            self.cmd("command", arguments, execution_context)
        } else {
            let stored = match self.db.get_command(&execution_context.channel, command) {
                Ok(o) => o,
                Err(e) => {
                    proof {
                        assert(false);
                    }
                    return Err(CommandError::DatabaseError(e));
                },
            };
            match stored {
                None => Ok(None),
                Some(c) => {
                    let required = match c.permissions {
                        Some(p) => p,
                        None => Permissions::Default,
                    };
                    if required == Permissions::ChannelMod && !(execution_context.permissions
                        == Permissions::ChannelMod) {
                        Err(CommandError::NoPermissions)
                    } else if !cooldown_gate(
                        &mut self.cooldowns,
                        c.channel_id,
                        &c.name,
                        c.cooldown,
                        now,
                    ) {
                        Ok(None)
                    } else {
                        match interpret(&self.inquiries, c.action.as_str(), execution_context) {
                            Err(e) => Err(CommandError::InquiryError(e)),
                            Ok(o) => Ok(o),
                        }
                    }
                },
            }
        }
    }

    /// The per-message pipeline: empty input gets the fixed reply, the
    /// first word of anything else resolves as the command and the rest
    /// as its arguments, and every error becomes a single textual reply.
    pub fn handle_command_message<T: CommandMessage>(
        &mut self,
        message: &T,
        context: &ExecutionContext,
        now: u64,
    ) -> (r: Option<String>)
        requires
            old(self).wf(),
        ensures
            final(self).wf(),
            Self::fixed_unchanged(old(self), final(self)),
            ({
                let text = message.text_view();
                let toks = spec_tokens(text);
                if text.len() == 0 {
                    r matches Some(s) && s@ == "\u{2757}"@ && final(self).dstate() == old(
                        self,
                    ).dstate()
                } else if toks.len() == 0 {
                    r is None && final(self).dstate() == old(self).dstate()
                } else {
                    let (st2, res) = spec_run_command(
                        &old(self).inquiries,
                        old(self).dstate(),
                        old(self).db.store_users(),
                        toks[0],
                        toks.drop_first(),
                        message.ident_view(),
                        context@,
                        old(self).startup_time,
                        now,
                    );
                    &&& final(self).dstate() == st2
                    &&& match res {
                        Ok(o) => r.deep_view() == o,
                        Err(e) => r matches Some(s) && s@ == "Error: "@
                            + spec_command_error_message(e),
                    }
                }
            }),
    {
        let text = message.get_text();
        if text.unicode_len() == 0 {
            return Some(String::from_str("\u{2757}"));
        }
        let mut tokens = tokenize(text.as_str());
        if tokens.len() == 0 {
            return None;
        }
        let ghost toks = spec_tokens(text@);
        let command = tokens.remove(0);
        proof {
            assert(tokens.deep_view() =~= toks.drop_first());
        }
        let ident = message.get_user_identifier();
        match self.run_command(command.as_str(), tokens, &ident, context, now) {
            Ok(res) => res,
            Err(e) => {
                let mut s = String::from_str("Error: ");
                let m = e.message();
                s.append(m.as_str());
                Some(s)
            },
        }
    }
}

/// Law: a caller below channel moderator who invokes the command
/// management builtin with any arguments is refused, and nothing in the
/// engine changes.
pub proof fn lemma_cmd_requires_moderator(
    st: DispatchStateV,
    command_word: Seq<char>,
    args: Seq<Seq<char>>,
    ctx: ExecutionContextV,
)
    requires
        args.len() > 0,
        ctx.permissions != Permissions::ChannelMod,
    ensures
        spec_cmd(st, command_word, args, ctx) == (
            st,
            Err::<Option<Seq<char>>, CommandErrorV>(CommandErrorV::NoPermissions),
        ),
{
}

/// A stamp is what its own key reads back.
pub proof fn lemma_find_touch_same(
    entries: Seq<CooldownEntryV>,
    channel_id: u64,
    name: Seq<char>,
    t: u64,
)
    ensures
        spec_find_cooldown(spec_touch_cooldown(entries, channel_id, name, t), channel_id, name)
            == Some(t),
    decreases entries.len(),
{
    let p = cooldown_key_pred(channel_id, name);
    let e = CooldownEntryV { channel_id, name, last: t };
    let up = spec_touch_cooldown(entries, channel_id, name, t);
    if entries.len() == 0 {
        assert(up =~= seq![e]);
        assert(up[0] == e && p(up[0]));
    } else if entries[0].channel_id == channel_id && entries[0].name == name {
        assert(up[0] == e && p(up[0]));
    } else {
        assert(forall|i: int|
            0 <= i < entries.drop_first().len() ==> entries.drop_first()[i] == entries[i + 1]);
        lemma_find_touch_same(entries.drop_first(), channel_id, name, t);
        assert(up[0] == entries[0] && !p(up[0]));
        assert(up.drop_first() =~= spec_touch_cooldown(entries.drop_first(), channel_id, name, t));
    }
}

/// Law: running a stored command stamps its pair; a second invocation
/// inside the cooldown window is dropped without any reply, and one at
/// or after the window's end runs the command again — whenever its
/// action expands without error to something nonempty, the expansion is
/// the reply once more.
pub proof fn lemma_cooldown_window<H: InquiryHandler>(
    h: &H,
    st: DispatchStateV,
    ctx: ExecutionContextV,
    cmd: CommandV,
    t: u64,
    t2: u64,
)
    requires
        (match cmd.permissions {
            Some(p) => p,
            None => Permissions::Default,
        }) == Permissions::ChannelMod ==> ctx.permissions == Permissions::ChannelMod,
        spec_cooldown_ready(st.cooldowns, cmd.channel_id, cmd.name, cmd.cooldown, t),
    ensures
        t2 < t + cmd.cooldown ==> spec_stored(h, spec_stored(h, st, ctx, cmd, t).0, ctx, cmd, t2)
            == (
            spec_stored(h, st, ctx, cmd, t).0,
            Ok::<Option<Seq<char>>, CommandErrorV>(None),
        ),
        t2 >= t + cmd.cooldown ==> spec_cooldown_ready(
            spec_stored(h, st, ctx, cmd, t).0.cooldowns,
            cmd.channel_id,
            cmd.name,
            cmd.cooldown,
            t2,
        ),
        t2 >= t + cmd.cooldown && (spec_interpret(h, cmd.action, ctx) matches Ok(out)
            && out.len() > 0) ==> spec_stored(
            h,
            spec_stored(h, st, ctx, cmd, t).0,
            ctx,
            cmd,
            t2,
        ).1 == Ok::<Option<Seq<char>>, CommandErrorV>(
            Some(spec_interpret(h, cmd.action, ctx)->Ok_0),
        ),
{
    lemma_find_touch_same(st.cooldowns, cmd.channel_id, cmd.name, t);
}

/// Mathematical image of a `CommandResolution`.
pub enum CommandResolutionV {
    Builtin(Seq<char>),
    Stored(CommandV),
    NotFound,
}

/// What a raw command token resolves to.
#[derive(Clone, Debug)]
pub enum CommandResolution {
    Builtin(String),
    Stored(Command),
    NotFound,
}

impl View for CommandResolution {
    type V = CommandResolutionV;

    open spec fn view(&self) -> CommandResolutionV {
        match self {
            CommandResolution::Builtin(s) => CommandResolutionV::Builtin(s@),
            CommandResolution::Stored(c) => CommandResolutionV::Stored(c@),
            CommandResolution::NotFound => CommandResolutionV::NotFound,
        }
    }
}

/// The resolver's contract: a token that names a builtin always wins,
/// whatever stored command shares the name; otherwise only the channel's
/// stored command of exactly that name counts; there is no fuzzy match.
pub open spec fn spec_resolve(
    chs: Seq<ChannelV>,
    cmds: Seq<CommandV>,
    channel: ChannelIdentifierV,
    token: Seq<char>,
) -> CommandResolutionV {
    if spec_is_builtin_name(token) {
        CommandResolutionV::Builtin(token)
    } else {
        match spec_channel_lookup(chs, channel) {
            None => CommandResolutionV::NotFound,
            Some(ch) => match spec_find_command(cmds, ch.id, token) {
                Some(c) => CommandResolutionV::Stored(c),
                None => CommandResolutionV::NotFound,
            },
        }
    }
}

/// Resolves a raw command token against the built-in names and the
/// channel's stored commands.
pub fn resolve(db: &mut Database, channel: &crate::platform::ChannelIdentifier, token: &str) -> (r:
    Result<CommandResolution, DatabaseError>)
    requires
        old(db).wf(),
    ensures
        final(db).wf(),
        crate::database::same_store(*old(db), *final(db)),
        crate::database::same_outbox(*old(db), *final(db)),
        r matches Ok(res) && res@ == spec_resolve(
            old(db).store_channels(),
            old(db).store_commands(),
            channel@,
            token@,
        ),
{
    let t = String::from_str(token);
    if crate::database::is_builtin_name(&t) {
        Ok(CommandResolution::Builtin(t))
    } else {
        match db.get_command(channel, token) {
            Ok(Some(c)) => Ok(CommandResolution::Stored(c)),
            Ok(None) => Ok(CommandResolution::NotFound),
            Err(e) => {
                proof {
                    assert(false);
                }
                Err(e)
            },
        }
    }
}

} // verus!
