use vstd::prelude::*;

use crate::bus::BusMessage;
use crate::cache::{
    channel_cache_get, channel_cache_insert, channel_cache_new, channel_cache_of,
    ident_cache_clear, ident_cache_get, ident_cache_insert, ident_cache_new, ident_cache_of,
    prefix_cache_get, prefix_cache_insert, prefix_cache_new, prefix_cache_of, session_cache_get,
    session_cache_insert, session_cache_new, session_cache_of, session_cache_remove,
    session_cache_clear, user_cache_clear, user_cache_get, user_cache_insert, user_cache_new,
    user_cache_of, user_cache_remove,
};
use crate::models::{
    AuthRow, AuthRowV, Channel, ChannelV, Command, CommandV, Filter, FilterV, NewCommand, Prefix,
    PrefixV, User, UserData, UserDataV, UserV, WebSession, WebSessionV, clone_opt,
    spec_merge_users, spec_user_has_ident,
};
use crate::platform::{ChannelIdentifier, ChannelIdentifierV, UserIdentifier, UserIdentifierV};
use crate::strutil::u64_to_string;

verus! {

/// Mathematical image of a `DatabaseError`.
pub enum DatabaseErrorV {
    StoreError(Seq<char>),
    InvalidValue,
    DuplicateValue,
}

/// Failure of an entity-store operation. `InvalidValue` stands for a
/// rejected value, `DuplicateValue` for a uniqueness violation, and
/// `StoreError` for a failure of the store itself.
#[derive(Clone, Debug)]
pub enum DatabaseError {
    StoreError(String),
    InvalidValue,
    DuplicateValue,
}

impl View for DatabaseError {
    type V = DatabaseErrorV;

    open spec fn view(&self) -> DatabaseErrorV {
        match self {
            DatabaseError::StoreError(s) => DatabaseErrorV::StoreError(s@),
            DatabaseError::InvalidValue => DatabaseErrorV::InvalidValue,
            DatabaseError::DuplicateValue => DatabaseErrorV::DuplicateValue,
        }
    }
}

/// The wording of a store error, as shown to the caller.
pub open spec fn spec_database_error_message(e: DatabaseErrorV) -> Seq<char> {
    match e {
        DatabaseErrorV::StoreError(s) => "Database error: "@ + s,
        DatabaseErrorV::InvalidValue => "Invalid value"@,
        DatabaseErrorV::DuplicateValue => "Duplicate value"@,
    }
}

impl DatabaseError {
    /// Renders the error for a user-visible reply.
    pub fn message(&self) -> (r: String)
        ensures
            r@ == spec_database_error_message(self@),
    {
        match self {
            DatabaseError::StoreError(s) => {
                let mut m = String::from_str("Database error: ");
                m.append(s.as_str());
                m
            },
            DatabaseError::InvalidValue => String::from_str("Invalid value"),
            DatabaseError::DuplicateValue => String::from_str("Duplicate value"),
        }
    }
}

/// The first user row with the given id.
pub open spec fn spec_find_user_by_id(users: Seq<UserV>, id: u64) -> Option<UserV>
    decreases users.len(),
{
    if users.len() == 0 {
        None
    } else if users[0].id == id {
        Some(users[0])
    } else {
        spec_find_user_by_id(users.drop_first(), id)
    }
}

/// The first user row carrying the given identity.
pub open spec fn spec_find_user_by_ident(users: Seq<UserV>, ident: UserIdentifierV) -> Option<
    UserV,
>
    decreases users.len(),
{
    if users.len() == 0 {
        None
    } else if spec_user_has_ident(users[0], ident) {
        Some(users[0])
    } else {
        spec_find_user_by_ident(users.drop_first(), ident)
    }
}

/// The user table without the rows of the given id, order kept.
pub open spec fn spec_remove_user(users: Seq<UserV>, id: u64) -> Seq<UserV>
    decreases users.len(),
{
    if users.len() == 0 {
        Seq::empty()
    } else {
        let rest = spec_remove_user(users.drop_last(), id);
        if users.last().id == id {
            rest
        } else {
            rest.push(users.last())
        }
    }
}

/// The user table with every row of `u`'s id replaced by `u`.
pub open spec fn spec_update_user(users: Seq<UserV>, u: UserV) -> Seq<UserV> {
    Seq::new(users.len(), |i: int| if users[i].id == u.id { u } else { users[i] })
}

/// No identity is carried by both rows: no platform column is `Some` of
/// the same value in each.
pub open spec fn spec_ident_fields_distinct(a: UserV, b: UserV) -> bool {
    &&& !(a.twitch_id is Some && a.twitch_id == b.twitch_id)
    &&& !(a.discord_id is Some && a.discord_id == b.discord_id)
    &&& !(a.irc_name is Some && a.irc_name == b.irc_name)
    &&& !(a.telegram_id is Some && a.telegram_id == b.telegram_id)
    &&& !(a.local_addr is Some && a.local_addr == b.local_addr)
}

/// The data model's identity invariant: an identifier maps to at most
/// one user at a time.
pub open spec fn spec_unique_identities(users: Seq<UserV>) -> bool {
    forall|i: int, j: int|
        0 <= i < j < users.len() ==> spec_ident_fields_distinct(
            #[trigger] users[i],
            #[trigger] users[j],
        )
}

/// Whether user ids occur at most once.
pub open spec fn spec_unique_user_ids(users: Seq<UserV>) -> bool {
    forall|i: int, j: int|
        0 <= i < j < users.len() ==> users[i].id != users[j].id
}

/// Whether every user id lies below the id counter.
pub open spec fn spec_user_ids_below(users: Seq<UserV>, next: u64) -> bool {
    forall|i: int| 0 <= i < users.len() ==> users[i].id < next
}

/// A found row is a row of the table.
pub proof fn lemma_find_user_by_id_member(users: Seq<UserV>, id: u64)
    requires
        spec_find_user_by_id(users, id) is Some,
    ensures
        exists|i: int|
            0 <= i < users.len() && users[i] == spec_find_user_by_id(users, id)->Some_0
                && users[i].id == id,
    decreases users.len(),
{
    if users.len() == 0 {
    } else if users[0].id == id {
        assert(users[0] == spec_find_user_by_id(users, id)->Some_0);
    } else {
        lemma_find_user_by_id_member(users.drop_first(), id);
        let i0 = choose|i: int|
            0 <= i < users.drop_first().len() && users.drop_first()[i] == spec_find_user_by_id(
                users.drop_first(),
                id,
            )->Some_0 && users.drop_first()[i].id == id;
        assert(users[i0 + 1] == users.drop_first()[i0]);
    }
}

/// A table without any row of the sought id yields no find.
pub proof fn lemma_find_user_by_id_absent(users: Seq<UserV>, id: u64)
    requires
        forall|i: int| 0 <= i < users.len() ==> users[i].id != id,
    ensures
        spec_find_user_by_id(users, id) is None,
    decreases users.len(),
{
    if users.len() > 0 {
        assert(forall|i: int|
            0 <= i < users.drop_first().len() ==> users.drop_first()[i] == users[i + 1]);
        lemma_find_user_by_id_absent(users.drop_first(), id);
    }
}

/// A row carrying an identity forces the identity to resolve.
pub proof fn lemma_find_user_by_ident_exists(users: Seq<UserV>, ident: UserIdentifierV)
    requires
        exists|i: int| 0 <= i < users.len() && spec_user_has_ident(#[trigger] users[i], ident),
    ensures
        spec_find_user_by_ident(users, ident) is Some,
    decreases users.len(),
{
    if users.len() == 0 {
    } else if spec_user_has_ident(users[0], ident) {
    } else {
        let i0 = choose|i: int|
            0 <= i < users.len() && spec_user_has_ident(#[trigger] users[i], ident);
        assert(users.drop_first()[i0 - 1] == users[i0]);
        lemma_find_user_by_ident_exists(users.drop_first(), ident);
    }
}

/// With unique ids, the row an identity resolves to is also what its id
/// resolves to.
pub proof fn lemma_find_by_ident_then_by_id(users: Seq<UserV>, ident: UserIdentifierV)
    requires
        spec_unique_user_ids(users),
        spec_find_user_by_ident(users, ident) is Some,
    ensures
        spec_find_user_by_id(users, spec_find_user_by_ident(users, ident)->Some_0.id)
            == spec_find_user_by_ident(users, ident),
    decreases users.len(),
{
    if users.len() == 0 {
    } else if spec_user_has_ident(users[0], ident) {
    } else {
        let u = spec_find_user_by_ident(users.drop_first(), ident)->Some_0;
        assert(forall|i: int|
            0 <= i < users.drop_first().len() ==> users.drop_first()[i] == users[i + 1]);
        lemma_find_by_ident_then_by_id(users.drop_first(), ident);
        lemma_find_user_by_id_member(users.drop_first(), ident_target_id(users, ident));
        assert(users[0].id != u.id) by {
            lemma_find_user_by_id_member(users.drop_first(), u.id);
        }
    }
}

/// The id a found identity maps to; a helper for triggers.
pub open spec fn ident_target_id(users: Seq<UserV>, ident: UserIdentifierV) -> u64 {
    spec_find_user_by_ident(users, ident)->Some_0.id
}

/// Removal leaves no row of the removed id.
pub proof fn lemma_remove_user_gone(users: Seq<UserV>, id: u64)
    ensures
        forall|i: int|
            0 <= i < spec_remove_user(users, id).len() ==> spec_remove_user(users, id)[i].id
                != id,
    decreases users.len(),
{
    if users.len() > 0 {
        lemma_remove_user_gone(users.drop_last(), id);
    }
}

/// Every row of a removal's result is a row of the table.
pub proof fn lemma_remove_user_member(users: Seq<UserV>, id: u64)
    ensures
        forall|i: int|
            0 <= i < spec_remove_user(users, id).len() ==> exists|j: int|
                0 <= j < users.len() && users[j] == #[trigger] spec_remove_user(users, id)[i],
    decreases users.len(),
{
    if users.len() > 0 {
        lemma_remove_user_member(users.drop_last(), id);
        let rest = spec_remove_user(users.drop_last(), id);
        assert forall|i: int|
            0 <= i < spec_remove_user(users, id).len() implies exists|j: int|
            0 <= j < users.len() && users[j] == #[trigger] spec_remove_user(users, id)[i] by {
            if i < rest.len() {
                let j0 = choose|j: int|
                    0 <= j < users.drop_last().len() && users.drop_last()[j] == rest[i];
                assert(users[j0] == rest[i]);
                assert(spec_remove_user(users, id)[i] == rest[i]);
            } else {
                assert(spec_remove_user(users, id)[i] == users.last());
                assert(users[users.len() - 1] == users.last());
            }
        }
    }
}

/// Finds of other ids are unaffected by a removal.
pub proof fn lemma_find_user_by_id_remove(users: Seq<UserV>, rid: u64, id: u64)
    requires
        id != rid,
    ensures
        spec_find_user_by_id(spec_remove_user(users, rid), id) == spec_find_user_by_id(users, id),
    decreases users.len(),
{
    if users.len() > 0 {
        assert(users.drop_last().push(users.last()) =~= users);
        lemma_find_user_by_id_remove(users.drop_last(), rid, id);
        lemma_find_user_by_id_snoc(spec_remove_user(users.drop_last(), rid), users.last(), id);
        lemma_find_user_by_id_snoc(users.drop_last(), users.last(), id);
        if users.last().id == rid {
            assert(spec_remove_user(users, rid) == spec_remove_user(users.drop_last(), rid));
        } else {
            assert(spec_remove_user(users, rid) == spec_remove_user(users.drop_last(), rid).push(
                users.last(),
            ));
        }
    }
}

/// How a find looks at a table with one row appended.
pub proof fn lemma_find_user_by_id_snoc(users: Seq<UserV>, u: UserV, id: u64)
    ensures
        spec_find_user_by_id(users.push(u), id) == (match spec_find_user_by_id(users, id) {
            Some(r) => Some(r),
            None => if u.id == id {
                Some(u)
            } else {
                None
            },
        }),
    decreases users.len(),
{
    if users.len() == 0 {
        assert(users.push(u)[0] == u);
        assert(users.push(u).drop_first() =~= Seq::<UserV>::empty());
    } else {
        assert(users.push(u)[0] == users[0]);
        assert(users.push(u).drop_first() =~= users.drop_first().push(u));
        lemma_find_user_by_id_snoc(users.drop_first(), u, id);
    }
}

/// The first element of a sequence satisfying a predicate.
pub open spec fn spec_first_match<T>(s: Seq<T>, p: spec_fn(T) -> bool) -> Option<T>
    decreases s.len(),
{
    if s.len() == 0 {
        None
    } else if p(s[0]) {
        Some(s[0])
    } else {
        spec_first_match(s.drop_first(), p)
    }
}

/// A first match is decided by the position of the first satisfying
/// element.
pub proof fn lemma_first_match_at<T>(s: Seq<T>, p: spec_fn(T) -> bool, k: int)
    requires
        0 <= k <= s.len(),
        forall|j: int| 0 <= j < k ==> !p(s[j]),
        k == s.len() || p(s[k]),
    ensures
        spec_first_match(s, p) == (if k == s.len() {
            None::<T>
        } else {
            Some(s[k])
        }),
    decreases s.len(),
{
    if s.len() == 0 {
    } else if k == 0 {
    } else {
        assert(forall|i: int| 0 <= i < s.drop_first().len() ==> s.drop_first()[i] == s[i + 1]);
        lemma_first_match_at(s.drop_first(), p, k - 1);
    }
}

/// How a first match looks at a sequence with one element appended.
pub proof fn lemma_first_match_snoc<T>(s: Seq<T>, p: spec_fn(T) -> bool, x: T)
    ensures
        spec_first_match(s.push(x), p) == (match spec_first_match(s, p) {
            Some(r) => Some(r),
            None => if p(x) {
                Some(x)
            } else {
                None
            },
        }),
    decreases s.len(),
{
    if s.len() == 0 {
        assert(s.push(x)[0] == x);
        assert(s.push(x).drop_first() =~= Seq::<T>::empty());
        if p(x) {
            assert(spec_first_match(s.push(x), p) == Some(x));
        } else {
            assert(spec_first_match(Seq::<T>::empty(), p) is None);
            assert(spec_first_match(s.push(x), p) is None);
        }
    } else {
        assert(s.push(x)[0] == s[0]);
        assert(s.push(x).drop_first() =~= s.drop_first().push(x));
        lemma_first_match_snoc(s.drop_first(), p, x);
    }
}

/// A first match is an element, satisfies the predicate, and nothing
/// before it does.
pub proof fn lemma_first_match_member<T>(s: Seq<T>, p: spec_fn(T) -> bool)
    requires
        spec_first_match(s, p) is Some,
    ensures
        exists|i: int|
            0 <= i < s.len() && s[i] == spec_first_match(s, p)->Some_0 && p(s[i]) && (forall|
                j: int,
            |
                0 <= j < i ==> !p(s[j])),
    decreases s.len(),
{
    if s.len() == 0 {
    } else if p(s[0]) {
        assert(0 <= 0 < s.len() && s[0] == spec_first_match(s, p)->Some_0 && p(s[0]) && (forall|
            j: int,
        |
            0 <= j < 0 ==> !p(s[j])));
    } else {
        assert(forall|i: int| 0 <= i < s.drop_first().len() ==> s.drop_first()[i] == s[i + 1]);
        lemma_first_match_member(s.drop_first(), p);
        let i0 = choose|i: int|
            0 <= i < s.drop_first().len() && s.drop_first()[i] == spec_first_match(
                s.drop_first(),
                p,
            )->Some_0 && p(s.drop_first()[i]) && (forall|j: int|
                0 <= j < i ==> !p(s.drop_first()[j]));
        assert(s[i0 + 1] == s.drop_first()[i0]);
        assert forall|j: int| 0 <= j < i0 + 1 implies !p(s[j]) by {
            if j > 0 {
                assert(s.drop_first()[j - 1] == s[j]);
            }
        }
        assert(0 <= i0 + 1 < s.len() && s[i0 + 1] == spec_first_match(s, p)->Some_0 && p(
            s[i0 + 1],
        ) && (forall|j: int| 0 <= j < i0 + 1 ==> !p(s[j])));
    }
}

/// An element satisfying the predicate forces a first match to exist.
pub proof fn lemma_first_match_exists<T>(s: Seq<T>, p: spec_fn(T) -> bool)
    requires
        exists|i: int| 0 <= i < s.len() && p(s[i]),
    ensures
        spec_first_match(s, p) is Some,
    decreases s.len(),
{
    if s.len() == 0 {
    } else if p(s[0]) {
    } else {
        let i0 = choose|i: int| 0 <= i < s.len() && p(s[i]);
        assert(s.drop_first()[i0 - 1] == s[i0]);
        lemma_first_match_exists(s.drop_first(), p);
    }
}

/// The first channel row with the given platform and channel string.
pub open spec fn spec_find_channel(chs: Seq<ChannelV>, platform: Seq<char>, channel: Seq<char>)
    -> Option<ChannelV> {
    spec_first_match(chs, |c: ChannelV| c.platform == platform && c.channel == channel)
}

/// The first channel row with the given id.
pub open spec fn spec_find_channel_by_id(chs: Seq<ChannelV>, id: u64) -> Option<ChannelV> {
    spec_first_match(chs, |c: ChannelV| c.id == id)
}

/// The channel row a channel identifier denotes: nothing for the
/// anonymous channel, the (platform, channel) find otherwise.
pub open spec fn spec_channel_lookup(chs: Seq<ChannelV>, ident: ChannelIdentifierV) -> Option<
    ChannelV,
> {
    match (crate::platform::spec_platform_name(ident), crate::platform::spec_channel_string(
        ident,
    )) {
        (Some(p), Some(c)) => spec_find_channel(chs, p, c),
        _ => None,
    }
}

/// The first command row of the channel with the given name.
pub open spec fn spec_find_command(cmds: Seq<CommandV>, channel_id: u64, name: Seq<char>)
    -> Option<CommandV> {
    spec_first_match(cmds, |c: CommandV| c.channel_id == channel_id && c.name == name)
}

/// The first session row with the given session id.
pub open spec fn spec_find_session(ss: Seq<WebSessionV>, sid: Seq<char>) -> Option<WebSessionV> {
    spec_first_match(ss, |s0: WebSessionV| s0.session_id == sid)
}

/// The configured prefix of a channel, if any.
pub open spec fn spec_find_prefix(ps: Seq<PrefixV>, channel_id: u64) -> Option<Seq<char>> {
    match spec_first_match(ps, |p0: PrefixV| p0.channel_id == channel_id) {
        Some(row) => Some(row.prefix),
        None => None,
    }
}

/// The stored auth value under a key, if any.
pub open spec fn spec_find_auth(rows: Seq<AuthRowV>, name: Seq<char>) -> Option<Seq<char>> {
    match spec_first_match(rows, |r0: AuthRowV| r0.name == name) {
        Some(row) => Some(row.value),
        None => None,
    }
}

/// The value a user stores under a key, if any.
pub open spec fn spec_find_user_data(rows: Seq<UserDataV>, user_id: u64, name: Seq<char>)
    -> Option<Seq<char>> {
    match spec_first_match(rows, |r0: UserDataV| r0.user_id == user_id && r0.name == name) {
        Some(row) => Some(row.value),
        None => None,
    }
}

/// Whether channel ids and (platform, channel) pairs occur at most once.
pub open spec fn spec_unique_channels(chs: Seq<ChannelV>) -> bool {
    forall|i: int, j: int|
        0 <= i < j < chs.len() ==> chs[i].id != chs[j].id && !(chs[i].platform == chs[j].platform
            && chs[i].channel == chs[j].channel)
}

/// Whether every channel id lies below the id counter.
pub open spec fn spec_channel_ids_below(chs: Seq<ChannelV>, next: u64) -> bool {
    forall|i: int| 0 <= i < chs.len() ==> chs[i].id < next
}

/// How a find by identity looks at a table with one row appended.
pub proof fn lemma_find_user_by_ident_snoc(users: Seq<UserV>, u: UserV, ident: UserIdentifierV)
    ensures
        spec_find_user_by_ident(users.push(u), ident) == (
        match spec_find_user_by_ident(users, ident) {
            Some(r) => Some(r),
            None => if spec_user_has_ident(u, ident) {
                Some(u)
            } else {
                None
            },
        }),
    decreases users.len(),
{
    if users.len() == 0 {
        assert(users.push(u)[0] == u);
        assert(users.push(u).drop_first() =~= Seq::<UserV>::empty());
        if spec_user_has_ident(u, ident) {
            assert(spec_find_user_by_ident(users.push(u), ident) == Some(u));
        } else {
            assert(spec_find_user_by_ident(users.push(u), ident)
                == spec_find_user_by_ident(users.push(u).drop_first(), ident));
            assert(spec_find_user_by_ident(users.push(u), ident) is None);
        }
    } else {
        assert(users.push(u)[0] == users[0]);
        assert(users.push(u).drop_first() =~= users.drop_first().push(u));
        lemma_find_user_by_ident_snoc(users.drop_first(), u, ident);
        if spec_user_has_ident(users[0], ident) {
            assert(spec_find_user_by_ident(users.push(u), ident) == Some(users[0]));
        } else {
            assert(spec_find_user_by_ident(users.push(u), ident) == spec_find_user_by_ident(
                users.drop_first().push(u),
                ident,
            ));
            assert(spec_find_user_by_ident(users, ident) == spec_find_user_by_ident(
                users.drop_first(),
                ident,
            ));
        }
    }
}

/// The entity store with its cache layer and the pending bus traffic.
/// The vectors are the durable tables; the dashmap fields are the shared
/// caches; `outbox` holds what must still go out on the message bus.
pub struct Database {
    pub users: Vec<User>,
    pub next_user_id: u64,
    pub channels: Vec<Channel>,
    pub next_channel_id: u64,
    pub commands: Vec<Command>,
    pub filters: Vec<Filter>,
    pub user_data: Vec<UserData>,
    pub auth: Vec<AuthRow>,
    pub web_sessions: Vec<WebSession>,
    pub prefixes: Vec<Prefix>,
    pub users_cache: dashmap::DashMap<u64, User>,
    pub user_identifiers_cache: dashmap::DashMap<UserIdentifier, u64>,
    pub web_sessions_cache: dashmap::DashMap<String, WebSession>,
    pub prefixes_cache: dashmap::DashMap<u64, Option<String>>,
    pub channels_cache: dashmap::DashMap<ChannelIdentifier, Channel>,
    pub outbox: Vec<BusMessage>,
}

impl Database {
    /// The user table's image.
    pub open spec fn store_users(&self) -> Seq<UserV> {
        self.users.deep_view()
    }

    /// The channel table's image.
    pub open spec fn store_channels(&self) -> Seq<ChannelV> {
        self.channels.deep_view()
    }

    /// The command table's image.
    pub open spec fn store_commands(&self) -> Seq<CommandV> {
        self.commands.deep_view()
    }

    /// The filter table's image.
    pub open spec fn store_filters(&self) -> Seq<FilterV> {
        self.filters.deep_view()
    }

    /// The user-data table's image.
    pub open spec fn store_user_data(&self) -> Seq<UserDataV> {
        self.user_data.deep_view()
    }

    /// The auth table's image.
    pub open spec fn store_auth(&self) -> Seq<AuthRowV> {
        self.auth.deep_view()
    }

    /// The session table's image.
    pub open spec fn store_sessions(&self) -> Seq<WebSessionV> {
        self.web_sessions.deep_view()
    }

    /// The prefix table's image.
    pub open spec fn store_prefixes(&self) -> Seq<PrefixV> {
        self.prefixes.deep_view()
    }

    /// Uniqueness of the durable tables' keys, and id counters that stay
    /// ahead of every issued id.
    pub open spec fn store_wf(&self) -> bool {
        &&& spec_unique_user_ids(self.store_users())
        &&& spec_unique_identities(self.store_users())
        &&& spec_user_ids_below(self.store_users(), self.next_user_id)
        &&& spec_unique_channels(self.store_channels())
        &&& spec_channel_ids_below(self.store_channels(), self.next_channel_id)
    }

    /// Every cache entry agrees with what the store itself answers: this
    /// is the consistency that merge and the sweeps must keep.
    pub open spec fn caches_ok(&self) -> bool {
        &&& forall|id: u64|
            #[trigger] user_cache_of(self.users_cache).contains_key(id)
                ==> spec_find_user_by_id(self.store_users(), id) == Some(
                user_cache_of(self.users_cache)[id],
            )
        &&& forall|idv: UserIdentifierV|
            #[trigger] ident_cache_of(self.user_identifiers_cache).contains_key(idv) ==> {
                &&& spec_find_user_by_ident(self.store_users(), idv) is Some
                &&& spec_find_user_by_ident(self.store_users(), idv)->Some_0.id == ident_cache_of(
                    self.user_identifiers_cache,
                )[idv]
            }
        &&& forall|sid: Seq<char>|
            #[trigger] session_cache_of(self.web_sessions_cache).contains_key(sid)
                ==> spec_find_session(self.store_sessions(), sid) == Some(
                session_cache_of(self.web_sessions_cache)[sid],
            )
        &&& forall|cid: u64|
            #[trigger] prefix_cache_of(self.prefixes_cache).contains_key(cid)
                ==> spec_find_prefix(self.store_prefixes(), cid) == prefix_cache_of(
                self.prefixes_cache,
            )[cid]
        &&& forall|chv: ChannelIdentifierV|
            #[trigger] channel_cache_of(self.channels_cache).contains_key(chv)
                ==> spec_channel_lookup(self.store_channels(), chv) == Some(
                channel_cache_of(self.channels_cache)[chv],
            )
    }

    /// The store is well-formed and the caches agree with it.
    pub open spec fn wf(&self) -> bool {
        &&& self.store_wf()
        &&& self.caches_ok()
    }

    /// An empty store with empty caches and nothing pending on the bus.
    pub fn new() -> (db: Database)
        ensures
            db.wf(),
            db.store_users() == Seq::<UserV>::empty(),
            db.store_channels() == Seq::<ChannelV>::empty(),
            db.store_commands() == Seq::<CommandV>::empty(),
            db.store_filters() == Seq::<FilterV>::empty(),
            db.store_user_data() == Seq::<UserDataV>::empty(),
            db.store_auth() == Seq::<AuthRowV>::empty(),
            db.store_sessions() == Seq::<WebSessionV>::empty(),
            db.store_prefixes() == Seq::<PrefixV>::empty(),
            db.next_user_id == 1,
            db.next_channel_id == 1,
            db.outbox.deep_view() == Seq::<crate::bus::BusMessageV>::empty(),
            user_cache_of(db.users_cache) == crate::cache::user_cache_empty(),
            ident_cache_of(db.user_identifiers_cache) == crate::cache::ident_cache_empty(),
            session_cache_of(db.web_sessions_cache) == crate::cache::session_cache_empty(),
            prefix_cache_of(db.prefixes_cache) == crate::cache::prefix_cache_empty(),
            channel_cache_of(db.channels_cache) == crate::cache::channel_cache_empty(),
    {
        let db = Database {
            users: Vec::new(),
            next_user_id: 1,
            channels: Vec::new(),
            next_channel_id: 1,
            commands: Vec::new(),
            filters: Vec::new(),
            user_data: Vec::new(),
            auth: Vec::new(),
            web_sessions: Vec::new(),
            prefixes: Vec::new(),
            users_cache: user_cache_new(),
            user_identifiers_cache: ident_cache_new(),
            web_sessions_cache: session_cache_new(),
            prefixes_cache: prefix_cache_new(),
            channels_cache: channel_cache_new(),
            outbox: Vec::new(),
        };
        proof {
            assert(db.store_users() =~= Seq::<UserV>::empty());
            assert(db.store_channels() =~= Seq::<ChannelV>::empty());
            assert(db.store_commands() =~= Seq::<CommandV>::empty());
            assert(db.store_filters() =~= Seq::<FilterV>::empty());
            assert(db.store_user_data() =~= Seq::<UserDataV>::empty());
            assert(db.store_auth() =~= Seq::<AuthRowV>::empty());
            assert(db.store_sessions() =~= Seq::<WebSessionV>::empty());
            assert(db.store_prefixes() =~= Seq::<PrefixV>::empty());
            assert(db.outbox.deep_view() =~= Seq::<crate::bus::BusMessageV>::empty());
        }
        db
    }
}

/// Compares an optional column against a sought string.
fn opt_str_eq(o: &Option<String>, s: &String) -> (r: bool)
    ensures
        r == (o.deep_view() == Some(s@)),
{
    match o {
        Some(v) => v.eq(s),
        None => false,
    }
}

/// Whether a user row carries the given identity, as executable code.
fn user_has_ident(u: &User, ident: &UserIdentifier) -> (r: bool)
    ensures
        r == spec_user_has_ident(u@, ident@),
{
    match ident {
        UserIdentifier::TwitchID(s) => opt_str_eq(&u.twitch_id, s),
        UserIdentifier::DiscordID(s) => opt_str_eq(&u.discord_id, s),
        UserIdentifier::TelegramId(n) => {
            let d = u64_to_string(*n);
            opt_str_eq(&u.telegram_id, &d)
        },
        UserIdentifier::IrcName(s) => opt_str_eq(&u.irc_name, s),
        UserIdentifier::IpAddr(s) => opt_str_eq(&u.local_addr, s),
    }
}

/// A find by id is decided by the position of the first matching row.
pub proof fn lemma_find_user_by_id_at(users: Seq<UserV>, id: u64, k: int)
    requires
        0 <= k <= users.len(),
        forall|j: int| 0 <= j < k ==> users[j].id != id,
        k == users.len() || users[k].id == id,
    ensures
        spec_find_user_by_id(users, id) == (if k == users.len() {
            None::<UserV>
        } else {
            Some(users[k])
        }),
    decreases users.len(),
{
    if users.len() == 0 {
    } else if k == 0 {
    } else {
        assert(forall|i: int|
            0 <= i < users.drop_first().len() ==> users.drop_first()[i] == users[i + 1]);
        lemma_find_user_by_id_at(users.drop_first(), id, k - 1);
    }
}

/// A find by identity is decided by the position of the first carrier.
pub proof fn lemma_find_user_by_ident_at(users: Seq<UserV>, ident: UserIdentifierV, k: int)
    requires
        0 <= k <= users.len(),
        forall|j: int| 0 <= j < k ==> !spec_user_has_ident(users[j], ident),
        k == users.len() || spec_user_has_ident(users[k], ident),
    ensures
        spec_find_user_by_ident(users, ident) == (if k == users.len() {
            None::<UserV>
        } else {
            Some(users[k])
        }),
    decreases users.len(),
{
    if users.len() == 0 {
    } else if k == 0 {
    } else {
        assert(forall|i: int|
            0 <= i < users.drop_first().len() ==> users.drop_first()[i] == users[i + 1]);
        lemma_find_user_by_ident_at(users.drop_first(), ident, k - 1);
    }
}

/// The position of the first row with the given id.
fn find_user_index_by_id(users: &Vec<User>, id: u64) -> (r: Option<usize>)
    ensures
        match r {
            Some(i) => i < users@.len() && spec_find_user_by_id(users.deep_view(), id) == Some(
                users.deep_view()[i as int],
            ) && users.deep_view()[i as int].id == id,
            None => spec_find_user_by_id(users.deep_view(), id) is None,
        },
{
    let n = users.len();
    for i in 0..n
        invariant
            n == users@.len(),
            forall|j: int| 0 <= j < i ==> users.deep_view()[j].id != id,
    {
        if users[i].id == id {
            proof {
                lemma_find_user_by_id_at(users.deep_view(), id, i as int);
            }
            return Some(i);
        }
    }
    proof {
        lemma_find_user_by_id_at(users.deep_view(), id, n as int);
    }
    None
}

/// The position of the first row carrying the given identity.
fn find_user_index_by_ident(users: &Vec<User>, ident: &UserIdentifier) -> (r: Option<usize>)
    ensures
        match r {
            Some(i) => i < users@.len() && spec_find_user_by_ident(users.deep_view(), ident@)
                == Some(users.deep_view()[i as int]) && spec_user_has_ident(
                users.deep_view()[i as int],
                ident@,
            ),
            None => spec_find_user_by_ident(users.deep_view(), ident@) is None,
        },
{
    let n = users.len();
    for i in 0..n
        invariant
            n == users@.len(),
            forall|j: int| 0 <= j < i ==> !spec_user_has_ident(users.deep_view()[j], ident@),
    {
        if user_has_ident(&users[i], ident) {
            proof {
                lemma_find_user_by_ident_at(users.deep_view(), ident@, i as int);
            }
            return Some(i);
        }
    }
    proof {
        lemma_find_user_by_ident_at(users.deep_view(), ident@, n as int);
    }
    None
}

/// The durable tables and id counters of both states agree.
pub open spec fn same_store(a: Database, b: Database) -> bool {
    &&& a.store_users() == b.store_users()
    &&& a.next_user_id == b.next_user_id
    &&& a.store_channels() == b.store_channels()
    &&& a.next_channel_id == b.next_channel_id
    &&& a.store_commands() == b.store_commands()
    &&& a.store_filters() == b.store_filters()
    &&& a.store_user_data() == b.store_user_data()
    &&& a.store_auth() == b.store_auth()
    &&& a.store_sessions() == b.store_sessions()
    &&& a.store_prefixes() == b.store_prefixes()
}

/// The pending bus traffic of both states agrees.
pub open spec fn same_outbox(a: Database, b: Database) -> bool {
    a.outbox.deep_view() == b.outbox.deep_view()
}

impl Database {
    /// Looks a user up by id: the cache answers first, the table on a
    /// miss, and what the table answered is cached. The answer always
    /// equals the store's own, cached or not.
    pub fn get_user_by_id(&mut self, user_id: u64) -> (r: Result<Option<User>, DatabaseError>)
        requires
            old(self).wf(),
        ensures
            final(self).wf(),
            same_store(*old(self), *final(self)),
            same_outbox(*old(self), *final(self)),
            r matches Ok(o) && o.deep_view() == spec_find_user_by_id(
                old(self).store_users(),
                user_id,
            ),
    {
        match user_cache_get(&self.users_cache, user_id) {
            Some(u) => Ok(Some(u)),
            None => {
                match find_user_index_by_id(&self.users, user_id) {
                    Some(i) => {
                        let c1 = self.users[i].duplicate();
                        let c2 = self.users[i].duplicate();
                        user_cache_insert(&mut self.users_cache, user_id, c1);
                        Ok(Some(c2))
                    },
                    None => Ok(None),
                }
            },
        }
    }

    /// Resolves a platform identity to its user: the identifier cache
    /// answers first, the table on a miss, and a hit on the table is
    /// cached. The answer always equals the store's own.
    pub fn get_user(&mut self, user_identifier: &UserIdentifier) -> (r: Result<
        Option<User>,
        DatabaseError,
    >)
        requires
            old(self).wf(),
        ensures
            final(self).wf(),
            same_store(*old(self), *final(self)),
            same_outbox(*old(self), *final(self)),
            r matches Ok(o) && o.deep_view() == spec_find_user_by_ident(
                old(self).store_users(),
                user_identifier@,
            ),
    {
        match ident_cache_get(&self.user_identifiers_cache, user_identifier) {
            Some(id) => {
                proof {
                    lemma_find_by_ident_then_by_id(self.store_users(), user_identifier@);
                }
                self.get_user_by_id(id)
            },
            None => {
                match find_user_index_by_ident(&self.users, user_identifier) {
                    Some(i) => {
                        let c = self.users[i].duplicate();
                        ident_cache_insert(
                            &mut self.user_identifiers_cache,
                            user_identifier.duplicate(),
                            c.id,
                        );
                        Ok(Some(c))
                    },
                    None => Ok(None),
                }
            },
        }
    }

    /// The user row a fresh identity is created with.
    pub open spec fn spec_new_user(id: u64, ident: UserIdentifierV) -> UserV {
        UserV {
            id,
            twitch_id: if ident is TwitchID {
                Some(ident->TwitchID_0)
            } else {
                None
            },
            discord_id: if ident is DiscordID {
                Some(ident->DiscordID_0)
            } else {
                None
            },
            irc_name: if ident is IrcName {
                Some(ident->IrcName_0)
            } else {
                None
            },
            telegram_id: if ident is TelegramId {
                Some(crate::strutil::spec_decimal(ident->TelegramId_0 as nat))
            } else {
                None
            },
            local_addr: if ident is IpAddr {
                Some(ident->IpAddr_0)
            } else {
                None
            },
        }
    }

    /// Resolves an identity, creating the user on first sight. Creation
    /// succeeds as long as the id counter is not exhausted.
    pub fn get_or_create_user(&mut self, user_identifier: &UserIdentifier) -> (r: Result<
        User,
        DatabaseError,
    >)
        requires
            old(self).wf(),
        ensures
            final(self).wf(),
            same_outbox(*old(self), *final(self)),
            final(self).store_channels() == old(self).store_channels(),
            final(self).next_channel_id == old(self).next_channel_id,
            final(self).store_commands() == old(self).store_commands(),
            final(self).store_filters() == old(self).store_filters(),
            final(self).store_user_data() == old(self).store_user_data(),
            final(self).store_auth() == old(self).store_auth(),
            final(self).store_sessions() == old(self).store_sessions(),
            final(self).store_prefixes() == old(self).store_prefixes(),
            match spec_find_user_by_ident(old(self).store_users(), user_identifier@) {
                Some(u) => {
                    &&& r matches Ok(ru) && ru@ == u
                    &&& final(self).store_users() == old(self).store_users()
                    &&& final(self).next_user_id == old(self).next_user_id
                },
                None => {
                    if old(self).next_user_id < u64::MAX {
                        &&& r matches Ok(ru) && ru@ == Self::spec_new_user(
                            old(self).next_user_id,
                            user_identifier@,
                        )
                        &&& final(self).store_users() == old(self).store_users().push(
                            Self::spec_new_user(old(self).next_user_id, user_identifier@),
                        )
                        &&& final(self).next_user_id == old(self).next_user_id + 1
                    } else {
                        &&& r matches Err(e) && e@ is StoreError
                        &&& final(self).store_users() == old(self).store_users()
                        &&& final(self).next_user_id == old(self).next_user_id
                    }
                },
            },
    {
        let found = match self.get_user(user_identifier) {
            Ok(o) => o,
            Err(e) => {
                proof {
                    assert(false);
                }
                return Err(e);
            },
        };
        match found {
            Some(u) => Ok(u),
            None => {
                if self.next_user_id == u64::MAX {
                    return Err(
                        DatabaseError::StoreError(String::from_str("user ids exhausted")),
                    );
                }
                let id = self.next_user_id;
                let new_user = match user_identifier {
                    UserIdentifier::TwitchID(s) => User {
                        id,
                        twitch_id: Some(s.clone()),
                        discord_id: None,
                        irc_name: None,
                        telegram_id: None,
                        local_addr: None,
                    },
                    UserIdentifier::DiscordID(s) => User {
                        id,
                        twitch_id: None,
                        discord_id: Some(s.clone()),
                        irc_name: None,
                        telegram_id: None,
                        local_addr: None,
                    },
                    UserIdentifier::IrcName(s) => User {
                        id,
                        twitch_id: None,
                        discord_id: None,
                        irc_name: Some(s.clone()),
                        telegram_id: None,
                        local_addr: None,
                    },
                    UserIdentifier::TelegramId(n) => User {
                        id,
                        twitch_id: None,
                        discord_id: None,
                        irc_name: None,
                        telegram_id: Some(u64_to_string(*n)),
                        local_addr: None,
                    },
                    UserIdentifier::IpAddr(s) => User {
                        id,
                        twitch_id: None,
                        discord_id: None,
                        irc_name: None,
                        telegram_id: None,
                        local_addr: Some(s.clone()),
                    },
                };
                let ghost old_users = self.store_users();
                let result = new_user.duplicate();
                self.users.push(new_user);
                self.next_user_id = id + 1;
                proof {
                    assert(self.store_users() =~= old_users.push(
                        Self::spec_new_user(id, user_identifier@),
                    ));
                    let nu = Self::spec_new_user(id, user_identifier@);
                    assert forall|a: int, b: int|
                        0 <= a < b < self.store_users().len()
                            implies spec_ident_fields_distinct(
                        #[trigger] self.store_users()[a],
                        #[trigger] self.store_users()[b],
                    ) by {
                        if b == old_users.len() {
                            let u = old_users[a];
                            if !spec_ident_fields_distinct(u, nu) {
                                assert(spec_user_has_ident(u, user_identifier@));
                                lemma_find_user_by_ident_exists(old_users, user_identifier@);
                                assert(false);
                            }
                        }
                    }
                    assert forall|cid: u64|
                        #[trigger] user_cache_of(self.users_cache).contains_key(cid)
                            implies spec_find_user_by_id(self.store_users(), cid) == Some(
                        user_cache_of(self.users_cache)[cid],
                    ) by {
                        lemma_find_user_by_id_snoc(
                            old_users,
                            Self::spec_new_user(id, user_identifier@),
                            cid,
                        );
                    }
                    assert forall|idv: UserIdentifierV|
                        #[trigger] ident_cache_of(self.user_identifiers_cache).contains_key(idv)
                            implies spec_find_user_by_ident(self.store_users(), idv) is Some
                            && spec_find_user_by_ident(self.store_users(), idv)->Some_0.id
                            == ident_cache_of(self.user_identifiers_cache)[idv] by {
                        lemma_find_user_by_ident_snoc(
                            old_users,
                            Self::spec_new_user(id, user_identifier@),
                            idv,
                        );
                    }
                }
                Ok(result)
            },
        }
    }
}

/// A user-data row re-owned by another user.
pub open spec fn spec_retarget(row: UserDataV, to: u64) -> UserDataV {
    UserDataV { user_id: to, name: row.name, value: row.value, public: row.public }
}

/// The user-data table with one row upserted: the first row of the same
/// (user, name) key is replaced, or the row is appended when none exists.
pub open spec fn spec_upsert_user_data(rows: Seq<UserDataV>, row: UserDataV) -> Seq<UserDataV>
    decreases rows.len(),
{
    if rows.len() == 0 {
        seq![row]
    } else if rows[0].user_id == row.user_id && rows[0].name == row.name {
        seq![row] + rows.drop_first()
    } else {
        seq![rows[0]] + spec_upsert_user_data(rows.drop_first(), row)
    }
}

/// The rows a user owns, in table order.
pub open spec fn spec_user_data_rows_of(rows: Seq<UserDataV>, user_id: u64) -> Seq<UserDataV>
    decreases rows.len(),
{
    if rows.len() == 0 {
        Seq::empty()
    } else {
        let rest = spec_user_data_rows_of(rows.drop_last(), user_id);
        if rows.last().user_id == user_id {
            rest.push(rows.last())
        } else {
            rest
        }
    }
}

/// The targets upserted one after the other, each re-owned by `to`.
pub open spec fn spec_apply_reparent(rows: Seq<UserDataV>, targets: Seq<UserDataV>, to: u64)
    -> Seq<UserDataV>
    decreases targets.len(),
{
    if targets.len() == 0 {
        rows
    } else {
        spec_upsert_user_data(
            spec_apply_reparent(rows, targets.drop_last(), to),
            spec_retarget(targets.last(), to),
        )
    }
}

/// How a merge moves the losing user's data: a snapshot of the rows the
/// loser owns is copied onto the winner, key by key.
pub open spec fn spec_reparent_user_data(rows: Seq<UserDataV>, from: u64, to: u64) -> Seq<
    UserDataV,
> {
    spec_apply_reparent(rows, spec_user_data_rows_of(rows, from), to)
}

/// An upsert is decided by the position of the first row of the same key.
pub proof fn lemma_upsert_user_data_at(rows: Seq<UserDataV>, row: UserDataV, k: int)
    requires
        0 <= k <= rows.len(),
        forall|j: int|
            0 <= j < k ==> !(rows[j].user_id == row.user_id && rows[j].name == row.name),
        k == rows.len() || (rows[k].user_id == row.user_id && rows[k].name == row.name),
    ensures
        spec_upsert_user_data(rows, row) == (if k == rows.len() {
            rows.push(row)
        } else {
            rows.update(k, row)
        }),
    decreases rows.len(),
{
    if rows.len() == 0 {
        assert(spec_upsert_user_data(rows, row) =~= rows.push(row));
    } else if k == 0 {
        assert(spec_upsert_user_data(rows, row) =~= rows.update(0, row));
    } else {
        assert(forall|i: int|
            0 <= i < rows.drop_first().len() ==> rows.drop_first()[i] == rows[i + 1]);
        lemma_upsert_user_data_at(rows.drop_first(), row, k - 1);
        if k == rows.len() {
            assert(seq![rows[0]] + rows.drop_first().push(row) =~= rows.push(row));
        } else {
            assert(seq![rows[0]] + rows.drop_first().update(k - 1, row) =~= rows.update(k, row));
        }
    }
}

/// Finds of other ids pass through an update unchanged.
pub proof fn lemma_find_user_by_id_update(users: Seq<UserV>, u: UserV, id: u64)
    requires
        id != u.id,
    ensures
        spec_find_user_by_id(spec_update_user(users, u), id) == spec_find_user_by_id(users, id),
    decreases users.len(),
{
    if users.len() > 0 {
        assert(spec_update_user(users, u).drop_first() =~= spec_update_user(
            users.drop_first(),
            u,
        ));
        lemma_find_user_by_id_update(users.drop_first(), u, id);
    }
}

/// Removal keeps user ids unique.
pub proof fn lemma_remove_user_unique(users: Seq<UserV>, id: u64)
    requires
        spec_unique_user_ids(users),
    ensures
        spec_unique_user_ids(spec_remove_user(users, id)),
    decreases users.len(),
{
    if users.len() > 0 {
        assert(spec_unique_user_ids(users.drop_last()));
        lemma_remove_user_unique(users.drop_last(), id);
        if users.last().id != id {
            lemma_remove_user_member(users.drop_last(), id);
            let rest = spec_remove_user(users.drop_last(), id);
            assert forall|i: int, j: int|
                0 <= i < j < rest.push(users.last()).len() implies rest.push(users.last())[i].id
                != rest.push(users.last())[j].id by {
                if j < rest.len() {
                } else {
                    let w = choose|w: int|
                        0 <= w < users.drop_last().len() && users.drop_last()[w] == rest[i];
                    assert(users[w] == rest[i]);
                    assert(users[w].id != users.last().id);
                }
            }
        }
    }
}

/// Removal keeps identities unique.
pub proof fn lemma_remove_user_unique_idents(users: Seq<UserV>, id: u64)
    requires
        spec_unique_identities(users),
    ensures
        spec_unique_identities(spec_remove_user(users, id)),
    decreases users.len(),
{
    if users.len() > 0 {
        assert(spec_unique_identities(users.drop_last()));
        lemma_remove_user_unique_idents(users.drop_last(), id);
        if users.last().id != id {
            lemma_remove_user_member(users.drop_last(), id);
            let rest = spec_remove_user(users.drop_last(), id);
            assert forall|i: int, j: int|
                0 <= i < j < rest.push(users.last()).len() implies spec_ident_fields_distinct(
                rest.push(users.last())[i],
                rest.push(users.last())[j],
            ) by {
                if j < rest.len() {
                } else {
                    let w = choose|w: int|
                        0 <= w < users.drop_last().len() && users.drop_last()[w] == rest[i];
                    assert(users[w] == rest[i]);
                    assert(users[users.len() - 1] == users.last());
                    assert(spec_ident_fields_distinct(users[w], users.last()));
                }
            }
        }
    }
}

/// Removal keeps user ids below the counter.
pub proof fn lemma_remove_user_below(users: Seq<UserV>, id: u64, next: u64)
    requires
        spec_user_ids_below(users, next),
    ensures
        spec_user_ids_below(spec_remove_user(users, id), next),
{
    lemma_remove_user_member(users, id);
    let r = spec_remove_user(users, id);
    assert forall|i: int| 0 <= i < r.len() implies r[i].id < next by {
        let w = choose|w: int| 0 <= w < users.len() && users[w] == r[i];
    }
}

/// Copies the table without the rows of one user id.
fn remove_user_rows(users: &Vec<User>, id: u64) -> (r: Vec<User>)
    ensures
        r.deep_view() == spec_remove_user(users.deep_view(), id),
{
    let mut out: Vec<User> = Vec::new();
    let n = users.len();
    proof {
        assert(users.deep_view().take(0) =~= Seq::<UserV>::empty());
        assert(out.deep_view() =~= spec_remove_user(users.deep_view().take(0), id));
    }
    for i in 0..n
        invariant
            n == users@.len(),
            out.deep_view() == spec_remove_user(users.deep_view().take(i as int), id),
    {
        let ghost prev = out.deep_view();
        if users[i].id != id {
            out.push(users[i].duplicate());
        }
        proof {
            let dv = users.deep_view();
            assert(dv.take(i + 1).drop_last() =~= dv.take(i as int));
            assert(dv.take(i + 1).last() == dv[i as int]);
            if users@[i as int]@.id != id {
                assert(out.deep_view() =~= prev.push(dv[i as int]));
            }
        }
    }
    proof {
        assert(users.deep_view().take(n as int) =~= users.deep_view());
    }
    out
}

/// Copies the table with every row of the given user's id replaced.
fn update_user_rows(users: &Vec<User>, u: &User) -> (r: Vec<User>)
    ensures
        r.deep_view() == spec_update_user(users.deep_view(), u@),
{
    let mut out: Vec<User> = Vec::new();
    let n = users.len();
    for i in 0..n
        invariant
            n == users@.len(),
            out.deep_view() =~= spec_update_user(users.deep_view(), u@).take(i as int),
    {
        let ghost prev = out.deep_view();
        if users[i].id == u.id {
            out.push(u.duplicate());
            proof {
                assert(out.deep_view() =~= prev.push(u@));
            }
        } else {
            out.push(users[i].duplicate());
            proof {
                assert(out.deep_view() =~= prev.push(users.deep_view()[i as int]));
            }
        }
        proof {
            assert(out.deep_view() =~= spec_update_user(users.deep_view(), u@).take(i + 1));
        }
    }
    proof {
        assert(spec_update_user(users.deep_view(), u@).take(n as int) =~= spec_update_user(
            users.deep_view(),
            u@,
        ));
    }
    out
}

/// Copies the rows one user owns, in table order.
fn user_data_rows_of(rows: &Vec<UserData>, user_id: u64) -> (r: Vec<UserData>)
    ensures
        r.deep_view() == spec_user_data_rows_of(rows.deep_view(), user_id),
{
    let mut out: Vec<UserData> = Vec::new();
    let n = rows.len();
    proof {
        assert(rows.deep_view().take(0) =~= Seq::<UserDataV>::empty());
        assert(out.deep_view() =~= spec_user_data_rows_of(rows.deep_view().take(0), user_id));
    }
    for i in 0..n
        invariant
            n == rows@.len(),
            out.deep_view() == spec_user_data_rows_of(rows.deep_view().take(i as int), user_id),
    {
        let ghost prev = out.deep_view();
        if rows[i].user_id == user_id {
            out.push(rows[i].duplicate());
        }
        proof {
            let dv = rows.deep_view();
            assert(dv.take(i + 1).drop_last() =~= dv.take(i as int));
            assert(dv.take(i + 1).last() == dv[i as int]);
            if rows@[i as int]@.user_id == user_id {
                assert(out.deep_view() =~= prev.push(dv[i as int]));
            }
        }
    }
    proof {
        assert(rows.deep_view().take(n as int) =~= rows.deep_view());
    }
    out
}

/// Upserts one row into the user-data table.
fn upsert_user_data_row(rows: &mut Vec<UserData>, row: UserData)
    ensures
        final(rows).deep_view() == spec_upsert_user_data(old(rows).deep_view(), row@),
{
    let n = rows.len();
    let mut i: usize = 0;
    while i < n
        invariant
            n == rows@.len(),
            rows.deep_view() == old(rows).deep_view(),
            forall|j: int|
                0 <= j < i ==> !(rows.deep_view()[j].user_id == row@.user_id
                    && rows.deep_view()[j].name == row@.name),
        decreases n - i,
    {
        if rows[i].user_id == row.user_id && rows[i].name.eq(&row.name) {
            proof {
                lemma_upsert_user_data_at(rows.deep_view(), row@, i as int);
            }
            let ghost before = rows.deep_view();
            rows.set(i, row);
            proof {
                assert(rows.deep_view() =~= before.update(i as int, row@));
            }
            return;
        }
        i += 1;
    }
    proof {
        lemma_upsert_user_data_at(rows.deep_view(), row@, n as int);
    }
    let ghost before = rows.deep_view();
    rows.push(row);
    proof {
        assert(rows.deep_view() =~= before.push(row@));
    }
}

/// Applies the reparenting upserts for a snapshot of target rows.
fn apply_reparent(rows: &Vec<UserData>, targets: &Vec<UserData>, to: u64) -> (r: Vec<UserData>)
    ensures
        r.deep_view() == spec_apply_reparent(rows.deep_view(), targets.deep_view(), to),
{
    let mut out: Vec<UserData> = Vec::new();
    let n = rows.len();
    for i in 0..n
        invariant
            n == rows@.len(),
            out.deep_view() =~= rows.deep_view().take(i as int),
    {
        let ghost prev = out.deep_view();
        out.push(rows[i].duplicate());
        proof {
            assert(out.deep_view() =~= prev.push(rows.deep_view()[i as int]));
            assert(out.deep_view() =~= rows.deep_view().take(i + 1));
        }
    }
    proof {
        assert(rows.deep_view().take(n as int) =~= rows.deep_view());
        assert(targets.deep_view().take(0) =~= Seq::<UserDataV>::empty());
    }
    let tn = targets.len();
    for t in 0..tn
        invariant
            tn == targets@.len(),
            out.deep_view() == spec_apply_reparent(
                rows.deep_view(),
                targets.deep_view().take(t as int),
                to,
            ),
    {
        let src = &targets[t];
        let moved = UserData {
            user_id: to,
            name: src.name.clone(),
            value: src.value.clone(),
            public: src.public,
        };
        upsert_user_data_row(&mut out, moved);
        proof {
            let tdv = targets.deep_view();
            assert(tdv.take(t + 1).drop_last() =~= tdv.take(t as int));
            assert(tdv.take(t + 1).last() == tdv[t as int]);
        }
    }
    proof {
        assert(targets.deep_view().take(tn as int) =~= targets.deep_view());
    }
    out
}

/// A surviving row shares no identity with the merged record: the
/// merged identities all come from the two source rows, and the store
/// held each identity at most once.
proof fn lemma_row_distinct_from_merged(
    old_users: Seq<UserV>,
    removed: Seq<UserV>,
    uv: UserV,
    ov: UserV,
    wk: int,
    wd: int,
    m: int,
)
    requires
        spec_unique_identities(old_users),
        0 <= wk < old_users.len(),
        old_users[wk] == uv,
        0 <= wd < old_users.len(),
        old_users[wd] == ov,
        removed == spec_remove_user(old_users, ov.id),
        0 <= m < removed.len(),
        removed[m].id != uv.id,
        uv.id != ov.id,
    ensures
        spec_ident_fields_distinct(spec_merge_users(uv, ov), removed[m]),
        spec_ident_fields_distinct(removed[m], spec_merge_users(uv, ov)),
{
    lemma_remove_user_member(old_users, ov.id);
    lemma_remove_user_gone(old_users, ov.id);
    let w = choose|w: int| 0 <= w < old_users.len() && old_users[w] == removed[m];
    assert(old_users[w].id != uv.id);
    assert(old_users[w].id != ov.id);
    assert(w != wk && w != wd);
    if w < wk {
        assert(spec_ident_fields_distinct(old_users[w], old_users[wk]));
    } else {
        assert(spec_ident_fields_distinct(old_users[wk], old_users[w]));
    }
    if w < wd {
        assert(spec_ident_fields_distinct(old_users[w], old_users[wd]));
    } else {
        assert(spec_ident_fields_distinct(old_users[wd], old_users[w]));
    }
}

impl Database {
    /// Merges two users: the losing record's key/value data is copied
    /// onto the winner, the losing row is deleted, the winner takes the
    /// loser's identities where it had none, both users leave the user
    /// cache, and the whole identifier cache is dropped, so every later
    /// identity lookup goes back to the store. The two arguments are the
    /// store's own records of two different users, as a caller obtains
    /// them from the lookups.
    pub fn merge_users(&mut self, user: User, other: User) -> (r: User)
        requires
            old(self).wf(),
            spec_find_user_by_id(old(self).store_users(), user@.id) == Some(user@),
            spec_find_user_by_id(old(self).store_users(), other@.id) == Some(other@),
            user@.id != other@.id,
        ensures
            final(self).wf(),
            r@ == spec_merge_users(user@, other@),
            final(self).store_users() == spec_update_user(
                spec_remove_user(old(self).store_users(), other@.id),
                spec_merge_users(user@, other@),
            ),
            final(self).store_user_data() == spec_reparent_user_data(
                old(self).store_user_data(),
                other@.id,
                user@.id,
            ),
            final(self).next_user_id == old(self).next_user_id,
            final(self).store_channels() == old(self).store_channels(),
            final(self).next_channel_id == old(self).next_channel_id,
            final(self).store_commands() == old(self).store_commands(),
            final(self).store_filters() == old(self).store_filters(),
            final(self).store_auth() == old(self).store_auth(),
            final(self).store_sessions() == old(self).store_sessions(),
            final(self).store_prefixes() == old(self).store_prefixes(),
            same_outbox(*old(self), *final(self)),
            user_cache_of(final(self).users_cache) == user_cache_of(old(self).users_cache).remove(
                other@.id,
            ).remove(user@.id),
            ident_cache_of(final(self).user_identifiers_cache)
                == crate::cache::ident_cache_empty(),
            session_cache_of(final(self).web_sessions_cache) == session_cache_of(
                old(self).web_sessions_cache,
            ),
            prefix_cache_of(final(self).prefixes_cache) == prefix_cache_of(
                old(self).prefixes_cache,
            ),
            channel_cache_of(final(self).channels_cache) == channel_cache_of(
                old(self).channels_cache,
            ),
    {
        let keep_id = user.id;
        let drop_id = other.id;
        user_cache_remove(&mut self.users_cache, drop_id);
        let targets = user_data_rows_of(&self.user_data, drop_id);
        let new_data = apply_reparent(&self.user_data, &targets, keep_id);
        self.user_data = new_data;
        let removed = remove_user_rows(&self.users, drop_id);
        self.users = removed;
        let mut merged = user;
        merged.merge(other);
        let updated = update_user_rows(&self.users, &merged);
        self.users = updated;
        user_cache_remove(&mut self.users_cache, keep_id);
        ident_cache_clear(&mut self.user_identifiers_cache);
        proof {
            let old_users = old(self).store_users();
            let removed_v = spec_remove_user(old_users, drop_id);
            lemma_remove_user_unique(old_users, drop_id);
            lemma_remove_user_below(old_users, drop_id, old(self).next_user_id);
            assert(spec_unique_user_ids(self.store_users())) by {
                assert(forall|i: int|
                    0 <= i < self.store_users().len() ==> self.store_users()[i].id
                        == removed_v[i].id);
            }
            assert(spec_user_ids_below(self.store_users(), self.next_user_id)) by {
                assert(forall|i: int|
                    0 <= i < self.store_users().len() ==> self.store_users()[i].id
                        == removed_v[i].id);
            }
            lemma_remove_user_unique_idents(old_users, drop_id);
            lemma_remove_user_gone(old_users, drop_id);
            lemma_find_user_by_id_member(old_users, user@.id);
            let wk = choose|i: int|
                0 <= i < old_users.len() && old_users[i] == spec_find_user_by_id(
                    old_users,
                    user@.id,
                )->Some_0 && old_users[i].id == user@.id;
            lemma_find_user_by_id_member(old_users, other@.id);
            let wd = choose|i: int|
                0 <= i < old_users.len() && old_users[i] == spec_find_user_by_id(
                    old_users,
                    other@.id,
                )->Some_0 && old_users[i].id == other@.id;
            assert forall|a: int, b: int|
                0 <= a < b < self.store_users().len() implies spec_ident_fields_distinct(
                #[trigger] self.store_users()[a],
                #[trigger] self.store_users()[b],
            ) by {
                assert(spec_unique_user_ids(removed_v));
                if removed_v[a].id == user@.id {
                    assert(self.store_users()[a] == merged@);
                    assert(removed_v[b].id != user@.id);
                    assert(self.store_users()[b] == removed_v[b]);
                    lemma_row_distinct_from_merged(old_users, removed_v, user@, other@, wk, wd, b);
                } else if removed_v[b].id == user@.id {
                    assert(self.store_users()[b] == merged@);
                    assert(self.store_users()[a] == removed_v[a]);
                    lemma_row_distinct_from_merged(old_users, removed_v, user@, other@, wk, wd, a);
                } else {
                    assert(self.store_users()[a] == removed_v[a]);
                    assert(self.store_users()[b] == removed_v[b]);
                }
            }
            assert forall|cid: u64|
                #[trigger] user_cache_of(self.users_cache).contains_key(cid)
                    implies spec_find_user_by_id(self.store_users(), cid) == Some(
                user_cache_of(self.users_cache)[cid],
            ) by {
                lemma_find_user_by_id_update(removed_v, merged@, cid);
                lemma_find_user_by_id_remove(old_users, drop_id, cid);
            }
        }
        merged
    }
}

/// The predicate a (platform, channel) find scans with.
pub open spec fn channel_pair_pred(platform: Seq<char>, channel: Seq<char>) -> spec_fn(ChannelV)
    -> bool {
    |c: ChannelV| c.platform == platform && c.channel == channel
}

/// The predicate a channel-id find scans with.
pub open spec fn channel_id_pred(id: u64) -> spec_fn(ChannelV) -> bool {
    |c: ChannelV| c.id == id
}

/// The predicate a (channel, command-name) find scans with.
pub open spec fn command_key_pred(channel_id: u64, name: Seq<char>) -> spec_fn(CommandV) -> bool {
    |c: CommandV| c.channel_id == channel_id && c.name == name
}

/// A `Result<(), _>` carried into the mathematical world.
pub open spec fn unit_result_view(r: Result<(), DatabaseError>) -> Result<(), DatabaseErrorV> {
    match r {
        Ok(_) => Ok(()),
        Err(e) => Err(e@),
    }
}

/// The names the engine reserves for its built-in commands, the
/// dispatcher's legacy aliases included; a stored command can never be
/// created under any of them, since a built-in always wins resolution.
pub open spec fn spec_is_builtin_name(name: Seq<char>) -> bool {
    ||| name == "ping"@
    ||| name == "whoami"@
    ||| name == "id"@
    ||| name == "commands"@
    ||| name == "cmd"@
    ||| name == "command"@
    ||| name == "addcmd"@
    ||| name == "cmdadd"@
    ||| name == "debug"@
    ||| name == "delcmd"@
    ||| name == "cmddel"@
    ||| name == "merge"@
    ||| name == "showcmd"@
    ||| name == "checkcmd"@
}

/// Decides whether a name is reserved for a built-in command.
pub fn is_builtin_name(name: &String) -> (r: bool)
    ensures
        r == spec_is_builtin_name(name@),
{
    name.eq(&String::from_str("ping")) || name.eq(&String::from_str("whoami")) || name.eq(
        &String::from_str("id"),
    ) || name.eq(&String::from_str("commands")) || name.eq(&String::from_str("cmd")) || name.eq(
        &String::from_str("command"),
    ) || name.eq(&String::from_str("addcmd")) || name.eq(&String::from_str("cmdadd")) || name.eq(
        &String::from_str("debug"),
    ) || name.eq(&String::from_str("delcmd")) || name.eq(&String::from_str("cmddel")) || name.eq(
        &String::from_str("merge"),
    ) || name.eq(&String::from_str("showcmd")) || name.eq(&String::from_str("checkcmd"))
}

/// What one attempted command insertion does: a reserved name is
/// rejected, an existing (channel, name) key is reported as a duplicate,
/// and otherwise the row is appended.
pub open spec fn spec_add_command_outcome(
    cmds: Seq<CommandV>,
    cmds2: Seq<CommandV>,
    c: CommandV,
    r: Result<(), DatabaseErrorV>,
) -> bool {
    if spec_is_builtin_name(c.name) {
        r == Err::<(), DatabaseErrorV>(DatabaseErrorV::InvalidValue) && cmds2 == cmds
    } else {
        match spec_find_command(cmds, c.channel_id, c.name) {
            Some(_) => r == Err::<(), DatabaseErrorV>(DatabaseErrorV::DuplicateValue) && cmds2
                == cmds,
            None => r == Ok::<(), DatabaseErrorV>(()) && cmds2 == cmds.push(c),
        }
    }
}

/// The position of the first channel row with the given pair.
fn find_channel_index(channels: &Vec<Channel>, platform: &String, channel: &String) -> (r: Option<
    usize,
>)
    ensures
        match r {
            Some(i) => i < channels@.len() && spec_find_channel(
                channels.deep_view(),
                platform@,
                channel@,
            ) == Some(channels.deep_view()[i as int]),
            None => spec_find_channel(channels.deep_view(), platform@, channel@) is None,
        },
{
    let n = channels.len();
    for i in 0..n
        invariant
            n == channels@.len(),
            forall|j: int|
                0 <= j < i ==> !(channel_pair_pred(platform@, channel@)(
                    channels.deep_view()[j],
                )),
    {
        if channels[i].platform.eq(platform) && channels[i].channel.eq(channel) {
            proof {
                lemma_first_match_at(
                    channels.deep_view(),
                    channel_pair_pred(platform@, channel@),
                    i as int,
                );
            }
            return Some(i);
        }
    }
    proof {
        lemma_first_match_at(
            channels.deep_view(),
            channel_pair_pred(platform@, channel@),
            n as int,
        );
    }
    None
}

/// The position of the first command row with the given key.
fn find_command_index(cmds: &Vec<Command>, channel_id: u64, name: &String) -> (r: Option<usize>)
    ensures
        match r {
            Some(i) => i < cmds@.len() && spec_find_command(cmds.deep_view(), channel_id, name@)
                == Some(cmds.deep_view()[i as int]),
            None => spec_find_command(cmds.deep_view(), channel_id, name@) is None,
        },
{
    let n = cmds.len();
    for i in 0..n
        invariant
            n == cmds@.len(),
            forall|j: int|
                0 <= j < i ==> !(command_key_pred(channel_id, name@)(cmds.deep_view()[j])),
    {
        if cmds[i].channel_id == channel_id && cmds[i].name.eq(name) {
            proof {
                lemma_first_match_at(cmds.deep_view(), command_key_pred(channel_id, name@), i as int);
            }
            return Some(i);
        }
    }
    proof {
        lemma_first_match_at(cmds.deep_view(), command_key_pred(channel_id, name@), n as int);
    }
    None
}

impl Database {
    /// Every channel, in insertion (and so id) order.
    pub fn get_channels(&self) -> (r: Result<Vec<Channel>, DatabaseError>)
        ensures
            r matches Ok(chs) && chs.deep_view() == self.store_channels(),
    {
        let mut out: Vec<Channel> = Vec::new();
        let n = self.channels.len();
        for i in 0..n
            invariant
                n == self.channels@.len(),
                out.deep_view() =~= self.store_channels().take(i as int),
        {
            let ghost prev = out.deep_view();
            out.push(self.channels[i].duplicate());
            proof {
                assert(out.deep_view() =~= prev.push(self.store_channels()[i as int]));
                assert(out.deep_view() =~= self.store_channels().take(i + 1));
            }
        }
        proof {
            assert(self.store_channels().take(n as int) =~= self.store_channels());
        }
        Ok(out)
    }

    /// How many channels the store holds.
    pub fn get_channels_amount(&self) -> (r: Result<i64, DatabaseError>)
        requires
            self.store_channels().len() <= 0x7fff_ffff_ffff_ffff,
        ensures
            r matches Ok(n) && n == self.store_channels().len(),
    {
        proof {
            assert(self.store_channels().len() == self.channels@.len());
        }
        Ok(self.channels.len() as i64)
    }

    /// Looks a channel up by identifier: the cache answers first, the
    /// table on a miss, and a hit on the table is cached. The answer
    /// always equals the store's own.
    pub fn get_channel(&mut self, channel_identifier: &ChannelIdentifier) -> (r: Result<
        Option<Channel>,
        DatabaseError,
    >)
        requires
            old(self).wf(),
        ensures
            final(self).wf(),
            same_store(*old(self), *final(self)),
            same_outbox(*old(self), *final(self)),
            r matches Ok(o) && o.deep_view() == spec_channel_lookup(
                old(self).store_channels(),
                channel_identifier@,
            ),
    {
        let chan = match channel_identifier.get_channel() {
            Some(c) => c,
            None => {
                return Ok(None);
            },
        };
        match channel_cache_get(&self.channels_cache, channel_identifier) {
            Some(c) => Ok(Some(c)),
            None => {
                let platform = match channel_identifier.get_platform_name() {
                    Some(p) => p,
                    None => {
                        proof {
                            assert(false);
                        }
                        return Ok(None);
                    },
                };
                let platform_string = String::from_str(platform);
                match find_channel_index(&self.channels, &platform_string, &chan) {
                    Some(i) => {
                        let c1 = self.channels[i].duplicate();
                        let c2 = self.channels[i].duplicate();
                        channel_cache_insert(
                            &mut self.channels_cache,
                            channel_identifier.duplicate(),
                            c1,
                        );
                        Ok(Some(c2))
                    },
                    None => Ok(None),
                }
            },
        }
    }

    /// Looks a channel up by its synthetic id.
    pub fn get_channel_by_id(&self, channel_id: u64) -> (r: Result<Option<Channel>, DatabaseError>)
        ensures
            r matches Ok(o) && o.deep_view() == spec_find_channel_by_id(
                self.store_channels(),
                channel_id,
            ),
    {
        let n = self.channels.len();
        for i in 0..n
            invariant
                n == self.channels@.len(),
                forall|j: int|
                    0 <= j < i ==> !(channel_id_pred(channel_id)(self.store_channels()[j])),
        {
            if self.channels[i].id == channel_id {
                proof {
                    lemma_first_match_at(self.store_channels(), channel_id_pred(channel_id), i as int);
                }
                return Ok(Some(self.channels[i].duplicate()));
            }
        }
        proof {
            lemma_first_match_at(self.store_channels(), channel_id_pred(channel_id), n as int);
        }
        Ok(None)
    }

    /// Resolves a channel identifier, creating the channel on first
    /// reference. A creation also records the new channel in the
    /// per-platform known-channel set on the bus. The anonymous channel
    /// resolves to nothing.
    pub fn get_or_create_channel(&mut self, channel_identifier: &ChannelIdentifier) -> (r: Result<
        Option<Channel>,
        DatabaseError,
    >)
        requires
            old(self).wf(),
        ensures
            final(self).wf(),
            final(self).store_users() == old(self).store_users(),
            final(self).next_user_id == old(self).next_user_id,
            final(self).store_commands() == old(self).store_commands(),
            final(self).store_filters() == old(self).store_filters(),
            final(self).store_user_data() == old(self).store_user_data(),
            final(self).store_auth() == old(self).store_auth(),
            final(self).store_sessions() == old(self).store_sessions(),
            final(self).store_prefixes() == old(self).store_prefixes(),
            match crate::platform::spec_platform_name(channel_identifier@) {
                None => {
                    &&& r matches Ok(o) && o is None
                    &&& final(self).store_channels() == old(self).store_channels()
                    &&& final(self).next_channel_id == old(self).next_channel_id
                    &&& same_outbox(*old(self), *final(self))
                },
                Some(p) => {
                    let c = crate::platform::spec_channel_string(channel_identifier@)->Some_0;
                    match spec_find_channel(old(self).store_channels(), p, c) {
                        Some(ch) => {
                            &&& r matches Ok(o) && o.deep_view() == Some(ch)
                            &&& final(self).store_channels() == old(self).store_channels()
                            &&& final(self).next_channel_id == old(self).next_channel_id
                            &&& same_outbox(*old(self), *final(self))
                        },
                        None => {
                            if old(self).next_channel_id < u64::MAX {
                                let new = ChannelV {
                                    id: old(self).next_channel_id,
                                    platform: p,
                                    channel: c,
                                };
                                &&& r matches Ok(o) && o.deep_view() == Some(new)
                                &&& final(self).store_channels() == old(self).store_channels().push(new)
                                &&& final(self).next_channel_id == old(self).next_channel_id + 1
                                &&& final(self).outbox.deep_view() == old(self).outbox.deep_view().push(
                                    crate::bus::BusMessageV::SetAdd {
                                        key: crate::bus::spec_channels_key(p),
                                        members: seq![c],
                                    },
                                ).push(
                                    crate::bus::BusMessageV::Notify {
                                        topic: crate::bus::spec_update_topic(p),
                                        text: "Channel list updated"@,
                                    },
                                )
                            } else {
                                &&& r matches Err(e) && e@ == DatabaseErrorV::StoreError(
                                    "channel ids exhausted"@,
                                )
                                &&& final(self).store_channels() == old(self).store_channels()
                                &&& final(self).next_channel_id == old(self).next_channel_id
                                &&& same_outbox(*old(self), *final(self))
                            }
                        },
                    }
                },
            },
    {
        let platform = match channel_identifier.get_platform_name() {
            Some(p) => p,
            None => {
                return Ok(None);
            },
        };
        let chan = match channel_identifier.get_channel() {
            Some(c) => c,
            None => {
                proof {
                    assert(false);
                }
                return Ok(None);
            },
        };
        let platform_string = String::from_str(platform);
        match find_channel_index(&self.channels, &platform_string, &chan) {
            Some(i) => Ok(Some(self.channels[i].duplicate())),
            None => {
                if self.next_channel_id == u64::MAX {
                    return Err(
                        DatabaseError::StoreError(String::from_str("channel ids exhausted")),
                    );
                }
                let id = self.next_channel_id;
                let row = Channel {
                    id,
                    platform: platform_string.clone(),
                    channel: chan.clone(),
                };
                let result = row.duplicate();
                let ghost old_channels = self.store_channels();
                let ghost newv = row@;
                self.channels.push(row);
                self.next_channel_id = id + 1;
                let key = crate::bus::channels_key(platform);
                let mut members: Vec<String> = Vec::new();
                members.push(chan);
                let topic = crate::bus::update_topic(platform);
                let ghost old_outbox = self.outbox.deep_view();
                self.outbox.push(BusMessage::SetAdd { key, members });
                self.outbox.push(
                    BusMessage::Notify { topic, text: String::from_str("Channel list updated") },
                );
                proof {
                    assert(self.store_channels() =~= old_channels.push(newv));
                    assert forall|a: int, b: int|
                        0 <= a < b < self.store_channels().len() implies self.store_channels()[a].id
                        != self.store_channels()[b].id && !(self.store_channels()[a].platform
                        == self.store_channels()[b].platform && self.store_channels()[a].channel
                        == self.store_channels()[b].channel) by {
                        if b == old_channels.len() {
                            if old_channels[a].platform == newv.platform && old_channels[a].channel
                                == newv.channel {
                                assert(channel_pair_pred(newv.platform, newv.channel)(
                                    old_channels[a],
                                ));
                                lemma_first_match_exists(
                                    old_channels,
                                    channel_pair_pred(newv.platform, newv.channel),
                                );
                                assert(false);
                            }
                        }
                    }
                    assert(members.deep_view() =~= seq![newv.channel]);
                    assert(self.outbox.deep_view() =~= old_outbox.push(
                        crate::bus::BusMessageV::SetAdd {
                            key: crate::bus::spec_channels_key(newv.platform),
                            members: seq![newv.channel],
                        },
                    ).push(
                        crate::bus::BusMessageV::Notify {
                            topic: crate::bus::spec_update_topic(newv.platform),
                            text: "Channel list updated"@,
                        },
                    ));
                    assert forall|chv: ChannelIdentifierV|
                        #[trigger] channel_cache_of(self.channels_cache).contains_key(chv)
                            implies spec_channel_lookup(self.store_channels(), chv) == Some(
                        channel_cache_of(self.channels_cache)[chv],
                    ) by {
                        let pk = crate::platform::spec_platform_name(chv)->Some_0;
                        let ck = crate::platform::spec_channel_string(chv)->Some_0;
                        lemma_first_match_snoc(old_channels, channel_pair_pred(pk, ck), newv);
                    }
                }
                Ok(Some(result))
            },
        }
    }

    /// The stored command a channel has under a name, straight from the
    /// store's tables.
    pub fn get_command(&mut self, channel_identifier: &ChannelIdentifier, command: &str) -> (r:
        Result<Option<Command>, DatabaseError>)
        requires
            old(self).wf(),
        ensures
            final(self).wf(),
            same_store(*old(self), *final(self)),
            same_outbox(*old(self), *final(self)),
            r matches Ok(o) && o.deep_view() == (match spec_channel_lookup(
                old(self).store_channels(),
                channel_identifier@,
            ) {
                Some(ch) => spec_find_command(old(self).store_commands(), ch.id, command@),
                None => None,
            }),
    {
        let ch = match self.get_channel(channel_identifier) {
            Ok(Some(ch)) => ch,
            Ok(None) => {
                return Ok(None);
            },
            Err(e) => {
                proof {
                    assert(false);
                }
                return Err(e);
            },
        };
        let name = String::from_str(command);
        match find_command_index(&self.commands, ch.id, &name) {
            Some(i) => Ok(Some(self.commands[i].duplicate())),
            None => Ok(None),
        }
    }

    /// Every stored command of one channel, in insertion order.
    pub fn get_commands(&self, channel_id: u64) -> (r: Result<Vec<Command>, DatabaseError>)
        ensures
            r matches Ok(cs) && cs.deep_view() == spec_commands_of(
                self.store_commands(),
                channel_id,
            ),
    {
        let mut out: Vec<Command> = Vec::new();
        let n = self.commands.len();
        proof {
            assert(self.store_commands().take(0) =~= Seq::<CommandV>::empty());
            assert(out.deep_view() =~= spec_commands_of(self.store_commands().take(0), channel_id));
        }
        for i in 0..n
            invariant
                n == self.commands@.len(),
                out.deep_view() == spec_commands_of(
                    self.store_commands().take(i as int),
                    channel_id,
                ),
        {
            let ghost prev = out.deep_view();
            if self.commands[i].channel_id == channel_id {
                out.push(self.commands[i].duplicate());
            }
            proof {
                let dv = self.store_commands();
                assert(dv.take(i + 1).drop_last() =~= dv.take(i as int));
                assert(dv.take(i + 1).last() == dv[i as int]);
                if self.commands@[i as int]@.channel_id == channel_id {
                    assert(out.deep_view() =~= prev.push(dv[i as int]));
                }
            }
        }
        proof {
            assert(self.store_commands().take(n as int) =~= self.store_commands());
        }
        Ok(out)
    }

    /// Inserts a stored command: reserved names are rejected, an existing
    /// (channel, name) key is a duplicate, anything else is appended.
    fn add_command(&mut self, command: NewCommand) -> (r: Result<(), DatabaseError>)
        requires
            old(self).wf(),
        ensures
            final(self).wf(),
            same_outbox(*old(self), *final(self)),
            final(self).store_users() == old(self).store_users(),
            final(self).next_user_id == old(self).next_user_id,
            final(self).store_channels() == old(self).store_channels(),
            final(self).next_channel_id == old(self).next_channel_id,
            final(self).store_filters() == old(self).store_filters(),
            final(self).store_user_data() == old(self).store_user_data(),
            final(self).store_auth() == old(self).store_auth(),
            final(self).store_sessions() == old(self).store_sessions(),
            final(self).store_prefixes() == old(self).store_prefixes(),
            spec_add_command_outcome(
                old(self).store_commands(),
                final(self).store_commands(),
                command@,
                unit_result_view(r),
            ),
    {
        if is_builtin_name(&command.name) {
            return Err(DatabaseError::InvalidValue);
        }
        match find_command_index(&self.commands, command.channel_id, &command.name) {
            Some(_) => Err(DatabaseError::DuplicateValue),
            None => {
                let ghost old_commands = self.store_commands();
                let row = Command {
                    channel_id: command.channel_id,
                    name: command.name,
                    action: command.action,
                    permissions: command.permissions,
                    cooldown: command.cooldown,
                };
                let ghost rowv = row@;
                self.commands.push(row);
                proof {
                    assert(self.store_commands() =~= old_commands.push(rowv));
                }
                Ok(())
            },
        }
    }

    /// Creates a stored command on a channel, creating the channel on
    /// first reference; the command starts without a permission override
    /// and with the default five-second cooldown. The anonymous channel
    /// takes no commands.
    pub fn add_command_to_channel(
        &mut self,
        channel_identifier: &ChannelIdentifier,
        trigger: &str,
        action: &str,
    ) -> (r: Result<(), DatabaseError>)
        requires
            old(self).wf(),
        ensures
            final(self).wf(),
            final(self).store_users() == old(self).store_users(),
            final(self).next_user_id == old(self).next_user_id,
            final(self).store_filters() == old(self).store_filters(),
            final(self).store_user_data() == old(self).store_user_data(),
            final(self).store_auth() == old(self).store_auth(),
            final(self).store_sessions() == old(self).store_sessions(),
            final(self).store_prefixes() == old(self).store_prefixes(),
            spec_is_builtin_name(trigger@) ==> r is Err && final(self).store_commands() == old(self).store_commands(),
            match crate::platform::spec_platform_name(channel_identifier@) {
                None => {
                    &&& r == Err::<(), DatabaseError>(DatabaseError::InvalidValue)
                    &&& final(self).store_commands() == old(self).store_commands()
                    &&& final(self).store_channels() == old(self).store_channels()
                    &&& final(self).next_channel_id == old(self).next_channel_id
                    &&& same_outbox(*old(self), *final(self))
                },
                Some(p) => {
                    let c = crate::platform::spec_channel_string(channel_identifier@)->Some_0;
                    match spec_find_channel(old(self).store_channels(), p, c) {
                        Some(ch) => {
                            &&& final(self).store_channels() == old(self).store_channels()
                            &&& final(self).next_channel_id == old(self).next_channel_id
                            &&& same_outbox(*old(self), *final(self))
                            &&& spec_add_command_outcome(
                                old(self).store_commands(),
                                final(self).store_commands(),
                                CommandV {
                                    channel_id: ch.id,
                                    name: trigger@,
                                    action: action@,
                                    permissions: None,
                                    cooldown: 5,
                                },
                                unit_result_view(r),
                            )
                        },
                        None => {
                            if old(self).next_channel_id < u64::MAX {
                                &&& final(self).store_channels() == old(self).store_channels().push(
                                    ChannelV {
                                        id: old(self).next_channel_id,
                                        platform: p,
                                        channel: c,
                                    },
                                )
                                &&& final(self).next_channel_id == old(self).next_channel_id + 1
                                &&& final(self).outbox.deep_view() == old(self).outbox.deep_view().push(
                                    crate::bus::BusMessageV::SetAdd {
                                        key: crate::bus::spec_channels_key(p),
                                        members: seq![c],
                                    },
                                ).push(
                                    crate::bus::BusMessageV::Notify {
                                        topic: crate::bus::spec_update_topic(p),
                                        text: "Channel list updated"@,
                                    },
                                )
                                &&& spec_add_command_outcome(
                                    old(self).store_commands(),
                                    final(self).store_commands(),
                                    CommandV {
                                        channel_id: old(self).next_channel_id,
                                        name: trigger@,
                                        action: action@,
                                        permissions: None,
                                        cooldown: 5,
                                    },
                                    unit_result_view(r),
                                )
                            } else {
                                &&& r matches Err(e) && e@ == DatabaseErrorV::StoreError(
                                    "channel ids exhausted"@,
                                )
                                &&& final(self).store_commands() == old(self).store_commands()
                                &&& final(self).store_channels() == old(self).store_channels()
                                &&& final(self).next_channel_id == old(self).next_channel_id
                                &&& same_outbox(*old(self), *final(self))
                            }
                        },
                    }
                },
            },
    {
        let channel = match self.get_or_create_channel(channel_identifier) {
            Ok(Some(ch)) => ch,
            Ok(None) => {
                return Err(DatabaseError::InvalidValue);
            },
            Err(e) => {
                return Err(e);
            },
        };
        self.add_command(
            NewCommand {
                channel_id: channel.id,
                name: String::from_str(trigger),
                action: String::from_str(action),
                permissions: None,
                cooldown: 5,
            },
        )
    }
}

/// The commands of one channel, in table order.
pub open spec fn spec_commands_of(cmds: Seq<CommandV>, channel_id: u64) -> Seq<CommandV>
    decreases cmds.len(),
{
    if cmds.len() == 0 {
        Seq::empty()
    } else {
        let rest = spec_commands_of(cmds.drop_last(), channel_id);
        if cmds.last().channel_id == channel_id {
            rest.push(cmds.last())
        } else {
            rest
        }
    }
}

/// A sequence without the elements a predicate selects, order kept.
pub open spec fn spec_remove_matching<T>(s: Seq<T>, q: spec_fn(T) -> bool) -> Seq<T>
    decreases s.len(),
{
    if s.len() == 0 {
        Seq::empty()
    } else {
        let rest = spec_remove_matching(s.drop_last(), q);
        if q(s.last()) {
            rest
        } else {
            rest.push(s.last())
        }
    }
}

/// A removal cannot disturb a find whose predicate rules the removed
/// elements out.
pub proof fn lemma_first_match_remove_matching<T>(
    s: Seq<T>,
    q: spec_fn(T) -> bool,
    p: spec_fn(T) -> bool,
)
    requires
        forall|x: T| #[trigger] p(x) ==> !q(x),
    ensures
        spec_first_match(spec_remove_matching(s, q), p) == spec_first_match(s, p),
    decreases s.len(),
{
    if s.len() > 0 {
        assert(s.drop_last().push(s.last()) =~= s);
        lemma_first_match_remove_matching(s.drop_last(), q, p);
        lemma_first_match_snoc(s.drop_last(), p, s.last());
        if q(s.last()) {
            assert(!p(s.last()));
        } else {
            lemma_first_match_snoc(spec_remove_matching(s.drop_last(), q), p, s.last());
        }
    }
}

/// The command table without one (channel, name) key.
pub open spec fn spec_remove_command(cmds: Seq<CommandV>, channel_id: u64, name: Seq<char>)
    -> Seq<CommandV> {
    spec_remove_matching(cmds, command_key_pred(channel_id, name))
}

/// The command table with one row upserted on its (channel, name) key.
pub open spec fn spec_upsert_command(cmds: Seq<CommandV>, c: CommandV) -> Seq<CommandV>
    decreases cmds.len(),
{
    if cmds.len() == 0 {
        seq![c]
    } else if cmds[0].channel_id == c.channel_id && cmds[0].name == c.name {
        seq![c] + cmds.drop_first()
    } else {
        seq![cmds[0]] + spec_upsert_command(cmds.drop_first(), c)
    }
}

/// An upsert is decided by the position of the first row of the same key.
pub proof fn lemma_upsert_command_at(cmds: Seq<CommandV>, c: CommandV, k: int)
    requires
        0 <= k <= cmds.len(),
        forall|j: int|
            0 <= j < k ==> !(cmds[j].channel_id == c.channel_id && cmds[j].name == c.name),
        k == cmds.len() || (cmds[k].channel_id == c.channel_id && cmds[k].name == c.name),
    ensures
        spec_upsert_command(cmds, c) == (if k == cmds.len() {
            cmds.push(c)
        } else {
            cmds.update(k, c)
        }),
    decreases cmds.len(),
{
    if cmds.len() == 0 {
        assert(spec_upsert_command(cmds, c) =~= cmds.push(c));
    } else if k == 0 {
        assert(spec_upsert_command(cmds, c) =~= cmds.update(0, c));
    } else {
        assert(forall|i: int|
            0 <= i < cmds.drop_first().len() ==> cmds.drop_first()[i] == cmds[i + 1]);
        lemma_upsert_command_at(cmds.drop_first(), c, k - 1);
        if k == cmds.len() {
            assert(seq![cmds[0]] + cmds.drop_first().push(c) =~= cmds.push(c));
        } else {
            assert(seq![cmds[0]] + cmds.drop_first().update(k - 1, c) =~= cmds.update(k, c));
        }
    }
}

/// The filter rows of one channel, in insertion order.
pub open spec fn spec_filters_of(fs: Seq<FilterV>, channel_id: u64) -> Seq<FilterV>
    decreases fs.len(),
{
    if fs.len() == 0 {
        Seq::empty()
    } else {
        let rest = spec_filters_of(fs.drop_last(), channel_id);
        if fs.last().channel_id == channel_id {
            rest.push(fs.last())
        } else {
            rest
        }
    }
}

/// What one attempted deletion does: a present key is removed, an absent
/// key is an invalid value.
pub open spec fn spec_delete_command_outcome(
    cmds: Seq<CommandV>,
    cmds2: Seq<CommandV>,
    channel_id: u64,
    name: Seq<char>,
    r: Result<(), DatabaseErrorV>,
) -> bool {
    match spec_find_command(cmds, channel_id, name) {
        Some(_) => r == Ok::<(), DatabaseErrorV>(()) && cmds2 == spec_remove_command(
            cmds,
            channel_id,
            name,
        ),
        None => r == Err::<(), DatabaseErrorV>(DatabaseErrorV::InvalidValue) && cmds2 == cmds,
    }
}

impl Database {
    /// Upserts a command row on its (channel, name) key; the dashboard's
    /// way of editing a command in place.
    pub fn update_command(&mut self, command: NewCommand) -> (r: Result<(), DatabaseError>)
        requires
            old(self).wf(),
        ensures
            final(self).wf(),
            same_outbox(*old(self), *final(self)),
            final(self).store_users() == old(self).store_users(),
            final(self).next_user_id == old(self).next_user_id,
            final(self).store_channels() == old(self).store_channels(),
            final(self).next_channel_id == old(self).next_channel_id,
            final(self).store_filters() == old(self).store_filters(),
            final(self).store_user_data() == old(self).store_user_data(),
            final(self).store_auth() == old(self).store_auth(),
            final(self).store_sessions() == old(self).store_sessions(),
            final(self).store_prefixes() == old(self).store_prefixes(),
            r is Ok,
            final(self).store_commands() == spec_upsert_command(
                old(self).store_commands(),
                command@,
            ),
    {
        let row = Command {
            channel_id: command.channel_id,
            name: command.name,
            action: command.action,
            permissions: command.permissions,
            cooldown: command.cooldown,
        };
        let n = self.commands.len();
        let mut i: usize = 0;
        while i < n
            invariant
                old(self).wf(),
                n == self.commands@.len(),
                *self == *old(self),
                forall|j: int|
                    0 <= j < i ==> !(self.store_commands()[j].channel_id == row@.channel_id
                        && self.store_commands()[j].name == row@.name),
                row@ == command@,
            decreases n - i,
        {
            if self.commands[i].channel_id == row.channel_id && self.commands[i].name.eq(
                &row.name,
            ) {
                proof {
                    lemma_upsert_command_at(self.store_commands(), row@, i as int);
                }
                let ghost before = self.store_commands();
                self.commands.set(i, row);
                proof {
                    assert(self.store_commands() =~= before.update(i as int, command@));
                }
                return Ok(());
            }
            i += 1;
        }
        proof {
            lemma_upsert_command_at(self.store_commands(), row@, n as int);
        }
        let ghost before = self.store_commands();
        self.commands.push(row);
        proof {
            assert(self.store_commands() =~= before.push(command@));
        }
        Ok(())
    }

    /// Deletes a channel's command by name; deleting what is not there is
    /// reported as an invalid value, as the store's affected-row count
    /// shows it.
    pub fn delete_command(&mut self, channel_id: u64, command_name: &str) -> (r: Result<
        (),
        DatabaseError,
    >)
        requires
            old(self).wf(),
        ensures
            final(self).wf(),
            same_outbox(*old(self), *final(self)),
            final(self).store_users() == old(self).store_users(),
            final(self).next_user_id == old(self).next_user_id,
            final(self).store_channels() == old(self).store_channels(),
            final(self).next_channel_id == old(self).next_channel_id,
            final(self).store_filters() == old(self).store_filters(),
            final(self).store_user_data() == old(self).store_user_data(),
            final(self).store_auth() == old(self).store_auth(),
            final(self).store_sessions() == old(self).store_sessions(),
            final(self).store_prefixes() == old(self).store_prefixes(),
            match spec_find_command(old(self).store_commands(), channel_id, command_name@) {
                Some(_) => r == Ok::<(), DatabaseError>(()) && final(self).store_commands()
                    == spec_remove_command(old(self).store_commands(), channel_id, command_name@),
                None => r == Err::<(), DatabaseError>(DatabaseError::InvalidValue) && final(self).store_commands() == old(self).store_commands(),
            },
    {
        let name = String::from_str(command_name);
        match find_command_index(&self.commands, channel_id, &name) {
            None => Err(DatabaseError::InvalidValue),
            Some(_) => {
                let mut out: Vec<Command> = Vec::new();
                let n = self.commands.len();
                proof {
                    assert(self.store_commands().take(0) =~= Seq::<CommandV>::empty());
                    assert(out.deep_view() =~= spec_remove_matching(
                        self.store_commands().take(0),
                        command_key_pred(channel_id, name@),
                    ));
                }
                for i in 0..n
                    invariant
                        old(self).wf(),
                        n == self.commands@.len(),
                        *self == *old(self),
                        name@ == command_name@,
                        out.deep_view() == spec_remove_matching(
                            self.store_commands().take(i as int),
                            command_key_pred(channel_id, name@),
                        ),
                {
                    let ghost prev = out.deep_view();
                    if !(self.commands[i].channel_id == channel_id && self.commands[i].name.eq(
                        &name,
                    )) {
                        out.push(self.commands[i].duplicate());
                    }
                    proof {
                        let dv = self.store_commands();
                        assert(dv.take(i + 1).drop_last() =~= dv.take(i as int));
                        assert(dv.take(i + 1).last() == dv[i as int]);
                        if !(command_key_pred(channel_id, name@)(dv[i as int])) {
                            assert(out.deep_view() =~= prev.push(dv[i as int]));
                        }
                    }
                }
                proof {
                    assert(self.store_commands().take(n as int) =~= self.store_commands());
                }
                self.commands = out;
                Ok(())
            },
        }
    }

    /// Deletes a command by channel identifier, resolving (or creating)
    /// the channel first; the anonymous channel holds no commands.
    pub fn delete_command_from_channel(
        &mut self,
        channel_identifier: &ChannelIdentifier,
        command_name: &str,
    ) -> (r: Result<(), DatabaseError>)
        requires
            old(self).wf(),
        ensures
            final(self).wf(),
            final(self).store_users() == old(self).store_users(),
            final(self).next_user_id == old(self).next_user_id,
            final(self).store_filters() == old(self).store_filters(),
            final(self).store_user_data() == old(self).store_user_data(),
            final(self).store_auth() == old(self).store_auth(),
            final(self).store_sessions() == old(self).store_sessions(),
            final(self).store_prefixes() == old(self).store_prefixes(),
            match spec_channel_lookup(old(self).store_channels(), channel_identifier@) {
                Some(ch) => {
                    &&& final(self).store_channels() == old(self).store_channels()
                    &&& final(self).next_channel_id == old(self).next_channel_id
                    &&& same_outbox(*old(self), *final(self))
                    &&& spec_delete_command_outcome(
                        old(self).store_commands(),
                        final(self).store_commands(),
                        ch.id,
                        command_name@,
                        unit_result_view(r),
                    )
                },
                None => {
                    match crate::platform::spec_platform_name(channel_identifier@) {
                        None => {
                            &&& r == Err::<(), DatabaseError>(DatabaseError::InvalidValue)
                            &&& final(self).store_commands() == old(self).store_commands()
                            &&& final(self).store_channels() == old(self).store_channels()
                            &&& final(self).next_channel_id == old(self).next_channel_id
                            &&& same_outbox(*old(self), *final(self))
                        },
                        Some(p) => {
                            let c = crate::platform::spec_channel_string(
                                channel_identifier@,
                            )->Some_0;
                            if old(self).next_channel_id < u64::MAX {
                                &&& final(self).store_channels() == old(
                                    self,
                                ).store_channels().push(
                                    ChannelV {
                                        id: old(self).next_channel_id,
                                        platform: p,
                                        channel: c,
                                    },
                                )
                                &&& final(self).next_channel_id == old(self).next_channel_id + 1
                                &&& final(self).outbox.deep_view() == old(
                                    self,
                                ).outbox.deep_view().push(
                                    crate::bus::BusMessageV::SetAdd {
                                        key: crate::bus::spec_channels_key(p),
                                        members: seq![c],
                                    },
                                ).push(
                                    crate::bus::BusMessageV::Notify {
                                        topic: crate::bus::spec_update_topic(p),
                                        text: "Channel list updated"@,
                                    },
                                )
                                &&& spec_delete_command_outcome(
                                    old(self).store_commands(),
                                    final(self).store_commands(),
                                    old(self).next_channel_id,
                                    command_name@,
                                    unit_result_view(r),
                                )
                            } else {
                                &&& r matches Err(e) && e@ == DatabaseErrorV::StoreError(
                                    "channel ids exhausted"@,
                                )
                                &&& final(self).store_commands() == old(self).store_commands()
                                &&& final(self).store_channels() == old(self).store_channels()
                                &&& final(self).next_channel_id == old(self).next_channel_id
                                &&& same_outbox(*old(self), *final(self))
                            }
                        },
                    }
                },
            },
    {
        let channel = match self.get_or_create_channel(channel_identifier) {
            Ok(Some(ch)) => ch,
            Ok(None) => {
                return Err(DatabaseError::InvalidValue);
            },
            Err(e) => {
                return Err(e);
            },
        };
        self.delete_command(channel.id, command_name)
    }

    /// Every filter row, in insertion order.
    pub fn get_all_filters(&self) -> (r: Result<Vec<Filter>, DatabaseError>)
        ensures
            r matches Ok(fs) && fs.deep_view() == self.store_filters(),
    {
        let mut out: Vec<Filter> = Vec::new();
        let n = self.filters.len();
        for i in 0..n
            invariant
                n == self.filters@.len(),
                out.deep_view() =~= self.store_filters().take(i as int),
        {
            let ghost prev = out.deep_view();
            out.push(self.filters[i].duplicate());
            proof {
                assert(out.deep_view() =~= prev.push(self.store_filters()[i as int]));
                assert(out.deep_view() =~= self.store_filters().take(i + 1));
            }
        }
        proof {
            assert(self.store_filters().take(n as int) =~= self.store_filters());
        }
        Ok(out)
    }

    /// The filter rows of one channel, in insertion order.
    pub fn get_filters_in_channel_id(&self, channel_id: u64) -> (r: Result<
        Vec<Filter>,
        DatabaseError,
    >)
        ensures
            r matches Ok(fs) && fs.deep_view() == spec_filters_of(self.store_filters(), channel_id),
    {
        let mut out: Vec<Filter> = Vec::new();
        let n = self.filters.len();
        proof {
            assert(self.store_filters().take(0) =~= Seq::<FilterV>::empty());
            assert(out.deep_view() =~= spec_filters_of(self.store_filters().take(0), channel_id));
        }
        for i in 0..n
            invariant
                n == self.filters@.len(),
                out.deep_view() == spec_filters_of(self.store_filters().take(i as int), channel_id),
        {
            let ghost prev = out.deep_view();
            if self.filters[i].channel_id == channel_id {
                out.push(self.filters[i].duplicate());
            }
            proof {
                let dv = self.store_filters();
                assert(dv.take(i + 1).drop_last() =~= dv.take(i as int));
                assert(dv.take(i + 1).last() == dv[i as int]);
                if self.filters@[i as int]@.channel_id == channel_id {
                    assert(out.deep_view() =~= prev.push(dv[i as int]));
                }
            }
        }
        proof {
            assert(self.store_filters().take(n as int) =~= self.store_filters());
        }
        Ok(out)
    }

    /// The filter rows of the channel an identifier denotes; a channel
    /// the store does not know is an invalid value.
    pub fn get_filters_in_channel(&mut self, channel_identifier: &ChannelIdentifier) -> (r: Result<
        Vec<Filter>,
        DatabaseError,
    >)
        requires
            old(self).wf(),
        ensures
            final(self).wf(),
            same_store(*old(self), *final(self)),
            same_outbox(*old(self), *final(self)),
            match spec_channel_lookup(old(self).store_channels(), channel_identifier@) {
                Some(ch) => r matches Ok(fs) && fs.deep_view() == spec_filters_of(
                    old(self).store_filters(),
                    ch.id,
                ),
                None => r == Err::<Vec<Filter>, DatabaseError>(DatabaseError::InvalidValue),
            },
    {
        let channel = match self.get_channel(channel_identifier) {
            Ok(Some(ch)) => ch,
            Ok(None) => {
                return Err(DatabaseError::InvalidValue);
            },
            Err(e) => {
                proof {
                    assert(false);
                }
                return Err(e);
            },
        };
        self.get_filters_in_channel_id(channel.id)
    }
}

/// The position of the first user-data row with the given key.
fn find_user_data_index(rows: &Vec<UserData>, user_id: u64, name: &String) -> (r: Option<usize>)
    ensures
        match r {
            Some(i) => i < rows@.len() && spec_first_match(
                rows.deep_view(),
                user_data_key_pred(user_id, name@),
            ) == Some(rows.deep_view()[i as int]),
            None => spec_first_match(rows.deep_view(), user_data_key_pred(user_id, name@))
                is None,
        },
{
    let n = rows.len();
    for i in 0..n
        invariant
            n == rows@.len(),
            forall|j: int|
                0 <= j < i ==> !(user_data_key_pred(user_id, name@)(rows.deep_view()[j])),
    {
        if rows[i].user_id == user_id && rows[i].name.eq(name) {
            proof {
                lemma_first_match_at(rows.deep_view(), user_data_key_pred(user_id, name@), i as int);
            }
            return Some(i);
        }
    }
    proof {
        lemma_first_match_at(rows.deep_view(), user_data_key_pred(user_id, name@), n as int);
    }
    None
}

/// The position of the first prefix row of a channel.
fn find_prefix_index(ps: &Vec<Prefix>, channel_id: u64) -> (r: Option<usize>)
    ensures
        match r {
            Some(i) => i < ps@.len() && spec_first_match(ps.deep_view(), prefix_id_pred(channel_id))
                == Some(ps.deep_view()[i as int]),
            None => spec_first_match(ps.deep_view(), prefix_id_pred(channel_id)) is None,
        },
{
    let n = ps.len();
    for i in 0..n
        invariant
            n == ps@.len(),
            forall|j: int| 0 <= j < i ==> !(prefix_id_pred(channel_id)(ps.deep_view()[j])),
    {
        if ps[i].channel_id == channel_id {
            proof {
                lemma_first_match_at(ps.deep_view(), prefix_id_pred(channel_id), i as int);
            }
            return Some(i);
        }
    }
    proof {
        lemma_first_match_at(ps.deep_view(), prefix_id_pred(channel_id), n as int);
    }
    None
}

/// The predicate a user-data find scans with.
pub open spec fn user_data_key_pred(user_id: u64, name: Seq<char>) -> spec_fn(UserDataV) -> bool {
    |r0: UserDataV| r0.user_id == user_id && r0.name == name
}

/// The predicate an auth find scans with.
pub open spec fn auth_name_pred(name: Seq<char>) -> spec_fn(AuthRowV) -> bool {
    |r0: AuthRowV| r0.name == name
}

/// The predicate a session find scans with.
pub open spec fn session_id_pred(sid: Seq<char>) -> spec_fn(WebSessionV) -> bool {
    |s0: WebSessionV| s0.session_id == sid
}

/// The predicate a prefix find scans with.
pub open spec fn prefix_id_pred(channel_id: u64) -> spec_fn(PrefixV) -> bool {
    |p0: PrefixV| p0.channel_id == channel_id
}

/// The auth table with one key upserted.
pub open spec fn spec_upsert_auth(rows: Seq<AuthRowV>, row: AuthRowV) -> Seq<AuthRowV>
    decreases rows.len(),
{
    if rows.len() == 0 {
        seq![row]
    } else if rows[0].name == row.name {
        seq![row] + rows.drop_first()
    } else {
        seq![rows[0]] + spec_upsert_auth(rows.drop_first(), row)
    }
}

/// An upsert is decided by the position of the first row of the same key.
pub proof fn lemma_upsert_auth_at(rows: Seq<AuthRowV>, row: AuthRowV, k: int)
    requires
        0 <= k <= rows.len(),
        forall|j: int| 0 <= j < k ==> rows[j].name != row.name,
        k == rows.len() || rows[k].name == row.name,
    ensures
        spec_upsert_auth(rows, row) == (if k == rows.len() {
            rows.push(row)
        } else {
            rows.update(k, row)
        }),
    decreases rows.len(),
{
    if rows.len() == 0 {
        assert(spec_upsert_auth(rows, row) =~= rows.push(row));
    } else if k == 0 {
        assert(spec_upsert_auth(rows, row) =~= rows.update(0, row));
    } else {
        assert(forall|i: int|
            0 <= i < rows.drop_first().len() ==> rows.drop_first()[i] == rows[i + 1]);
        lemma_upsert_auth_at(rows.drop_first(), row, k - 1);
        if k == rows.len() {
            assert(seq![rows[0]] + rows.drop_first().push(row) =~= rows.push(row));
        } else {
            assert(seq![rows[0]] + rows.drop_first().update(k - 1, row) =~= rows.update(k, row));
        }
    }
}

impl Database {
    /// The value one user stores under a key.
    fn get_user_data_value(&self, user_id: u64, key: &str) -> (r: Result<
        Option<String>,
        DatabaseError,
    >)
        ensures
            r matches Ok(o) && o.deep_view() == spec_find_user_data(
                self.store_user_data(),
                user_id,
                key@,
            ),
    {
        let name = String::from_str(key);
        match find_user_data_index(&self.user_data, user_id, &name) {
            Some(i) => Ok(Some(self.user_data[i].value.clone())),
            None => Ok(None),
        }
    }

    /// Writes one key/value entry for a user: with `overwrite` the entry
    /// replaces an existing one of the same key, without it an existing
    /// key is a duplicate.
    pub fn set_user_data(&mut self, user_data: &UserData, overwrite: bool) -> (r: Result<
        (),
        DatabaseError,
    >)
        requires
            old(self).wf(),
        ensures
            final(self).wf(),
            same_outbox(*old(self), *final(self)),
            final(self).store_users() == old(self).store_users(),
            final(self).next_user_id == old(self).next_user_id,
            final(self).store_channels() == old(self).store_channels(),
            final(self).next_channel_id == old(self).next_channel_id,
            final(self).store_commands() == old(self).store_commands(),
            final(self).store_filters() == old(self).store_filters(),
            final(self).store_auth() == old(self).store_auth(),
            final(self).store_sessions() == old(self).store_sessions(),
            final(self).store_prefixes() == old(self).store_prefixes(),
            if overwrite {
                r == Ok::<(), DatabaseError>(()) && final(self).store_user_data()
                    == spec_upsert_user_data(old(self).store_user_data(), user_data@)
            } else {
                match spec_find_user_data(
                    old(self).store_user_data(),
                    user_data@.user_id,
                    user_data@.name,
                ) {
                    Some(_) => r == Err::<(), DatabaseError>(DatabaseError::DuplicateValue)
                        && final(self).store_user_data() == old(self).store_user_data(),
                    None => r == Ok::<(), DatabaseError>(()) && final(self).store_user_data()
                        == old(self).store_user_data().push(user_data@),
                }
            },
    {
        if overwrite {
            upsert_user_data_row(&mut self.user_data, user_data.duplicate());
            Ok(())
        } else {
            match find_user_data_index(&self.user_data, user_data.user_id, &user_data.name) {
                Some(_) => Err(DatabaseError::DuplicateValue),
                None => {
                    let ghost before = self.store_user_data();
                    self.user_data.push(user_data.duplicate());
                    proof {
                        assert(self.store_user_data() =~= before.push(user_data@));
                    }
                    Ok(())
                },
            }
        }
    }

    /// Removes one key/value entry of a user; removing what is not there
    /// does nothing.
    pub fn remove_user_data(&mut self, user_id: u64, data: &str) -> (r: Result<(), DatabaseError>)
        requires
            old(self).wf(),
        ensures
            final(self).wf(),
            same_outbox(*old(self), *final(self)),
            final(self).store_users() == old(self).store_users(),
            final(self).next_user_id == old(self).next_user_id,
            final(self).store_channels() == old(self).store_channels(),
            final(self).next_channel_id == old(self).next_channel_id,
            final(self).store_commands() == old(self).store_commands(),
            final(self).store_filters() == old(self).store_filters(),
            final(self).store_auth() == old(self).store_auth(),
            final(self).store_sessions() == old(self).store_sessions(),
            final(self).store_prefixes() == old(self).store_prefixes(),
            r == Ok::<(), DatabaseError>(()),
            final(self).store_user_data() == spec_remove_matching(
                old(self).store_user_data(),
                user_data_key_pred(user_id, data@),
            ),
    {
        let name = String::from_str(data);
        let mut out: Vec<UserData> = Vec::new();
        let n = self.user_data.len();
        proof {
            assert(self.store_user_data().take(0) =~= Seq::<UserDataV>::empty());
            assert(out.deep_view() =~= spec_remove_matching(
                self.store_user_data().take(0),
                user_data_key_pred(user_id, name@),
            ));
        }
        for i in 0..n
            invariant
                n == self.user_data@.len(),
                *self == *old(self),
                name@ == data@,
                out.deep_view() == spec_remove_matching(
                    self.store_user_data().take(i as int),
                    user_data_key_pred(user_id, name@),
                ),
        {
            let ghost prev = out.deep_view();
            if !(self.user_data[i].user_id == user_id && self.user_data[i].name.eq(&name)) {
                out.push(self.user_data[i].duplicate());
            }
            proof {
                let dv = self.store_user_data();
                assert(dv.take(i + 1).drop_last() =~= dv.take(i as int));
                assert(dv.take(i + 1).last() == dv[i as int]);
                if !(user_data_key_pred(user_id, name@)(dv[i as int])) {
                    assert(out.deep_view() =~= prev.push(dv[i as int]));
                }
            }
        }
        proof {
            assert(self.store_user_data().take(n as int) =~= self.store_user_data());
        }
        self.user_data = out;
        Ok(())
    }

    /// The linked music-service access token of a user, if any.
    pub fn get_spotify_access_token(&self, user_id: u64) -> (r: Result<
        Option<String>,
        DatabaseError,
    >)
        ensures
            r matches Ok(o) && o.deep_view() == spec_find_user_data(
                self.store_user_data(),
                user_id,
                "spotify_access_token"@,
            ),
    {
        self.get_user_data_value(user_id, "spotify_access_token")
    }

    /// The configured location of a user, if any.
    pub fn get_location(&self, user_id: u64) -> (r: Result<Option<String>, DatabaseError>)
        ensures
            r matches Ok(o) && o.deep_view() == spec_find_user_data(
                self.store_user_data(),
                user_id,
                "location"@,
            ),
    {
        self.get_user_data_value(user_id, "location")
    }

    /// The linked scrobbling account name of a user, if any.
    pub fn get_lastfm_name(&self, user_id: u64) -> (r: Result<Option<String>, DatabaseError>)
        ensures
            r matches Ok(o) && o.deep_view() == spec_find_user_data(
                self.store_user_data(),
                user_id,
                "lastfm_name"@,
            ),
    {
        self.get_user_data_value(user_id, "lastfm_name")
    }

    /// Links a scrobbling account name to a user, replacing an earlier one.
    pub fn set_lastfm_name(&mut self, user_id: u64, name: &str) -> (r: Result<(), DatabaseError>)
        requires
            old(self).wf(),
        ensures
            final(self).wf(),
            same_outbox(*old(self), *final(self)),
            final(self).store_users() == old(self).store_users(),
            final(self).next_user_id == old(self).next_user_id,
            final(self).store_channels() == old(self).store_channels(),
            final(self).next_channel_id == old(self).next_channel_id,
            final(self).store_commands() == old(self).store_commands(),
            final(self).store_filters() == old(self).store_filters(),
            final(self).store_auth() == old(self).store_auth(),
            final(self).store_sessions() == old(self).store_sessions(),
            final(self).store_prefixes() == old(self).store_prefixes(),
            r == Ok::<(), DatabaseError>(()),
            final(self).store_user_data() == spec_upsert_user_data(
                old(self).store_user_data(),
                UserDataV {
                    user_id,
                    name: "lastfm_name"@,
                    value: name@,
                    public: true,
                },
            ),
    {
        let row = UserData {
            user_id,
            name: String::from_str("lastfm_name"),
            value: String::from_str(name),
            public: true,
        };
        match self.set_user_data(&row, true) {
            Ok(_) => Ok(()),
            Err(e) => Err(e),
        }
    }

    /// The stored auth value under a key.
    pub fn get_auth(&self, key: &str) -> (r: Result<Option<String>, DatabaseError>)
        ensures
            r matches Ok(o) && o.deep_view() == spec_find_auth(self.store_auth(), key@),
    {
        let name = String::from_str(key);
        let n = self.auth.len();
        for i in 0..n
            invariant
                n == self.auth@.len(),
                name@ == key@,
                forall|j: int| 0 <= j < i ==> !(auth_name_pred(name@)(self.store_auth()[j])),
        {
            if self.auth[i].name.eq(&name) {
                proof {
                    lemma_first_match_at(self.store_auth(), auth_name_pred(name@), i as int);
                }
                return Ok(Some(self.auth[i].value.clone()));
            }
        }
        proof {
            lemma_first_match_at(self.store_auth(), auth_name_pred(name@), n as int);
        }
        Ok(None)
    }

    /// Stores an auth value under a key, replacing an earlier one.
    pub fn set_auth(&mut self, key: &str, value: &str) -> (r: Result<(), DatabaseError>)
        requires
            old(self).wf(),
        ensures
            final(self).wf(),
            same_outbox(*old(self), *final(self)),
            final(self).store_users() == old(self).store_users(),
            final(self).next_user_id == old(self).next_user_id,
            final(self).store_channels() == old(self).store_channels(),
            final(self).next_channel_id == old(self).next_channel_id,
            final(self).store_commands() == old(self).store_commands(),
            final(self).store_filters() == old(self).store_filters(),
            final(self).store_user_data() == old(self).store_user_data(),
            final(self).store_sessions() == old(self).store_sessions(),
            final(self).store_prefixes() == old(self).store_prefixes(),
            r == Ok::<(), DatabaseError>(()),
            final(self).store_auth() == spec_upsert_auth(
                old(self).store_auth(),
                AuthRowV { name: key@, value: value@ },
            ),
    {
        let row = AuthRow { name: String::from_str(key), value: String::from_str(value) };
        let n = self.auth.len();
        let mut i: usize = 0;
        while i < n
            invariant
                old(self).wf(),
                n == self.auth@.len(),
                *self == *old(self),
                row@ == (AuthRowV { name: key@, value: value@ }),
                forall|j: int| 0 <= j < i ==> self.store_auth()[j].name != row@.name,
            decreases n - i,
        {
            if self.auth[i].name.eq(&row.name) {
                proof {
                    lemma_upsert_auth_at(self.store_auth(), row@, i as int);
                }
                let ghost before = self.store_auth();
                self.auth.set(i, row);
                proof {
                    assert(self.store_auth() =~= before.update(
                        i as int,
                        AuthRowV { name: key@, value: value@ },
                    ));
                }
                return Ok(());
            }
            i += 1;
        }
        proof {
            lemma_upsert_auth_at(self.store_auth(), row@, n as int);
        }
        let ghost before = self.store_auth();
        self.auth.push(row);
        proof {
            assert(self.store_auth() =~= before.push(AuthRowV { name: key@, value: value@ }));
        }
        Ok(())
    }

    /// Resolves a dashboard session id to its session: the cache answers
    /// first, the table on a miss, and a hit on the table is cached.
    pub fn get_web_session(&mut self, session_id: &str) -> (r: Result<
        Option<WebSession>,
        DatabaseError,
    >)
        requires
            old(self).wf(),
        ensures
            final(self).wf(),
            same_store(*old(self), *final(self)),
            same_outbox(*old(self), *final(self)),
            r matches Ok(o) && o.deep_view() == spec_find_session(
                old(self).store_sessions(),
                session_id@,
            ),
    {
        match session_cache_get(&self.web_sessions_cache, session_id) {
            Some(ws) => Ok(Some(ws)),
            None => {
                let sid = String::from_str(session_id);
                let n = self.web_sessions.len();
                let mut i: usize = 0;
                while i < n
                    invariant
                        old(self).wf(),
                        !session_cache_of(old(self).web_sessions_cache).contains_key(
                            session_id@,
                        ),
                        n == self.web_sessions@.len(),
                        *self == *old(self),
                        sid@ == session_id@,
                        forall|j: int|
                            0 <= j < i ==> !(session_id_pred(sid@)(self.store_sessions()[j])),
                    decreases n - i,
                {
                    if self.web_sessions[i].session_id.eq(&sid) {
                        proof {
                            lemma_first_match_at(
                                self.store_sessions(),
                                session_id_pred(sid@),
                                i as int,
                            );
                        }
                        let c1 = self.web_sessions[i].duplicate();
                        let c2 = self.web_sessions[i].duplicate();
                        session_cache_insert(&mut self.web_sessions_cache, sid, c1);
                        return Ok(Some(c2));
                    }
                    i += 1;
                }
                proof {
                    lemma_first_match_at(self.store_sessions(), session_id_pred(sid@), n as int);
                }
                Ok(None)
            },
        }
    }

    /// Opens a dashboard session under a freshly generated id and returns
    /// that id. The generator draws at random, so a collision with an
    /// existing session is reported as a duplicate instead of replacing it.
    pub fn create_web_session(&mut self, user_id: u64, username: String) -> (r: Result<
        String,
        DatabaseError,
    >)
        requires
            old(self).wf(),
        ensures
            final(self).wf(),
            same_outbox(*old(self), *final(self)),
            final(self).store_users() == old(self).store_users(),
            final(self).next_user_id == old(self).next_user_id,
            final(self).store_channels() == old(self).store_channels(),
            final(self).next_channel_id == old(self).next_channel_id,
            final(self).store_commands() == old(self).store_commands(),
            final(self).store_filters() == old(self).store_filters(),
            final(self).store_user_data() == old(self).store_user_data(),
            final(self).store_auth() == old(self).store_auth(),
            final(self).store_prefixes() == old(self).store_prefixes(),
            match r {
                Ok(sid) => {
                    &&& sid@.len() == 24
                    &&& forall|i: int|
                        0 <= i < sid@.len() ==> spec_session_id_char(#[trigger] sid@[i])
                    &&& spec_find_session(old(self).store_sessions(), sid@) is None
                    &&& final(self).store_sessions() == old(self).store_sessions().push(
                        WebSessionV { session_id: sid@, user_id, username: username@ },
                    )
                },
                Err(e) => {
                    &&& e@ == DatabaseErrorV::DuplicateValue
                    &&& final(self).store_sessions() == old(self).store_sessions()
                    &&& exists|sid: Seq<char>|
                        sid.len() == 24 && #[trigger] spec_find_session(
                            old(self).store_sessions(),
                            sid,
                        ) is Some
                },
            },
    {
        let sid = generate_session_id();
        let n = self.web_sessions.len();
        let mut i: usize = 0;
        while i < n
            invariant
                old(self).wf(),
                n == self.web_sessions@.len(),
                *self == *old(self),
                sid@.len() == 24,
                forall|k: int| 0 <= k < sid@.len() ==> spec_session_id_char(#[trigger] sid@[k]),
                forall|j: int| 0 <= j < i ==> !(session_id_pred(sid@)(self.store_sessions()[j])),
            decreases n - i,
        {
            if self.web_sessions[i].session_id.eq(&sid) {
                proof {
                    assert(session_id_pred(sid@)(self.store_sessions()[i as int]));
                    lemma_first_match_exists(self.store_sessions(), session_id_pred(sid@));
                    assert(spec_find_session(old(self).store_sessions(), sid@) is Some);
                }
                return Err(DatabaseError::DuplicateValue);
            }
            i += 1;
        }
        proof {
            lemma_first_match_at(self.store_sessions(), session_id_pred(sid@), n as int);
        }
        let row = WebSession { session_id: sid.clone(), user_id, username };
        let ghost before = self.store_sessions();
        let ghost rowv = row@;
        self.web_sessions.push(row);
        proof {
            assert(self.store_sessions() =~= before.push(rowv));
            assert forall|k: Seq<char>|
                #[trigger] session_cache_of(self.web_sessions_cache).contains_key(k)
                    implies spec_find_session(self.store_sessions(), k) == Some(
                session_cache_of(self.web_sessions_cache)[k],
            ) by {
                lemma_first_match_snoc(before, session_id_pred(k), rowv);
            }
        }
        Ok(sid)
    }

    /// Closes a dashboard session: the row leaves the table and the
    /// session cache together.
    pub fn remove_web_session(&mut self, session_id: &str) -> (r: Result<(), DatabaseError>)
        requires
            old(self).wf(),
        ensures
            final(self).wf(),
            same_outbox(*old(self), *final(self)),
            final(self).store_users() == old(self).store_users(),
            final(self).next_user_id == old(self).next_user_id,
            final(self).store_channels() == old(self).store_channels(),
            final(self).next_channel_id == old(self).next_channel_id,
            final(self).store_commands() == old(self).store_commands(),
            final(self).store_filters() == old(self).store_filters(),
            final(self).store_user_data() == old(self).store_user_data(),
            final(self).store_auth() == old(self).store_auth(),
            final(self).store_prefixes() == old(self).store_prefixes(),
            r == Ok::<(), DatabaseError>(()),
            final(self).store_sessions() == spec_remove_matching(
                old(self).store_sessions(),
                session_id_pred(session_id@),
            ),
            session_cache_of(final(self).web_sessions_cache) == session_cache_of(
                old(self).web_sessions_cache,
            ).remove(session_id@),
    {
        let sid = String::from_str(session_id);
        let mut out: Vec<WebSession> = Vec::new();
        let n = self.web_sessions.len();
        proof {
            assert(self.store_sessions().take(0) =~= Seq::<WebSessionV>::empty());
            assert(out.deep_view() =~= spec_remove_matching(
                self.store_sessions().take(0),
                session_id_pred(sid@),
            ));
        }
        for i in 0..n
            invariant
                n == self.web_sessions@.len(),
                *self == *old(self),
                sid@ == session_id@,
                out.deep_view() == spec_remove_matching(
                    self.store_sessions().take(i as int),
                    session_id_pred(sid@),
                ),
        {
            let ghost prev = out.deep_view();
            if !self.web_sessions[i].session_id.eq(&sid) {
                out.push(self.web_sessions[i].duplicate());
            }
            proof {
                let dv = self.store_sessions();
                assert(dv.take(i + 1).drop_last() =~= dv.take(i as int));
                assert(dv.take(i + 1).last() == dv[i as int]);
                if !(session_id_pred(sid@)(dv[i as int])) {
                    assert(out.deep_view() =~= prev.push(dv[i as int]));
                }
            }
        }
        proof {
            assert(self.store_sessions().take(n as int) =~= self.store_sessions());
        }
        self.web_sessions = out;
        session_cache_remove(&mut self.web_sessions_cache, session_id);
        proof {
            assert forall|k: Seq<char>|
                #[trigger] session_cache_of(self.web_sessions_cache).contains_key(k)
                    implies spec_find_session(self.store_sessions(), k) == Some(
                session_cache_of(self.web_sessions_cache)[k],
            ) by {
                assert(k != session_id@);
                assert(forall|x: WebSessionV|
                    #[trigger] session_id_pred(k)(x) ==> !session_id_pred(session_id@)(x));
                lemma_first_match_remove_matching(
                    old(self).store_sessions(),
                    session_id_pred(session_id@),
                    session_id_pred(k),
                );
            }
        }
        Ok(())
    }

    /// The configured command prefix of a channel: the cache answers
    /// first, with absence cached as well.
    pub fn get_prefix(&mut self, channel_id: u64) -> (r: Result<Option<String>, DatabaseError>)
        requires
            old(self).wf(),
        ensures
            final(self).wf(),
            same_store(*old(self), *final(self)),
            same_outbox(*old(self), *final(self)),
            r matches Ok(o) && o.deep_view() == spec_find_prefix(
                old(self).store_prefixes(),
                channel_id,
            ),
    {
        match prefix_cache_get(&self.prefixes_cache, channel_id) {
            Some(p) => Ok(p),
            None => {
                let value: Option<String> = match find_prefix_index(&self.prefixes, channel_id) {
                    Some(i) => Some(self.prefixes[i].prefix.clone()),
                    None => None,
                };
                let cached = clone_opt(&value);
                prefix_cache_insert(&mut self.prefixes_cache, channel_id, cached);
                Ok(value)
            },
        }
    }

    /// The periodic sweep's body: drops the user, identifier and session
    /// caches whole, so every later lookup starts from the store again.
    pub fn clear_caches(&mut self)
        requires
            old(self).wf(),
        ensures
            final(self).wf(),
            same_store(*old(self), *final(self)),
            same_outbox(*old(self), *final(self)),
            user_cache_of(final(self).users_cache) == crate::cache::user_cache_empty(),
            ident_cache_of(final(self).user_identifiers_cache)
                == crate::cache::ident_cache_empty(),
            session_cache_of(final(self).web_sessions_cache)
                == crate::cache::session_cache_empty(),
            prefix_cache_of(final(self).prefixes_cache) == prefix_cache_of(
                old(self).prefixes_cache,
            ),
            channel_cache_of(final(self).channels_cache) == channel_cache_of(
                old(self).channels_cache,
            ),
    {
        user_cache_clear(&mut self.users_cache);
        ident_cache_clear(&mut self.user_identifiers_cache);
        session_cache_clear(&mut self.web_sessions_cache);
    }

    /// Hands out everything that still has to go to the message bus and
    /// leaves the outbox empty; the connector side publishes it.
    pub fn take_outbox(&mut self) -> (r: Vec<BusMessage>)
        requires
            old(self).wf(),
        ensures
            final(self).wf(),
            same_store(*old(self), *final(self)),
            r.deep_view() == old(self).outbox.deep_view(),
            final(self).outbox.deep_view() == Seq::<crate::bus::BusMessageV>::empty(),
    {
        let mut out: Vec<BusMessage> = Vec::new();
        core::mem::swap(&mut out, &mut self.outbox);
        proof {
            assert(final(self).outbox.deep_view() =~= Seq::<crate::bus::BusMessageV>::empty());
        }
        out
    }
}

/// The characters a session id is drawn from: decimal digits and both
/// letter cases, nothing else.
pub open spec fn spec_session_id_char(c: char) -> bool {
    ||| '0' <= c && c <= '9'
    ||| 'a' <= c && c <= 'z'
    ||| 'A' <= c && c <= 'Z'
}

/// Relies on passwords::PasswordGenerator::generate_one, configured for
/// 24 characters with digits and both letter cases under strict rules:
/// every generated id has exactly 24 characters, each drawn from the
/// digit and letter pools alone.
#[verifier::external_body]
fn generate_session_id() -> (r: String)
    ensures
        r@.len() == 24,
        forall|i: int| 0 <= i < r@.len() ==> spec_session_id_char(#[trigger] r@[i]),
{
    passwords::PasswordGenerator {
        length: 24,
        numbers: true,
        lowercase_letters: true,
        uppercase_letters: true,
        symbols: false,
        spaces: false,
        exclude_similar_characters: false,
        strict: true,
    }.generate_one().unwrap()
}

/// Whether (user, name) pairs occur at most once among user data.
pub open spec fn spec_unique_user_data(rows: Seq<UserDataV>) -> bool {
    forall|i: int, j: int|
        0 <= i < j < rows.len() ==> !(rows[i].user_id == rows[j].user_id && rows[i].name
            == rows[j].name)
}

/// Whether the winner of a merge has no identity on the platform of the
/// given identifier, so the merge can take the loser's.
pub open spec fn spec_ident_slot_empty(u: UserV, ident: UserIdentifierV) -> bool {
    match ident {
        UserIdentifierV::TwitchID(_) => u.twitch_id is None,
        UserIdentifierV::DiscordID(_) => u.discord_id is None,
        UserIdentifierV::TelegramId(_) => u.telegram_id is None,
        UserIdentifierV::IrcName(_) => u.irc_name is None,
        UserIdentifierV::IpAddr(_) => u.local_addr is None,
    }
}

/// Law: a stored command can never be created under a built-in name;
/// the attempt fails as an invalid value and stores nothing.
pub proof fn lemma_builtin_creation_rejected(
    cmds: Seq<CommandV>,
    cmds2: Seq<CommandV>,
    c: CommandV,
    r: Result<(), DatabaseErrorV>,
)
    requires
        spec_is_builtin_name(c.name),
        spec_add_command_outcome(cmds, cmds2, c, r),
    ensures
        r == Err::<(), DatabaseErrorV>(DatabaseErrorV::InvalidValue),
        cmds2 == cmds,
{
}

/// An upsert makes its own key hold its value.
pub proof fn lemma_upsert_find_same(rows: Seq<UserDataV>, row: UserDataV)
    ensures
        spec_find_user_data(spec_upsert_user_data(rows, row), row.user_id, row.name) == Some(
            row.value,
        ),
    decreases rows.len(),
{
    if rows.len() == 0 {
        assert(spec_upsert_user_data(rows, row)[0] == row);
    } else if rows[0].user_id == row.user_id && rows[0].name == row.name {
        assert(spec_upsert_user_data(rows, row)[0] == row);
    } else {
        assert(forall|i: int|
            0 <= i < rows.drop_first().len() ==> rows.drop_first()[i] == rows[i + 1]);
        lemma_upsert_find_same(rows.drop_first(), row);
        assert(spec_upsert_user_data(rows, row)[0] == rows[0]);
        assert(spec_upsert_user_data(rows, row).drop_first() =~= spec_upsert_user_data(
            rows.drop_first(),
            row,
        ));
    }
}

/// An upsert leaves every other key alone.
pub proof fn lemma_upsert_find_other(rows: Seq<UserDataV>, row: UserDataV, uid: u64, name: Seq<
    char,
>)
    requires
        !(uid == row.user_id && name == row.name),
    ensures
        spec_find_user_data(spec_upsert_user_data(rows, row), uid, name) == spec_find_user_data(
            rows,
            uid,
            name,
        ),
    decreases rows.len(),
{
    let p = user_data_key_pred(uid, name);
    let up = spec_upsert_user_data(rows, row);
    if rows.len() == 0 {
        assert(up =~= seq![row]);
        assert(up[0] == row && !p(up[0]));
        assert(up.drop_first() =~= Seq::<UserDataV>::empty());
        assert(spec_first_match(up, p) is None);
        assert(spec_first_match(rows, p) is None);
    } else if rows[0].user_id == row.user_id && rows[0].name == row.name {
        assert(up[0] == row && !p(up[0]));
        assert(!p(rows[0]));
        assert(up.drop_first() =~= rows.drop_first());
        assert(spec_first_match(up, p) == spec_first_match(rows.drop_first(), p));
        assert(spec_first_match(rows, p) == spec_first_match(rows.drop_first(), p));
    } else {
        assert(forall|i: int|
            0 <= i < rows.drop_first().len() ==> rows.drop_first()[i] == rows[i + 1]);
        lemma_upsert_find_other(rows.drop_first(), row, uid, name);
        assert(up[0] == rows[0]);
        assert(up.drop_first() =~= spec_upsert_user_data(rows.drop_first(), row));
        if p(rows[0]) {
            assert(spec_first_match(up, p) == Some(rows[0]));
            assert(spec_first_match(rows, p) == Some(rows[0]));
        } else {
            assert(spec_first_match(up, p) == spec_first_match(up.drop_first(), p));
            assert(spec_first_match(rows, p) == spec_first_match(rows.drop_first(), p));
        }
    }
}

/// The last target row of a given name, in processing order.
pub open spec fn spec_last_with_name(targets: Seq<UserDataV>, name: Seq<char>) -> Option<
    UserDataV,
>
    decreases targets.len(),
{
    if targets.len() == 0 {
        None
    } else if targets.last().name == name {
        Some(targets.last())
    } else {
        spec_last_with_name(targets.drop_last(), name)
    }
}

/// What the reparenting fold leaves under the winner's key: the last
/// moved row of that name wins, and a name the loser never used keeps
/// whatever the winner already had.
pub proof fn lemma_apply_reparent_find(
    rows: Seq<UserDataV>,
    targets: Seq<UserDataV>,
    to: u64,
    name: Seq<char>,
)
    ensures
        spec_find_user_data(spec_apply_reparent(rows, targets, to), to, name) == (
        match spec_last_with_name(targets, name) {
            Some(t) => Some(t.value),
            None => spec_find_user_data(rows, to, name),
        }),
    decreases targets.len(),
{
    if targets.len() > 0 {
        lemma_apply_reparent_find(rows, targets.drop_last(), to, name);
        let inner = spec_apply_reparent(rows, targets.drop_last(), to);
        if targets.last().name == name {
            lemma_upsert_find_same(inner, spec_retarget(targets.last(), to));
        } else {
            lemma_upsert_find_other(inner, spec_retarget(targets.last(), to), to, name);
        }
    }
}

/// With unique keys, the loser's rows carry each name at most once, so
/// the first and the last occurrence agree.
pub proof fn lemma_rows_of_name(rows: Seq<UserDataV>, from: u64, name: Seq<char>)
    requires
        spec_unique_user_data(rows),
    ensures
        match spec_find_user_data(rows, from, name) {
            Some(v) => spec_last_with_name(spec_user_data_rows_of(rows, from), name) matches
                Some(t) && t.value == v && t.user_id == from && t.name == name,
            None => spec_last_with_name(spec_user_data_rows_of(rows, from), name) is None,
        },
    decreases rows.len(),
{
    if rows.len() > 0 {
        let init = rows.drop_last();
        let lastr = rows.last();
        assert(spec_unique_user_data(init));
        lemma_rows_of_name(init, from, name);
        assert(init.push(lastr) =~= rows);
        lemma_first_match_snoc(init, user_data_key_pred(from, name), lastr);
        if lastr.user_id == from && lastr.name == name {
            assert(spec_user_data_rows_of(rows, from).last() == lastr);
            if spec_find_user_data(init, from, name) is Some {
                lemma_first_match_member(init, user_data_key_pred(from, name));
                let i0 = choose|i: int|
                    0 <= i < init.len() && init[i] == spec_first_match(
                        init,
                        user_data_key_pred(from, name),
                    )->Some_0 && user_data_key_pred(from, name)(init[i]);
                assert(rows[i0] == init[i0]);
                assert(rows[rows.len() - 1] == lastr);
                assert(false);
            }
        } else {
            if lastr.user_id == from {
                assert(spec_user_data_rows_of(rows, from).drop_last() =~= spec_user_data_rows_of(
                    init,
                    from,
                ));
                assert(spec_user_data_rows_of(rows, from).last() == lastr);
            } else {
                assert(spec_user_data_rows_of(rows, from) == spec_user_data_rows_of(init, from));
            }
        }
    }
}

/// Law: after a merge the winner owns the loser's key/value data: every
/// name the loser stored now answers under the winner's id with the
/// loser's value, and a name the loser never used keeps the winner's own.
pub proof fn lemma_merge_moves_user_data(
    rows: Seq<UserDataV>,
    from: u64,
    to: u64,
    name: Seq<char>,
)
    requires
        spec_unique_user_data(rows),
    ensures
        spec_find_user_data(spec_reparent_user_data(rows, from, to), to, name) == (
        match spec_find_user_data(rows, from, name) {
            Some(v) => Some(v),
            None => spec_find_user_data(rows, to, name),
        }),
{
    lemma_apply_reparent_find(rows, spec_user_data_rows_of(rows, from), to, name);
    lemma_rows_of_name(rows, from, name);
}

/// Law: after a merge the losing record is gone: its id resolves to
/// nothing, while the identity it carried resolves to the merged record,
/// which owns the identities of both. The `keep`/`drop_u` rows are the
/// two records as the store held them; `ident` is the loser's identity,
/// on a platform where the winner had none; and the store resolved that
/// identity only to the loser, as the one-user-per-identifier invariant
/// demands.
pub proof fn lemma_merge_resolves_loser_identity(
    users: Seq<UserV>,
    keep: UserV,
    drop_u: UserV,
    ident: UserIdentifierV,
)
    requires
        spec_unique_user_ids(users),
        spec_find_user_by_id(users, keep.id) == Some(keep),
        spec_find_user_by_id(users, drop_u.id) == Some(drop_u),
        keep.id != drop_u.id,
        spec_find_user_by_ident(users, ident) == Some(drop_u),
        forall|i: int|
            0 <= i < users.len() && spec_user_has_ident(#[trigger] users[i], ident)
                ==> users[i] == drop_u,
        spec_ident_slot_empty(keep, ident),
    ensures
        spec_user_has_ident(spec_merge_users(keep, drop_u), ident),
        spec_find_user_by_id(
            spec_update_user(spec_remove_user(users, drop_u.id), spec_merge_users(keep, drop_u)),
            drop_u.id,
        ) is None,
        spec_find_user_by_ident(
            spec_update_user(spec_remove_user(users, drop_u.id), spec_merge_users(keep, drop_u)),
            ident,
        ) == Some(spec_merge_users(keep, drop_u)),
{
    let merged = spec_merge_users(keep, drop_u);
    let removed = spec_remove_user(users, drop_u.id);
    let fin = spec_update_user(removed, merged);
    assert(spec_user_has_ident(drop_u, ident)) by {
        lemma_find_user_by_ident_member_has(users, ident);
    }
    assert(spec_user_has_ident(merged, ident));
    lemma_remove_user_gone(users, drop_u.id);
    assert(merged.id == keep.id);
    assert(forall|i: int| 0 <= i < fin.len() ==> fin[i].id == removed[i].id);
    lemma_find_user_by_id_absent(fin, drop_u.id);
    // the winner's position carries the merged record afterwards
    lemma_find_user_by_id_remove(users, drop_u.id, keep.id);
    lemma_find_user_by_id_member(removed, keep.id);
    let k = choose|i: int|
        0 <= i < removed.len() && removed[i] == spec_find_user_by_id(removed, keep.id)->Some_0
            && removed[i].id == keep.id;
    assert(fin[k] == merged);
    lemma_remove_user_member(users, drop_u.id);
    assert forall|j: int| 0 <= j < k implies !spec_user_has_ident(fin[j], ident) by {
        if removed[j].id == keep.id {
            lemma_remove_user_unique(users, drop_u.id);
            assert(false);
        }
        assert(fin[j] == removed[j]);
        if spec_user_has_ident(removed[j], ident) {
            let w = choose|w: int| 0 <= w < users.len() && users[w] == removed[j];
            assert(users[w] == drop_u);
            assert(removed[j].id != drop_u.id);
            assert(false);
        }
    }
    lemma_find_user_by_ident_at(fin, ident, k);
}

/// A resolved identity is carried by the row it resolves to.
pub proof fn lemma_find_user_by_ident_member_has(users: Seq<UserV>, ident: UserIdentifierV)
    requires
        spec_find_user_by_ident(users, ident) is Some,
    ensures
        spec_user_has_ident(spec_find_user_by_ident(users, ident)->Some_0, ident),
    decreases users.len(),
{
    if users.len() == 0 {
    } else if spec_user_has_ident(users[0], ident) {
    } else {
        lemma_find_user_by_ident_member_has(users.drop_first(), ident);
    }
}

/// The platforms that occur among the channels, first appearance first.
pub open spec fn spec_platform_list(chs: Seq<ChannelV>) -> Seq<Seq<char>>
    decreases chs.len(),
{
    if chs.len() == 0 {
        Seq::empty()
    } else {
        let rest = spec_platform_list(chs.drop_last());
        if rest.contains(chs.last().platform) {
            rest
        } else {
            rest.push(chs.last().platform)
        }
    }
}

/// The channel strings of one platform, in table order.
pub open spec fn spec_platform_channels(chs: Seq<ChannelV>, p: Seq<char>) -> Seq<Seq<char>>
    decreases chs.len(),
{
    if chs.len() == 0 {
        Seq::empty()
    } else {
        let rest = spec_platform_channels(chs.drop_last(), p);
        if chs.last().platform == p {
            rest.push(chs.last().channel)
        } else {
            rest
        }
    }
}

/// The bus traffic that brings one platform's known-channel set up to
/// date: the set is cleared, refilled, and the change announced.
pub open spec fn spec_platform_sync_messages(chs: Seq<ChannelV>, p: Seq<char>) -> Seq<
    crate::bus::BusMessageV,
> {
    seq![
        crate::bus::BusMessageV::SetClear { key: crate::bus::spec_channels_key(p) },
        crate::bus::BusMessageV::SetAdd {
            key: crate::bus::spec_channels_key(p),
            members: spec_platform_channels(chs, p),
        },
        crate::bus::BusMessageV::Notify {
            topic: crate::bus::spec_update_topic(p),
            text: "Channel list updated"@,
        },
    ]
}

/// The whole synchronisation, platform by platform.
pub open spec fn spec_sync_messages(chs: Seq<ChannelV>, plats: Seq<Seq<char>>) -> Seq<
    crate::bus::BusMessageV,
>
    decreases plats.len(),
{
    if plats.len() == 0 {
        Seq::empty()
    } else {
        spec_sync_messages(chs, plats.drop_last()) + spec_platform_sync_messages(
            chs,
            plats.last(),
        )
    }
}

/// Whether a string list contains a string, by contents.
fn contains_string(v: &Vec<String>, s: &String) -> (r: bool)
    ensures
        r == v.deep_view().contains(s@),
{
    let n = v.len();
    for i in 0..n
        invariant
            n == v@.len(),
            forall|j: int| 0 <= j < i ==> v.deep_view()[j] != s@,
    {
        if v[i].eq(s) {
            proof {
                assert(v.deep_view()[i as int] == s@);
            }
            return true;
        }
    }
    proof {
        assert(!v.deep_view().contains(s@));
    }
    false
}

/// Collects the platforms of a channel table, first appearance first.
fn build_platform_list(channels: &Vec<Channel>) -> (r: Vec<String>)
    ensures
        r.deep_view() == spec_platform_list(channels.deep_view()),
{
    let mut out: Vec<String> = Vec::new();
    let n = channels.len();
    proof {
        assert(channels.deep_view().take(0) =~= Seq::<ChannelV>::empty());
        assert(out.deep_view() =~= spec_platform_list(channels.deep_view().take(0)));
    }
    for i in 0..n
        invariant
            n == channels@.len(),
            out.deep_view() == spec_platform_list(channels.deep_view().take(i as int)),
    {
        let ghost prev = out.deep_view();
        if !contains_string(&out, &channels[i].platform) {
            out.push(channels[i].platform.clone());
        }
        proof {
            let dv = channels.deep_view();
            assert(dv.take(i + 1).drop_last() =~= dv.take(i as int));
            assert(dv.take(i + 1).last() == dv[i as int]);
            if !prev.contains(dv[i as int].platform) {
                assert(out.deep_view() =~= prev.push(dv[i as int].platform));
            }
        }
    }
    proof {
        assert(channels.deep_view().take(n as int) =~= channels.deep_view());
    }
    out
}

/// Collects one platform's channel strings, in table order.
fn build_platform_channels(channels: &Vec<Channel>, p: &String) -> (r: Vec<String>)
    ensures
        r.deep_view() == spec_platform_channels(channels.deep_view(), p@),
{
    let mut out: Vec<String> = Vec::new();
    let n = channels.len();
    proof {
        assert(channels.deep_view().take(0) =~= Seq::<ChannelV>::empty());
        assert(out.deep_view() =~= spec_platform_channels(channels.deep_view().take(0), p@));
    }
    for i in 0..n
        invariant
            n == channels@.len(),
            out.deep_view() == spec_platform_channels(channels.deep_view().take(i as int), p@),
    {
        let ghost prev = out.deep_view();
        if channels[i].platform.eq(p) {
            out.push(channels[i].channel.clone());
        }
        proof {
            let dv = channels.deep_view();
            assert(dv.take(i + 1).drop_last() =~= dv.take(i as int));
            assert(dv.take(i + 1).last() == dv[i as int]);
            if dv[i as int].platform == p@ {
                assert(out.deep_view() =~= prev.push(dv[i as int].channel));
            }
        }
    }
    proof {
        assert(channels.deep_view().take(n as int) =~= channels.deep_view());
    }
    out
}

/// Builds the bus traffic that synchronises every platform's
/// known-channel set.
fn build_sync_messages(channels: &Vec<Channel>) -> (r: Vec<BusMessage>)
    ensures
        r.deep_view() == spec_sync_messages(
            channels.deep_view(),
            spec_platform_list(channels.deep_view()),
        ),
{
    let plats = build_platform_list(channels);
    let mut out: Vec<BusMessage> = Vec::new();
    let tn = plats.len();
    proof {
        assert(plats.deep_view().take(0) =~= Seq::<Seq<char>>::empty());
        assert(out.deep_view() =~= spec_sync_messages(
            channels.deep_view(),
            plats.deep_view().take(0),
        ));
    }
    for t in 0..tn
        invariant
            tn == plats@.len(),
            plats.deep_view() == spec_platform_list(channels.deep_view()),
            out.deep_view() == spec_sync_messages(
                channels.deep_view(),
                plats.deep_view().take(t as int),
            ),
    {
        let ghost prev = out.deep_view();
        let p = &plats[t];
        let key = crate::bus::channels_key(p.as_str());
        let members = build_platform_channels(channels, p);
        let key2 = crate::bus::channels_key(p.as_str());
        let topic = crate::bus::update_topic(p.as_str());
        out.push(BusMessage::SetClear { key });
        out.push(BusMessage::SetAdd { key: key2, members });
        out.push(BusMessage::Notify { topic, text: String::from_str("Channel list updated") });
        proof {
            let pdv = plats.deep_view();
            assert(pdv.take(t + 1).drop_last() =~= pdv.take(t as int));
            assert(pdv.take(t + 1).last() == pdv[t as int]);
            assert(out.deep_view() =~= prev + spec_platform_sync_messages(
                channels.deep_view(),
                pdv[t as int],
            ));
        }
    }
    proof {
        assert(plats.deep_view().take(tn as int) =~= plats.deep_view());
    }
    out
}

impl Database {
    /// Rebuilds every platform's known-channel set on the bus from the
    /// channel table and announces the change, so idle connectors can
    /// join newly registered channels without a restart.
    pub fn load_channels_into_redis(&mut self) -> (r: Result<(), DatabaseError>)
        requires
            old(self).wf(),
        ensures
            final(self).wf(),
            same_store(*old(self), *final(self)),
            r == Ok::<(), DatabaseError>(()),
            final(self).outbox.deep_view() == old(self).outbox.deep_view() + spec_sync_messages(
                old(self).store_channels(),
                spec_platform_list(old(self).store_channels()),
            ),
    {
        let mut msgs = build_sync_messages(&self.channels);
        let ghost before = self.outbox.deep_view();
        let ghost msgsdv = msgs.deep_view();
        self.outbox.append(&mut msgs);
        proof {
            assert(self.outbox.deep_view() =~= before + msgsdv);
        }
        Ok(())
    }
}

impl Database {
    /// Resolves the configured administrator, handed over as a textual
    /// identifier; nothing configured means no administrator, and an
    /// unreadable value is invalid.
    pub fn get_admin_user(&mut self, admin: Option<&str>) -> (r: Result<
        Option<User>,
        DatabaseError,
    >)
        requires
            old(self).wf(),
        ensures
            final(self).wf(),
            same_store(*old(self), *final(self)),
            same_outbox(*old(self), *final(self)),
            match admin {
                None => r matches Ok(o) && o is None,
                Some(a) => match crate::platform::spec_parse_user_identifier(a@) {
                    Err(_) => r == Err::<Option<User>, DatabaseError>(DatabaseError::InvalidValue),
                    Ok(idv) => r matches Ok(o) && o.deep_view() == spec_find_user_by_ident(
                        old(self).store_users(),
                        idv,
                    ),
                },
            },
    {
        match admin {
            None => Ok(None),
            Some(a) => match UserIdentifier::from_string(a) {
                Err(_) => Err(DatabaseError::InvalidValue),
                Ok(ident) => self.get_user(&ident),
            },
        }
    }
}

} // verus!
