use vstd::prelude::*;

use crate::models::{Channel, ChannelV, User, UserV, WebSession, WebSessionV};
use crate::platform::{ChannelIdentifier, ChannelIdentifierV, UserIdentifier, UserIdentifierV};

verus! {

// The caches are shared, lock-striped maps of the dashmap crate; each one
// is held through the declaration below and spoken of through a contents
// function. Every wrapper relies on the key's `Eq` and `Hash` agreeing
// with equality of views, which holds for the integer, string and
// identifier keys used here.
#[verifier::external_type_specification]
#[verifier::external_body]
#[verifier::reject_recursive_types(K)]
#[verifier::reject_recursive_types(V)]
#[verifier::reject_recursive_types(S)]
pub struct ExDashMap<K, V, S>(dashmap::DashMap<K, V, S>);

/// What the user cache holds, keyed by user id.
pub uninterp spec fn user_cache_of(m: dashmap::DashMap<u64, User>) -> Map<u64, UserV>;

pub open spec fn user_cache_empty() -> Map<u64, UserV> {
    Map::empty()
}

/// Relies on dashmap::DashMap::new: the new map is empty.
#[verifier::external_body]
pub fn user_cache_new() -> (m: dashmap::DashMap<u64, User>)
    ensures
        user_cache_of(m) == user_cache_empty(),
{
    dashmap::DashMap::new()
}

/// Relies on dashmap::DashMap::get: the entry under the key, if any.
#[verifier::external_body]
pub fn user_cache_get(m: &dashmap::DashMap<u64, User>, k: u64) -> (r: Option<User>)
    ensures
        r matches Some(u) ==> user_cache_of(*m).contains_key(k) && u@ == user_cache_of(*m)[k],
        r is None ==> !user_cache_of(*m).contains_key(k),
{
    m.get(&k).map(|e| e.value().clone())
}

/// Relies on dashmap::DashMap::insert: the key maps to the value afterwards.
#[verifier::external_body]
pub fn user_cache_insert(m: &mut dashmap::DashMap<u64, User>, k: u64, v: User)
    ensures
        user_cache_of(*final(m)) == user_cache_of(*old(m)).insert(k, v@),
{
    m.insert(k, v);
}

/// Relies on dashmap::DashMap::remove: the key maps to nothing afterwards.
#[verifier::external_body]
pub fn user_cache_remove(m: &mut dashmap::DashMap<u64, User>, k: u64)
    ensures
        user_cache_of(*final(m)) == user_cache_of(*old(m)).remove(k),
{
    m.remove(&k);
}

/// Relies on dashmap::DashMap::clear: removes every entry.
#[verifier::external_body]
pub fn user_cache_clear(m: &mut dashmap::DashMap<u64, User>)
    ensures
        user_cache_of(*final(m)) == user_cache_empty(),
{
    m.clear();
}

/// What the identifier cache holds: the user id each identity resolves to.
pub uninterp spec fn ident_cache_of(m: dashmap::DashMap<UserIdentifier, u64>) -> Map<
    UserIdentifierV,
    u64,
>;

pub open spec fn ident_cache_empty() -> Map<UserIdentifierV, u64> {
    Map::empty()
}

/// Relies on dashmap::DashMap::new: the new map is empty.
#[verifier::external_body]
pub fn ident_cache_new() -> (m: dashmap::DashMap<UserIdentifier, u64>)
    ensures
        ident_cache_of(m) == ident_cache_empty(),
{
    dashmap::DashMap::new()
}

/// Relies on dashmap::DashMap::get: the entry under the key, if any.
#[verifier::external_body]
pub fn ident_cache_get(m: &dashmap::DashMap<UserIdentifier, u64>, k: &UserIdentifier) -> (r:
    Option<u64>)
    ensures
        r matches Some(id) ==> ident_cache_of(*m).contains_key(k@) && id == ident_cache_of(
            *m,
        )[k@],
        r is None ==> !ident_cache_of(*m).contains_key(k@),
{
    m.get(k).map(|e| *e.value())
}

/// Relies on dashmap::DashMap::insert: the key maps to the value afterwards.
#[verifier::external_body]
pub fn ident_cache_insert(m: &mut dashmap::DashMap<UserIdentifier, u64>, k: UserIdentifier, v: u64)
    ensures
        ident_cache_of(*final(m)) == ident_cache_of(*old(m)).insert(k@, v),
{
    m.insert(k, v);
}

/// Relies on dashmap::DashMap::clear: removes every entry.
#[verifier::external_body]
pub fn ident_cache_clear(m: &mut dashmap::DashMap<UserIdentifier, u64>)
    ensures
        ident_cache_of(*final(m)) == ident_cache_empty(),
{
    m.clear();
}

/// What the session cache holds, keyed by session id.
pub uninterp spec fn session_cache_of(m: dashmap::DashMap<String, WebSession>) -> Map<
    Seq<char>,
    WebSessionV,
>;

pub open spec fn session_cache_empty() -> Map<Seq<char>, WebSessionV> {
    Map::empty()
}

/// Relies on dashmap::DashMap::new: the new map is empty.
#[verifier::external_body]
pub fn session_cache_new() -> (m: dashmap::DashMap<String, WebSession>)
    ensures
        session_cache_of(m) == session_cache_empty(),
{
    dashmap::DashMap::new()
}

/// Relies on dashmap::DashMap::get: the entry under the key, if any.
#[verifier::external_body]
pub fn session_cache_get(m: &dashmap::DashMap<String, WebSession>, k: &str) -> (r: Option<
    WebSession,
>)
    ensures
        r matches Some(s) ==> session_cache_of(*m).contains_key(k@) && s@ == session_cache_of(
            *m,
        )[k@],
        r is None ==> !session_cache_of(*m).contains_key(k@),
{
    m.get(k).map(|e| e.value().clone())
}

/// Relies on dashmap::DashMap::insert: the key maps to the value afterwards.
#[verifier::external_body]
pub fn session_cache_insert(m: &mut dashmap::DashMap<String, WebSession>, k: String, v: WebSession)
    ensures
        session_cache_of(*final(m)) == session_cache_of(*old(m)).insert(k@, v@),
{
    m.insert(k, v);
}

/// Relies on dashmap::DashMap::remove: the key maps to nothing afterwards.
#[verifier::external_body]
pub fn session_cache_remove(m: &mut dashmap::DashMap<String, WebSession>, k: &str)
    ensures
        session_cache_of(*final(m)) == session_cache_of(*old(m)).remove(k@),
{
    m.remove(k);
}

/// Relies on dashmap::DashMap::clear: removes every entry.
#[verifier::external_body]
pub fn session_cache_clear(m: &mut dashmap::DashMap<String, WebSession>)
    ensures
        session_cache_of(*final(m)) == session_cache_empty(),
{
    m.clear();
}

/// What the prefix cache holds, keyed by channel id; `None` records that
/// a channel has no configured prefix.
pub uninterp spec fn prefix_cache_of(m: dashmap::DashMap<u64, Option<String>>) -> Map<
    u64,
    Option<Seq<char>>,
>;

pub open spec fn prefix_cache_empty() -> Map<u64, Option<Seq<char>>> {
    Map::empty()
}

/// Relies on dashmap::DashMap::new: the new map is empty.
#[verifier::external_body]
pub fn prefix_cache_new() -> (m: dashmap::DashMap<u64, Option<String>>)
    ensures
        prefix_cache_of(m) == prefix_cache_empty(),
{
    dashmap::DashMap::new()
}

/// Relies on dashmap::DashMap::get: the entry under the key, if any.
#[verifier::external_body]
pub fn prefix_cache_get(m: &dashmap::DashMap<u64, Option<String>>, k: u64) -> (r: Option<
    Option<String>,
>)
    ensures
        r matches Some(p) ==> prefix_cache_of(*m).contains_key(k) && p.deep_view()
            == prefix_cache_of(*m)[k],
        r is None ==> !prefix_cache_of(*m).contains_key(k),
{
    m.get(&k).map(|e| e.value().clone())
}

/// Relies on dashmap::DashMap::insert: the key maps to the value afterwards.
#[verifier::external_body]
pub fn prefix_cache_insert(m: &mut dashmap::DashMap<u64, Option<String>>, k: u64, v: Option<
    String,
>)
    ensures
        prefix_cache_of(*final(m)) == prefix_cache_of(*old(m)).insert(k, v.deep_view()),
{
    m.insert(k, v);
}

/// What the channel cache holds, keyed by channel identifier.
pub uninterp spec fn channel_cache_of(m: dashmap::DashMap<ChannelIdentifier, Channel>) -> Map<
    ChannelIdentifierV,
    ChannelV,
>;

pub open spec fn channel_cache_empty() -> Map<ChannelIdentifierV, ChannelV> {
    Map::empty()
}

/// Relies on dashmap::DashMap::new: the new map is empty.
#[verifier::external_body]
pub fn channel_cache_new() -> (m: dashmap::DashMap<ChannelIdentifier, Channel>)
    ensures
        channel_cache_of(m) == channel_cache_empty(),
{
    dashmap::DashMap::new()
}

/// Relies on dashmap::DashMap::get: the entry under the key, if any.
#[verifier::external_body]
pub fn channel_cache_get(m: &dashmap::DashMap<ChannelIdentifier, Channel>, k: &ChannelIdentifier)
    -> (r: Option<Channel>)
    ensures
        r matches Some(c) ==> channel_cache_of(*m).contains_key(k@) && c@ == channel_cache_of(
            *m,
        )[k@],
        r is None ==> !channel_cache_of(*m).contains_key(k@),
{
    m.get(k).map(|e| e.value().clone())
}

/// Relies on dashmap::DashMap::insert: the key maps to the value afterwards.
#[verifier::external_body]
pub fn channel_cache_insert(
    m: &mut dashmap::DashMap<ChannelIdentifier, Channel>,
    k: ChannelIdentifier,
    v: Channel,
)
    ensures
        channel_cache_of(*final(m)) == channel_cache_of(*old(m)).insert(k@, v@),
{
    m.insert(k, v);
}

} // verus!
