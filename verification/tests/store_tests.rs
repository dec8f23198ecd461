use chatbot_core::bus::BusMessage;
use chatbot_core::database::Database;
use chatbot_core::models::{Filter, Prefix, UserData};
use chatbot_core::platform::{ChannelIdentifier, UserIdentifier};

fn chan() -> ChannelIdentifier {
    ChannelIdentifier::TwitchChannel(String::from("somechannel"))
}

#[test]
fn users_are_created_on_first_sight_and_found_afterwards() {
    let mut db = Database::new();
    let ident = UserIdentifier::TwitchID(String::from("100"));
    assert!(db.get_user(&ident).unwrap().is_none());
    let created = db.get_or_create_user(&ident).unwrap();
    assert_eq!(created.id, 1);
    assert_eq!(created.twitch_id.as_deref(), Some("100"));
    // the same identity resolves to the same record, cached or not
    let again = db.get_or_create_user(&ident).unwrap();
    assert_eq!(again.id, 1);
    let by_id = db.get_user_by_id(1).unwrap().unwrap();
    assert_eq!(by_id.twitch_id.as_deref(), Some("100"));
    // a different platform with the same payload is a different person
    let other = db
        .get_or_create_user(&UserIdentifier::IrcName(String::from("100")))
        .unwrap();
    assert_eq!(other.id, 2);
}

#[test]
fn telegram_identities_are_stored_as_decimal_strings() {
    let mut db = Database::new();
    let u = db.get_or_create_user(&UserIdentifier::TelegramId(987)).unwrap();
    assert_eq!(u.telegram_id.as_deref(), Some("987"));
    let found = db.get_user(&UserIdentifier::TelegramId(987)).unwrap().unwrap();
    assert_eq!(found.id, u.id);
}

#[test]
fn merge_unites_identities_data_and_cache() {
    let mut db = Database::new();
    let i1 = UserIdentifier::TwitchID(String::from("1"));
    let i2 = UserIdentifier::IrcName(String::from("bob"));
    let a = db.get_or_create_user(&i1).unwrap();
    let b = db.get_or_create_user(&i2).unwrap();
    db.set_lastfm_name(b.id, "bobmusic").unwrap();
    let b_id = b.id;

    let merged = db.merge_users(a, b);
    // the merged record owns both identities
    assert_eq!(merged.twitch_id.as_deref(), Some("1"));
    assert_eq!(merged.irc_name.as_deref(), Some("bob"));
    // the loser's data now answers under the winner's id
    assert_eq!(db.get_lastfm_name(merged.id).unwrap().as_deref(), Some("bobmusic"));
    // the losing record is gone
    assert!(db.get_user_by_id(b_id).unwrap().is_none());
    // the identifier cache agrees with the store after the merge:
    // looking the loser's identity up yields the merged record's id
    let via_cache_path = db.get_user(&i2).unwrap().unwrap();
    assert_eq!(via_cache_path.id, merged.id);
    let again = db.get_user(&i2).unwrap().unwrap();
    assert_eq!(again.id, merged.id);
}

#[test]
fn channels_are_created_lazily_and_announced_on_the_bus() {
    let mut db = Database::new();
    assert!(db.get_channel(&chan()).unwrap().is_none());
    let c = db.get_or_create_channel(&chan()).unwrap().unwrap();
    assert_eq!(c.id, 1);
    assert_eq!(c.platform, "twitch");
    assert_eq!(c.channel, "somechannel");
    // the second reference resolves to the same row
    let c2 = db.get_or_create_channel(&chan()).unwrap().unwrap();
    assert_eq!(c2.id, 1);
    // the creation queued the known-channels update and its announcement
    let out = db.take_outbox();
    assert_eq!(out.len(), 2);
    match &out[0] {
        BusMessage::SetAdd { key, members } => {
            assert_eq!(key, "channels:twitch");
            assert_eq!(members, &vec![String::from("somechannel")]);
        }
        other => panic!("expected a set update, got {:?}", other),
    }
    match &out[1] {
        BusMessage::Notify { topic, text } => {
            assert_eq!(topic, "channels.update.twitch");
            assert_eq!(text, "Channel list updated");
        }
        other => panic!("expected the announcement, got {:?}", other),
    }
    assert!(db.take_outbox().is_empty());
    // the anonymous channel resolves to nothing
    assert!(db.get_or_create_channel(&ChannelIdentifier::Anonymous).unwrap().is_none());
}

#[test]
fn channel_list_sync_rebuilds_every_platform_set() {
    let mut db = Database::new();
    db.get_or_create_channel(&ChannelIdentifier::TwitchChannel(String::from("a"))).unwrap();
    db.get_or_create_channel(&ChannelIdentifier::IrcChannel(String::from("b"))).unwrap();
    db.get_or_create_channel(&ChannelIdentifier::TwitchChannel(String::from("c"))).unwrap();
    db.take_outbox();
    db.load_channels_into_redis().unwrap();
    let out = db.take_outbox();
    // per platform: clear, refill, announce — twitch first, irc second
    assert_eq!(out.len(), 6);
    match &out[1] {
        BusMessage::SetAdd { key, members } => {
            assert_eq!(key, "channels:twitch");
            assert_eq!(members, &vec![String::from("a"), String::from("c")]);
        }
        other => panic!("expected the twitch refill, got {:?}", other),
    }
    match &out[5] {
        BusMessage::Notify { topic, text } => {
            assert_eq!(topic, "channels.update.irc");
            assert_eq!(text, "Channel list updated");
        }
        other => panic!("expected the irc announcement, got {:?}", other),
    }
}

#[test]
fn web_sessions_round_trip_and_leave_on_removal() {
    let mut db = Database::new();
    let sid = db.create_web_session(7, String::from("alice")).unwrap();
    assert_eq!(sid.chars().count(), 24);
    assert!(sid.chars().all(|c| c.is_ascii_alphanumeric()));
    let ws = db.get_web_session(&sid).unwrap().unwrap();
    assert_eq!(ws.user_id, 7);
    assert_eq!(ws.username, "alice");
    // a second generated id differs from the first (and from anything cached)
    let sid2 = db.create_web_session(8, String::from("bob")).unwrap();
    assert_ne!(sid, sid2);
    db.remove_web_session(&sid).unwrap();
    assert!(db.get_web_session(&sid).unwrap().is_none());
    assert!(db.get_web_session(&sid2).unwrap().is_some());
}

#[test]
fn prefixes_are_read_through_the_cache() {
    let mut db = Database::new();
    db.prefixes.push(Prefix { channel_id: 3, prefix: String::from("!") });
    assert_eq!(db.get_prefix(3).unwrap().as_deref(), Some("!"));
    // absence is answered (and cached) as well
    assert_eq!(db.get_prefix(4).unwrap(), None);
    assert_eq!(db.get_prefix(3).unwrap().as_deref(), Some("!"));
}

#[test]
fn auth_values_replace_on_the_same_key() {
    let mut db = Database::new();
    assert_eq!(db.get_auth("token").unwrap(), None);
    db.set_auth("token", "one").unwrap();
    db.set_auth("token", "two").unwrap();
    db.set_auth("other", "x").unwrap();
    assert_eq!(db.get_auth("token").unwrap().as_deref(), Some("two"));
    assert_eq!(db.get_auth("other").unwrap().as_deref(), Some("x"));
}

#[test]
fn user_data_respects_the_overwrite_flag() {
    let mut db = Database::new();
    let row = UserData {
        user_id: 5,
        name: String::from("location"),
        value: String::from("here"),
        public: true,
    };
    db.set_user_data(&row, false).unwrap();
    assert_eq!(db.get_location(5).unwrap().as_deref(), Some("here"));
    // without overwrite, the same key is a duplicate
    assert!(db.set_user_data(&row, false).is_err());
    let row2 = UserData { value: String::from("there"), ..row };
    db.set_user_data(&row2, true).unwrap();
    assert_eq!(db.get_location(5).unwrap().as_deref(), Some("there"));
    db.remove_user_data(5, "location").unwrap();
    assert_eq!(db.get_location(5).unwrap(), None);
}

#[test]
fn cache_sweep_keeps_lookups_correct() {
    let mut db = Database::new();
    let ident = UserIdentifier::TwitchID(String::from("9"));
    let u = db.get_or_create_user(&ident).unwrap();
    let sid = db.create_web_session(u.id, String::from("x")).unwrap();
    db.get_web_session(&sid).unwrap();
    db.clear_caches();
    // everything still answers from the store after the sweep
    assert_eq!(db.get_user(&ident).unwrap().unwrap().id, u.id);
    assert_eq!(db.get_web_session(&sid).unwrap().unwrap().user_id, u.id);
}

#[test]
fn channel_listing_and_count_follow_the_table() {
    let mut db = Database::new();
    db.get_or_create_channel(&ChannelIdentifier::TwitchChannel(String::from("a"))).unwrap();
    db.get_or_create_channel(&ChannelIdentifier::IrcChannel(String::from("b"))).unwrap();
    assert_eq!(db.get_channels_amount().unwrap(), 2);
    let all = db.get_channels().unwrap();
    assert_eq!(all.len(), 2);
    assert_eq!(all[0].platform, "twitch");
    assert_eq!(all[1].platform, "irc");
    assert_eq!(db.get_channel_by_id(2).unwrap().unwrap().channel, "b");
    assert!(db.get_channel_by_id(3).unwrap().is_none());
}

#[test]
fn filters_are_listed_per_channel_in_order() {
    let mut db = Database::new();
    let c = db.get_or_create_channel(&chan()).unwrap().unwrap();
    db.filters.push(Filter {
        channel_id: c.id,
        regex: String::from("a"),
        block_message: false,
        replacement: None,
    });
    db.filters.push(Filter {
        channel_id: c.id + 1,
        regex: String::from("b"),
        block_message: true,
        replacement: None,
    });
    db.filters.push(Filter {
        channel_id: c.id,
        regex: String::from("c"),
        block_message: true,
        replacement: Some(String::from("x")),
    });
    let mine = db.get_filters_in_channel(&chan()).unwrap();
    assert_eq!(mine.len(), 2);
    assert_eq!(mine[0].regex, "a");
    assert_eq!(mine[1].regex, "c");
    assert_eq!(db.get_all_filters().unwrap().len(), 3);
    assert!(db
        .get_filters_in_channel(&ChannelIdentifier::IrcChannel(String::from("nowhere")))
        .is_err());
}
