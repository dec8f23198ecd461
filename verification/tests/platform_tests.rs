use chatbot_core::commands::builtin::userinfo;
use chatbot_core::commands::ping::Ping;
use chatbot_core::database::Database;
use chatbot_core::models::User;
use chatbot_core::platform::{
    permissions_from_badges, ChannelIdentifier, ExecutionContext, Permissions, UserIdentifier,
    UserIdentifierError,
};
use chatbot_core::strutil::u64_to_string;
use chatbot_core::web::LayoutContext;

#[test]
fn channel_identifiers_compare_by_platform_and_string() {
    let a = ChannelIdentifier::TwitchChannel(String::from("x"));
    let b = ChannelIdentifier::TwitchChannel(String::from("x"));
    let c = ChannelIdentifier::IrcChannel(String::from("x"));
    assert_eq!(a, b);
    assert_ne!(a, c);
    assert_ne!(a, ChannelIdentifier::Anonymous);
}

#[test]
fn user_identifiers_never_conflate_platforms() {
    let a = UserIdentifier::TwitchID(String::from("7"));
    let b = UserIdentifier::DiscordID(String::from("7"));
    assert_ne!(a, b);
    assert_eq!(a, UserIdentifier::TwitchID(String::from("7")));
}

#[test]
fn channel_identifier_round_trips_through_its_pair() {
    let c = ChannelIdentifier::new("twitch", String::from("room")).unwrap();
    assert_eq!(c.get_platform_name(), Some("twitch"));
    assert_eq!(c.get_channel().as_deref(), Some("room"));
    let g = ChannelIdentifier::new("discord_guild", String::from("1234")).unwrap();
    assert_eq!(g.get_platform_name(), Some("discord_guild"));
    let i = ChannelIdentifier::new("irc", String::from("#r")).unwrap();
    assert_eq!(i.get_platform_name(), Some("irc"));
    match ChannelIdentifier::new("smoke", String::from("x")) {
        Err(UserIdentifierError::InvalidPlatform) => {}
        other => panic!("expected an invalid platform, got {:?}", other),
    }
    assert_eq!(ChannelIdentifier::Anonymous.get_platform_name(), None);
    assert_eq!(ChannelIdentifier::Anonymous.get_channel(), None);
}

#[test]
fn moderator_and_broadcaster_badges_grant_channel_mod() {
    let mods = vec![String::from("subscriber"), String::from("moderator")];
    assert_eq!(permissions_from_badges(&mods), Permissions::ChannelMod);
    let caster = vec![String::from("broadcaster")];
    assert_eq!(permissions_from_badges(&caster), Permissions::ChannelMod);
    let none = vec![String::from("subscriber")];
    assert_eq!(permissions_from_badges(&none), Permissions::Default);
    assert_eq!(permissions_from_badges(&vec![]), Permissions::Default);
}

#[test]
fn decimal_rendering_is_exact() {
    assert_eq!(u64_to_string(0), "0");
    assert_eq!(u64_to_string(7), "7");
    assert_eq!(u64_to_string(120), "120");
    assert_eq!(u64_to_string(u64::MAX), "18446744073709551615");
}

#[test]
fn ping_command_value_reports_its_surface() {
    let p = Ping { startup_instant: 100 };
    assert_eq!(p.get_names(), vec![String::from("ping")]);
    assert_eq!(p.get_cooldown(), 5);
    assert_eq!(p.get_permissions(), Permissions::Default);
    assert_eq!(p.execute(161), "Pong! Uptime 1m ");
}

#[test]
fn userinfo_command_value_describes_the_caller() {
    let ctx = ExecutionContext {
        channel: ChannelIdentifier::TwitchChannel(String::from("c")),
        permissions: Permissions::ChannelMod,
    };
    let user = User {
        id: 12,
        twitch_id: Some(String::from("42")),
        discord_id: None,
        irc_name: None,
        telegram_id: None,
        local_addr: None,
    };
    assert_eq!(
        userinfo::Command::execute(&Some(user), &ctx),
        "user 12, permissions: ChannelMod"
    );
    assert_eq!(
        userinfo::Command::execute(&None, &ctx),
        "no user, permissions: ChannelMod"
    );
}

#[test]
fn textual_identifiers_parse_by_platform_tag() {
    match UserIdentifier::from_string("twitch:123").unwrap() {
        UserIdentifier::TwitchID(v) => assert_eq!(v, "123"),
        other => panic!("expected a twitch identity, got {:?}", other),
    }
    match UserIdentifier::from_string("telegram:987").unwrap() {
        UserIdentifier::TelegramId(n) => assert_eq!(n, 987),
        other => panic!("expected a telegram identity, got {:?}", other),
    }
    assert_eq!(
        UserIdentifier::from_string("nodelimiter"),
        Err(UserIdentifierError::MissingDelimiter)
    );
    assert_eq!(
        UserIdentifier::from_string("smoke:x"),
        Err(UserIdentifierError::InvalidPlatform)
    );
    assert_eq!(
        UserIdentifier::from_string("telegram:abc"),
        Err(UserIdentifierError::InvalidPayload)
    );
    assert_eq!(
        UserIdentifier::from_string("telegram:99999999999999999999999"),
        Err(UserIdentifierError::InvalidPayload)
    );
}

#[test]
fn admin_lookup_goes_through_the_store() {
    let mut db = Database::new();
    let u = db
        .get_or_create_user(&UserIdentifier::TwitchID(String::from("5")))
        .unwrap();
    assert!(db.get_admin_user(None).unwrap().is_none());
    assert_eq!(db.get_admin_user(Some("twitch:5")).unwrap().unwrap().id, u.id);
    assert!(db.get_admin_user(Some("twitch:6")).unwrap().is_none());
    assert!(db.get_admin_user(Some("broken")).is_err());
}

#[test]
fn layout_context_resolves_the_session_cookie() {
    let mut db = Database::new();
    let sid = db.create_web_session(3, String::from("alice")).unwrap();
    let signed_in = LayoutContext::new(&mut db, Some(&sid));
    assert_eq!(signed_in.name, "layout");
    let info = signed_in.auth_info.unwrap();
    assert_eq!(info.username, "alice");
    assert_eq!(info.user_id, 3);
    let anon = LayoutContext::new(&mut db, None);
    assert!(anon.auth_info.is_none());
    let bogus = LayoutContext::new(&mut db, Some("nosuchsession"));
    assert!(bogus.auth_info.is_none());
}
