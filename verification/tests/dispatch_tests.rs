use chatbot_core::database::Database;
use chatbot_core::handler::{CommandHandler, CommandResolution, InboundMessage, resolve, tokenize};
use chatbot_core::interpreter::DefaultInquiries;
use chatbot_core::platform::{ChannelIdentifier, ExecutionContext, Permissions, UserIdentifier};

fn handler() -> CommandHandler<DefaultInquiries> {
    CommandHandler::init(Database::new(), DefaultInquiries, 0)
}

fn chan() -> ChannelIdentifier {
    ChannelIdentifier::TwitchChannel(String::from("somechannel"))
}

fn ctx(p: Permissions) -> ExecutionContext {
    ExecutionContext { channel: chan(), permissions: p }
}

fn msg(text: &str) -> InboundMessage {
    InboundMessage {
        text: String::from(text),
        sender: UserIdentifier::TwitchID(String::from("42")),
    }
}

#[test]
fn empty_input_gets_the_fixed_reply() {
    let mut h = handler();
    let r = h.handle_command_message(&msg(""), &ctx(Permissions::Default), 10);
    assert_eq!(r.unwrap(), "\u{2757}");
    let r2 = h.handle_command_message(&msg(""), &ctx(Permissions::ChannelMod), 10);
    assert_eq!(r2.unwrap(), "\u{2757}");
}

#[test]
fn whitespace_only_input_is_ignored() {
    let mut h = handler();
    assert_eq!(h.handle_command_message(&msg("   "), &ctx(Permissions::Default), 10), None);
}

#[test]
fn unknown_token_is_ordinary_chat() {
    let mut h = handler();
    assert_eq!(h.handle_command_message(&msg("hello there"), &ctx(Permissions::Default), 10), None);
}

#[test]
fn ping_reports_uptime_in_seconds() {
    let mut h = handler();
    let r = h.handle_command_message(&msg("ping"), &ctx(Permissions::Default), 7);
    assert_eq!(r.unwrap(), "Pong! Uptime 7s");
}

#[test]
fn ping_reports_hours_and_minutes() {
    let mut h = handler();
    let r = h.handle_command_message(&msg("ping"), &ctx(Permissions::Default), 3700);
    assert_eq!(r.unwrap(), "Pong! Uptime 1h 1m ");
}

#[test]
fn ping_reports_exact_minutes() {
    let mut h = handler();
    let r = h.handle_command_message(&msg("ping"), &ctx(Permissions::Default), 60);
    assert_eq!(r.unwrap(), "Pong! Uptime 1m ");
}

#[test]
fn whoami_reports_an_unknown_caller() {
    let mut h = handler();
    let r = h.handle_command_message(&msg("whoami"), &ctx(Permissions::Default), 0);
    assert_eq!(r.unwrap(), "no user, permissions: Default");
}

#[test]
fn whoami_reports_a_known_caller() {
    let mut h = handler();
    let created = h
        .db
        .get_or_create_user(&UserIdentifier::TwitchID(String::from("42")))
        .unwrap();
    let r = h.handle_command_message(&msg("id"), &ctx(Permissions::ChannelMod), 0);
    assert_eq!(
        r.unwrap(),
        format!("user {}, permissions: ChannelMod", created.id)
    );
}

#[test]
fn command_add_below_moderator_is_refused_and_stores_nothing() {
    let mut h = handler();
    let r = h.handle_command_message(&msg("command add foo bar"), &ctx(Permissions::Default), 0);
    assert_eq!(
        r.unwrap(),
        "Error: you don't have the permissions to use this command"
    );
    assert!(h.db.get_command(&chan(), "foo").unwrap().is_none());
}

#[test]
fn command_add_and_remove_round_trip() {
    let mut h = handler();
    let r = h.handle_command_message(
        &msg("command add greet hello there"),
        &ctx(Permissions::ChannelMod),
        0,
    );
    assert_eq!(r.unwrap(), "Command successfully added");
    let stored = h.db.get_command(&chan(), "greet").unwrap().unwrap();
    assert_eq!(stored.action, "hello there");
    assert_eq!(stored.cooldown, 5);

    let dup = h.handle_command_message(
        &msg("command add greet again"),
        &ctx(Permissions::ChannelMod),
        0,
    );
    assert_eq!(dup.unwrap(), "Command already exists");

    let rem = h.handle_command_message(
        &msg("command remove greet"),
        &ctx(Permissions::ChannelMod),
        0,
    );
    assert_eq!(rem.unwrap(), "Command succesfully removed");
    assert!(h.db.get_command(&chan(), "greet").unwrap().is_none());

    let rem2 = h.handle_command_message(
        &msg("command remove greet"),
        &ctx(Permissions::ChannelMod),
        0,
    );
    assert_eq!(rem2.unwrap(), "Error: database error: Invalid value");
}

#[test]
fn legacy_aliases_rewrite_to_the_command_builtin() {
    let mut h = handler();
    let r = h.handle_command_message(&msg("addcmd hi yo"), &ctx(Permissions::ChannelMod), 0);
    assert_eq!(r.unwrap(), "Command successfully added");
    let stored = h.db.get_command(&chan(), "hi").unwrap().unwrap();
    assert_eq!(stored.action, "yo");
    let d = h.handle_command_message(&msg("delcmd hi"), &ctx(Permissions::ChannelMod), 0);
    assert_eq!(d.unwrap(), "Command succesfully removed");
}

#[test]
fn builtin_names_can_never_be_stored() {
    let mut h = handler();
    // every name the dispatcher answers to is refused, aliases included
    for name in ["ping", "whoami", "id", "command", "cmd", "commands", "addcmd", "cmdadd",
        "delcmd", "cmddel"] {
        let mut line = String::from("command add ");
        line.push_str(name);
        line.push_str(" something");
        let r = h.handle_command_message(&msg(&line), &ctx(Permissions::ChannelMod), 0);
        assert_eq!(r.unwrap(), "Error: database error: Invalid value");
        assert!(h.db.get_command(&chan(), name).unwrap().is_none());
    }
    // the resolver sees the builtin, never a stored command
    match resolve(&mut h.db, &chan(), "ping").unwrap() {
        CommandResolution::Builtin(name) => assert_eq!(name, "ping"),
        other => panic!("expected the builtin, got {:?}", other),
    }
    match resolve(&mut h.db, &chan(), "id").unwrap() {
        CommandResolution::Builtin(name) => assert_eq!(name, "id"),
        other => panic!("expected the builtin, got {:?}", other),
    }
}

#[test]
fn missing_arguments_are_reported() {
    let mut h = handler();
    let r = h.handle_command_message(&msg("command add"), &ctx(Permissions::ChannelMod), 0);
    assert_eq!(r.unwrap(), "Error: missing argument: command name");
    let r2 = h.handle_command_message(&msg("command add onlyname"), &ctx(Permissions::ChannelMod), 0);
    assert_eq!(r2.unwrap(), "Error: missing argument: command action");
    let r3 = h.handle_command_message(&msg("command frobnicate x"), &ctx(Permissions::ChannelMod), 0);
    assert_eq!(r3.unwrap(), "Error: invalid argument: command");
    let r4 = h.handle_command_message(&msg("command"), &ctx(Permissions::ChannelMod), 0);
    assert_eq!(r4.unwrap(), "Command list");
}

#[test]
fn stored_command_runs_through_the_interpreter() {
    let mut h = handler();
    h.handle_command_message(
        &msg("command add greet well $DO_SOMETHING:x met"),
        &ctx(Permissions::ChannelMod),
        0,
    );
    let r = h.handle_command_message(&msg("greet"), &ctx(Permissions::Default), 100);
    assert_eq!(r.unwrap(), "well did something with [\"x\"]  met");
}

#[test]
fn cooldown_silences_the_second_invocation() {
    let mut h = handler();
    h.handle_command_message(
        &msg("command add greet hello"),
        &ctx(Permissions::ChannelMod),
        0,
    );
    let first = h.handle_command_message(&msg("greet"), &ctx(Permissions::Default), 100);
    assert_eq!(first.unwrap(), "hello");
    // inside the five-second window: silently dropped, no error
    let second = h.handle_command_message(&msg("greet"), &ctx(Permissions::Default), 102);
    assert_eq!(second, None);
    // at the window's end it answers again
    let third = h.handle_command_message(&msg("greet"), &ctx(Permissions::Default), 105);
    assert_eq!(third.unwrap(), "hello");
}

#[test]
fn resolver_finds_stored_commands_exactly() {
    let mut h = handler();
    h.db
        .add_command_to_channel(&chan(), "greet", "hello")
        .unwrap();
    match resolve(&mut h.db, &chan(), "greet").unwrap() {
        CommandResolution::Stored(c) => assert_eq!(c.action, "hello"),
        other => panic!("expected the stored command, got {:?}", other),
    }
    match resolve(&mut h.db, &chan(), "gree").unwrap() {
        CommandResolution::NotFound => {}
        other => panic!("expected no match, got {:?}", other),
    }
}

#[test]
fn tokenizer_splits_on_any_whitespace() {
    let toks = tokenize("a\tb  c\nd");
    let expected: Vec<String> = vec![
        String::from("a"),
        String::from("b"),
        String::from("c"),
        String::from("d"),
    ];
    assert_eq!(toks, expected);
}
