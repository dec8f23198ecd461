use chatbot_core::bus::BusMessage;
use chatbot_core::filter::{ChannelFilters, PlatformHandler, PlatformHandlerError};
use chatbot_core::models::Filter;
use chatbot_core::platform::ChannelIdentifier;

fn chan() -> ChannelIdentifier {
    ChannelIdentifier::TwitchChannel(String::from("somechannel"))
}

fn handler_with(filters: Vec<Filter>) -> PlatformHandler {
    let mut h = PlatformHandler::new();
    h.filters.push(ChannelFilters { channel: chan(), filters });
    h
}

#[test]
fn blocking_filter_clears_the_whole_message() {
    let h = handler_with(vec![Filter {
        channel_id: 1,
        regex: String::from("forbidden"),
        block_message: true,
        replacement: None,
    }]);
    let mut m = String::from("something forbidden here");
    h.filter_message(&mut m, &chan());
    assert_eq!(m, "");
}

#[test]
fn blocking_filter_lets_clean_text_through() {
    let h = handler_with(vec![Filter {
        channel_id: 1,
        regex: String::from("forbidden"),
        block_message: true,
        replacement: None,
    }]);
    let mut m = String::from("all fine");
    h.filter_message(&mut m, &chan());
    assert_eq!(m, "all fine");
}

#[test]
fn replacing_filter_without_replacement_uses_the_placeholder() {
    let h = handler_with(vec![Filter {
        channel_id: 1,
        regex: String::from("b+ad"),
        block_message: false,
        replacement: None,
    }]);
    let mut m = String::from("too bbad and bad");
    h.filter_message(&mut m, &chan());
    assert_eq!(m, "too [Blocked] and [Blocked]");
}

#[test]
fn replacing_filter_uses_the_configured_replacement() {
    let h = handler_with(vec![Filter {
        channel_id: 1,
        regex: String::from("cat"),
        block_message: false,
        replacement: Some(String::from("dog")),
    }]);
    let mut m = String::from("a cat is a cat");
    h.filter_message(&mut m, &chan());
    assert_eq!(m, "a dog is a dog");
}

#[test]
fn invalid_pattern_surfaces_its_compile_error() {
    let h = handler_with(vec![Filter {
        channel_id: 1,
        regex: String::from("("),
        block_message: false,
        replacement: None,
    }]);
    let mut m = String::from("anything");
    h.filter_message(&mut m, &chan());
    assert!(m.starts_with("failed to compile message filter regex: "));
}

#[test]
fn filters_run_in_insertion_order_and_blocking_stops_the_pipeline() {
    let h = handler_with(vec![
        Filter {
            channel_id: 1,
            regex: String::from("x"),
            block_message: false,
            replacement: Some(String::from("y")),
        },
        Filter {
            channel_id: 1,
            regex: String::from("yy"),
            block_message: true,
            replacement: None,
        },
        Filter {
            channel_id: 1,
            regex: String::from(".*"),
            block_message: false,
            replacement: Some(String::from("never runs")),
        },
    ]);
    let mut m = String::from("xx");
    h.filter_message(&mut m, &chan());
    assert_eq!(m, "");
}

#[test]
fn other_channels_keep_their_text() {
    let h = handler_with(vec![Filter {
        channel_id: 1,
        regex: String::from(".*"),
        block_message: true,
        replacement: None,
    }]);
    let mut m = String::from("untouched");
    h.filter_message(&mut m, &ChannelIdentifier::IrcChannel(String::from("elsewhere")));
    assert_eq!(m, "untouched");
}

#[test]
fn send_to_channel_filters_and_queues_the_payload() {
    let mut h = handler_with(vec![Filter {
        channel_id: 1,
        regex: String::from("secret"),
        block_message: false,
        replacement: None,
    }]);
    h.send_to_channel(chan(), String::from("a secret thing"), "messages.outgoing.")
        .unwrap();
    let out = h.take_outbox();
    assert_eq!(out.len(), 1);
    match &out[0] {
        BusMessage::Outgoing { topic, channel_id, contents } => {
            assert_eq!(topic, "messages.outgoing.twitch");
            assert_eq!(channel_id, "somechannel");
            assert_eq!(contents, "a [Blocked] thing");
        }
        other => panic!("expected an outgoing message, got {:?}", other),
    }
}

#[test]
fn fully_blocked_message_reaches_nobody() {
    let mut h = handler_with(vec![Filter {
        channel_id: 1,
        regex: String::from(".*"),
        block_message: true,
        replacement: None,
    }]);
    h.send_to_channel(chan(), String::from("anything at all"), "messages.outgoing.")
        .unwrap();
    // nothing is handed to the connector, not even an empty payload
    assert!(h.take_outbox().is_empty());
}

#[test]
fn anonymous_destination_is_unsupported() {
    let mut h = PlatformHandler::new();
    let r = h.send_to_channel(
        ChannelIdentifier::Anonymous,
        String::from("hi"),
        "messages.outgoing.",
    );
    match r {
        Err(PlatformHandlerError::Unsupported) => {}
        other => panic!("expected the unsupported error, got {:?}", other),
    }
    assert!(h.take_outbox().is_empty());
}

#[test]
fn platform_errors_have_their_wording() {
    assert_eq!(
        PlatformHandlerError::Unsupported.message(),
        "Remote message sending is not supported for this platform"
    );
    assert_eq!(
        PlatformHandlerError::Unconfigured.message(),
        "Platform is not configured"
    );
    assert_eq!(
        PlatformHandlerError::PlatformError(String::from("boom")).message(),
        "Platform error: boom"
    );
}
