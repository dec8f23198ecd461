use chatbot_core::interpreter::{interpret, DefaultInquiries, InquiryError};
use chatbot_core::platform::{ChannelIdentifier, ExecutionContext, Permissions};

fn ctx() -> ExecutionContext {
    ExecutionContext {
        channel: ChannelIdentifier::TwitchChannel(String::from("chan")),
        permissions: Permissions::Default,
    }
}

#[test]
fn expands_inquiry_with_arguments_and_keeps_both_spaces() {
    let r = interpret(&DefaultInquiries, "Hello $DO_SOMETHING:a:b world", &ctx());
    assert_eq!(
        r.unwrap().unwrap(),
        "Hello did something with [\"a\", \"b\"]  world"
    );
}

#[test]
fn interpretation_is_deterministic() {
    let a = interpret(&DefaultInquiries, "x $DO_SOMETHING:q y $DO_SOMETHING z", &ctx());
    let b = interpret(&DefaultInquiries, "x $DO_SOMETHING:q y $DO_SOMETHING z", &ctx());
    assert_eq!(a.unwrap(), b.unwrap());
}

#[test]
fn unrecognized_inquiry_expands_to_nothing_plus_space() {
    let r = interpret(&DefaultInquiries, "x $NOPE y", &ctx());
    assert_eq!(r.unwrap().unwrap(), "x   y");
}

#[test]
fn empty_inquiry_name_is_a_missing_argument() {
    let r = interpret(&DefaultInquiries, "a $ b", &ctx());
    match r {
        Err(InquiryError::MissingArgument(w)) => assert_eq!(w, "inquiry"),
        other => panic!("expected a missing-argument error, got {:?}", other),
    }
}

#[test]
fn empty_expansion_yields_no_message() {
    assert_eq!(interpret(&DefaultInquiries, "", &ctx()).unwrap(), None);
}

#[test]
fn inquiry_at_end_of_string_still_appends_its_space() {
    let r = interpret(&DefaultInquiries, "$UNKNOWN", &ctx());
    assert_eq!(r.unwrap().unwrap(), " ");
}

#[test]
fn no_arguments_renders_an_empty_list() {
    let r = interpret(&DefaultInquiries, "$DO_SOMETHING", &ctx());
    assert_eq!(r.unwrap().unwrap(), "did something with [] ");
}

#[test]
fn argument_quotes_are_escaped() {
    let r = interpret(&DefaultInquiries, "$DO_SOMETHING:a\"b", &ctx());
    assert_eq!(r.unwrap().unwrap(), "did something with [\"a\\\"b\"] ");
}

#[test]
fn empty_argument_segments_are_kept() {
    let r = interpret(&DefaultInquiries, "$DO_SOMETHING:", &ctx());
    assert_eq!(r.unwrap().unwrap(), "did something with [\"\"] ");
}

#[test]
fn plain_text_passes_through_unchanged() {
    let r = interpret(&DefaultInquiries, "just some words", &ctx());
    assert_eq!(r.unwrap().unwrap(), "just some words");
}
