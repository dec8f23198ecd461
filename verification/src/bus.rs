use vstd::prelude::*;

verus! {

/// Mathematical image of a `BusMessage`.
pub enum BusMessageV {
    /// An outgoing chat message for the connector that owns the topic's
    /// platform, carrying the agreed `{channel_id, contents}` payload.
    Outgoing { topic: Seq<char>, channel_id: Seq<char>, contents: Seq<char> },
    /// Empties the named set of known channels.
    SetClear { key: Seq<char> },
    /// Adds members to the named set of known channels.
    SetAdd { key: Seq<char>, members: Seq<Seq<char>> },
    /// A broadcast notification, such as a channel-list change.
    Notify { topic: Seq<char>, text: Seq<char> },
}

/// One operation for the process-wide message bus. The core only records
/// what must be published; the connector side performs the delivery.
#[derive(Clone, Debug)]
pub enum BusMessage {
    Outgoing { topic: String, channel_id: String, contents: String },
    SetClear { key: String },
    SetAdd { key: String, members: Vec<String> },
    Notify { topic: String, text: String },
}

impl View for BusMessage {
    type V = BusMessageV;

    open spec fn view(&self) -> BusMessageV {
        match self {
            BusMessage::Outgoing { topic, channel_id, contents } => BusMessageV::Outgoing {
                topic: topic@,
                channel_id: channel_id@,
                contents: contents@,
            },
            BusMessage::SetClear { key } => BusMessageV::SetClear { key: key@ },
            BusMessage::SetAdd { key, members } => BusMessageV::SetAdd {
                key: key@,
                members: members.deep_view(),
            },
            BusMessage::Notify { topic, text } => BusMessageV::Notify {
                topic: topic@,
                text: text@,
            },
        }
    }
}

impl DeepView for BusMessage {
    type V = BusMessageV;

    open spec fn deep_view(&self) -> BusMessageV {
        self.view()
    }
}

/// The name of the per-platform set of known channels.
pub open spec fn spec_channels_key(platform: Seq<char>) -> Seq<char> {
    "channels:"@ + platform
}

/// The topic on which channel-list changes for a platform are announced.
pub open spec fn spec_update_topic(platform: Seq<char>) -> Seq<char> {
    "channels.update."@ + platform
}

/// The topic to which an outgoing message for a platform is published:
/// the configured prefix followed by the platform tag.
pub open spec fn spec_outgoing_topic(prefix: Seq<char>, platform: Seq<char>) -> Seq<char> {
    prefix + platform
}

/// Builds the known-channels set name for a platform.
pub fn channels_key(platform: &str) -> (r: String)
    ensures
        r@ == spec_channels_key(platform@),
{
    let mut s = String::from_str("channels:");
    s.append(platform);
    s
}

/// Builds the channel-list change topic for a platform.
pub fn update_topic(platform: &str) -> (r: String)
    ensures
        r@ == spec_update_topic(platform@),
{
    let mut s = String::from_str("channels.update.");
    s.append(platform);
    s
}

/// Builds the outgoing topic for a platform under the configured prefix.
pub fn outgoing_topic(prefix: &str, platform: &str) -> (r: String)
    ensures
        r@ == spec_outgoing_topic(prefix@, platform@),
{
    let mut s = String::from_str(prefix);
    s.append(platform);
    s
}

} // verus!
