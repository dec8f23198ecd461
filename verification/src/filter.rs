use vstd::prelude::*;

use crate::bus::{outgoing_topic, spec_outgoing_topic, BusMessage, BusMessageV};
use crate::models::{Filter, FilterV};
use crate::platform::{
    spec_channel_string, spec_platform_name, ChannelIdentifier, ChannelIdentifierV,
};
use crate::strutil::lemma_skip_succ;

verus! {

/// The compile error of a pattern, if it has one: a function of the
/// pattern alone, named because no short spec can write the syntax of
/// regular expressions out.
pub uninterp spec fn regex_compile_error(pattern: Seq<char>) -> Option<Seq<char>>;

/// Whether a compiling pattern matches somewhere in a text.
pub uninterp spec fn regex_is_match(pattern: Seq<char>, text: Seq<char>) -> bool;

/// The text with every match of a compiling pattern replaced.
pub uninterp spec fn regex_replace_all(pattern: Seq<char>, text: Seq<char>, rep: Seq<char>)
    -> Seq<char>;

/// Relies on regex::Regex::new: whether a pattern compiles, and its
/// error's wording, depend on the pattern alone.
#[verifier::external_body]
fn regex_check(pattern: &str) -> (r: Option<String>)
    ensures
        r.deep_view() == regex_compile_error(pattern@),
{
    match regex::Regex::new(pattern) {
        Ok(_) => None,
        Err(e) => Some(e.to_string()),
    }
}

/// Relies on regex::Regex::is_match, after regex::Regex::new on a pattern
/// known to compile: the answer depends on pattern and text alone.
#[verifier::external_body]
fn regex_find(pattern: &str, text: &str) -> (r: bool)
    requires
        regex_compile_error(pattern@) is None,
    ensures
        r == regex_is_match(pattern@, text@),
{
    regex::Regex::new(pattern).unwrap().is_match(text)
}

/// Relies on regex::Regex::replace_all, after regex::Regex::new on a
/// pattern known to compile: the result depends on the arguments alone.
#[verifier::external_body]
fn regex_replace(pattern: &str, text: &str, rep: &str) -> (r: String)
    requires
        regex_compile_error(pattern@) is None,
    ensures
        r@ == regex_replace_all(pattern@, text@, rep@),
{
    regex::Regex::new(pattern).unwrap().replace_all(text, rep).into_owned()
}

/// What the filter rows of a channel do to an outgoing text, first row
/// first. A blocking filter that matches clears the text and ends the
/// pipeline; a replacing filter rewrites every match, with a fixed
/// placeholder when no replacement is configured; a filter whose pattern
/// does not compile overwrites the text with a diagnostic naming the
/// compile failure, and the remaining filters still run.
pub open spec fn spec_filter_pipeline(text: Seq<char>, fs: Seq<FilterV>) -> Seq<char>
    decreases fs.len(),
{
    if fs.len() == 0 {
        text
    } else {
        let f = fs[0];
        match regex_compile_error(f.regex) {
            Some(err) => spec_filter_pipeline(
                "failed to compile message filter regex: "@ + err,
                fs.drop_first(),
            ),
            None => {
                if f.block_message {
                    if regex_is_match(f.regex, text) {
                        Seq::empty()
                    } else {
                        spec_filter_pipeline(text, fs.drop_first())
                    }
                } else {
                    let rep = match f.replacement {
                        Some(r) => r,
                        None => "[Blocked]"@,
                    };
                    spec_filter_pipeline(
                        regex_replace_all(f.regex, text, rep),
                        fs.drop_first(),
                    )
                }
            },
        }
    }
}

/// Mathematical image of a `ChannelFilters` entry.
pub struct ChannelFiltersV {
    pub channel: ChannelIdentifierV,
    pub filters: Seq<FilterV>,
}

/// The filter rows configured for one channel, in application order.
#[derive(Clone, Debug)]
pub struct ChannelFilters {
    pub channel: ChannelIdentifier,
    pub filters: Vec<Filter>,
}

impl View for ChannelFilters {
    type V = ChannelFiltersV;

    open spec fn view(&self) -> ChannelFiltersV {
        ChannelFiltersV { channel: self.channel@, filters: self.filters.deep_view() }
    }
}

impl DeepView for ChannelFilters {
    type V = ChannelFiltersV;

    open spec fn deep_view(&self) -> ChannelFiltersV {
        self.view()
    }
}

/// The filter rows an entry list holds for a channel: the first entry of
/// that channel, or none at all.
pub open spec fn spec_filters_for(entries: Seq<ChannelFiltersV>, ch: ChannelIdentifierV) -> Seq<
    FilterV,
>
    decreases entries.len(),
{
    if entries.len() == 0 {
        Seq::empty()
    } else if entries[0].channel == ch {
        entries[0].filters
    } else {
        spec_filters_for(entries.drop_first(), ch)
    }
}

/// Mathematical image of a `PlatformHandlerError`.
pub enum PlatformHandlerErrorV {
    Unsupported,
    Unconfigured,
    PlatformError(Seq<char>),
}

/// Failure to route a message out: the platform takes no remote sends,
/// is not configured, or failed on its own account.
#[derive(Clone, Debug)]
pub enum PlatformHandlerError {
    Unsupported,
    Unconfigured,
    PlatformError(String),
}

impl View for PlatformHandlerError {
    type V = PlatformHandlerErrorV;

    open spec fn view(&self) -> PlatformHandlerErrorV {
        match self {
            PlatformHandlerError::Unsupported => PlatformHandlerErrorV::Unsupported,
            PlatformHandlerError::Unconfigured => PlatformHandlerErrorV::Unconfigured,
            PlatformHandlerError::PlatformError(s) => PlatformHandlerErrorV::PlatformError(s@),
        }
    }
}

/// The wording of a platform error, as shown to the caller.
pub open spec fn spec_platform_error_message(e: PlatformHandlerErrorV) -> Seq<char> {
    match e {
        PlatformHandlerErrorV::Unconfigured => "Platform is not configured"@,
        PlatformHandlerErrorV::Unsupported => (
        "Remote message sending is not supported for this platform"@),
        PlatformHandlerErrorV::PlatformError(s) => "Platform error: "@ + s,
    }
}

impl PlatformHandlerError {
    /// Renders the error for a user-visible reply.
    pub fn message(&self) -> (r: String)
        ensures
            r@ == spec_platform_error_message(self@),
    {
        match self {
            PlatformHandlerError::Unconfigured => String::from_str("Platform is not configured"),
            PlatformHandlerError::Unsupported => String::from_str(
                "Remote message sending is not supported for this platform",
            ),
            PlatformHandlerError::PlatformError(s) => {
                let mut m = String::from_str("Platform error: ");
                m.append(s.as_str());
                m
            },
        }
    }
}

/// Routes outgoing messages: applies each destination channel's filters
/// and records what must be published for the owning connector.
pub struct PlatformHandler {
    pub filters: Vec<ChannelFilters>,
    pub outbox: Vec<BusMessage>,
}

impl PlatformHandler {
    /// A handler with no filters and nothing pending.
    pub fn new() -> (r: PlatformHandler)
        ensures
            r.filters.deep_view() == Seq::<ChannelFiltersV>::empty(),
            r.outbox.deep_view() == Seq::<BusMessageV>::empty(),
    {
        let r = PlatformHandler { filters: Vec::new(), outbox: Vec::new() };
        proof {
            assert(r.filters.deep_view() =~= Seq::<ChannelFiltersV>::empty());
            assert(r.outbox.deep_view() =~= Seq::<BusMessageV>::empty());
        }
        r
    }

    /// Runs a channel's filter pipeline over an outgoing message, in
    /// place.
    pub fn filter_message(&self, message: &mut String, channel: &ChannelIdentifier)
        ensures
            final(message)@ == spec_filter_pipeline(
                old(message)@,
                spec_filters_for(self.filters.deep_view(), channel@),
            ),
    {
        let n = self.filters.len();
        let mut e: usize = 0;
        while e < n
            invariant
                n == self.filters@.len(),
                forall|j: int|
                    0 <= j < e ==> self.filters.deep_view()[j].channel != channel@,
                message@ == old(message)@,
            decreases n - e,
        {
            if self.filters[e].channel.eq(channel) {
                proof {
                    assert(spec_filters_for(self.filters.deep_view().skip(e as int), channel@)
                        == self.filters.deep_view()[e as int].filters) by {
                        lemma_skip_succ(self.filters.deep_view(), e as int);
                    }
                    lemma_filters_for_skip(self.filters.deep_view(), channel@, e as int);
                }
                let rows = &self.filters[e].filters;
                let m = rows.len();
                let ghost fsdv = self.filters.deep_view()[e as int].filters;
                proof {
                    assert(fsdv.skip(0) =~= fsdv);
                }
                let mut i: usize = 0;
                while i < m
                    invariant
                        m == rows@.len(),
                        fsdv == rows.deep_view(),
                        spec_filters_for(self.filters.deep_view(), channel@) == fsdv,
                        spec_filter_pipeline(
                            old(message)@,
                            fsdv,
                        ) == spec_filter_pipeline(message@, fsdv.skip(i as int)),
                        i <= m,
                    decreases m - i,
                {
                    proof {
                        lemma_skip_succ(fsdv, i as int);
                    }
                    let f = &rows[i];
                    match regex_check(f.regex.as_str()) {
                        Some(err) => {
                            let mut d = String::from_str(
                                "failed to compile message filter regex: ",
                            );
                            d.append(err.as_str());
                            *message = d;
                        },
                        None => {
                            if f.block_message {
                                if regex_find(f.regex.as_str(), message.as_str()) {
                                    *message = String::new();
                                    proof {
                                        assert(spec_filter_pipeline(
                                            old(message)@,
                                            fsdv,
                                        ) == Seq::<char>::empty());
                                        assert(message@ =~= Seq::<char>::empty());
                                        assert(fsdv.skip(fsdv.len() as int)
                                            =~= Seq::<FilterV>::empty());
                                    }
                                    return ;
                                }
                            } else {
                                let rep = match &f.replacement {
                                    Some(r) => r.as_str(),
                                    None => "[Blocked]",
                                };
                                *message = regex_replace(
                                    f.regex.as_str(),
                                    message.as_str(),
                                    rep,
                                );
                            }
                        },
                    }
                    i += 1;
                }
                proof {
                    assert(fsdv.skip(m as int) =~= Seq::<FilterV>::empty());
                }
                return ;
            }
            e += 1;
        }
        proof {
            lemma_filters_for_absent(self.filters.deep_view(), channel@);
        }
    }

    /// Filters a message for its destination channel and records it on
    /// the bus under the platform's outgoing topic, with the agreed
    /// payload of channel string and contents. A message the filters
    /// leave empty — a blocking filter matched — is delivered to nobody:
    /// nothing reaches the bus. A channel of no platform takes no remote
    /// sends.
    pub fn send_to_channel(
        &mut self,
        channel: ChannelIdentifier,
        msg: String,
        outgoing_prefix: &str,
    ) -> (r: Result<(), PlatformHandlerError>)
        ensures
            final(self).filters.deep_view() == old(self).filters.deep_view(),
            match spec_platform_name(channel@) {
                None => r == Err::<(), PlatformHandlerError>(PlatformHandlerError::Unsupported)
                    && final(self).outbox.deep_view() == old(self).outbox.deep_view(),
                Some(p) => {
                    let filtered = spec_filter_pipeline(
                        msg@,
                        spec_filters_for(old(self).filters.deep_view(), channel@),
                    );
                    &&& r == Ok::<(), PlatformHandlerError>(())
                    &&& filtered.len() == 0 ==> final(self).outbox.deep_view() == old(
                        self,
                    ).outbox.deep_view()
                    &&& filtered.len() > 0 ==> final(self).outbox.deep_view() == old(
                        self,
                    ).outbox.deep_view().push(
                        BusMessageV::Outgoing {
                            topic: spec_outgoing_topic(outgoing_prefix@, p),
                            channel_id: spec_channel_string(channel@)->Some_0,
                            contents: filtered,
                        },
                    )
                },
            },
    {
        let mut contents = msg;
        self.filter_message(&mut contents, &channel);
        let platform = match channel.get_platform_name() {
            Some(p) => p,
            None => {
                return Err(PlatformHandlerError::Unsupported);
            },
        };
        if contents.unicode_len() == 0 {
            return Ok(());
        }
        let channel_id = match channel.get_channel() {
            Some(c) => c,
            None => {
                proof {
                    assert(false);
                }
                return Err(PlatformHandlerError::Unsupported);
            },
        };
        let topic = outgoing_topic(outgoing_prefix, platform);
        let ghost before = self.outbox.deep_view();
        self.outbox.push(BusMessage::Outgoing { topic, channel_id, contents });
        proof {
            assert(self.outbox.deep_view() =~= before.push(
                BusMessageV::Outgoing {
                    topic: spec_outgoing_topic(
                        outgoing_prefix@,
                        spec_platform_name(channel@)->Some_0,
                    ),
                    channel_id: spec_channel_string(channel@)->Some_0,
                    contents: spec_filter_pipeline(
                        msg@,
                        spec_filters_for(old(self).filters.deep_view(), channel@),
                    ),
                },
            ));
        }
        Ok(())
    }

    /// Hands out everything that still has to go to the message bus and
    /// leaves the outbox empty; the connector side publishes it.
    pub fn take_outbox(&mut self) -> (r: Vec<BusMessage>)
        ensures
            final(self).filters.deep_view() == old(self).filters.deep_view(),
            r.deep_view() == old(self).outbox.deep_view(),
            final(self).outbox.deep_view() == Seq::<BusMessageV>::empty(),
    {
        let mut out: Vec<BusMessage> = Vec::new();
        core::mem::swap(&mut out, &mut self.outbox);
        proof {
            assert(self.outbox.deep_view() =~= Seq::<BusMessageV>::empty());
        }
        out
    }
}

/// A scan that passed entries of other channels leaves the lookup on the
/// suffix unchanged.
proof fn lemma_filters_for_skip(entries: Seq<ChannelFiltersV>, ch: ChannelIdentifierV, e: int)
    requires
        0 <= e <= entries.len(),
        forall|j: int| 0 <= j < e ==> entries[j].channel != ch,
    ensures
        spec_filters_for(entries, ch) == spec_filters_for(entries.skip(e), ch),
    decreases e,
{
    if e > 0 {
        assert(entries.drop_first() =~= entries.skip(1));
        assert(forall|j: int|
            0 <= j < e - 1 ==> entries.skip(1)[j] == entries[j + 1]);
        lemma_filters_for_skip(entries.skip(1), ch, e - 1);
        assert(entries.skip(1).skip(e - 1) =~= entries.skip(e));
    } else {
        assert(entries.skip(0) =~= entries);
    }
}

/// A channel with no entry has no filters.
proof fn lemma_filters_for_absent(entries: Seq<ChannelFiltersV>, ch: ChannelIdentifierV)
    requires
        forall|j: int| 0 <= j < entries.len() ==> entries[j].channel != ch,
    ensures
        spec_filters_for(entries, ch) == Seq::<FilterV>::empty(),
    decreases entries.len(),
{
    if entries.len() > 0 {
        assert(forall|j: int|
            0 <= j < entries.drop_first().len() ==> entries.drop_first()[j] == entries[j + 1]);
        lemma_filters_for_absent(entries.drop_first(), ch);
    }
}

/// Law: a blocking filter whose pattern matches the whole pipeline's
/// current text clears it, so nothing is delivered; and a replacing
/// filter without a configured replacement rewrites with the fixed
/// placeholder.
pub proof fn lemma_blocking_filter_clears(text: Seq<char>, fs: Seq<FilterV>)
    requires
        fs.len() > 0,
        fs[0].block_message,
        regex_compile_error(fs[0].regex) is None,
        regex_is_match(fs[0].regex, text),
    ensures
        spec_filter_pipeline(text, fs) == Seq::<char>::empty(),
{
}

/// Law: a replacing filter with no configured replacement rewrites with
/// the literal placeholder before the rest of the pipeline runs.
pub proof fn lemma_placeholder_replacement(text: Seq<char>, fs: Seq<FilterV>)
    requires
        fs.len() > 0,
        !fs[0].block_message,
        fs[0].replacement is None,
        regex_compile_error(fs[0].regex) is None,
    ensures
        spec_filter_pipeline(text, fs) == spec_filter_pipeline(
            regex_replace_all(fs[0].regex, text, "[Blocked]"@),
            fs.drop_first(),
        ),
{
}

} // verus!
