//! Descriptions of the commands a client can send.

use crate::event_store::client::persistent;
use crate::types::{ExpectedVersion, PersistentSubscriptionSettings, SystemConsumerStrategy};
use std::time::Duration;
use vstd::prelude::*;
use vstd::string::StringExecFns;

verus! {

/// The version that a stream must have, in the shape the server expects.
#[derive(Clone, Copy, Debug, PartialEq, Eq, Structural)]
pub enum ExpectedStreamRevision {
    Any,
    StreamExists,
    NoStream,
    Revision(u64),
}

/// The expected version in the shape the server expects.
pub open spec fn expected_revision(version: ExpectedVersion) -> ExpectedStreamRevision {
    match version {
        ExpectedVersion::Any => ExpectedStreamRevision::Any,
        ExpectedVersion::StreamExists => ExpectedStreamRevision::StreamExists,
        ExpectedVersion::NoStream => ExpectedStreamRevision::NoStream,
        ExpectedVersion::Exact(version) => ExpectedStreamRevision::Revision(version),
    }
}

pub fn convert_expected_version(version: ExpectedVersion) -> (revision: ExpectedStreamRevision)
    ensures
        revision == expected_revision(version),
{
    match version {
        ExpectedVersion::Any => ExpectedStreamRevision::Any,
        ExpectedVersion::StreamExists => ExpectedStreamRevision::StreamExists,
        ExpectedVersion::NoStream => ExpectedStreamRevision::NoStream,
        ExpectedVersion::Exact(version) => ExpectedStreamRevision::Revision(version),
    }
}

/// The name and the password by which a client makes itself known.
#[derive(Clone, Debug, PartialEq, Eq)]
pub struct Credentials {
    pub login: Vec<u8>,
    pub password: Vec<u8>,
}

/// The text that `String::from_utf8_lossy` reads from these bytes: their
/// text where they are UTF-8, and otherwise a text in which a replacement
/// character stands for what is not.
pub uninterp spec fn lossy_text(bytes: Seq<u8>) -> Seq<char>;

/// The text that `base64::encode` hands out for the bytes of this text.
pub uninterp spec fn base64_text(text: Seq<char>) -> Seq<char>;

/// Calls `String::from_utf8_lossy`, which reads bytes as text and never
/// fails. What comes back is what `lossy_text` names for these bytes.
#[verifier::external_body]
fn from_utf8_lossy(bytes: &[u8]) -> (text: String)
    ensures
        text@ == lossy_text(bytes@),
{
    String::from_utf8_lossy(bytes).into_owned()
}

/// Calls `base64::encode` on the bytes of a text. What comes back is what
/// `base64_text` names for this text.
#[verifier::external_body]
fn base64_encode(text: &str) -> (encoded: String)
    ensures
        encoded@ == base64_text(text@),
{
    base64::encode(text)
}

/// The name and the password as they are encoded: with a colon in between.
pub open spec fn credentials_text(login: Seq<char>, password: Seq<char>) -> Seq<char> {
    login + ":"@ + password
}

/// The value of the header that makes a client known: the word `Basic`, a
/// blank and the encoded credentials.
pub open spec fn authorization_text(encoded: Seq<char>) -> Seq<char> {
    "Basic "@ + encoded
}

/// Joins a name and a password for encoding.
pub fn join_credentials(login: &str, password: &str) -> (joined: String)
    ensures
        joined@ == credentials_text(login@, password@),
{
    let mut joined = String::from_str(login);
    joined.append(":");
    joined.append(password);
    joined
}

/// The value of the authorization header for credentials that have been
/// encoded.
pub fn authorization_value(encoded: &str) -> (value: String)
    ensures
        value@ == authorization_text(encoded@),
{
    let mut value = String::from_str("Basic ");
    value.append(encoded);
    value
}

/// The value of the authorization header for these credentials: `Basic`
/// and the Base64 text of `login:password`, where the name and the password
/// are read as text with replacement characters for what is no UTF-8.
pub fn basic_auth(creds: &Credentials) -> (value: String)
    ensures
        value@ == authorization_text(
            base64_text(
                credentials_text(lossy_text(creds.login@), lossy_text(creds.password@)),
            ),
        ),
{
    let login = from_utf8_lossy(creds.login.as_slice());
    let password = from_utf8_lossy(creds.password.as_slice());
    let joined = join_credentials(login.as_str(), password.as_str());
    let encoded = base64_encode(joined.as_str());
    authorization_value(encoded.as_str())
}

/// The whole milliseconds that a span of time holds.
pub uninterp spec fn millis_of(span: Duration) -> u128;

/// Calls `Duration::as_millis`, which hands out the whole milliseconds that
/// the span holds.
#[verifier::external_body]
fn as_millis(span: &Duration) -> (millis: u128)
    ensures
        millis == millis_of(*span),
{
    span.as_millis()
}

/// The number that stands for a strategy in a message: 0 for
/// `DispatchToSingle`, 1 for `RoundRobin`, 2 for `Pinned`.
pub open spec fn consumer_strategy_number(strategy: SystemConsumerStrategy) -> i32 {
    match strategy {
        SystemConsumerStrategy::DispatchToSingle => 0,
        SystemConsumerStrategy::RoundRobin => 1,
        SystemConsumerStrategy::Pinned => 2,
    }
}

/// A span of time as the count of its milliseconds that a message holds:
/// the lowest 32 bits of the count, read with a sign.
pub open spec fn message_millis(span: Duration) -> i32 {
    millis_of(span) as i32
}

fn strategy_number(strategy: SystemConsumerStrategy) -> (number: i32)
    ensures
        number == consumer_strategy_number(strategy),
{
    match strategy {
        SystemConsumerStrategy::DispatchToSingle => 0,
        SystemConsumerStrategy::RoundRobin => 1,
        SystemConsumerStrategy::Pinned => 2,
    }
}

fn millis_for_message(span: &Duration) -> (millis: i32)
    ensures
        millis == message_millis(*span),
{
    #[verifier::truncate]
    (as_millis(span) as i32)
}

/// The settings of a subscription in the shape of the request that creates
/// it. Every field is carried over; the spans of time are given in
/// milliseconds and the strategy by its number.
pub fn convert_settings_create(settings: PersistentSubscriptionSettings) -> (converted:
    persistent::create_req::Settings)
    ensures
        converted == (persistent::create_req::Settings {
            resolve_links: settings.resolve_links,
            revision: settings.revision,
            extra_statistics: settings.extra_stats,
            message_timeout: Some(
                persistent::create_req::settings::MessageTimeout::MessageTimeoutMs(
                    message_millis(settings.message_timeout),
                ),
            ),
            max_retry_count: settings.max_retry_count,
            checkpoint_after: Some(
                persistent::create_req::settings::CheckpointAfter::CheckpointAfterMs(
                    message_millis(settings.checkpoint_after),
                ),
            ),
            min_checkpoint_count: settings.min_checkpoint_count,
            max_checkpoint_count: settings.max_checkpoint_count,
            max_subscriber_count: settings.max_subscriber_count,
            live_buffer_size: settings.live_buffer_size,
            read_batch_size: settings.read_batch_size,
            history_buffer_size: settings.history_buffer_size,
            named_consumer_strategy: consumer_strategy_number(settings.named_consumer_strategy),
        }),
{
    let named_consumer_strategy = strategy_number(settings.named_consumer_strategy);
    persistent::create_req::Settings {
        resolve_links: settings.resolve_links,
        revision: settings.revision,
        extra_statistics: settings.extra_stats,
        message_timeout: Some(
            persistent::create_req::settings::MessageTimeout::MessageTimeoutMs(
                millis_for_message(&settings.message_timeout),
            ),
        ),
        max_retry_count: settings.max_retry_count,
        checkpoint_after: Some(
            persistent::create_req::settings::CheckpointAfter::CheckpointAfterMs(
                millis_for_message(&settings.checkpoint_after),
            ),
        ),
        min_checkpoint_count: settings.min_checkpoint_count,
        max_checkpoint_count: settings.max_checkpoint_count,
        max_subscriber_count: settings.max_subscriber_count,
        live_buffer_size: settings.live_buffer_size,
        read_batch_size: settings.read_batch_size,
        history_buffer_size: settings.history_buffer_size,
        named_consumer_strategy,
    }
}

/// The settings of a subscription in the shape of the request that updates
/// it. Every field is carried over; the spans of time are given in
/// milliseconds and the strategy by its number.
pub fn convert_settings_update(settings: PersistentSubscriptionSettings) -> (converted:
    persistent::update_req::Settings)
    ensures
        converted == (persistent::update_req::Settings {
            resolve_links: settings.resolve_links,
            revision: settings.revision,
            extra_statistics: settings.extra_stats,
            message_timeout: Some(
                persistent::update_req::settings::MessageTimeout::MessageTimeoutMs(
                    message_millis(settings.message_timeout),
                ),
            ),
            max_retry_count: settings.max_retry_count,
            checkpoint_after: Some(
                persistent::update_req::settings::CheckpointAfter::CheckpointAfterMs(
                    message_millis(settings.checkpoint_after),
                ),
            ),
            min_checkpoint_count: settings.min_checkpoint_count,
            max_checkpoint_count: settings.max_checkpoint_count,
            max_subscriber_count: settings.max_subscriber_count,
            live_buffer_size: settings.live_buffer_size,
            read_batch_size: settings.read_batch_size,
            history_buffer_size: settings.history_buffer_size,
            named_consumer_strategy: consumer_strategy_number(settings.named_consumer_strategy),
        }),
{
    let named_consumer_strategy = strategy_number(settings.named_consumer_strategy);
    persistent::update_req::Settings {
        resolve_links: settings.resolve_links,
        revision: settings.revision,
        extra_statistics: settings.extra_stats,
        message_timeout: Some(
            persistent::update_req::settings::MessageTimeout::MessageTimeoutMs(
                millis_for_message(&settings.message_timeout),
            ),
        ),
        max_retry_count: settings.max_retry_count,
        checkpoint_after: Some(
            persistent::update_req::settings::CheckpointAfter::CheckpointAfterMs(
                millis_for_message(&settings.checkpoint_after),
            ),
        ),
        min_checkpoint_count: settings.min_checkpoint_count,
        max_checkpoint_count: settings.max_checkpoint_count,
        max_subscriber_count: settings.max_subscriber_count,
        live_buffer_size: settings.live_buffer_size,
        read_batch_size: settings.read_batch_size,
        history_buffer_size: settings.history_buffer_size,
        named_consumer_strategy,
    }
}

/// How many events a filtered read looks at before it reports a checkpoint.
#[derive(Debug)]
pub enum Window {
    /// Look at no more than this many events.
    Max(u32),
    /// Count the events that matched.
    Count,
}

/// What a filtered read compares: a regular expression, or a list of prefixes.
#[derive(Debug)]
pub struct Expression {
    pub regex: String,
    pub prefix: Vec<String>,
}

/// The part of an event that the expression is held against.
#[derive(Debug)]
pub enum Filter {
    StreamIdentifier(Expression),
    EventType(Expression),
}

/// The filter of a read of the `$all` stream, in the shape the server expects.
#[derive(Debug)]
pub struct FilterOptions {
    pub filter: Option<Filter>,
    pub window: Option<Window>,
    pub checkpoint_interval_multiplier: u32,
}

/// A filter under construction.
pub struct FilterConf {
    based_on_stream: bool,
    max: Option<u32>,
    regex: Option<String>,
    prefixes: Vec<String>,
}

/// What a `FilterConf` holds, as mathematical values.
pub ghost struct FilterConfView {
    pub based_on_stream: bool,
    pub max: Option<u32>,
    pub regex: Option<Seq<char>>,
    pub prefixes: Seq<Seq<char>>,
}

/// The texts of a list of strings, in order.
pub open spec fn texts(strings: Seq<String>) -> Seq<Seq<char>> {
    strings.map_values(|s: String| s@)
}

impl View for FilterConf {
    type V = FilterConfView;

    closed spec fn view(&self) -> FilterConfView {
        FilterConfView {
            based_on_stream: self.based_on_stream,
            max: self.max,
            regex: match self.regex {
                Some(r) => Some(r@),
                None => None,
            },
            prefixes: texts(self.prefixes@),
        }
    }
}

impl FilterConf {
    /// A filter on stream names, with no limit, no expression and no prefix.
    pub fn based_on_stream_name() -> (conf: Self)
        ensures
            conf@ == (FilterConfView {
                based_on_stream: true,
                max: None,
                regex: None,
                prefixes: Seq::empty(),
            }),
    {
        let conf = FilterConf { based_on_stream: true, max: None, regex: None, prefixes: Vec::new() };
        assert(texts(conf.prefixes@) =~= Seq::empty());
        conf
    }

    /// A filter on event types, with no limit, no expression and no prefix.
    pub fn based_on_event_type() -> (conf: Self)
        ensures
            conf@ == (FilterConfView {
                based_on_stream: false,
                max: None,
                regex: None,
                prefixes: Seq::empty(),
            }),
    {
        let mut temp = FilterConf::based_on_stream_name();
        temp.based_on_stream = false;
        temp
    }

    /// Sets the number of events to look at; everything else stays.
    pub fn max(self, max: u32) -> (conf: Self)
        ensures
            conf@ == (FilterConfView { max: Some(max), ..self@ }),
    {
        FilterConf { max: Some(max), ..self }
    }

    /// Sets the regular expression; everything else stays.
    pub fn regex(self, regex: String) -> (conf: Self)
        ensures
            conf@ == (FilterConfView { regex: Some(regex@), ..self@ }),
    {
        FilterConf { regex: Some(regex), ..self }
    }

    /// Adds a prefix behind those already given; everything else stays.
    pub fn add_prefix(self, prefix: String) -> (conf: Self)
        ensures
            conf@ == (FilterConfView { prefixes: self@.prefixes.push(prefix@), ..self@ }),
    {
        let mut conf = self;
        conf.prefixes.push(prefix);
        assert(texts(conf.prefixes@) =~= texts(self.prefixes@).push(prefix@));
        conf
    }

    /// The filter in the shape the server expects: the window is `Max` where a
    /// limit was set and `Count` where none was, a missing regular expression
    /// is the empty text, and the checkpoint interval multiplier is one.
    pub fn into_proto(self) -> (options: FilterOptions)
        ensures
            options.checkpoint_interval_multiplier == 1,
            options.window == Some(
                match self@.max {
                    Some(max) => Window::Max(max),
                    None => Window::Count,
                },
            ),
            match options.filter {
                Some(Filter::StreamIdentifier(expr)) => self@.based_on_stream && expression_is(
                    expr,
                    self@,
                ),
                Some(Filter::EventType(expr)) => !self@.based_on_stream && expression_is(
                    expr,
                    self@,
                ),
                None => false,
            },
    {
        let window = match self.max {
            Some(max) => Window::Max(max),
            None => Window::Count,
        };
        let regex = match self.regex {
            Some(regex) => regex,
            None => String::new(),
        };
        let expr = Expression { regex, prefix: self.prefixes };
        let filter = if self.based_on_stream {
            Filter::StreamIdentifier(expr)
        } else {
            Filter::EventType(expr)
        };
        FilterOptions { filter: Some(filter), window: Some(window), checkpoint_interval_multiplier: 1 }
    }
}

/// Whether an expression holds the regular expression and the prefixes of a
/// filter: the empty text stands for a regular expression that was not set.
pub open spec fn expression_is(expr: Expression, conf: FilterConfView) -> bool {
    &&& expr.regex@ == match conf.regex {
        Some(regex) => regex,
        None => Seq::empty(),
    }
    &&& texts(expr.prefix@) == conf.prefixes
}

} // verus!
