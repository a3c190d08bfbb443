//! What is asked of an approval system and what comes back.

use vstd::prelude::*;
use vstd::string::*;
use vstd::utf8::encode_utf8;

use crate::config::defaults::ONE_BITS;
use crate::config::error::quoted;
use crate::config::schema::copy_texts;
use crate::governance::task::types::Principal;
use crate::json::{Json, JsonView};
use crate::text::{chars_of, numeral, parse_number, parsed, substring_of, texts};
use crate::text_laws::law_numerals_are_read_back;
use crate::time::{Duration, Timestamp};

verus! {

/// Request to post an approval message to an outside system.
#[derive(Clone)]
pub struct ApprovalRequest<T = String, J = Json, L = Vec<String>> {
    /// The task that is to be approved.
    pub task_id: T,
    /// Name of the tool.
    pub tool_name: T,
    /// Arguments of the call.
    pub tool_arguments: J,
    /// Who asks.
    pub principal: Principal<T, L>,
    /// When the task expires.
    pub expires_at: Timestamp,
    /// When the request was made.
    pub created_at: Timestamp,
    /// Correlation ID for tracing.
    pub correlation_id: T,
    /// Fields of the arguments that must not be shown.
    pub redact_fields: L,
}

/// An approval request with its strings taken as character sequences.
pub type ApprovalRequestView = ApprovalRequest<Seq<char>, JsonView, Seq<Seq<char>>>;

impl ApprovalRequest {
    /// The request with its strings taken as character sequences.
    pub open spec fn view(self) -> ApprovalRequestView {
        ApprovalRequest {
            task_id: self.task_id@,
            tool_name: self.tool_name@,
            tool_arguments: self.tool_arguments@,
            principal: self.principal@,
            expires_at: self.expires_at,
            created_at: self.created_at,
            correlation_id: self.correlation_id@,
            redact_fields: texts(self.redact_fields@),
        }
    }

    /// The request as it may be written to a log: without the arguments.
    pub fn for_log(&self) -> (r: Self)
        ensures
            r@ == (ApprovalRequest::<Seq<char>, JsonView, Seq<Seq<char>>> {
                tool_arguments: JsonView::String("[REDACTED]"@),
                ..self@
            }),
    {
        ApprovalRequest {
            task_id: self.task_id.clone(),
            tool_name: self.tool_name.clone(),
            tool_arguments: Json::String("[REDACTED]".to_owned()),
            principal: self.principal.copy(),
            expires_at: self.expires_at,
            created_at: self.created_at,
            correlation_id: self.correlation_id.clone(),
            redact_fields: copy_texts(&self.redact_fields),
        }
    }
}

/// Reference to a posted approval message.
#[derive(Debug, Clone)]
pub struct ApprovalReference<T = String> {
    /// The task that is to be approved.
    pub task_id: T,
    /// Identifier in the outside system.
    pub external_id: T,
    /// Channel or place.
    pub channel: T,
    /// When the message was posted.
    pub posted_at: Timestamp,
    /// When to poll next.
    pub next_poll_at: Timestamp,
    /// Number of polls so far.
    pub poll_count: u32,
}

impl ApprovalReference {
    /// The reference with its strings taken as character sequences.
    pub open spec fn view(self) -> ApprovalReference<Seq<char>> {
        ApprovalReference {
            task_id: self.task_id@,
            external_id: self.external_id@,
            channel: self.channel@,
            posted_at: self.posted_at,
            next_poll_at: self.next_poll_at,
            poll_count: self.poll_count,
        }
    }
}

/// The decision that a poll found.
#[derive(Debug, Clone, Copy, PartialEq, Eq, Structural)]
pub enum PollDecision {
    /// The request was approved.
    Approved,
    /// The request was rejected.
    Rejected,
}

/// How the decision was given.
#[derive(Debug, Clone, PartialEq, Eq)]
pub enum DecisionMethod<T = String> {
    /// By an emoji reaction.
    Reaction { emoji: T },
    /// By a reply.
    Reply { text: T },
}

/// Result of polling for an approval decision.
#[derive(Debug, Clone, PartialEq, Eq)]
pub struct PollResult<T = String> {
    /// The decision.
    pub decision: PollDecision,
    /// Who made it.
    pub decided_by: T,
    /// When it was found.
    pub decided_at: Timestamp,
    /// How it was given.
    pub method: DecisionMethod<T>,
}

impl PollResult {
    /// The result with its strings taken as character sequences.
    pub open spec fn view(self) -> PollResult<Seq<char>> {
        PollResult {
            decision: self.decision,
            decided_by: self.decided_by@,
            decided_at: self.decided_at,
            method: self.method@,
        }
    }
}

/// The number of characters of a reply that a description shows.
pub const PREVIEW_CHARS: usize = 30;

impl DecisionMethod<Seq<char>> {
    /// Description for people: the emoji, or the beginning of the reply, with
    /// dots where the reply is longer than 30 bytes.
    pub open spec fn text(self) -> Seq<char> {
        match self {
            DecisionMethod::Reaction { emoji } => ":"@ + emoji + ": reaction"@,
            DecisionMethod::Reply { text } => {
                let preview = if text.len() > PREVIEW_CHARS {
                    text.take(PREVIEW_CHARS as int)
                } else {
                    text
                };
                if encode_utf8(text).len() > PREVIEW_CHARS {
                    "reply \""@ + preview + "...\""@
                } else {
                    "reply \""@ + preview + "\""@
                }
            },
        }
    }
}

impl DecisionMethod {
    /// The method with its string taken as a character sequence.
    pub open spec fn view(self) -> DecisionMethod<Seq<char>> {
        match self {
            DecisionMethod::Reaction { emoji } => DecisionMethod::Reaction { emoji: emoji@ },
            DecisionMethod::Reply { text } => DecisionMethod::Reply { text: text@ },
        }
    }

    /// Returns a description for people.
    pub fn description(&self) -> (r: String)
        ensures
            r@ == self@.text(),
    {
        match self {
            DecisionMethod::Reaction { emoji } => quoted(":", emoji.as_str(), ": reaction"),
            DecisionMethod::Reply { text } => {
                let chars = chars_of(text.as_str());
                let shown: usize = if chars.len() > PREVIEW_CHARS {
                    PREVIEW_CHARS
                } else {
                    chars.len()
                };
                let preview = substring_of(&chars, 0, shown);
                assert(chars@.subrange(0, chars@.len() as int) =~= chars@);
                assert(chars@.subrange(0, shown as int) =~= chars@.take(shown as int));
                if text.as_str().as_bytes().len() > PREVIEW_CHARS {
                    quoted("reply \"", preview.as_str(), "...\"")
                } else {
                    quoted("reply \"", preview.as_str(), "\"")
                }
            },
        }
    }
}

/// Errors of approval adapters.
#[derive(Debug, Clone)]
pub enum AdapterError<T = String> {
    /// The approval request could not be posted.
    PostFailed { reason: T, retriable: bool },
    /// The poll failed.
    PollFailed { reason: T, retriable: bool },
    /// The outside system limits the rate.
    RateLimited { retry_after: Duration },
    /// The token is not valid any more.
    InvalidToken,
    /// There is no such channel.
    ChannelNotFound { channel: T },
    /// There is no such message.
    MessageNotFound { ts: T },
}

impl AdapterError {
    /// The error with its strings taken as character sequences.
    pub open spec fn view(self) -> AdapterError<Seq<char>> {
        match self {
            AdapterError::PostFailed { reason, retriable } => AdapterError::PostFailed {
                reason: reason@,
                retriable,
            },
            AdapterError::PollFailed { reason, retriable } => AdapterError::PollFailed {
                reason: reason@,
                retriable,
            },
            AdapterError::RateLimited { retry_after } => AdapterError::RateLimited { retry_after },
            AdapterError::InvalidToken => AdapterError::InvalidToken,
            AdapterError::ChannelNotFound { channel } => AdapterError::ChannelNotFound {
                channel: channel@,
            },
            AdapterError::MessageNotFound { ts } => AdapterError::MessageNotFound { ts: ts@ },
        }
    }

    /// Returns whether the operation can be tried again.
    pub fn is_retriable(&self) -> (r: bool)
        ensures
            r == self@.can_retry(),
    {
        match self {
            AdapterError::PostFailed { retriable, .. } => *retriable,
            AdapterError::PollFailed { retriable, .. } => *retriable,
            AdapterError::RateLimited { .. } => true,
            AdapterError::InvalidToken => false,
            AdapterError::ChannelNotFound { .. } => false,
            AdapterError::MessageNotFound { .. } => false,
        }
    }

    /// The text that tells a person what is wrong.
    pub fn message(&self) -> (r: String)
        ensures
            r@ == self@.text(),
    {
        match self {
            AdapterError::PostFailed { reason, .. } => "Failed to post approval request: "
                .to_owned()
                .concat(reason.as_str()),
            AdapterError::PollFailed { reason, .. } => "Failed to poll for decision: "
                .to_owned()
                .concat(reason.as_str()),
            AdapterError::RateLimited { retry_after } => "Rate limited, retry after "
                .to_owned()
                .concat(retry_after.to_text().as_str()),
            AdapterError::InvalidToken => "Invalid or expired authentication token".to_owned(),
            AdapterError::ChannelNotFound { channel } => "Channel not found: ".to_owned().concat(
                channel.as_str(),
            ),
            AdapterError::MessageNotFound { ts } => "Message not found: ".to_owned().concat(
                ts.as_str(),
            ),
        }
    }
}

impl AdapterError<Seq<char>> {
    /// Whether the operation can be tried again.
    pub open spec fn can_retry(self) -> bool {
        match self {
            AdapterError::PostFailed { retriable, .. } => retriable,
            AdapterError::PollFailed { retriable, .. } => retriable,
            AdapterError::RateLimited { .. } => true,
            _ => false,
        }
    }

    /// The text that tells a person what is wrong.
    pub open spec fn text(self) -> Seq<char> {
        match self {
            AdapterError::PostFailed { reason, .. } => "Failed to post approval request: "@
                + reason,
            AdapterError::PollFailed { reason, .. } => "Failed to poll for decision: "@ + reason,
            AdapterError::RateLimited { retry_after } => "Rate limited, retry after "@
                + retry_after.text(),
            AdapterError::InvalidToken => "Invalid or expired authentication token"@,
            AdapterError::ChannelNotFound { channel } => "Channel not found: "@ + channel,
            AdapterError::MessageNotFound { ts } => "Message not found: "@ + ts,
        }
    }
}

/// Configuration of the polling scheduler.
#[derive(Debug, Clone, Copy, PartialEq, Eq, Structural)]
pub struct PollingConfig {
    /// Polling interval at first.
    pub base_interval: Duration,
    /// Longest polling interval.
    pub max_interval: Duration,
    /// Most polls at a time.
    pub max_concurrent: usize,
    /// How long an approval is valid once it is given.
    pub approval_valid_for: Duration,
    /// Calls of the outside system per second, as the bits of a
    /// double-precision number.
    pub rate_limit_per_sec_bits: u64,
}

impl Default for PollingConfig {
    fn default() -> (r: Self)
        ensures
            r == polling_config(None, None, None, ONE_BITS),
    {
        PollingConfig {
            base_interval: Duration::from_secs(5),
            max_interval: Duration::from_secs(30),
            max_concurrent: 100,
            approval_valid_for: Duration::from_secs(60),
            rate_limit_per_sec_bits: ONE_BITS,
        }
    }
}

/// A number of seconds given as text, or a default where none is given or the
/// text is no number.
pub open spec fn secs_or(text: Option<Seq<char>>, default: nat) -> Duration {
    match text {
        Some(t) => match parsed(t, u64::MAX as nat) {
            Some(n) => Duration::of_secs(n),
            None => Duration::of_secs(default),
        },
        None => Duration::of_secs(default),
    }
}

/// Reads a number of seconds, with a default.
pub(crate) fn read_secs_or(text: Option<&str>, default: u64) -> (r: Duration)
    ensures
        r == secs_or(
            match text {
                Some(t) => Some(t@),
                None => None,
            },
            default as nat,
        ),
{
    if let Some(t) = text {
        if let Some(n) = parse_number(t, u64::MAX) {
            return Duration::from_secs(n);
        }
    }
    Duration::from_secs(default)
}

/// The polling configuration for values given as texts: base and longest
/// interval in seconds, and most polls at a time.
pub open spec fn polling_config(
    base: Option<Seq<char>>,
    max: Option<Seq<char>>,
    concurrent: Option<Seq<char>>,
    rate_limit_bits: u64,
) -> PollingConfig {
    PollingConfig {
        base_interval: secs_or(base, 5),
        max_interval: secs_or(max, 30),
        max_concurrent: match concurrent {
            Some(t) => match parsed(t, usize::MAX as nat) {
                Some(n) => n as usize,
                None => 100,
            },
            None => 100,
        },
        approval_valid_for: Duration::of_secs(60),
        rate_limit_per_sec_bits: rate_limit_bits,
    }
}

/// The interval after a number of polls: twice as long after each of the first
/// three, and never longer than the longest interval.
pub open spec fn backoff(config: PollingConfig, poll_count: int) -> Duration {
    let factor: int = if poll_count <= 0 {
        1
    } else if poll_count == 1 {
        2
    } else if poll_count == 2 {
        4
    } else {
        8
    };
    if config.base_interval.nanos * factor > config.max_interval.nanos {
        config.max_interval
    } else {
        Duration { nanos: (config.base_interval.nanos * factor) as u128 }
    }
}

impl PollingConfig {
    /// The configuration for the values of environment variables:
    /// `THOUGHTGATE_APPROVAL_POLL_INTERVAL_SECS`,
    /// `THOUGHTGATE_APPROVAL_POLL_MAX_INTERVAL_SECS` and
    /// `THOUGHTGATE_MAX_CONCURRENT_POLLS`, where they are set, and the rate limit.
    pub fn from_env(
        base: Option<&str>,
        max: Option<&str>,
        concurrent: Option<&str>,
        rate_limit_bits: u64,
    ) -> (r: Self)
        ensures
            r == polling_config(
                match base {
                    Some(t) => Some(t@),
                    None => None,
                },
                match max {
                    Some(t) => Some(t@),
                    None => None,
                },
                match concurrent {
                    Some(t) => Some(t@),
                    None => None,
                },
                rate_limit_bits,
            ),
    {
        let max_concurrent: usize = match concurrent {
            Some(t) => match parse_number(t, usize::MAX as u64) {
                Some(n) => n as usize,
                None => 100,
            },
            None => 100,
        };
        PollingConfig {
            base_interval: read_secs_or(base, 5),
            max_interval: read_secs_or(max, 30),
            max_concurrent,
            approval_valid_for: Duration::from_secs(60),
            rate_limit_per_sec_bits: rate_limit_bits,
        }
    }

    /// Calculate the interval after a number of polls.
    pub fn backoff_interval(&self, poll_count: u32) -> (r: Duration)
        ensures
            r == backoff(*self, poll_count as int),
    {
        let factor: u128 = if poll_count == 0 {
            1
        } else if poll_count == 1 {
            2
        } else if poll_count == 2 {
            4
        } else {
            8
        };
        if self.base_interval.nanos > self.max_interval.nanos / factor {
            proof {
                assert(self.base_interval.nanos * factor > self.max_interval.nanos) by (nonlinear_arith)
                    requires
                        self.base_interval.nanos > self.max_interval.nanos / factor,
                        factor > 0,
                ;
            }
            self.max_interval
        } else {
            proof {
                assert(self.base_interval.nanos * factor <= self.max_interval.nanos) by (nonlinear_arith)
                    requires
                        self.base_interval.nanos <= self.max_interval.nanos / factor,
                        factor > 0,
                ;
            }
            Duration { nanos: self.base_interval.nanos * factor }
        }
    }
}

/// The interval never exceeds its limit and never shrinks from poll to poll.
pub proof fn law_backoff_grows_to_its_limit(config: PollingConfig, polls: int, more: int)
    requires
        0 <= polls <= more,
    ensures
        backoff(config, polls).nanos <= config.max_interval.nanos,
        backoff(config, polls).nanos <= backoff(config, more).nanos,
{
}

/// The interval doubles from poll to poll, three times at most, as long as it is
/// below its limit; it begins with the base interval.
pub proof fn law_backoff_doubles(config: PollingConfig, polls: int)
    requires
        0 <= polls,
    ensures
        config.base_interval.nanos <= config.max_interval.nanos ==> backoff(config, 0)
            == config.base_interval,
        polls < 3 && backoff(config, polls + 1).nanos < config.max_interval.nanos ==> backoff(
            config,
            polls + 1,
        ).nanos == 2 * backoff(config, polls).nanos,
        polls < 3 && 2 * backoff(config, polls).nanos >= config.max_interval.nanos ==> backoff(
            config,
            polls + 1,
        ) == config.max_interval,
        polls >= 3 ==> backoff(config, polls) == backoff(config, 3),
{
}

/// A number of seconds that is written is what is read; without it, or where it is
/// no number, the default holds.
pub proof fn law_seconds_are_read(n: nat, default: nat)
    requires
        n <= u64::MAX,
    ensures
        secs_or(Some(numeral(n)), default) == Duration::of_secs(n),
        secs_or(None, default) == Duration::of_secs(default),
        secs_or(Some(Seq::empty()), default) == Duration::of_secs(default),
{
    law_numerals_are_read_back(n, n, u64::MAX as nat);
}

/// What can be tried again: what the outside system says can be, and what it only
/// limits the rate of; never what a token, a channel or a message is missing for.
pub proof fn law_what_can_be_retried(error: AdapterError<Seq<char>>)
    ensures
        error is RateLimited ==> error.can_retry(),
        error is InvalidToken || error is ChannelNotFound || error is MessageNotFound
            ==> !error.can_retry(),
        error is PostFailed ==> error.can_retry() == error->PostFailed_retriable,
        error is PollFailed ==> error.can_retry() == error->PollFailed_retriable,
{
}

/// The polling settings are the ones that are written, each in its place, and the
/// defaults where nothing is: five and thirty seconds, and a hundred polls at a time.
/// An approval holds for a minute once it is given.
pub proof fn law_polling_settings_are_read(base: u64, max: u64, concurrent: u16, bits: u64)
    ensures
        ({
            let read = polling_config(
                Some(numeral(base as nat)),
                Some(numeral(max as nat)),
                Some(numeral(concurrent as nat)),
                bits,
            );
            let unset = polling_config(None, None, None, bits);
            &&& read.base_interval.nanos == base * 1_000_000_000
            &&& read.max_interval.nanos == max * 1_000_000_000
            &&& read.max_concurrent == concurrent
            &&& read.approval_valid_for.nanos == 60_000_000_000
            &&& read.rate_limit_per_sec_bits == bits
            &&& unset.base_interval.nanos == 5_000_000_000
            &&& unset.max_interval.nanos == 30_000_000_000
            &&& unset.max_concurrent == 100
            &&& unset.approval_valid_for.nanos == 60_000_000_000
            &&& unset.rate_limit_per_sec_bits == bits
        }),
{
    law_numerals_are_read_back(base as nat, 0, u64::MAX as nat);
    law_numerals_are_read_back(max as nat, 0, u64::MAX as nat);
    law_numerals_are_read_back(concurrent as nat, 0, usize::MAX as nat);
}

} // verus!
