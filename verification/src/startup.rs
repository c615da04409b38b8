//! What a run is to do, decided from its arguments and its environment
//! before any cycle starts: a configuration that cannot work is refused here.

use crate::calendar::DAY_SECONDS;
use crate::calendar::EARLIEST_SECONDS;
use crate::calendar::in_calendar;
use crate::calendar::Instant;
use crate::calendar::parse_seconds;
use crate::calendar::parsed_seconds;
use crate::render::OutputFormat;
use crate::schedule::needs_day_before;
use crate::schedule::reaches_back;
use crate::schedule::ScheduleKind;
use crate::text::chars_of;
use vstd::prelude::*;
use vstd::string::StringExecFns;

verus! {

/// The form a simulated time is given in: `YYYY-MM-DDTHH:MM:SS`.
pub const TIME_PATTERN: &'static str = "%Y-%m-%dT%H:%M:%S";

/// What was asked for on the command line.
#[derive(Debug)]
pub struct Request {
    /// Keep running, a cycle a day; else run one cycle.
    pub in_loop: bool,
    /// Run the first cycle at once; else wait for the next trigger.
    pub at_once: bool,
    /// The channel to post to, if it was given.
    pub channel: Option<u64>,
    /// The form of the output.
    pub format: OutputFormat,
    /// An instant to take for the current one, as `YYYY-MM-DDTHH:MM:SS`.
    pub at_time: Option<String>,
}

/// What the environment holds.
#[derive(Debug)]
pub struct Environment {
    /// Whether the credential of the chat client is set.
    pub has_token: bool,
    /// The channel to post to, as text, if it is set.
    pub channel: Option<String>,
}

/// What a run is to do.
#[derive(Clone, Copy, Debug, PartialEq, Eq)]
pub enum Plan {
    /// Print reports in a text form.
    Text { format: OutputFormat, run_once: bool, immediate: bool, simulated: Option<Instant> },
    /// Post reports to a chat channel.
    Chat { channel: u64, run_once: bool, immediate: bool },
}

/// Why a configuration is refused.
#[derive(Clone, Copy, Debug, PartialEq, Eq, Structural)]
pub enum ConfigError {
    /// The simulated time is not of the form `YYYY-MM-DDTHH:MM:SS`, or is out
    /// of the calendar's reach.
    InvalidTime,
    /// A simulated time was given for the chat form.
    SimulatedChat,
    /// The credential of the chat client is not set.
    TokenMissing,
    /// No channel was given and none is set.
    ChannelMissing,
    /// The channel that is set is not a number, or is zero.
    ChannelInvalid,
}

/// Whether `c` is a decimal digit.
pub open spec fn is_digit(c: char) -> bool {
    48 <= c as u32 <= 57
}

/// The number that the decimal digits `s` write; 0 for no digits.
pub open spec fn digits_value(s: Seq<char>) -> nat
    decreases s.len(),
{
    if s.len() == 0 {
        0
    } else {
        digits_value(s.drop_last()) * 10 + (s.last() as u32 - 48) as nat
    }
}

/// Whether `s` holds decimal digits only.
pub open spec fn all_digits(s: Seq<char>) -> bool {
    forall|j: int| 0 <= j < s.len() ==> is_digit(#[trigger] s[j])
}

/// `s` without the `+` it may start with.
pub open spec fn unsigned_digits(s: Seq<char>) -> Seq<char> {
    if s.len() > 0 && s[0] == '+' {
        s.skip(1)
    } else {
        s
    }
}

/// The number that `s` writes: decimal digits, at least one, after at most one
/// `+`, if what they write is no more than `u64::MAX`.
pub open spec fn unsigned_of(s: Seq<char>) -> Option<u64> {
    let digits = unsigned_digits(s);
    if digits.len() > 0 && all_digits(digits) && digits_value(digits) <= u64::MAX {
        Some(digits_value(digits) as u64)
    } else {
        None
    }
}

proof fn lemma_digits_grow(s: Seq<char>, k: int)
    requires
        0 <= k <= s.len(),
    ensures
        digits_value(s.take(k)) <= digits_value(s),
    decreases s.len() - k,
{
    if k < s.len() {
        lemma_digits_grow(s, k + 1);
        assert(s.take(k + 1).drop_last() == s.take(k));
    } else {
        assert(s.take(k) == s);
    }
}

/// Reads a number from `text`.
pub fn parse_unsigned(text: &str) -> (r: Option<u64>)
    ensures
        r == unsigned_of(text@),
{
    let s = chars_of(text);
    let start: usize = if s.len() > 0 && s[0] == '+' {
        1
    } else {
        0
    };
    let ghost digits = unsigned_digits(s@);
    if start == s.len() {
        return None;
    }
    let mut value: u64 = 0;
    let mut k: usize = start;
    while k < s.len()
        invariant
            s@ == text@,
            start <= k <= s.len(),
            start < s.len(),
            digits == unsigned_digits(s@),
            digits == s@.skip(start as int),
            all_digits(digits.take(k - start)),
            value == digits_value(digits.take(k - start)),
        decreases s.len() - k,
    {
        let c: u32 = s[k] as u32;
        if c < 48 || c > 57 {
            assert(!is_digit(digits[k - start]));
            return None;
        }
        let d: u64 = (c - 48) as u64;
        assert(digits.take(k - start + 1).drop_last() == digits.take(k - start));
        if value > (u64::MAX - d) / 10 {
            proof {
                lemma_digits_grow(digits, k - start + 1);
            }
            return None;
        }
        value = value * 10 + d;
        k += 1;
    }
    assert(digits.take(digits.len() as int) == digits);
    Some(value)
}

/// A `Plan` with its simulated time in seconds since 1970-01-01 00:00:00 UTC.
pub enum PlanView {
    Text { format: OutputFormat, run_once: bool, immediate: bool, simulated: Option<int> },
    Chat { channel: u64, run_once: bool, immediate: bool },
}

impl View for Plan {
    type V = PlanView;

    open spec fn view(&self) -> PlanView {
        match *self {
            Plan::Text { format, run_once, immediate, simulated } => PlanView::Text {
                format,
                run_once,
                immediate,
                simulated: match simulated {
                    Some(at) => Some(at@),
                    None => None,
                },
            },
            Plan::Chat { channel, run_once, immediate } => PlanView::Chat {
                channel,
                run_once,
                immediate,
            },
        }
    }
}

/// A decision with its plan as plain values.
pub open spec fn plan_view(r: Result<Plan, ConfigError>) -> Result<PlanView, ConfigError> {
    match r {
        Ok(plan) => Ok(plan@),
        Err(error) => Err(error),
    }
}

/// Whether a simulated instant can be resolved: the calendar covers it, and
/// also the day before where the primary schedule reaches back to it.
pub open spec fn within_reach(secs: int) -> bool {
    in_calendar(secs) && (reaches_back(secs, ScheduleKind::Primary) ==> secs - DAY_SECONDS
        >= EARLIEST_SECONDS)
}

/// The channel to post to: the one of the command line, else the one the
/// environment names. It must be a number other than zero.
pub open spec fn channel_of(request: Request, environment: Environment) -> Result<
    u64,
    ConfigError,
> {
    match request.channel {
        Some(id) => if id != 0 {
            Ok(id)
        } else {
            Err(ConfigError::ChannelInvalid)
        },
        None => match environment.channel {
            None => Err(ConfigError::ChannelMissing),
            Some(text) => match unsigned_of(text@) {
                Some(id) => if id != 0 {
                    Ok(id)
                } else {
                    Err(ConfigError::ChannelInvalid)
                },
                None => Err(ConfigError::ChannelInvalid),
            },
        },
    }
}

/// The decision on a configuration, with the simulated time already read:
/// `simulated` is `None` where none was given, `Some(None)` where what was
/// given is no time, and `Some(Some(secs))` where it is the instant `secs`.
/// A simulated time must be a time within reach. A text form needs nothing
/// else; with a simulated time it runs once and at once. The chat form takes
/// no simulated time, needs the credential, and needs a channel.
pub open spec fn decision(
    request: Request,
    environment: Environment,
    simulated: Option<Option<int>>,
) -> Result<PlanView, ConfigError> {
    if simulated == Some(None::<int>) || (simulated matches Some(Some(secs)) && !within_reach(
        secs,
    )) {
        Err(ConfigError::InvalidTime)
    } else if request.format != OutputFormat::Discord {
        Ok(
            PlanView::Text {
                format: request.format,
                run_once: !request.in_loop || simulated is Some,
                immediate: request.at_once || simulated is Some,
                simulated: match simulated {
                    Some(read) => read,
                    None => None,
                },
            },
        )
    } else if simulated is Some {
        Err(ConfigError::SimulatedChat)
    } else if !environment.has_token {
        Err(ConfigError::TokenMissing)
    } else {
        match channel_of(request, environment) {
            Ok(channel) => Ok(
                PlanView::Chat { channel, run_once: !request.in_loop, immediate: request.at_once },
            ),
            Err(error) => Err(error),
        }
    }
}

/// What was read of a simulated time, with its seconds as an integer.
pub open spec fn seconds_read(simulated: Option<Option<i64>>) -> Option<Option<int>> {
    match simulated {
        None => None,
        Some(None) => Some(None),
        Some(Some(secs)) => Some(Some(secs as int)),
    }
}

/// Decides on a configuration whose simulated time is already read.
pub fn decide(request: &Request, environment: &Environment, simulated: Option<Option<i64>>) -> (r:
    Result<Plan, ConfigError>)
    ensures
        plan_view(r) == decision(*request, *environment, seconds_read(simulated)),
{
    let at = match simulated {
        Some(None) => {
            return Err(ConfigError::InvalidTime);
        },
        Some(Some(secs)) => {
            match Instant::from_unix_seconds(secs) {
                Some(at) => {
                    if needs_day_before(&at, ScheduleKind::Primary) && secs - DAY_SECONDS
                        < EARLIEST_SECONDS {
                        return Err(ConfigError::InvalidTime);
                    }
                    Some(at)
                },
                None => {
                    return Err(ConfigError::InvalidTime);
                },
            }
        },
        None => None,
    };
    if request.format != OutputFormat::Discord {
        return Ok(
            Plan::Text {
                format: request.format,
                run_once: !request.in_loop || simulated.is_some(),
                immediate: request.at_once || simulated.is_some(),
                simulated: at,
            },
        );
    }
    if simulated.is_some() {
        return Err(ConfigError::SimulatedChat);
    }
    if !environment.has_token {
        return Err(ConfigError::TokenMissing);
    }
    let channel = match request.channel {
        Some(id) => Some(id),
        None => match &environment.channel {
            Some(text) => parse_unsigned(text.as_str()),
            None => {
                return Err(ConfigError::ChannelMissing);
            },
        },
    };
    match channel {
        Some(id) => {
            if id != 0 {
                Ok(Plan::Chat { channel: id, run_once: !request.in_loop, immediate: request.at_once })
            } else {
                Err(ConfigError::ChannelInvalid)
            }
        },
        None => Err(ConfigError::ChannelInvalid),
    }
}

/// What a simulated time reads as: nothing where none is given, else what the
/// text holds in the form `YYYY-MM-DDTHH:MM:SS`.
pub open spec fn simulated_of(request: Request) -> Option<Option<int>> {
    match request.at_time {
        Some(text) => Some(parsed_seconds(text@, TIME_PATTERN@)),
        None => None,
    }
}

/// Decides what a run is to do, or why it cannot start.
pub fn plan_startup(request: &Request, environment: &Environment) -> (r: Result<Plan, ConfigError>)
    ensures
        plan_view(r) == decision(*request, *environment, simulated_of(*request)),
{
    let simulated = match &request.at_time {
        Some(text) => Some(parse_seconds(text.as_str(), TIME_PATTERN)),
        None => None,
    };
    decide(request, environment, simulated)
}

/// What to tell of a configuration that is refused.
pub open spec fn refusal(error: ConfigError, request: Request) -> Seq<char> {
    match error {
        ConfigError::InvalidTime => "Invalid time format: "@ + (match request.at_time {
            Some(text) => text@,
            None => Seq::empty(),
        }) + ". Use YYYY-MM-DDTHH:MM:SS"@,
        ConfigError::SimulatedChat => "--at-time is not supported with Discord output format. Use --output-format txt/md/html instead."@,
        ConfigError::TokenMissing => "TOKEN environment variable not set"@,
        ConfigError::ChannelMissing => "CHANNEL_ID environment variable not set"@,
        ConfigError::ChannelInvalid => "CHANNEL_ID must be a valid number"@,
    }
}

/// What to tell of a configuration that is refused.
pub fn describe(error: ConfigError, request: &Request) -> (message: String)
    ensures
        message@ == refusal(error, *request),
{
    match error {
        ConfigError::InvalidTime => {
            let mut message = String::from_str("Invalid time format: ");
            match &request.at_time {
                Some(text) => {
                    message.append(text.as_str());
                },
                None => {
                },
            }
            message.append(". Use YYYY-MM-DDTHH:MM:SS");
            message
        },
        ConfigError::SimulatedChat => String::from_str(
            "--at-time is not supported with Discord output format. Use --output-format txt/md/html instead.",
        ),
        ConfigError::TokenMissing => String::from_str("TOKEN environment variable not set"),
        ConfigError::ChannelMissing => String::from_str("CHANNEL_ID environment variable not set"),
        ConfigError::ChannelInvalid => String::from_str("CHANNEL_ID must be a valid number"),
    }
}

} // verus!
