//! How the client starts: waiting for its devices, and reaching its server.

use vstd::prelude::*;

use crate::args::Args;
use crate::retry::RetryConfig;
use crate::text::{contains_text, has_part, part_is_found_anywhere};

verus! {

/// How long to wait for devices, in milliseconds.
pub const MAX_WAIT_MS: u64 = 10_000;

/// How long to sleep before looking for devices again, in milliseconds.
pub const POLL_INTERVAL_MS: u64 = 50;

/// What a look for devices has shown.
#[derive(Debug, Clone, Copy, PartialEq, Eq, Structural)]
pub enum Poll {
    /// The events of the connection have been processed.
    Processed { has_keyboard: bool, has_pointer: bool },
    /// The connection has failed.
    Failed,
}

/// What to do while waiting for devices.
#[derive(Debug, Clone, Copy, PartialEq, Eq, Structural)]
pub enum WaitStep {
    /// Look for devices.
    Poll,
    /// Sleep for the given time, and see how long it has been.
    Sleep { ms: u64 },
    /// Go on: the devices are ready.
    Ready,
    /// Go on without the devices.
    GiveUp,
}

/// Whether to look for devices, after some time of waiting.
pub fn wait_for_devices(elapsed_ms: u64) -> (step: WaitStep)
    ensures
        step == if elapsed_ms < MAX_WAIT_MS {
            WaitStep::Poll
        } else {
            WaitStep::GiveUp
        },
{
    if elapsed_ms < MAX_WAIT_MS {
        WaitStep::Poll
    } else {
        WaitStep::GiveUp
    }
}

/// What to do after a look for devices: both a keyboard and a pointer are needed.
pub fn after_poll(poll: Poll) -> (step: WaitStep)
    ensures
        step == match poll {
            Poll::Processed { has_keyboard, has_pointer } => if has_keyboard && has_pointer {
                WaitStep::Ready
            } else {
                WaitStep::Sleep { ms: POLL_INTERVAL_MS }
            },
            Poll::Failed => WaitStep::GiveUp,
        },
{
    match poll {
        Poll::Processed { has_keyboard, has_pointer } => {
            if has_keyboard && has_pointer {
                WaitStep::Ready
            } else {
                WaitStep::Sleep { ms: POLL_INTERVAL_MS }
            }
        },
        Poll::Failed => WaitStep::GiveUp,
    }
}

/// How to reach the server.
#[derive(Debug)]
pub enum ConnectionPlan {
    /// Wait for the server to connect to the inherited socket.
    Accept,
    /// Connect to the server.
    Connect {
        server: String,
        /// The time between two attempts in milliseconds, where it is not the usual one.
        retry_interval_ms: Option<u64>,
        /// How many attempts there are, where they are limited.
        retry_count: Option<usize>,
    },
}

/// There is neither a server address nor an inherited socket.
#[derive(Debug, Clone, Copy, PartialEq, Eq, Structural)]
pub struct NoServer;

/// The time between two attempts that a retry configuration asks for.
pub open spec fn retry_interval(retry: Option<RetryConfig>) -> Option<u64> {
    match retry {
        Some(config) => Some(config.delay_ms),
        None => None,
    }
}

/// The number of attempts that a retry configuration asks for: a single one without a
/// retry configuration, no limit where it names no maximum, and otherwise the first
/// attempt and as many retries as it names, as far as that can be counted.
pub open spec fn retry_count(retry: Option<RetryConfig>) -> Option<usize> {
    match retry {
        Some(config) => match config.max_retries {
            Some(max) if max < usize::MAX => Some((max + 1) as usize),
            max_retries => max_retries,
        },
        None => Some(1),
    }
}

/// Decides how to reach the server. An inherited socket comes before a server address.
pub fn plan_connection(args: &Args, inherited_socket: bool, retry: Option<RetryConfig>) -> (plan:
    Result<ConnectionPlan, NoServer>)
    ensures
        match args.server {
            _ if inherited_socket => plan == Ok::<ConnectionPlan, NoServer>(
                ConnectionPlan::Accept,
            ),
            Some(server) => plan == Ok::<ConnectionPlan, NoServer>(
                ConnectionPlan::Connect {
                    server,
                    retry_interval_ms: retry_interval(retry),
                    retry_count: retry_count(retry),
                },
            ),
            None => plan == Err::<ConnectionPlan, NoServer>(NoServer),
        },
{
    if inherited_socket {
        return Ok(ConnectionPlan::Accept);
    }
    match &args.server {
        Some(server) => {
            let (retry_interval_ms, retry_count) = match retry {
                Some(config) => (
                    Some(config.delay_ms),
                    match config.max_retries {
                        Some(max) if max < usize::MAX => Some(max + 1),
                        max_retries => max_retries,
                    },
                ),
                None => (None, Some(1)),
            };
            Ok(ConnectionPlan::Connect { server: server.clone(), retry_interval_ms, retry_count })
        },
        None => Err(NoServer),
    }
}

/// The escape sequence for the color of log messages from the given source: blue for the
/// Synergy protocol, green for EI, magenta for the portal, and none for anything else.
pub open spec fn color_of(target: Seq<char>) -> Seq<char> {
    if has_part(target, "synergy"@) {
        "\x1b[34m"@
    } else if has_part(target, "ei"@) {
        "\x1b[32m"@
    } else if has_part(target, "portal"@) {
        "\x1b[35m"@
    } else {
        ""@
    }
}

/// The escape sequence for the color of log messages from the given source.
pub fn log_color(target: &str) -> (color: &'static str)
    ensures
        color@ == color_of(target@),
{
    if contains_text(target, "synergy") {
        "\x1b[34m"
    } else if contains_text(target, "ei") {
        "\x1b[32m"
    } else if contains_text(target, "portal") {
        "\x1b[35m"
    } else {
        ""
    }
}

/// The escape sequence that ends a color, where there is one.
pub fn log_reset(color: &str) -> (reset: &'static str)
    ensures
        reset@ == if color@.len() == 0 {
            ""@
        } else {
            "\x1b[0m"@
        },
{
    if color.is_empty() {
        ""
    } else {
        "\x1b[0m"
    }
}

/// Devices are waited for during ten seconds, and looked for every fifty milliseconds,
/// until there are both a keyboard and a pointer or the connection fails.
pub proof fn waiting_in_full(elapsed_ms: u64, poll: Poll, waited: WaitStep, polled: WaitStep)
    requires
        call_ensures(wait_for_devices, (elapsed_ms,), waited),
        call_ensures(after_poll, (poll,), polled),
    ensures
        elapsed_ms < 10_000 ==> waited is Poll,
        elapsed_ms >= 10_000 ==> waited is GiveUp,
        polled is Ready <==> poll == (Poll::Processed { has_keyboard: true, has_pointer: true }),
        polled is GiveUp <==> poll is Failed,
        !(polled is Ready) && !(polled is GiveUp) ==> polled == (WaitStep::Sleep { ms: 50 }),
{
}

/// A maximum of retries is counted after the first attempt, without a maximum there is no
/// limit, and without a retry configuration there is a single attempt.
pub proof fn retries_follow_the_first_attempt(delay_ms: u64, max: usize)
    ensures
        retry_interval(Some(RetryConfig { delay_ms, max_retries: Some(max) })) == Some(delay_ms),
        retry_interval(Some(RetryConfig { delay_ms, max_retries: None })) == Some(delay_ms),
        retry_interval(None) is None,
        retry_count(Some(RetryConfig { delay_ms, max_retries: Some(max) })) matches Some(attempts)
            && (attempts == max + 1 || (attempts == max && max == usize::MAX)),
        retry_count(Some(RetryConfig { delay_ms, max_retries: None })) is None,
        retry_count(None) == Some(1usize),
{
}

/// An inherited socket comes before a server address, a server address is used as it is,
/// and without either there is nothing to do.
pub proof fn connection_plan_in_full(
    args: Args,
    inherited_socket: bool,
    retry: Option<RetryConfig>,
    plan: Result<ConnectionPlan, NoServer>,
)
    requires
        call_ensures(plan_connection, (&args, inherited_socket, retry), plan),
    ensures
        inherited_socket ==> plan == Ok::<ConnectionPlan, NoServer>(ConnectionPlan::Accept),
        !inherited_socket && args.server is None ==> plan is Err,
        !inherited_socket ==> (args.server matches Some(address) ==> {
            &&& plan matches Ok(ConnectionPlan::Connect { server, retry_interval_ms, retry_count: n })
            &&& server == address
            &&& retry_interval_ms == retry_interval(retry)
            &&& n == retry_count(retry)
        }),
{
}

/// Log messages are colored by the name of their source, wherever in it the word stands:
/// blue before green, green before magenta, and no color without any of the words.
pub proof fn colors_in_full(target: Seq<char>)
    ensures
        (exists|a: Seq<char>, b: Seq<char>| target == #[trigger] (a + "synergy"@ + b)) ==> color_of(
            target,
        ) == "\x1b[34m"@,
        !(exists|a: Seq<char>, b: Seq<char>| target == #[trigger] (a + "synergy"@ + b)) && (exists|
            a: Seq<char>,
            b: Seq<char>,
        | target == #[trigger] (a + "ei"@ + b)) ==> color_of(target) == "\x1b[32m"@,
        !(exists|a: Seq<char>, b: Seq<char>| target == #[trigger] (a + "synergy"@ + b)) && !(exists|
            a: Seq<char>,
            b: Seq<char>,
        | target == #[trigger] (a + "ei"@ + b)) && (exists|a: Seq<char>, b: Seq<char>|
            target == #[trigger] (a + "portal"@ + b)) ==> color_of(target) == "\x1b[35m"@,
        !(exists|a: Seq<char>, b: Seq<char>| target == #[trigger] (a + "synergy"@ + b)) && !(exists|
            a: Seq<char>,
            b: Seq<char>,
        | target == #[trigger] (a + "ei"@ + b)) && !(exists|a: Seq<char>, b: Seq<char>|
            target == #[trigger] (a + "portal"@ + b)) ==> color_of(target) == ""@,
{
    part_is_found_anywhere(target, "synergy"@);
    part_is_found_anywhere(target, "ei"@);
    part_is_found_anywhere(target, "portal"@);
}

/// A color is ended exactly where there is one.
pub proof fn colors_end(color: &str, reset: &'static str)
    requires
        call_ensures(log_reset, (color,), reset),
    ensures
        color@.len() > 0 ==> reset@ == "\x1b[0m"@,
        color@.len() == 0 ==> reset@ == ""@,
{
}

} // verus!
