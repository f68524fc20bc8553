//! When to try again to connect to a server.

use vstd::prelude::*;

use crate::text::{digits, is_number, lemma_value_grows, number, parse_number, to_chars};

verus! {

/// The delay between two attempts where none is given, in milliseconds.
pub const DEFAULT_DELAY_MS: u64 = 3000;

/// Retry configuration for server connections.
#[derive(Debug, Clone, Copy, PartialEq, Eq, Structural)]
pub struct RetryConfig {
    pub delay_ms: u64,
    pub max_retries: Option<usize>,
}

/// Why a text is no retry configuration.
#[derive(Debug)]
pub enum RetryConfigError {
    /// The delay, which is given, is no number of milliseconds.
    InvalidDelay { part: String },
    /// The maximum of retries, which is given, is no number.
    InvalidMaxRetries { part: String },
}

/// What a retry configuration error tells.
pub enum RetryConfigErrorView {
    InvalidDelay { part: Seq<char> },
    InvalidMaxRetries { part: Seq<char> },
}

impl View for RetryConfigError {
    type V = RetryConfigErrorView;

    open spec fn view(&self) -> RetryConfigErrorView {
        match self {
            RetryConfigError::InvalidDelay { part } => RetryConfigErrorView::InvalidDelay {
                part: part@,
            },
            RetryConfigError::InvalidMaxRetries { part } => {
                RetryConfigErrorView::InvalidMaxRetries { part: part@ }
            },
        }
    }
}

/// Whether the first colon of a text is at the given index.
pub open spec fn first_colon_at(text: Seq<char>, at: int) -> bool {
    &&& 0 <= at < text.len()
    &&& text[at] == ':'
    &&& forall|i: int| 0 <= i < at ==> text[i] != ':'
}

/// The retry configuration that a delay and an optional maximum of retries give.
pub open spec fn config_of(delay: Seq<char>, max_retries: Option<Seq<char>>) -> Result<
    RetryConfig,
    RetryConfigErrorView,
> {
    match (number(delay, u64::MAX as int), max_retries) {
        (None, _) => Err(RetryConfigErrorView::InvalidDelay { part: delay }),
        (Some(delay_ms), None) => Ok(
            RetryConfig { delay_ms: delay_ms as u64, max_retries: None },
        ),
        (Some(delay_ms), Some(max_part)) => match number(max_part, usize::MAX as int) {
            None => Err(RetryConfigErrorView::InvalidMaxRetries { part: max_part }),
            Some(max) => Ok(
                RetryConfig { delay_ms: delay_ms as u64, max_retries: Some(max as usize) },
            ),
        },
    }
}

/// The retry configuration that a text gives: the default for an empty text, otherwise
/// the delay or, with a colon between them, the delay and the maximum of retries.
pub open spec fn retry_config(text: Seq<char>) -> Result<RetryConfig, RetryConfigErrorView> {
    if text.len() == 0 {
        Ok(RetryConfig { delay_ms: DEFAULT_DELAY_MS, max_retries: None })
    } else if exists|at: int| first_colon_at(text, at) {
        let at = choose|at: int| first_colon_at(text, at);
        config_of(text.take(at), Some(text.skip(at + 1)))
    } else {
        config_of(text, None)
    }
}

impl RetryConfig {
    /// Reads a retry configuration, such as `300` or `300:5`.
    pub fn parse(s: &str) -> (result: Result<RetryConfig, RetryConfigError>)
        ensures
            match result {
                Ok(config) => retry_config(s@) == Ok::<RetryConfig, RetryConfigErrorView>(config),
                Err(error) => retry_config(s@) == Err::<RetryConfig, RetryConfigErrorView>(error@),
            },
    {
        if s.is_empty() {
            return Ok(RetryConfig { delay_ms: DEFAULT_DELAY_MS, max_retries: None });
        }
        let chars = to_chars(s);
        let mut colon_pos: usize = 0;
        while colon_pos < chars.len() && chars[colon_pos] != ':'
            invariant
                colon_pos <= chars.len(),
                chars@ == s@,
                forall|i: int| 0 <= i < colon_pos ==> s@[i] != ':',
            decreases chars.len() - colon_pos,
        {
            colon_pos = colon_pos + 1;
        }
        if colon_pos < chars.len() {
            assert(first_colon_at(s@, colon_pos as int));
            let delay_part = s.substring_char(0, colon_pos);
            let max_retries_part = s.substring_char(colon_pos + 1, chars.len());
            assert(delay_part@ =~= s@.take(colon_pos as int));
            assert(max_retries_part@ =~= s@.skip(colon_pos + 1));
            let delay_ms = match parse_number(delay_part, u64::MAX) {
                Some(delay_ms) => delay_ms,
                None => {
                    return Err(RetryConfigError::InvalidDelay { part: delay_part.to_owned() });
                },
            };
            match parse_number(max_retries_part, usize::MAX as u64) {
                Some(max) => Ok(RetryConfig { delay_ms, max_retries: Some(max as usize) }),
                None => Err(
                    RetryConfigError::InvalidMaxRetries { part: max_retries_part.to_owned() },
                ),
            }
        } else {
            match parse_number(s, u64::MAX) {
                Some(delay_ms) => Ok(RetryConfig { delay_ms, max_retries: None }),
                None => Err(RetryConfigError::InvalidDelay { part: s.to_owned() }),
            }
        }
    }
}

/// The first colon parts the delay from the maximum of retries.
pub proof fn colon_parts_delay_from_maximum(delay: Seq<char>, max_retries: Seq<char>)
    requires
        !delay.contains(':'),
    ensures
        retry_config(delay + seq![':'] + max_retries) == config_of(delay, Some(max_retries)),
{
    let text = delay + seq![':'] + max_retries;
    assert(first_colon_at(text, delay.len() as int)) by {
        assert forall|i: int| 0 <= i < delay.len() implies text[i] != ':' by {
            assert(delay.contains(delay[i]));
        }
    }
    assert forall|at: int| first_colon_at(text, at) implies at == delay.len() by {}
    assert(text.take(delay.len() as int) =~= delay);
    assert(text.skip(delay.len() as int + 1) =~= max_retries);
}

/// A text without a colon is a delay, with no maximum of retries.
pub proof fn delay_alone_retries_indefinitely(delay: Seq<char>)
    requires
        delay.len() > 0,
        !delay.contains(':'),
    ensures
        retry_config(delay) == config_of(delay, None),
        retry_config(delay) matches Ok(config) ==> config.max_retries is None,
{
    assert forall|at: int| !first_colon_at(delay, at) by {
        if 0 <= at < delay.len() {
            assert(delay.contains(delay[at]));
        }
    }
}

/// A retry configuration in full: a delay that is a number counts in milliseconds, and so
/// does a number of retries behind a colon. Whichever part is no number is named by the
/// error, the delay first. Nothing at all is a delay of three seconds.
pub proof fn retry_configuration_in_full(delay: Seq<char>, max_retries: Seq<char>, d: int, m: int)
    requires
        !delay.contains(':'),
    ensures
        retry_config(Seq::empty()) == Ok::<RetryConfig, RetryConfigErrorView>(
            RetryConfig { delay_ms: 3000, max_retries: None },
        ),
        delay.len() > 0 && number(delay, 0xffff_ffff_ffff_ffff) == Some(d) ==> {
            &&& retry_config(delay) matches Ok(config)
            &&& config.delay_ms == d
            &&& config.max_retries is None
        },
        delay.len() > 0 && number(delay, 0xffff_ffff_ffff_ffff) is None ==> retry_config(delay)
            == Err::<RetryConfig, RetryConfigErrorView>(
            RetryConfigErrorView::InvalidDelay { part: delay },
        ),
        number(delay, 0xffff_ffff_ffff_ffff) == Some(d) && number(max_retries, usize::MAX as int)
            == Some(m) ==> {
            &&& retry_config(delay + seq![':'] + max_retries) matches Ok(config)
            &&& config.delay_ms == d
            &&& config.max_retries matches Some(max)
            &&& max == m
        },
        number(delay, 0xffff_ffff_ffff_ffff) is None ==> retry_config(
            delay + seq![':'] + max_retries,
        ) == Err::<RetryConfig, RetryConfigErrorView>(
            RetryConfigErrorView::InvalidDelay { part: delay },
        ),
        number(delay, 0xffff_ffff_ffff_ffff) is Some && number(max_retries, usize::MAX as int)
            is None ==> retry_config(delay + seq![':'] + max_retries) == Err::<
            RetryConfig,
            RetryConfigErrorView,
        >(RetryConfigErrorView::InvalidMaxRetries { part: max_retries }),
{
    colon_parts_delay_from_maximum(delay, max_retries);
    if delay.len() > 0 {
        delay_alone_retries_indefinitely(delay);
    }
    lemma_value_is_natural(delay);
    lemma_value_is_natural(max_retries);
}

/// What is read as a number is not negative.
proof fn lemma_value_is_natural(text: Seq<char>)
    ensures
        forall|max: int| #[trigger] number(text, max) matches Some(n) ==> n >= 0,
{
    if is_number(text) {
        lemma_value_grows(digits(text), 0);
    }
}

/// An error tells which part was wrong, as it was written.
pub proof fn error_tells_the_part(error: RetryConfigError)
    ensures
        match error {
            RetryConfigError::InvalidDelay { part } => error@ == (
            RetryConfigErrorView::InvalidDelay { part: part@ }),
            RetryConfigError::InvalidMaxRetries { part } => error@ == (
            RetryConfigErrorView::InvalidMaxRetries { part: part@ }),
        },
{
}

/// Reading a retry configuration gives what the text says: the configuration, or the error.
pub proof fn reading_in_full(s: &str, result: Result<RetryConfig, RetryConfigError>)
    requires
        call_ensures(RetryConfig::parse, (s,), result),
    ensures
        retry_config(s@) matches Ok(config) ==> result == Ok::<RetryConfig, RetryConfigError>(
            config,
        ),
        retry_config(s@) matches Err(why) ==> (result matches Err(error) && error@ == why),
{
}

} // verus!
