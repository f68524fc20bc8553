//! What the command line says.

use vstd::prelude::*;

use crate::retry::{retry_config, RetryConfig, RetryConfigError, RetryConfigErrorView};

verus! {

/// How much is logged.
#[derive(Debug, Clone, Copy, PartialEq, Eq, Structural)]
pub enum LevelFilter {
    Warn,
    Info,
    Debug,
    Trace,
}

/// The name of the machine.
#[derive(Debug)]
pub enum Hostname {
    /// The name, as text.
    Text { name: String },
    /// The machine has a name that is no text.
    NotUnicode,
    /// The name cannot be had.
    Unavailable,
}

/// Why the client has no name.
#[derive(Debug, Clone, Copy, PartialEq, Eq, Structural)]
pub enum ClientNameError {
    /// The hostname cannot be had.
    NoHostname,
    /// The hostname contains invalid UTF-8.
    InvalidUtf8,
}

/// The arguments of the client.
#[derive(Debug)]
pub struct Args {
    /// The address of the server, a host with an optional port.
    pub server: Option<String>,
    /// The name of the client; the hostname where none is given.
    pub name: Option<String>,
    /// The retry configuration.
    pub retry: Option<String>,
    /// How often more output was asked for.
    pub verbose: u8,
}

/// Calls `hostname::get`.
///
/// The name is whatever the machine is called at the time of the call: nothing is
/// promised of it.
#[verifier::external_body]
fn system_hostname() -> (hostname: Hostname) {
    match hostname::get() {
        Ok(name) => match name.into_string() {
            Ok(name) => Hostname::Text { name },
            Err(_) => Hostname::NotUnicode,
        },
        Err(_) => Hostname::Unavailable,
    }
}

/// The client name that a hostname gives.
pub open spec fn hostname_gives(hostname: Hostname) -> Result<String, ClientNameError> {
    match hostname {
        Hostname::Text { name } => Ok(name),
        Hostname::NotUnicode => Err(ClientNameError::InvalidUtf8),
        Hostname::Unavailable => Err(ClientNameError::NoHostname),
    }
}

/// The name of a client that is called after its machine.
pub fn name_from_hostname(hostname: Hostname) -> (name: Result<String, ClientNameError>)
    ensures
        name == hostname_gives(hostname),
{
    match hostname {
        Hostname::Text { name } => Ok(name),
        Hostname::NotUnicode => Err(ClientNameError::InvalidUtf8),
        Hostname::Unavailable => Err(ClientNameError::NoHostname),
    }
}

/// The level of output that a number of verbosity flags asks for.
pub open spec fn log_level(verbose: u8) -> LevelFilter {
    if verbose == 0 {
        LevelFilter::Warn
    } else if verbose == 1 {
        LevelFilter::Info
    } else if verbose == 2 {
        LevelFilter::Debug
    } else {
        LevelFilter::Trace
    }
}

impl Args {
    /// The name that the client gives itself at the server: the one on the command line
    /// or, where there is none, the hostname.
    pub fn get_client_name(&self) -> (name: Result<String, ClientNameError>)
        ensures
            match self.name {
                Some(given) => name == Ok::<String, ClientNameError>(given),
                None => exists|hostname: Hostname| name == #[trigger] hostname_gives(hostname),
            },
    {
        match &self.name {
            Some(name) => Ok(name.clone()),
            None => name_from_hostname(system_hostname()),
        }
    }

    /// How much to log.
    pub fn get_log_level(&self) -> (level: LevelFilter)
        ensures
            level == log_level(self.verbose),
    {
        match self.verbose {
            0 => LevelFilter::Warn,
            1 => LevelFilter::Info,
            2 => LevelFilter::Debug,
            _ => LevelFilter::Trace,
        }
    }

    /// The retry configuration, where one is asked for.
    pub fn get_retry_config(&self) -> (result: Result<Option<RetryConfig>, RetryConfigError>)
        ensures
            match self.retry {
                None => result == Ok::<Option<RetryConfig>, RetryConfigError>(None),
                Some(text) => match result {
                    Ok(config) => config matches Some(config) && retry_config(text@) == Ok::<
                        RetryConfig,
                        RetryConfigErrorView,
                    >(config),
                    Err(error) => retry_config(text@) == Err::<RetryConfig, RetryConfigErrorView>(
                        error@,
                    ),
                },
            },
    {
        match &self.retry {
            None => Ok(None),
            Some(text) => match RetryConfig::parse(text.as_str()) {
                Ok(config) => Ok(Some(config)),
                Err(error) => Err(error),
            },
        }
    }
}

/// More verbosity flags never log less: none gives warnings, one gives information, two
/// give debug output, and any more give traces.
pub proof fn verbosity_in_full(verbose: u8)
    ensures
        log_level(verbose) is Warn <==> verbose == 0,
        log_level(verbose) is Info <==> verbose == 1,
        log_level(verbose) is Debug <==> verbose == 2,
        log_level(verbose) is Trace <==> verbose >= 3,
{
}

/// A client without a name of its own has the hostname, letter by letter, or the error
/// that says why there is none.
pub proof fn hostname_is_the_name(name: String)
    ensures
        hostname_gives(Hostname::Text { name }) == Ok::<String, ClientNameError>(name),
        hostname_gives(Hostname::NotUnicode) == Err::<String, ClientNameError>(
            ClientNameError::InvalidUtf8,
        ),
        hostname_gives(Hostname::Unavailable) == Err::<String, ClientNameError>(
            ClientNameError::NoHostname,
        ),
{
}

/// What the command line says is done: a given name is the client's name, the flags decide
/// how much is logged, and a retry configuration is read where there is one.
pub proof fn arguments_in_full(
    args: Args,
    name: Result<String, ClientNameError>,
    level: LevelFilter,
    retry: Result<Option<RetryConfig>, RetryConfigError>,
)
    requires
        call_ensures(Args::get_client_name, (&args,), name),
        call_ensures(Args::get_log_level, (&args,), level),
        call_ensures(Args::get_retry_config, (&args,), retry),
    ensures
        args.name matches Some(given) ==> name == Ok::<String, ClientNameError>(given),
        level is Warn <==> args.verbose == 0,
        level is Info <==> args.verbose == 1,
        level is Debug <==> args.verbose == 2,
        level is Trace <==> args.verbose >= 3,
        args.retry is None ==> retry == Ok::<Option<RetryConfig>, RetryConfigError>(None),
        args.retry matches Some(text) ==> {
            &&& retry_config(text@) matches Ok(config) ==> retry == Ok::<
                Option<RetryConfig>,
                RetryConfigError,
            >(Some(config))
            &&& retry_config(text@) matches Err(why) ==> (retry matches Err(error) && error@
                == why)
        },
{
}

} // verus!
