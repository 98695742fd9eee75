//! The settings of a run and what is said of a settings file that cannot be
//! read.

use crate::text::{decimal, occurs_in, contains, push_decimal};
use vstd::prelude::*;
use vstd::string::*;

verus! {

/// The settings of a run.
#[derive(Clone, Copy, PartialEq, Eq, Debug, Structural)]
pub struct Config {
    /// The frogs that the run is to simulate.
    pub total_frogs: usize,
    /// The number of workers.
    pub threads: usize,
}

/// What is wrong with the settings of a run.
#[derive(Clone, Copy, PartialEq, Eq, Debug, Structural)]
pub enum ConfigError {
    /// No frog is to be simulated.
    NoFrogs,
    /// There is no worker.
    NoThreads,
    /// There are more workers than frogs.
    MoreThreadsThanFrogs,
}

impl Config {
    /// Whether a run can be made with these settings: there is at least one
    /// worker, and no more workers than frogs.
    pub open spec fn acceptable(&self) -> bool {
        1 <= self.threads <= self.total_frogs
    }

    /// Says what is wrong with the settings, if anything is.
    pub fn check(&self) -> (outcome: Result<(), ConfigError>)
        ensures
            outcome.is_ok() <==> self.acceptable(),
            outcome == Err::<(), ConfigError>(ConfigError::NoFrogs) <==> self.total_frogs == 0,
            outcome == Err::<(), ConfigError>(ConfigError::NoThreads) <==> self.total_frogs > 0
                && self.threads == 0,
            outcome == Err::<(), ConfigError>(ConfigError::MoreThreadsThanFrogs)
                <==> self.total_frogs > 0 && self.threads > self.total_frogs,
    {
        if self.total_frogs == 0 {
            Err(ConfigError::NoFrogs)
        } else if self.threads == 0 {
            Err(ConfigError::NoThreads)
        } else if self.threads > self.total_frogs {
            Err(ConfigError::MoreThreadsThanFrogs)
        } else {
            Ok(())
        }
    }
}

/// What is said of a settings file that the parser refused with `message`:
/// the message alone where it speaks of something missing, else the message
/// with the place of the fault, as far as the parser knows it.
pub open spec fn parse_failure_text(message: Seq<char>, span: Option<(usize, usize)>) -> Seq<char> {
    if occurs_in("missing"@, message) {
        message
    } else {
        match span {
            Some((start, end)) => message + " at characters "@ + decimal(start as nat) + " to "@
                + decimal(end as nat),
            None => message + " at an unknown location"@,
        }
    }
}

/// Puts into words why a settings file was refused, from the message of the
/// parser and the characters that it points at.
pub fn parse_failure(message: &str, span: Option<(usize, usize)>) -> (text: String)
    ensures
        text@ == parse_failure_text(message@, span),
{
    let mut text = String::from_str(message);
    if contains(message, "missing") {
        return text;
    }
    match span {
        Some((start, end)) => {
            text.append(" at characters ");
            push_decimal(&mut text, start);
            text.append(" to ");
            push_decimal(&mut text, end);
        },
        None => {
            text.append(" at an unknown location");
        },
    }
    assert(text@ =~= parse_failure_text(message@, span));
    text
}

} // verus!
