//! Where to connect: the token, the endpoint and the keepalive interval that
//! the exchange hands out, and the rule for asking again when it does not.

use crate::decimal::{decimal_text, format_u64};
use crate::models::ServerRoot;
use vstd::prelude::*;
use vstd::string::StringExecFns;

verus! {

/// Attempts to obtain a configuration before giving up.
pub const MAX_ATTEMPTS: u32 = 5;

/// Milliseconds to wait between two attempts.
pub const RETRY_DELAY_MILLIS: u64 = 1000;

/// What a session needs to connect. The interval is in milliseconds.
pub struct ServerConfig {
    pub token: String,
    pub endpoint: String,
    pub ping_interval: u64,
}

impl ServerConfig {
    /// The configuration that a response offers: its token, with the
    /// endpoint and the interval of its first server. `None` where the
    /// response lists no server.
    pub fn from_response(response: &ServerRoot) -> (cfg: Option<ServerConfig>)
        ensures
            match cfg {
                Some(cfg) => {
                    &&& response.data.instance_servers@.len() > 0
                    &&& cfg.token@ == response.data.token@
                    &&& cfg.endpoint@ == response.data.instance_servers@[0].endpoint@
                    &&& cfg.ping_interval == response.data.instance_servers@[0].ping_interval
                },
                None => response.data.instance_servers@.len() == 0,
            },
    {
        if response.data.instance_servers.len() == 0 {
            return None;
        }
        let first = &response.data.instance_servers[0];
        Some(
            ServerConfig {
                token: response.data.token.clone(),
                endpoint: first.endpoint.clone(),
                ping_interval: first.ping_interval,
            },
        )
    }
}

/// What to do after a failed attempt.
#[derive(Clone, Copy, Debug, PartialEq, Eq, Structural)]
pub enum RetryStep {
    /// Wait, then try again. `failures` counts the attempts that failed so
    /// far.
    Retry { failures: u32, delay_millis: u64 },
    /// Stop: `failures` attempts were made and all failed.
    GiveUp { failures: u32 },
}

/// Counts the failed attempts to obtain a configuration.
pub struct Bootstrap {
    failures: u32,
}

impl Bootstrap {
    /// The attempts that failed so far.
    pub closed spec fn failures(&self) -> nat {
        self.failures as nat
    }

    /// No attempt made yet.
    pub fn new() -> (bootstrap: Self)
        ensures
            bootstrap.failures() == 0,
    {
        Bootstrap { failures: 0 }
    }

    /// Records a failed attempt and says what to do next: try again after
    /// [`RETRY_DELAY_MILLIS`] until [`MAX_ATTEMPTS`] attempts have failed,
    /// then give up. Once given up, the count stays.
    pub fn attempt_failed(&mut self) -> (step: RetryStep)
        ensures
            final(self).failures() == if old(self).failures() < MAX_ATTEMPTS {
                old(self).failures() + 1
            } else {
                old(self).failures()
            },
            step == if final(self).failures() < MAX_ATTEMPTS {
                (RetryStep::Retry {
                    failures: final(self).failures() as u32,
                    delay_millis: RETRY_DELAY_MILLIS,
                })
            } else {
                (RetryStep::GiveUp { failures: final(self).failures() as u32 })
            },
    {
        if self.failures < MAX_ATTEMPTS {
            self.failures = self.failures + 1;
        }
        if self.failures < MAX_ATTEMPTS {
            RetryStep::Retry { failures: self.failures, delay_millis: RETRY_DELAY_MILLIS }
        } else {
            RetryStep::GiveUp { failures: self.failures }
        }
    }
}

/// The line that tells of a retry.
pub open spec fn retry_text(failures: u32) -> Seq<char> {
    "Failed to get Kucoin server endpoint, retrying ("@ + decimal_text(failures as nat) + "/"@
        + decimal_text(MAX_ATTEMPTS as nat) + ")"@
}

/// The line that tells of giving up, with the cause of the last failure.
pub open spec fn give_up_text(failures: u32, cause: Seq<char>) -> Seq<char> {
    "Failed to get server info after "@ + decimal_text(failures as nat) + " attempts: "@ + cause
}

/// The line that tells of a retry after `failures` failed attempts.
pub fn retry_message(failures: u32) -> (line: String)
    ensures
        line@ == retry_text(failures),
{
    let mut line = String::from_str("Failed to get Kucoin server endpoint, retrying (");
    line.append(format_u64(failures as u64).as_str());
    line.append("/");
    line.append(format_u64(MAX_ATTEMPTS as u64).as_str());
    line.append(")");
    line
}

/// The line that tells of giving up after `failures` failed attempts, the
/// last of them for `cause`.
pub fn give_up_message(failures: u32, cause: &str) -> (line: String)
    ensures
        line@ == give_up_text(failures, cause@),
{
    let mut line = String::from_str("Failed to get server info after ");
    line.append(format_u64(failures as u64).as_str());
    line.append(" attempts: ");
    line.append(cause);
    line
}

} // verus!
