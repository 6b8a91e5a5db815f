//! Uptime checks of a fixed list of endpoints.

use vstd::prelude::*;

verus! {

/// The outcome of one check.
pub struct ServiceHealth {
    pub name: String,
    pub url: String,
    pub is_up: bool,
    pub status_code: Option<u16>,
    pub latency_ms: Option<u128>,
    /// Wall-clock start of the check, in milliseconds since the Unix epoch.
    pub checked_at_ms: u128,
    pub error: Option<String>,
}

/// What a probe of an endpoint came back with.
pub enum ProbeOutcome {
    /// The endpoint answered with this HTTP status.
    Responded { status: u16 },
    /// No answer: timeout, refused connection or another transport error.
    Failed { error: String },
}

/// Milliseconds after which a probe is given up.
pub const PROBE_TIMEOUT_MS: u64 = 8000;

pub open spec fn is_success_status(status: u16) -> bool {
    200 <= status <= 299
}

pub open spec fn fallback_error() -> Seq<char> {
    "request failed"@
}

/// The endpoints that are checked, as (name, URL).
pub fn health_targets() -> (r: Vec<(String, String)>)
    ensures
        r@.len() == 4,
        r@[0].0@ == "Trisolaris"@ && r@[0].1@ == "https://app.florianraith.com/up"@,
        r@[1].0@ == "Spliit"@ && r@[1].1@ == "https://spliit.florianraith.com/api/health"@,
        r@[2].0@ == "Partnerportal (Dev)"@ && r@[2].1@ == "https://dev-portal.zewotherm.com/up"@,
        r@[3].0@ == "Partnerportal (Prod)"@ && r@[3].1@ == "https://portal.zewotherm.com/up"@,
{
    let mut r: Vec<(String, String)> = Vec::new();
    r.push(("Trisolaris".to_owned(), "https://app.florianraith.com/up".to_owned()));
    r.push(("Spliit".to_owned(), "https://spliit.florianraith.com/api/health".to_owned()));
    r.push(("Partnerportal (Dev)".to_owned(), "https://dev-portal.zewotherm.com/up".to_owned()));
    r.push(("Partnerportal (Prod)".to_owned(), "https://portal.zewotherm.com/up".to_owned()));
    r
}

/// The result of checking `name` at `url`, started at `checked_at_ms` and
/// finished `elapsed_ms` later. A failed probe still gives a full result:
/// down, no status, the latency, and a message that is never empty.
pub fn health_from_probe(
    name: &str,
    url: &str,
    checked_at_ms: u128,
    elapsed_ms: u128,
    outcome: ProbeOutcome,
) -> (r: ServiceHealth)
    ensures
        r.name@ == name@,
        r.url@ == url@,
        r.checked_at_ms == checked_at_ms,
        r.latency_ms == Some(elapsed_ms),
        match outcome {
            ProbeOutcome::Responded { status } => {
                &&& r.is_up == is_success_status(status)
                &&& r.status_code == Some(status)
                &&& r.error is None
            },
            ProbeOutcome::Failed { error } => {
                &&& !r.is_up
                &&& r.status_code is None
                &&& r.error is Some
                &&& r.error->0@ == if error@.len() > 0 {
                    error@
                } else {
                    fallback_error()
                }
                &&& r.error->0@.len() > 0
            },
        },
{
    match outcome {
        ProbeOutcome::Responded { status } => ServiceHealth {
            name: name.to_owned(),
            url: url.to_owned(),
            is_up: 200 <= status && status <= 299,
            status_code: Some(status),
            latency_ms: Some(elapsed_ms),
            checked_at_ms,
            error: None,
        },
        ProbeOutcome::Failed { error } => {
            let message = if error.as_str().is_empty() {
                proof {
                    reveal_strlit("request failed");
                }
                "request failed".to_owned()
            } else {
                error
            };
            ServiceHealth {
                name: name.to_owned(),
                url: url.to_owned(),
                is_up: false,
                status_code: None,
                latency_ms: Some(elapsed_ms),
                checked_at_ms,
                error: Some(message),
            }
        },
    }
}

} // verus!
