//! Unresolved issues of the error tracker, and the age of an issue.

use vstd::prelude::*;
use crate::error::{ErrorKind, SourceError};
use crate::json::{
    Json, array_of, as_array, as_str, as_u64, at, deref_opt, member, str_of, str_or, text_or, u64_of,
};
use crate::text::{
    all_digits, contains_seq, contains_text, decimal, decimal_string, decimal_u64,
    lemma_decimal_is_digits, parse_u64,
};

verus! {

/// The instant that an RFC 3339 timestamp denotes, as seconds since the Unix
/// epoch and the nanoseconds within that second; `None` when the text is
/// not such a timestamp.
pub uninterp spec fn rfc3339_instant(s: Seq<char>) -> Option<(i64, u32)>;

/// Relies on chrono's `DateTime::parse_from_rfc3339`, read through
/// `timestamp` and `timestamp_subsec_nanos`: the instant depends on the text
/// alone.
#[verifier::external_body]
fn parse_rfc3339(s: &str) -> (r: Option<(i64, u32)>)
    ensures
        r == rfc3339_instant(s@),
{
    match chrono::DateTime::parse_from_rfc3339(s) {
        Ok(t) => Some((t.timestamp(), t.timestamp_subsec_nanos())),
        Err(_) => None,
    }
}

/// Relies on chrono's `From<SystemTime> for DateTime<Utc>`, applied to
/// `SystemTime::now`: the current time, as seconds since the Unix epoch
/// and the nanoseconds within that second. Unlike `Utc::now`, the
/// conversion also takes a clock set before 1970.
#[verifier::external_body]
fn utc_now() -> (r: (i64, u32)) {
    let t = chrono::DateTime::<chrono::Utc>::from(std::time::SystemTime::now());
    (t.timestamp(), t.timestamp_subsec_nanos())
}

pub open spec fn nanos_per_sec() -> int {
    1_000_000_000
}

/// Whole seconds from `first` to `now`; `0` when `now` is not later.
pub open spec fn elapsed_secs(first: (i64, u32), now: (i64, u32)) -> nat {
    let total = (now.0 - first.0) * nanos_per_sec() + now.1 - first.1;
    if total <= 0 {
        0
    } else {
        (total / nanos_per_sec()) as nat
    }
}

/// An age in its largest whole unit that is not zero: days, else hours,
/// else minutes, else seconds.
pub open spec fn age_text(secs: nat) -> Seq<char> {
    if secs >= 86400 {
        decimal(secs / 86400).push('d')
    } else if secs >= 3600 {
        decimal(secs / 3600).push('h')
    } else if secs >= 60 {
        decimal(secs / 60).push('m')
    } else {
        decimal(secs).push('s')
    }
}

/// An age is one number in one unit: decimal digits followed by a single
/// `d`, `h`, `m` or `s`, never a combination of units.
pub proof fn lemma_age_single_unit(secs: nat)
    ensures
        age_text(secs).len() >= 2,
        all_digits(age_text(secs).drop_last()),
        age_text(secs).last() == 'd' || age_text(secs).last() == 'h' || age_text(secs).last()
            == 'm' || age_text(secs).last() == 's',
{
    let amount = if secs >= 86400 {
        secs / 86400
    } else if secs >= 3600 {
        secs / 3600
    } else if secs >= 60 {
        secs / 60
    } else {
        secs
    };
    lemma_decimal_is_digits(amount);
    let t = age_text(secs);
    assert(t.drop_last() =~= decimal(amount));
}

pub open spec fn not_available() -> Seq<char> {
    seq!['n', '/', 'a']
}

/// The age of something first seen at `first`, at the time `now`.
pub fn age_between(first: (i64, u32), now: (i64, u32)) -> (r: String)
    ensures
        r@ == age_text(elapsed_secs(first, now)),
{
    let total: i128 = (now.0 as i128 - first.0 as i128) * 1_000_000_000 + now.1 as i128
        - first.1 as i128;
    let secs: u128 = if total <= 0 {
        0
    } else {
        (total / 1_000_000_000) as u128
    };
    let (amount, unit) = if secs >= 86400 {
        (secs / 86400, "d")
    } else if secs >= 3600 {
        (secs / 3600, "h")
    } else if secs >= 60 {
        (secs / 60, "m")
    } else {
        (secs, "s")
    };
    proof {
        reveal_strlit("d");
        reveal_strlit("h");
        reveal_strlit("m");
        reveal_strlit("s");
    }
    let mut r = decimal_string(amount);
    r.append(unit);
    assert(r@ =~= age_text(elapsed_secs(first, now)));
    r
}

/// The age of an issue whose first sighting is the RFC 3339 text
/// `first_seen`, at the time `now`; `n/a` when the text is no timestamp.
pub fn age_at(first_seen: &str, now: (i64, u32)) -> (r: String)
    ensures
        r@ == match rfc3339_instant(first_seen@) {
            Some(t) => age_text(elapsed_secs(t, now)),
            None => not_available(),
        },
{
    match parse_rfc3339(first_seen) {
        Some(t) => age_between(t, now),
        None => {
            proof {
                reveal_strlit("n/a");
            }
            "n/a".to_owned()
        },
    }
}

/// The age of an issue first seen at `first_seen`, now.
pub fn format_age_from_first_seen(first_seen: &str) -> (r: String)
    ensures
        match rfc3339_instant(first_seen@) {
            Some(t) => exists|now: (i64, u32)| r@ == age_text(elapsed_secs(t, now)),
            None => r@ == not_available(),
        },
{
    let now = utc_now();
    age_at(first_seen, now)
}

/// The address of the issue listing: unresolved issues of the tracked
/// project over the last 90 days, newest first, at most 15.
pub open spec fn issues_url() -> Seq<char> {
    "https://sentry.io/api/0/organizations/zw-systems-gmbh/issues/?project=4509966802485248&statsPeriod=90d&sort=date&limit=15&query=is:unresolved"@
}

/// Milliseconds after which the issue request is given up.
pub const ISSUES_TIMEOUT_MS: u64 = 12000;

/// Computes `issues_url()`.
pub fn issues_request_url() -> (r: String)
    ensures
        r@ == issues_url(),
{
    "https://sentry.io/api/0/organizations/zw-systems-gmbh/issues/?project=4509966802485248&statsPeriod=90d&sort=date&limit=15&query=is:unresolved".to_owned()
}

/// The `Authorization` header value for the configured token, which is
/// required.
pub fn issues_authorization(token: Option<String>) -> (r: Result<String, SourceError>)
    ensures
        match token {
            Some(t) => r is Ok && r->Ok_0@ == "Bearer "@ + t@,
            None => r is Err && r->Err_0.kind == ErrorKind::ConfigurationMissing
                && r->Err_0.message@ == "SENTRY_AUTH_TOKEN environment variable not set"@,
        },
{
    match token {
        Some(t) => {
            let mut h = "Bearer ".to_owned();
            h.append(t.as_str());
            Ok(h)
        },
        None => Err(
            SourceError::from_text(
                ErrorKind::ConfigurationMissing,
                "SENTRY_AUTH_TOKEN environment variable not set",
            ),
        ),
    }
}

/// The verdict on the issue listing's response status.
pub fn check_issues_response(status: u16, status_text: &str, body: &str) -> (r: Result<
    (),
    SourceError,
>)
    ensures
        (200 <= status <= 299) <==> r is Ok,
        r is Err ==> r->Err_0.kind == ErrorKind::NetworkFailure && r->Err_0.message@
            == "Sentry API error ("@ + status_text@ + "): "@ + body@,
{
    if 200 <= status && status <= 299 {
        Ok(())
    } else {
        let mut m = "Sentry API error (".to_owned();
        m.append(status_text);
        m.append("): ");
        m.append(body);
        Err(SourceError::new(ErrorKind::NetworkFailure, m))
    }
}

/// An unresolved issue as shown.
pub struct SentryIssue {
    pub title: String,
    pub last_seen: String,
    pub first_seen: String,
    /// Time since first seen, in its largest unit (`2d`, `3h`, ...).
    pub age: String,
    pub events: u64,
    pub users: u64,
    /// The issue's `browser` tag mentions `Python`.
    pub is_bot: bool,
    pub url: String,
}

/// The age shown for an issue first seen at the text `first_seen`.
pub open spec fn age_of(first_seen: Seq<char>, now: (i64, u32)) -> Seq<char> {
    match rfc3339_instant(first_seen) {
        Some(t) => age_text(elapsed_secs(t, now)),
        None => not_available(),
    }
}

pub open spec fn title_of(i: Option<Json>) -> Seq<char> {
    match as_str(at(i, "title"@)) {
        Some(t) => t,
        None => str_or(at(at(i, "metadata"@), "title"@), "Unknown issue"@),
    }
}

/// The event count: a decimal string or a number, else zero.
pub open spec fn events_of(i: Option<Json>) -> u64 {
    let c = at(i, "count"@);
    let parsed = match as_str(c) {
        Some(t) => decimal_u64(t),
        None => None,
    };
    match parsed {
        Some(n) => n,
        None => match as_u64(c) {
            Some(n) => n,
            None => 0,
        },
    }
}

/// A tag with key `browser` whose value mentions `Python`.
pub open spec fn is_bot_tag(tag: Json) -> bool {
    &&& as_str(at(Some(tag), "key"@)) == Some("browser"@)
    &&& match as_str(at(Some(tag), "value"@)) {
        Some(v) => contains_seq(v, "Python"@),
        None => false,
    }
}

pub open spec fn any_bot_tag(tags: Seq<Json>) -> bool {
    exists|k: int| 0 <= k < tags.len() && is_bot_tag(#[trigger] tags[k])
}

pub open spec fn is_bot_issue(i: Option<Json>) -> bool {
    match as_array(at(i, "tags"@)) {
        Some(tags) => any_bot_tag(tags),
        None => false,
    }
}

/// `r` is the issue read from `issue` at the time `now`.
pub open spec fn issue_of(r: SentryIssue, issue: Json, now: (i64, u32)) -> bool {
    let i = Some(issue);
    &&& r.title@ == title_of(i)
    &&& r.last_seen@ == str_or(at(i, "lastSeen"@), not_available())
    &&& r.first_seen@ == str_or(at(i, "firstSeen"@), not_available())
    &&& r.age@ == age_of(r.first_seen@, now)
    &&& r.events == events_of(i)
    &&& r.users == match as_u64(at(i, "userCount"@)) {
        Some(n) => n,
        None => 0,
    }
    &&& r.is_bot == is_bot_issue(i)
    &&& r.url@ == str_or(at(i, "permalink"@), Seq::empty())
}

fn tag_is_bot(tag: &Json) -> (r: bool)
    ensures
        r == is_bot_tag(*tag),
{
    proof {
        reveal_strlit("browser");
    }
    let t = Some(tag);
    let key_is_browser = match str_of(member(t, "key")) {
        Some(k) => *k == "browser".to_owned(),
        None => false,
    };
    let value_has_python = match str_of(member(t, "value")) {
        Some(v) => contains_text(v.as_str(), "Python"),
        None => false,
    };
    key_is_browser && value_has_python
}

fn issue_is_bot(i: Option<&Json>) -> (r: bool)
    ensures
        r == is_bot_issue(deref_opt(i)),
{
    match array_of(member(i, "tags")) {
        Some(tags) => {
            let mut k: usize = 0;
            while k < tags.len()
                invariant
                    as_array(at(deref_opt(i), "tags"@)) == Some(tags@),
                    k <= tags@.len(),
                    forall|m: int| 0 <= m < k ==> !is_bot_tag(#[trigger] tags@[m]),
                decreases tags@.len() - k,
            {
                if tag_is_bot(&tags[k]) {
                    assert(is_bot_tag(tags@[k as int]));
                    return true;
                }
                k = k + 1;
            }
            false
        },
        None => false,
    }
}

/// The issue read from `issue`, its age taken at the time `now`.
pub fn issue_from_json(issue: &Json, now: (i64, u32)) -> (r: SentryIssue)
    ensures
        issue_of(r, *issue, now),
{
    proof {
        reveal_strlit("");
    }
    let i = Some(issue);
    let title = match str_of(member(i, "title")) {
        Some(t) => t.clone(),
        None => text_or(member(member(i, "metadata"), "title"), "Unknown issue"),
    };
    let last_seen = text_or(member(i, "lastSeen"), "n/a");
    let first_seen = text_or(member(i, "firstSeen"), "n/a");
    let c = member(i, "count");
    let parsed = match str_of(c) {
        Some(t) => parse_u64(t.as_str()),
        None => None,
    };
    let events = match parsed {
        Some(n) => n,
        None => match u64_of(c) {
            Some(n) => n,
            None => 0,
        },
    };
    let users = match u64_of(member(i, "userCount")) {
        Some(n) => n,
        None => 0,
    };
    let is_bot = issue_is_bot(i);
    let url = text_or(member(i, "permalink"), "");
    let age = age_at(first_seen.as_str(), now);
    proof {
        reveal_strlit("n/a");
        assert(deref_opt(i) == Some(*issue));
        assert(title@ == title_of(Some(*issue)));
        assert(last_seen@ == str_or(at(Some(*issue), "lastSeen"@), not_available()));
        assert(first_seen@ == str_or(at(Some(*issue), "firstSeen"@), not_available()));
        assert(age@ == age_of(first_seen@, now));
        assert(events == events_of(Some(*issue)));
        assert(is_bot == is_bot_issue(Some(*issue)));
        assert(url@ == str_or(at(Some(*issue), "permalink"@), Seq::empty()));
    }
    SentryIssue { title, last_seen, first_seen, age, events, users, is_bot, url }
}

/// The issues of a listing, their ages taken at the time `now`. A listing
/// that is no array is a malformed response.
pub fn issues_from_json(json: &Json, now: (i64, u32)) -> (r: Result<Vec<SentryIssue>, SourceError>)
    ensures
        match as_array(Some(*json)) {
            None => r is Err && r->Err_0.kind == ErrorKind::UnexpectedResponseShape
                && r->Err_0.message@ == "Invalid Sentry response format: expected array"@,
            Some(items) => r is Ok && r->Ok_0@.len() == items.len() && forall|k: int|
                0 <= k < items.len() ==> issue_of(#[trigger] r->Ok_0@[k], items[k], now),
        },
{
    let items = match array_of(Some(json)) {
        Some(items) => items,
        None => {
            return Err(
                SourceError::from_text(
                    ErrorKind::UnexpectedResponseShape,
                    "Invalid Sentry response format: expected array",
                ),
            )
        },
    };
    let mut out: Vec<SentryIssue> = Vec::new();
    for k in 0..items.len()
        invariant
            out@.len() == k,
            forall|m: int| 0 <= m < k ==> issue_of(#[trigger] out@[m], items@[m], now),
    {
        out.push(issue_from_json(&items[k], now));
    }
    Ok(out)
}

/// `r` holds the issues read from `items` at the time `now`.
pub open spec fn issues_read(r: Seq<SentryIssue>, items: Seq<Json>, now: (i64, u32)) -> bool {
    r.len() == items.len() && forall|k: int|
        0 <= k < items.len() ==> issue_of(#[trigger] r[k], items[k], now)
}

/// The issues of a listing, their ages taken now.
pub fn issues_from_json_now(json: &Json) -> (r: Result<Vec<SentryIssue>, SourceError>)
    ensures
        match as_array(Some(*json)) {
            None => r is Err && r->Err_0.kind == ErrorKind::UnexpectedResponseShape,
            Some(items) => r is Ok && exists|now: (i64, u32)| #[trigger]
                issues_read(r->Ok_0@, items, now),
        },
{
    let now = utc_now();
    let r = issues_from_json(json, now);
    proof {
        if let Some(items) = as_array(Some(*json)) {
            assert(issues_read(r->Ok_0@, items, now));
        }
    }
    r
}

} // verus!
