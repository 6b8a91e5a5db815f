//! Issue-tracker tickets: configuration, the request URLs, the checks of
//! the two responses, and the tickets read from the search result.

use vstd::prelude::*;
use crate::error::{ErrorKind, SourceError};
use crate::json::{Json, array_of, as_array, at, deref_opt, member, str_or, text_or};
use crate::text::{chars_of, is_white_char, trim};

verus! {

/// What `urlencoding::encode` makes of a text.
pub uninterp spec fn url_encoded(s: Seq<char>) -> Seq<char>;

/// ASCII letters and digits and `-`, `_`, `.`, `~`: kept as they are.
pub open spec fn is_unreserved(c: char) -> bool {
    ('0' <= c && c <= '9') || ('A' <= c && c <= 'Z') || ('a' <= c && c <= 'z') || c == '-'
        || c == '_' || c == '.' || c == '~'
}

/// Relies on `urlencoding::encode`: every UTF-8 byte of the text but ASCII
/// letters, digits and `-`, `_`, `.`, `~` percent-encoded; the result
/// depends on the text alone, and a text of kept characters only comes
/// back unchanged.
#[verifier::external_body]
fn url_encode(s: &str) -> (r: String)
    ensures
        r@ == url_encoded(s@),
        (forall|i: int| 0 <= i < s@.len() ==> is_unreserved(#[trigger] s@[i])) ==> r@ == s@,
{
    urlencoding::encode(s).into_owned()
}

pub open spec fn default_base_url() -> Seq<char> {
    "https://zw-systems.atlassian.net"@
}

pub open spec fn default_query() -> Seq<char> {
    "updated >= -3650d ORDER BY updated DESC"@
}

/// Number of tickets asked for.
pub const SEARCH_LIMIT: u64 = 15;

/// What the ticket source needs to run.
pub struct JiraSettings {
    pub api_token: String,
    pub email: String,
    pub base_url: String,
    pub jql: String,
}

/// A ticket as shown.
pub struct JiraTicket {
    pub key: String,
    pub summary: String,
    pub status: String,
    /// Never empty: `Unassigned` where the ticket has no assignee or the
    /// assignee has no name.
    pub assignee: String,
    pub url: String,
}

pub open spec fn is_null(j: Option<Json>) -> bool {
    j is None || j == Some(Json::Null)
}

pub open spec fn assignee_of(fields: Option<Json>) -> Seq<char> {
    let a = at(fields, "assignee"@);
    let name = str_or(at(a, "displayName"@), "Unassigned"@);
    if is_null(a) || name.len() == 0 {
        "Unassigned"@
    } else {
        name
    }
}

/// `t` is the ticket read from `issue`, with links under `base`.
pub open spec fn ticket_of(t: JiraTicket, issue: Json, base: Seq<char>) -> bool {
    let i = Some(issue);
    let f = at(i, "fields"@);
    &&& t.key@ == str_or(at(i, "key"@), Seq::empty())
    &&& t.summary@ == str_or(at(f, "summary"@), Seq::empty())
    &&& t.status@ == str_or(at(at(f, "status"@), "name"@), "Unknown"@)
    &&& t.assignee@ == assignee_of(f)
    &&& t.assignee@.len() > 0
    &&& t.url@ == base + "/browse/"@ + t.key@
}

fn is_blank(s: &str) -> (r: bool)
    ensures
        r == (trim(s@).len() == 0),
{
    let cs = chars_of(s);
    let (a, b) = crate::text::trim_range(&cs, 0, cs.len());
    assert(cs@.subrange(0, cs@.len() as int) =~= cs@);
    a == b
}

impl JiraSettings {
    /// The settings from the configured values. The token and the email
    /// are required; the base URL and the query have defaults, and a blank
    /// query counts as none.
    pub fn from_config(
        api_token: Option<String>,
        email: Option<String>,
        base_url: Option<String>,
        jql: Option<String>,
    ) -> (r: Result<JiraSettings, SourceError>)
        ensures
            api_token is None ==> r is Err && r->Err_0.kind == ErrorKind::ConfigurationMissing
                && r->Err_0.message@ == "JIRA_API_TOKEN environment variable not set"@,
            api_token is Some && email is None ==> r is Err && r->Err_0.kind
                == ErrorKind::ConfigurationMissing && r->Err_0.message@
                == "JIRA_EMAIL environment variable not set"@,
            api_token is Some && email is Some ==> r is Ok && {
                let s = r->Ok_0;
                &&& s.api_token@ == api_token->0@
                &&& s.email@ == email->0@
                &&& s.base_url@ == match base_url {
                    Some(b) => b@,
                    None => default_base_url(),
                }
                &&& s.jql@ == match jql {
                    Some(q) => if trim(q@).len() == 0 {
                        default_query()
                    } else {
                        q@
                    },
                    None => default_query(),
                }
            },
    {
        let api_token = match api_token {
            Some(t) => t,
            None => {
                return Err(
                    SourceError::from_text(
                        ErrorKind::ConfigurationMissing,
                        "JIRA_API_TOKEN environment variable not set",
                    ),
                )
            },
        };
        let email = match email {
            Some(e) => e,
            None => {
                return Err(
                    SourceError::from_text(
                        ErrorKind::ConfigurationMissing,
                        "JIRA_EMAIL environment variable not set",
                    ),
                )
            },
        };
        let base_url = match base_url {
            Some(b) => b,
            None => "https://zw-systems.atlassian.net".to_owned(),
        };
        let jql = match jql {
            Some(q) => if is_blank(q.as_str()) {
                "updated >= -3650d ORDER BY updated DESC".to_owned()
            } else {
                q
            },
            None => "updated >= -3650d ORDER BY updated DESC".to_owned(),
        };
        Ok(JiraSettings { api_token, email, base_url, jql })
    }

    /// The URL of the credential pre-check.
    pub fn myself_url(&self) -> (r: String)
        ensures
            r@ == self.base_url@ + "/rest/api/3/myself"@,
    {
        let mut r = self.base_url.clone();
        r.append("/rest/api/3/myself");
        r
    }

    /// The URL of the search.
    pub fn search_url(&self) -> (r: String)
        ensures
            r@ == self.base_url@ + "/rest/api/3/search/jql?jql="@ + url_encoded(self.jql@)
                + "&maxResults=15&fields=summary,status,assignee"@,
    {
        let mut r = self.base_url.clone();
        r.append("/rest/api/3/search/jql?jql=");
        let q = url_encode(self.jql.as_str());
        r.append(q.as_str());
        r.append("&maxResults=15&fields=summary,status,assignee");
        r
    }
}

pub open spec fn is_success(status: u16) -> bool {
    200 <= status <= 299
}

/// The verdict on the credential pre-check's response: a status outside
/// `200..=299` means the credentials were rejected. `status_text` is the
/// status as displayed (`401 Unauthorized`).
pub fn check_auth_response(status: u16, status_text: &str, body: &str) -> (r: Result<
    (),
    SourceError,
>)
    ensures
        is_success(status) <==> r is Ok,
        r is Err ==> r->Err_0.kind == ErrorKind::AuthenticationFailure && r->Err_0.message@
            == "Jira authentication failed ("@ + status_text@
            + "). Check JIRA_EMAIL and JIRA_API_TOKEN. "@ + body@,
{
    if 200 <= status && status <= 299 {
        Ok(())
    } else {
        let mut m = "Jira authentication failed (".to_owned();
        m.append(status_text);
        m.append("). Check JIRA_EMAIL and JIRA_API_TOKEN. ");
        m.append(body);
        Err(SourceError::new(ErrorKind::AuthenticationFailure, m))
    }
}

/// The verdict on the search response's status.
pub fn check_search_response(status: u16, status_text: &str, body: &str) -> (r: Result<
    (),
    SourceError,
>)
    ensures
        is_success(status) <==> r is Ok,
        r is Err ==> r->Err_0.kind == ErrorKind::NetworkFailure && r->Err_0.message@
            == "Jira API error ("@ + status_text@ + "): "@ + body@,
{
    if 200 <= status && status <= 299 {
        Ok(())
    } else {
        let mut m = "Jira API error (".to_owned();
        m.append(status_text);
        m.append("): ");
        m.append(body);
        Err(SourceError::new(ErrorKind::NetworkFailure, m))
    }
}

/// The ticket read from `issue`, with its link under `base_url`.
pub fn ticket_from_json(issue: &Json, base_url: &str) -> (r: JiraTicket)
    ensures
        ticket_of(r, *issue, base_url@),
{
    proof {
        reveal_strlit("");
        reveal_strlit("Unassigned");
    }
    let i = Some(issue);
    let f = member(i, "fields");
    let key = text_or(member(i, "key"), "");
    let summary = text_or(member(f, "summary"), "");
    let status = text_or(member(member(f, "status"), "name"), "Unknown");
    let a = member(f, "assignee");
    let null = match a {
        None => true,
        Some(Json::Null) => true,
        _ => false,
    };
    let name = text_or(member(a, "displayName"), "Unassigned");
    let assignee = if null || name.as_str().is_empty() {
        "Unassigned".to_owned()
    } else {
        name
    };
    let mut url = base_url.to_owned();
    url.append("/browse/");
    url.append(key.as_str());
    assert(deref_opt(i) == Some(*issue));
    assert(key@ == str_or(at(Some(*issue), "key"@), Seq::empty()));
    assert(summary@ == str_or(at(deref_opt(f), "summary"@), Seq::empty()));
    assert(status@ == str_or(at(at(deref_opt(f), "status"@), "name"@), "Unknown"@));
    JiraTicket { key, summary, status, assignee, url }
}

/// The tickets of a search result. No `issues` array is a malformed
/// response; an empty one is an error too, since the query or the
/// permissions are then most likely wrong.
pub fn tickets_from_json(json: &Json, base_url: &str, jql: &str) -> (r: Result<
    Vec<JiraTicket>,
    SourceError,
>)
    ensures
        match as_array(at(Some(*json), "issues"@)) {
            None => r is Err && r->Err_0.kind == ErrorKind::UnexpectedResponseShape
                && r->Err_0.message@ == "Invalid Jira response format: missing 'issues' array"@,
            Some(items) => if items.len() == 0 {
                r is Err && r->Err_0.kind == ErrorKind::EmptyResult && r->Err_0.message@
                    == "Jira returned 0 tickets for JQL: `"@ + jql@
                    + "`. Verify query and Jira permissions."@
            } else {
                r is Ok && r->Ok_0@.len() == items.len() && forall|k: int|
                    0 <= k < items.len() ==> ticket_of(#[trigger] r->Ok_0@[k], items[k], base_url@)
            },
        },
{
    let items = match array_of(member(Some(json), "issues")) {
        Some(items) => items,
        None => {
            return Err(
                SourceError::from_text(
                    ErrorKind::UnexpectedResponseShape,
                    "Invalid Jira response format: missing 'issues' array",
                ),
            )
        },
    };
    if items.len() == 0 {
        let mut m = "Jira returned 0 tickets for JQL: `".to_owned();
        m.append(jql);
        m.append("`. Verify query and Jira permissions.");
        return Err(SourceError::new(ErrorKind::EmptyResult, m));
    }
    let mut tickets: Vec<JiraTicket> = Vec::new();
    for k in 0..items.len()
        invariant
            tickets@.len() == k,
            forall|m: int|
                0 <= m < k ==> ticket_of(#[trigger] tickets@[m], items@[m], base_url@),
    {
        tickets.push(ticket_from_json(&items[k], base_url));
    }
    Ok(tickets)
}

} // verus!
