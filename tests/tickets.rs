use dashboard::error::ErrorKind;
use dashboard::json::Json;
use dashboard::tickets::{check_auth_response, check_search_response, tickets_from_json, JiraSettings};

fn s(x: &str) -> Json {
    Json::Str(x.to_string())
}

fn obj(entries: Vec<(&str, Json)>) -> Json {
    Json::Object(entries.into_iter().map(|(k, v)| (k.to_string(), v)).collect())
}

#[test]
fn zero_tickets_is_an_error() {
    let e = tickets_from_json(&obj(vec![("issues", Json::Array(vec![]))]), "https://t.example", "project = X")
        .err()
        .unwrap();
    assert_eq!(e.kind, ErrorKind::EmptyResult);
    assert_eq!(
        e.message,
        "Jira returned 0 tickets for JQL: `project = X`. Verify query and Jira permissions."
    );
}

#[test]
fn missing_issues_array() {
    let e = tickets_from_json(&obj(vec![]), "b", "q").err().unwrap();
    assert_eq!(e.kind, ErrorKind::UnexpectedResponseShape);
}

#[test]
fn tickets_read_with_unassigned() {
    let json = obj(vec![(
        "issues",
        Json::Array(vec![
            obj(vec![
                ("key", s("DASH-1")),
                ("fields", obj(vec![
                    ("summary", s("Fix it")),
                    ("status", obj(vec![("name", s("In Progress"))])),
                    ("assignee", obj(vec![("displayName", s("Ada"))])),
                ])),
            ]),
            obj(vec![
                ("key", s("DASH-2")),
                ("fields", obj(vec![("summary", s("Other")), ("assignee", Json::Null)])),
            ]),
            obj(vec![
                ("key", s("DASH-3")),
                ("fields", obj(vec![("assignee", obj(vec![("displayName", s(""))]))])),
            ]),
        ]),
    )]);
    let t = tickets_from_json(&json, "https://t.example", "q").ok().unwrap();
    assert_eq!(t.len(), 3);
    assert_eq!(t[0].key, "DASH-1");
    assert_eq!(t[0].status, "In Progress");
    assert_eq!(t[0].assignee, "Ada");
    assert_eq!(t[0].url, "https://t.example/browse/DASH-1");
    assert_eq!(t[1].assignee, "Unassigned");
    assert_eq!(t[2].assignee, "Unassigned");
    assert_eq!(t[1].status, "Unknown");
}

#[test]
fn settings_require_credentials() {
    let e = JiraSettings::from_config(None, Some("a@b".to_string()), None, None).err().unwrap();
    assert_eq!(e.kind, ErrorKind::ConfigurationMissing);
    assert_eq!(e.message, "JIRA_API_TOKEN environment variable not set");
    let e = JiraSettings::from_config(Some("t".to_string()), None, None, None).err().unwrap();
    assert_eq!(e.message, "JIRA_EMAIL environment variable not set");
}

#[test]
fn settings_defaults_and_urls() {
    let st = JiraSettings::from_config(Some("t".to_string()), Some("a@b".to_string()), None, Some("   ".to_string()))
        .ok()
        .unwrap();
    assert_eq!(st.base_url, "https://zw-systems.atlassian.net");
    assert_eq!(st.jql, "updated >= -3650d ORDER BY updated DESC");
    assert_eq!(st.myself_url(), "https://zw-systems.atlassian.net/rest/api/3/myself");
    assert_eq!(
        st.search_url(),
        "https://zw-systems.atlassian.net/rest/api/3/search/jql?jql=updated%20%3E%3D%20-3650d%20ORDER%20BY%20updated%20DESC&maxResults=15&fields=summary,status,assignee"
    );
}

#[test]
fn auth_precheck_rejection_is_distinct() {
    let e = check_auth_response(401, "401 Unauthorized", "bad").err().unwrap();
    assert_eq!(e.kind, ErrorKind::AuthenticationFailure);
    assert_eq!(
        e.message,
        "Jira authentication failed (401 Unauthorized). Check JIRA_EMAIL and JIRA_API_TOKEN. bad"
    );
    let e = check_search_response(400, "400 Bad Request", "jql").err().unwrap();
    assert_eq!(e.kind, ErrorKind::NetworkFailure);
    assert!(check_auth_response(200, "200 OK", "").is_ok());
}
