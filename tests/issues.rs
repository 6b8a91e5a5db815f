use dashboard::error::ErrorKind;
use dashboard::issues::{
    age_at, age_between, format_age_from_first_seen, issues_authorization, issues_from_json,
    check_issues_response,
};
use dashboard::json::Json;

const JAN_1_2024: i64 = 1_704_067_200;

#[test]
fn age_exactly_two_days() {
    assert_eq!(age_between((0, 0), (2 * 86400, 0)), "2d");
}

#[test]
fn age_three_hours() {
    assert_eq!(age_between((1000, 0), (1000 + 3 * 3600 + 59, 0)), "3h");
}

#[test]
fn age_minutes_and_seconds() {
    assert_eq!(age_between((0, 0), (61, 0)), "1m");
    assert_eq!(age_between((0, 500_000_000), (59, 400_000_000)), "58s");
    assert_eq!(age_between((100, 0), (50, 0)), "0s");
}

#[test]
fn age_from_rfc3339_text() {
    assert_eq!(age_at("2024-01-01T00:00:00Z", (JAN_1_2024 + 2 * 86400, 0)), "2d");
    assert_eq!(age_at("2024-01-01T02:00:00+02:00", (JAN_1_2024 + 3 * 3600, 0)), "3h");
    assert_eq!(age_at("yesterday", (JAN_1_2024, 0)), "n/a");
}

#[test]
fn age_now_of_old_timestamp_is_days() {
    assert!(format_age_from_first_seen("2020-01-01T00:00:00Z").ends_with('d'));
    assert_eq!(format_age_from_first_seen("n/a"), "n/a");
}

fn s(x: &str) -> Json {
    Json::Str(x.to_string())
}

fn obj(entries: Vec<(&str, Json)>) -> Json {
    Json::Object(entries.into_iter().map(|(k, v)| (k.to_string(), v)).collect())
}

#[test]
fn issues_read_from_listing() {
    let listing = Json::Array(vec![
        obj(vec![
            ("title", s("TypeError: x is undefined")),
            ("lastSeen", s("2024-01-03T00:00:00Z")),
            ("firstSeen", s("2024-01-01T00:00:00Z")),
            ("count", s("42")),
            ("userCount", Json::Uint(7)),
            ("tags", Json::Array(vec![obj(vec![("key", s("browser")), ("value", s("Python Requests 2.31"))])])),
            ("permalink", s("https://tracker.example/issues/1/")),
        ]),
        obj(vec![
            ("metadata", obj(vec![("title", s("from metadata"))])),
            ("count", Json::Uint(9)),
            ("tags", Json::Array(vec![obj(vec![("key", s("os")), ("value", s("Python"))])])),
        ]),
    ]);
    let issues = issues_from_json(&listing, (JAN_1_2024 + 2 * 86400, 0)).ok().unwrap();
    assert_eq!(issues.len(), 2);
    assert_eq!(issues[0].title, "TypeError: x is undefined");
    assert_eq!(issues[0].age, "2d");
    assert_eq!(issues[0].events, 42);
    assert_eq!(issues[0].users, 7);
    assert!(issues[0].is_bot);
    assert_eq!(issues[0].url, "https://tracker.example/issues/1/");
    assert_eq!(issues[1].title, "from metadata");
    assert_eq!(issues[1].last_seen, "n/a");
    assert_eq!(issues[1].first_seen, "n/a");
    assert_eq!(issues[1].age, "n/a");
    assert_eq!(issues[1].events, 9);
    assert_eq!(issues[1].users, 0);
    assert!(!issues[1].is_bot);
    assert_eq!(issues[1].url, "");
}

#[test]
fn issue_count_not_a_number() {
    let listing = Json::Array(vec![obj(vec![("count", s("many"))])]);
    let issues = issues_from_json(&listing, (0, 0)).ok().unwrap();
    assert_eq!(issues[0].events, 0);
    assert_eq!(issues[0].title, "Unknown issue");
}

#[test]
fn issue_listing_not_an_array() {
    let e = issues_from_json(&obj(vec![("detail", s("x"))]), (0, 0)).err().unwrap();
    assert_eq!(e.kind, ErrorKind::UnexpectedResponseShape);
    assert_eq!(e.message, "Invalid Sentry response format: expected array");
}

#[test]
fn empty_issue_listing_is_fine() {
    assert_eq!(issues_from_json(&Json::Array(vec![]), (0, 0)).ok().unwrap().len(), 0);
}

#[test]
fn issues_token_required() {
    let e = issues_authorization(None).err().unwrap();
    assert_eq!(e.kind, ErrorKind::ConfigurationMissing);
    assert_eq!(issues_authorization(Some("t0k".to_string())).ok().unwrap(), "Bearer t0k");
}

#[test]
fn issues_http_error() {
    let e = check_issues_response(403, "403 Forbidden", "no").err().unwrap();
    assert_eq!(e.kind, ErrorKind::NetworkFailure);
    assert_eq!(e.message, "Sentry API error (403 Forbidden): no");
    assert!(check_issues_response(200, "200 OK", "").is_ok());
}
