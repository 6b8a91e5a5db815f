use dashboard::containers::{parse_container_rows, ComposeLabels, DockerContainer};

fn labels(p: Option<&str>, s: Option<&str>, d: Option<&str>) -> ComposeLabels {
    ComposeLabels {
        project: p.map(|x| x.to_string()),
        service: s.map(|x| x.to_string()),
        working_dir: d.map(|x| x.to_string()),
    }
}

#[test]
fn compose_name_uses_working_dir_folder() {
    let l = labels(Some("foo"), Some("db"), Some("/home/x/bar"));
    assert_eq!(l.display_name("foo-db-1"), "bar - db");
}

#[test]
fn compose_name_without_working_dir_uses_project() {
    let l = labels(Some("foo"), Some("db"), None);
    assert_eq!(l.display_name("foo-db-1"), "foo - db");
}

#[test]
fn compose_name_trailing_slash_ignored() {
    let l = labels(Some("foo"), Some("web"), Some("/srv/app/"));
    assert_eq!(l.display_name("raw"), "app - web");
}

#[test]
fn compose_name_missing_service_falls_back() {
    let l = labels(Some("foo"), None, Some("/home/x/bar"));
    assert_eq!(l.display_name("my-container"), "my-container");
}

#[test]
fn compose_name_missing_project_falls_back() {
    let l = labels(None, Some("db"), None);
    assert_eq!(l.display_name("my-container"), "my-container");
}

#[test]
fn labels_parsed_from_listing() {
    let l = ComposeLabels::parse(
        "map[a:b com.docker.compose.project:foo com.docker.compose.service:db com.docker.compose.project.working_dir:/home/x/bar]",
    );
    assert_eq!(l.project.as_deref(), Some("foo"));
    assert_eq!(l.service.as_deref(), Some("db"));
    assert_eq!(l.working_dir.as_deref(), Some("/home/x/bar"));
}

#[test]
fn labels_absent() {
    let l = ComposeLabels::parse("map[maintainer:someone]");
    assert!(l.project.is_none() && l.service.is_none() && l.working_dir.is_none());
}

#[test]
fn container_rows_split_into_fields() {
    let out = "abc|web|nginx:1|Up 2 hours|0.0.0.0:80->80/tcp|2 hours ago\r\n\nxyz|db\n";
    let rows = parse_container_rows(out);
    assert_eq!(rows.len(), 2);
    assert_eq!(rows[0].id, "abc");
    assert_eq!(rows[0].name, "web");
    assert_eq!(rows[0].image, "nginx:1");
    assert_eq!(rows[0].status, "Up 2 hours");
    assert_eq!(rows[0].ports, "0.0.0.0:80->80/tcp");
    assert_eq!(rows[0].uptime, "2 hours ago");
    assert_eq!(rows[1].id, "xyz");
    assert_eq!(rows[1].name, "db");
    assert_eq!(rows[1].image, "");
    assert_eq!(rows[1].uptime, "");
}

#[test]
fn container_from_row_with_compose_labels() {
    let rows = parse_container_rows("abc|foo-db-1|postgres|Up|0.0.0.0:5432->5432/tcp|1 day ago");
    let c = DockerContainer::from_row(
        &rows[0],
        Some("map[a:b com.docker.compose.project:foo com.docker.compose.service:db x:y]"),
    );
    assert_eq!(c.name, "foo - db");
    assert_eq!(c.ports, "5432");
    assert_eq!(c.id, "abc");
    let plain = DockerContainer::from_row(&rows[0], None);
    assert_eq!(plain.name, "foo-db-1");
}

#[test]
fn labels_first_and_last_in_frame_recognised() {
    let listing = "map[com.docker.compose.project:foo com.docker.compose.service:db com.docker.compose.project.working_dir:/home/x/bar]\n";
    let l = ComposeLabels::parse(listing);
    assert_eq!(l.project.as_deref(), Some("foo"));
    assert_eq!(l.service.as_deref(), Some("db"));
    assert_eq!(l.working_dir.as_deref(), Some("/home/x/bar"));
    assert_eq!(l.display_name("raw"), "bar - db");
    let reordered = ComposeLabels::parse(
        "map[com.docker.compose.project.working_dir:/home/x/bar com.docker.compose.service:db com.docker.compose.project:foo]",
    );
    assert_eq!(reordered.display_name("raw"), "bar - db");
}

#[test]
fn container_with_only_compose_labels() {
    let rows = parse_container_rows("abc|raw|img|Up 2 hours|0.0.0.0:80->80/tcp|2 hours ago\n");
    assert_eq!(rows.len(), 1);
    let c = DockerContainer::from_row(
        &rows[0],
        Some("map[com.docker.compose.project:foo com.docker.compose.project.working_dir:/home/x/bar com.docker.compose.service:db]\n"),
    );
    assert_eq!(c.name, "bar - db");
    assert_eq!(c.ports, "80");
}
