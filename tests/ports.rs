use dashboard::ports::parse_ports;

#[test]
fn ports_mapped_and_unmapped() {
    assert_eq!(parse_ports("0.0.0.0:80->80/tcp, 443/tcp"), "80, 443");
}

#[test]
fn ports_empty() {
    assert_eq!(parse_ports(""), "");
}

#[test]
fn ports_ipv6_host_keeps_last_colon() {
    assert_eq!(parse_ports("0.0.0.0:3306->3306/tcp, :::3306->3306/tcp"), "3306, 3306");
}

#[test]
fn ports_unrecognised_entries_dropped() {
    assert_eq!(parse_ports("garbage, 8080/udp, 1->2"), "8080");
}

#[test]
fn ports_whitespace_trimmed() {
    assert_eq!(parse_ports("  127.0.0.1:5432->5432/tcp  ,   9000/tcp "), "5432, 9000");
}
