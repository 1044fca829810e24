use vinox::address::{parse_server_address, ServerAddress};

#[test]
fn parses_canonical_addresses() {
    assert_eq!(
        parse_server_address("127.0.0.1:56552"),
        Some(ServerAddress { a: 127, b: 0, c: 0, d: 1, port: 56552 })
    );
    assert_eq!(
        parse_server_address("0.0.0.0:0"),
        Some(ServerAddress { a: 0, b: 0, c: 0, d: 0, port: 0 })
    );
    assert_eq!(
        parse_server_address("255.255.255.255:65535"),
        Some(ServerAddress { a: 255, b: 255, c: 255, d: 255, port: 65535 })
    );
    assert_eq!(
        parse_server_address("192.168.1.10:8080"),
        Some(ServerAddress { a: 192, b: 168, c: 1, d: 10, port: 8080 })
    );
}

#[test]
fn rejects_malformed_addresses() {
    // Missing pieces.
    assert_eq!(parse_server_address(""), None);
    assert_eq!(parse_server_address("127.0.0.1"), None);
    assert_eq!(parse_server_address("127.0.1:80"), None);
    assert_eq!(parse_server_address("127.0.0.1:"), None);
    assert_eq!(parse_server_address(".0.0.1:80"), None);
    // Out-of-range values.
    assert_eq!(parse_server_address("256.0.0.1:80"), None);
    assert_eq!(parse_server_address("1.2.3.4:65536"), None);
    // Leading zeroes are not canonical.
    assert_eq!(parse_server_address("01.2.3.4:80"), None);
    assert_eq!(parse_server_address("1.2.3.4:080"), None);
    // Stray characters.
    assert_eq!(parse_server_address("a.b.c.d:80"), None);
    assert_eq!(parse_server_address("1.2.3.4:80x"), None);
    assert_eq!(parse_server_address("1.2.3.4.5:80"), None);
    assert_eq!(parse_server_address(" 1.2.3.4:80"), None);
}
