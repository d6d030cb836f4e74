use vorto::addr::{parse_socket_addr, Ipv4Addr, Ipv6Addr, SocketAddr, SYNTAX_FAULT};
use vorto::number::{parse_i32, parse_unsigned, to_decimal, IntFault};
use vorto::text::{contains_text, is_blank, is_in_lower_case, same_text, split_chars, trim};
use vorto::version::{print, release_version, BuildInfo};

fn v4(a: u8, b: u8, c: u8, d: u8, port: u16) -> Option<SocketAddr> {
    Some(SocketAddr::V4 { ip: Ipv4Addr::new(a, b, c, d), port })
}

fn v6(segments: [u16; 8], scope_id: u32, port: u16) -> Option<SocketAddr> {
    Some(SocketAddr::V6 { ip6: Ipv6Addr { segments }, scope_id, port })
}

#[test]
fn ipv4_addresses_are_read() {
    assert_eq!(parse_socket_addr("127.0.0.1:8080"), v4(127, 0, 0, 1, 8080));
    assert_eq!(parse_socket_addr("255.255.255.255:65535"), v4(255, 255, 255, 255, 65535));
    assert_eq!(parse_socket_addr("0.0.0.0:0"), v4(0, 0, 0, 0, 0));
    assert_eq!(parse_socket_addr("1.2.3.4:00080"), v4(1, 2, 3, 4, 80));
    for bad in [
        "", ":", "1.2.3.4", "1.2.3.4:", "1.2.3:80", "1.2.3.4.5:80", "256.0.0.1:80", "01.2.3.4:80",
        "1.2.3.4:65536", "1.2.3.4:-1", "1.2.3.4:+1", " 1.2.3.4:80", "1.2.3.4:80 ", "1.2.3.4 :80",
        "localhost:80", "1.2.3.4:80x", "1..3.4:80", "0001.2.3.4:80",
    ] {
        assert_eq!(parse_socket_addr(bad), None, "{}", bad);
    }
    assert_eq!(SYNTAX_FAULT, "invalid socket address syntax");
}

#[test]
fn ipv6_addresses_are_read() {
    assert_eq!(parse_socket_addr("[::1]:80"), v6([0, 0, 0, 0, 0, 0, 0, 1], 0, 80));
    assert_eq!(parse_socket_addr("[::]:0"), v6([0; 8], 0, 0));
    assert_eq!(
        parse_socket_addr("[2001:DB8:0:1::fffe]:443"),
        v6([0x2001, 0xdb8, 0, 1, 0, 0, 0, 0xfffe], 0, 443)
    );
    assert_eq!(
        parse_socket_addr("[1:2:3:4:5:6:7:8]:1"),
        v6([1, 2, 3, 4, 5, 6, 7, 8], 0, 1)
    );
    assert_eq!(
        parse_socket_addr("[::ffff:192.0.2.1]:1"),
        v6([0, 0, 0, 0, 0, 0xffff, 0xc000, 0x0201], 0, 1)
    );
    assert_eq!(parse_socket_addr("[fe80::1%7]:1"), v6([0xfe80, 0, 0, 0, 0, 0, 0, 1], 7, 1));
    for bad in [
        "::1:80", "[::1]", "[::1]80", "[::1:80", "[1:2:3:4:5:6:7]:1", "[1:2:3:4:5:6:7:8:9]:1",
        "[1::2::3]:1", "[12345::]:1", "[::1%]:1", "[::1%eth0]:1", "[::1%4294967296]:1", "[:::]:1",
        "[g::]:1", "[]:1",
    ] {
        assert_eq!(parse_socket_addr(bad), None, "{}", bad);
    }
}

#[test]
fn ipv4_addresses_are_written_and_told_apart() {
    let ip = Ipv4Addr::new(10, 0, 200, 3);
    assert_eq!(ip.to_text(), "10.0.200.3");
    assert_eq!(ip.to_bits(), 0x0a00_c803);
    assert_eq!(parse_socket_addr(&format!("{}:9", ip.to_text())), v4(10, 0, 200, 3, 9));
    assert!(Ipv4Addr::new(0, 0, 0, 0).is_unspecified());
    assert!(!Ipv4Addr::new(0, 0, 0, 1).is_unspecified());
    assert!(Ipv4Addr::new(127, 255, 0, 1).is_loopback());
    assert!(!Ipv4Addr::new(128, 0, 0, 1).is_loopback());
}

#[test]
fn numbers_are_written_and_read_back() {
    for n in [0u128, 7, 10, 99, 100, 65535, 340282366920938463463374607431768211455] {
        assert_eq!(to_decimal(n), format!("{}", n));
    }
    assert_eq!(parse_unsigned("0", 9), Some(0));
    assert_eq!(parse_unsigned("+9", 9), Some(9));
    assert_eq!(parse_unsigned("10", 9), None);
    assert_eq!(parse_unsigned("18446744073709551615", u64::MAX), Some(u64::MAX));
    assert_eq!(parse_unsigned("18446744073709551616", u64::MAX), None);
    assert_eq!(parse_unsigned("+", 9), None);
    assert_eq!(parse_unsigned("", 9), None);
    assert_eq!(parse_i32("-12"), Ok(-12));
    assert_eq!(parse_i32("-"), Err(IntFault::InvalidDigit));
    assert_eq!(parse_i32(""), Err(IntFault::Empty));
    assert_eq!(parse_i32("2147483648"), Err(IntFault::TooLarge));
    assert_eq!(parse_i32("-2147483649"), Err(IntFault::TooSmall));
}

#[test]
fn white_space_is_trimmed() {
    assert_eq!(trim(" \t\r\n a b \u{2003}\u{a0}"), "a b");
    assert_eq!(trim(&trim("  x ")), "x");
    assert_eq!(trim(""), "");
    assert!(is_blank("\u{85}\u{1680}\u{202f}\u{205f}\u{3000}\u{2028}\u{2029}\u{b}\u{c}"));
    assert!(!is_blank(" \u{200b} "));
}

#[test]
fn texts_are_compared_and_searched() {
    assert!(same_text("caf\u{e9}", "caf\u{e9}"));
    assert!(!same_text("cafe\u{301}", "caf\u{e9}"));
    assert!(!same_text("a", "ab"));
    assert!(contains_text("aab", "ab"));
    assert!(contains_text("x", ""));
    assert!(!contains_text("ab", "abc"));
    assert!(is_in_lower_case("YeS", "yes"));
    assert!(!is_in_lower_case("yes", "YES"));
    assert!(!is_in_lower_case("\u{c9}", "\u{e9}"));
}

#[test]
fn pieces_join_back() {
    let text: Vec<char> = "a::b:".chars().collect();
    let parts = split_chars(&text, ':');
    let texts: Vec<String> = parts.iter().map(|p| p.iter().collect()).collect();
    assert_eq!(texts, vec!["a", "", "b", ""]);
    assert_eq!(texts.join(":"), "a::b:");
}

#[test]
fn the_version_tells_what_is_known() {
    let mut build = BuildInfo {
        app_name: "vorto".to_string(),
        package_version: "0.1.0".to_string(),
        release_version: "0.1.0-dev+abc".to_string(),
        repository: "https://example.org/vorto".to_string(),
        git_sha: Some("abc".to_string()),
        commit_range: Some("".to_string()),
        build_timestamp: None,
    };
    assert_eq!(
        print(&build),
        vec![
            "vorto 0.1.0-dev+abc",
            "Package version: 0.1.0",
            "Repository: https://example.org/vorto",
            "Commit: abc",
        ]
    );
    assert_eq!(build.commit_range(), None);
    build.commit_range = Some("a..b".to_string());
    build.build_timestamp = Some("now".to_string());
    build.git_sha = Some("".to_string());
    let lines = print(&build);
    assert_eq!(lines[3], "Commit range: a..b");
    assert_eq!(lines[4], "Built at: now");
    assert_eq!(build.git_sha(), None);
    assert_eq!(build.build_timestamp(), Some("now"));
}

#[test]
fn a_build_that_is_no_release_is_marked() {
    assert_eq!(release_version(Some("v1"), "0.1.0", Some("abc")), "v1");
    assert_eq!(release_version(None, "0.1.0", Some("abc")), "0.1.0-dev+abc");
    assert_eq!(release_version(None, "0.1.0", None), "0.1.0-dev");
}
