use proxy_gen::ip::Ipv4;
use proxy_gen::ptype::ProxyType;
use proxy_gen::record::{LineOutcome, Proxy, SkipReason, parse_line};

fn expect_parsed(o: LineOutcome) -> Proxy {
    match o {
        LineOutcome::Parsed(p) => p,
        LineOutcome::Skipped(why) => panic!("line was skipped: {:?}", why),
    }
}

fn expect_skipped(o: LineOutcome) -> SkipReason {
    match o {
        LineOutcome::Parsed(_) => panic!("line was parsed"),
        LineOutcome::Skipped(why) => why,
    }
}

#[test]
fn two_field_line_uses_default_type() {
    let p = expect_parsed(parse_line("192.0.2.10:1080", ProxyType::Socks5));
    assert_eq!(p.name, "192.0.2.10 - 1080");
    assert_eq!(p.addr, Ipv4 { a: 192, b: 0, c: 2, d: 10 });
    assert_eq!(p.port, 1080);
    assert_eq!(p.ptype, ProxyType::Socks5);
}

#[test]
fn two_field_line_takes_other_default() {
    let p = expect_parsed(parse_line("198.51.100.4:8080", ProxyType::Http));
    assert_eq!(p.name, "198.51.100.4 - 8080");
    assert_eq!(p.ptype, ProxyType::Http);
}

#[test]
fn third_field_overrides_default_case_insensitively() {
    let p = expect_parsed(parse_line("10.0.0.2:8080:HtTp", ProxyType::Socks5));
    assert_eq!(p.ptype, ProxyType::Http);
    let p = expect_parsed(parse_line("10.0.0.2:8080:HTTPS", ProxyType::Socks5));
    assert_eq!(p.ptype, ProxyType::Https);
    let p = expect_parsed(parse_line("10.0.0.2:8080:SOCKS4", ProxyType::Socks5));
    assert_eq!(p.ptype, ProxyType::Socks4);
    let p = expect_parsed(parse_line("10.0.0.2:8080:socks5", ProxyType::Http));
    assert_eq!(p.ptype, ProxyType::Socks5);
}

#[test]
fn fields_beyond_the_third_are_ignored() {
    let p = expect_parsed(parse_line("10.0.0.2:8080:http:whatever:else", ProxyType::Socks5));
    assert_eq!(p.ptype, ProxyType::Http);
    assert_eq!(p.name, "10.0.0.2 - 8080");
}

#[test]
fn line_without_colon_is_skipped() {
    assert_eq!(
        expect_skipped(parse_line("nocolons", ProxyType::Socks5)),
        SkipReason::TooFewFields
    );
    assert_eq!(expect_skipped(parse_line("", ProxyType::Socks5)), SkipReason::TooFewFields);
}

#[test]
fn unparseable_address_is_skipped() {
    assert_eq!(
        expect_skipped(parse_line("999.999.999.999:80", ProxyType::Socks5)),
        SkipReason::BadAddress
    );
    assert_eq!(
        expect_skipped(parse_line("01.2.3.4:80", ProxyType::Socks5)),
        SkipReason::BadAddress
    );
    assert_eq!(expect_skipped(parse_line("1.2.3:80", ProxyType::Socks5)), SkipReason::BadAddress);
    assert_eq!(
        expect_skipped(parse_line("256.1.1.1:80", ProxyType::Socks5)),
        SkipReason::BadAddress
    );
    assert_eq!(
        expect_skipped(parse_line("1.2.3.4.5:80", ProxyType::Socks5)),
        SkipReason::BadAddress
    );
}

#[test]
fn unparseable_port_is_skipped() {
    assert_eq!(
        expect_skipped(parse_line("1.2.3.4:notanumber", ProxyType::Socks5)),
        SkipReason::BadPort
    );
    assert_eq!(expect_skipped(parse_line("1.2.3.4:", ProxyType::Socks5)), SkipReason::BadPort);
    assert_eq!(
        expect_skipped(parse_line("1.2.3.4:4294967296", ProxyType::Socks5)),
        SkipReason::BadPort
    );
    assert_eq!(expect_skipped(parse_line("1.2.3.4:-80", ProxyType::Socks5)), SkipReason::BadPort);
}

#[test]
fn unrecognized_type_token_is_skipped() {
    assert_eq!(
        expect_skipped(parse_line("1.2.3.4:80:ftp", ProxyType::Socks5)),
        SkipReason::BadType
    );
    assert_eq!(expect_skipped(parse_line("1.2.3.4:80:", ProxyType::Socks5)), SkipReason::BadType);
}

#[test]
fn port_edges() {
    let p = expect_parsed(parse_line("1.2.3.4:4294967295", ProxyType::Socks5));
    assert_eq!(p.port, u32::MAX);
    // no range validation: anything above 65535 that fits the width passes
    let p = expect_parsed(parse_line("1.2.3.4:70000", ProxyType::Socks5));
    assert_eq!(p.port, 70000);
    // a leading plus sign and leading zeros parse, and stay in the name
    let p = expect_parsed(parse_line("1.2.3.4:+80", ProxyType::Socks5));
    assert_eq!(p.port, 80);
    assert_eq!(p.name, "1.2.3.4 - +80");
    let p = expect_parsed(parse_line("1.2.3.4:080", ProxyType::Socks5));
    assert_eq!(p.port, 80);
    assert_eq!(p.name, "1.2.3.4 - 080");
}

#[test]
fn address_edges() {
    let p = expect_parsed(parse_line("0.0.0.0:80", ProxyType::Socks5));
    assert_eq!(p.addr, Ipv4 { a: 0, b: 0, c: 0, d: 0 });
    let p = expect_parsed(parse_line("255.255.255.255:80", ProxyType::Socks5));
    assert_eq!(p.addr, Ipv4 { a: 255, b: 255, c: 255, d: 255 });
}
