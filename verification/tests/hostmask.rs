use irc_correlator::hostmask::Host;
use irc_correlator::hostmask::HostAddr;
use irc_correlator::hostmask::HostMask;
use irc_correlator::hostmask::HostMaskError;
use irc_correlator::hostmask::Ident;
use irc_correlator::hostmask::Nick;
use irc_correlator::hostmask::Query;

#[test]
fn test_parse_hostmask() {
    assert_eq!(
        HostMask::from_str("Disconsented!~quassel@irc.disconsented.com").unwrap(),
        HostMask::new(
            Nick::from_text("Disconsented"),
            Ident::from_text("~quassel"),
            Host::from_text("irc.disconsented.com"),
            false,
        )
    );
    assert_eq!(
        HostMask::from_str("Unit640!~Unit640@user/Unit640").unwrap(),
        HostMask::new(
            Nick::from_text("Unit640"),
            Ident::from_text("~Unit640"),
            Host::from_text("user/Unit640"),
            false,
        )
    );
}

#[test]
fn test_parse_host() {
    let raw_ip = "66.205.192.51";
    let dotted_mask = "188.147.100.240.nat.umts.dynamic.t-mobile.pl";
    let dashed_mask = "static-ip-87-248-67-133.promax.media.pl";
    let no_ip = "user/kks";
    {
        let mut raw_host = Host::from_text(raw_ip);
        match raw_host.addr() {
            Some(HostAddr::V4 { a, b, c, d }) => assert_eq!((*a, *b, *c, *d), (66, 205, 192, 51)),
            _ => panic!("no embedded address found"),
        }
        raw_host.set_subnet(true);
        assert_eq!(raw_host.query(), "%66_205_192%");
    }
    {
        let mut raw_host = Host::from_text(dotted_mask);
        match raw_host.addr() {
            Some(HostAddr::V4 { a, b, c, d }) => {
                assert_eq!((*a, *b, *c, *d), (188, 147, 100, 240))
            }
            _ => panic!("no embedded address found"),
        }
        raw_host.set_subnet(true);
        assert_eq!(raw_host.query(), "%188_147_100%");
    }
    {
        let mut raw_host = Host::from_text(dashed_mask);
        match raw_host.addr() {
            Some(HostAddr::V4 { a, b, c, d }) => assert_eq!((*a, *b, *c, *d), (87, 248, 67, 133)),
            _ => panic!("no embedded address found"),
        }
        raw_host.set_subnet(true);
        assert_eq!(raw_host.query(), "%87_248_67%");
    }
    {
        let mut raw_host = Host::from_text(no_ip);
        assert!(matches!(raw_host.addr(), None));
        raw_host.set_subnet(true);
        assert_eq!(raw_host.query(), "%user/kks");
    }
}

#[test]
fn parse_components_exact() {
    let m = HostMask::from_str("Disconsented!~quassel@irc.disconsented.com").unwrap();
    assert_eq!(m.nick().text(), "Disconsented");
    assert_eq!(m.ident().text(), "~quassel");
    assert_eq!(m.host().text(), "irc.disconsented.com");
    assert!(!m.subnet());
}

#[test]
fn component_patterns() {
    let m = HostMask::from_str("Disconsented!~quassel@irc.disconsented.com").unwrap();
    assert_eq!(m.nick_query(), "Disconsented%");
    assert_eq!(m.ident_query(), "%~quassel%");
    assert_eq!(m.host_query(), "%irc.disconsented.com");
}

#[test]
fn missing_delimiters() {
    assert!(matches!(
        HostMask::from_str("nodelimiters"),
        Err(HostMaskError::MissingIdent)
    ));
    assert!(matches!(
        HostMask::from_str("nick!identonly"),
        Err(HostMaskError::MissingHost)
    ));
    assert!(matches!(
        HostMask::from_str("a@b"),
        Err(HostMaskError::MissingIdent)
    ));
    assert!(matches!(
        HostMask::from_str("a@b!c"),
        Err(HostMaskError::MissingHost)
    ));
}

#[test]
fn ipv4_fingerprint_subnet_off() {
    let h = Host::from_text("66.205.192.51");
    assert_eq!(h.query(), "%66_205_192_51%");
}

#[test]
fn ipv4_fingerprint_subnet_on() {
    let mut h = Host::from_text("66.205.192.51");
    h.set_subnet(true);
    assert_eq!(h.query(), "%66_205_192%");
}

#[test]
fn dashed_ip_normalized() {
    let h = Host::from_text("static-ip-87-248-67-133.promax.media.pl");
    match h.addr() {
        Some(HostAddr::V4 { a, b, c, d }) => assert_eq!((*a, *b, *c, *d), (87, 248, 67, 133)),
        _ => panic!("no embedded address found"),
    }
    assert_eq!(h.query(), "%87_248_67_133%");
}

#[test]
fn no_ip_host() {
    let h = Host::from_text("user/kks");
    assert!(matches!(h.addr(), None));
    assert_eq!(h.query(), "%user/kks");
}

#[test]
fn host_equality_ignores_detection() {
    let a = Host::from_text("66.205.192.51");
    let mut b = Host::from_text("66.205.192.51");
    b.set_subnet(true);
    assert_eq!(a, b);
    assert_ne!(a, Host::from_text("66.205.192.52"));
}

#[test]
fn octet_edges() {
    assert_eq!(Host::from_text("0.0.0.0").query(), "%0_0_0_0%");
    assert_eq!(Host::from_text("255.255.255.255").query(), "%255_255_255_255%");
    // 256 is no octet and a leading zero disqualifies a group, but a match
    // may start inside a digit run
    assert_eq!(Host::from_text("256.1.2.3").query(), "%56_1_2_3%");
    assert_eq!(Host::from_text("01.2.3.4").query(), "%1_2_3_4%");
    assert_eq!(Host::from_text("955.6.7.8x").query(), "%955.6.7.8x");
}

#[test]
fn leftmost_ipv4_wins() {
    let h = Host::from_text("1.2.3.4.5.6.7.8");
    match h.addr() {
        Some(HostAddr::V4 { a, b, c, d }) => assert_eq!((*a, *b, *c, *d), (1, 2, 3, 4)),
        _ => panic!("no embedded address found"),
    }
    assert_eq!(h.query(), "%1_2_3_4%");
}

#[test]
fn ipv4_needs_a_boundary() {
    // the last group runs into letters, so no address is detected
    let h = Host::from_text("1.2.3.4abc");
    assert!(matches!(h.addr(), None));
    assert_eq!(h.query(), "%1.2.3.4abc");
}

#[test]
fn ipv6_detected_when_no_ipv4() {
    let h = Host::from_text("2001:db8::1.example.org");
    match h.addr() {
        Some(HostAddr::V6 { text }) => assert_eq!(text.as_str(), "2001:db8::1"),
        _ => panic!("no embedded address found"),
    }
    // an IPv6 host still falls back to the suffix-match pattern
    assert_eq!(h.query(), "%2001:db8::1.example.org");
}

#[test]
fn ipv6_forms() {
    match Host::from_text("fe80::1%eth0").addr() {
        Some(HostAddr::V6 { text }) => assert_eq!(text.as_str(), "fe80::1%eth0"),
        _ => panic!("no embedded address found"),
    }
    match Host::from_text("1:2:3:4:5:6:7:8").addr() {
        Some(HostAddr::V6 { text }) => assert_eq!(text.as_str(), "1:2:3:4:5:6:7:8"),
        _ => panic!("no embedded address found"),
    }
    match Host::from_text("::ffff:192.0.2.1").addr() {
        // the dotted quad is an IPv4 match of its own, which is tried first
        Some(HostAddr::V4 { a, b, c, d }) => assert_eq!((*a, *b, *c, *d), (192, 0, 2, 1)),
        _ => panic!("no embedded address found"),
    }
    assert!(matches!(Host::from_text("irc.example.org").addr(), None));
    assert!(matches!(Host::from_text("beef").addr(), None));
}

#[test]
fn built_mask_propagates_subnet_to_host() {
    let m = HostMask::new(
        Nick::from_text("n"),
        Ident::from_text("i"),
        Host::from_text("66.205.192.51"),
        true,
    );
    assert!(m.subnet());
    assert_eq!(m.host_query(), "%66_205_192%");
    // and a parse-then-set mask agrees
    let mut p = HostMask::from_str("n!i@66.205.192.51").unwrap();
    p.set_subnet(true);
    assert_eq!(p.host_query(), "%66_205_192%");
    assert_eq!(m, p);
}

#[test]
fn empty_components() {
    let m = HostMask::from_str("!@").unwrap();
    assert_eq!(m.nick().text(), "");
    assert_eq!(m.ident().text(), "");
    assert_eq!(m.host().text(), "");
    assert_eq!(m.nick_query(), "%");
    assert_eq!(m.ident_query(), "%%");
    assert_eq!(m.host_query(), "%");
}

#[test]
fn nick_and_ident_patterns() {
    assert_eq!(Nick::from_text("kks").query(), "kks%");
    assert_eq!(Ident::from_text("~kks").query(), "%~kks%");
    assert_eq!(Nick::from_text("kks").text(), "kks");
    assert_eq!(Ident::from_text("~kks").text(), "~kks");
}
