use realtime_web_comparison::interfaces::{if_is_virtual, pick_bind_v4_for_offer, Interface};
use realtime_web_comparison::net::{
    is_send_einval_to_non_loopback, is_transient_udp_recv_err, parse_ipv4, same_lan_prefix, IpAddr,
    Ipv4Addr, SocketError,
};
use realtime_web_comparison::platform::Platform;
use realtime_web_comparison::sdp::{extract_offer_v4s, is_within_reach, read_candidate};
use realtime_web_comparison::text::chars_of;

fn read(s: &str) -> Option<Ipv4Addr> {
    parse_ipv4(&chars_of(s))
}

fn interface(name: &str, ip: Ipv4Addr) -> Interface {
    Interface { name: name.to_string(), ip: IpAddr::V4(ip), loopback: ip.0 == 127 }
}

fn offer(ips: &[&str]) -> String {
    let mut sdp = String::from("v=0\r\n");
    for ip in ips {
        sdp.push_str(&format!("a=candidate:1 1 UDP 12345 {ip} 12345 typ host\r\n"));
    }
    sdp
}

#[test]
fn ipv4_addresses_in_dotted_decimal() {
    assert_eq!(read("127.0.0.1"), Some(Ipv4Addr(127, 0, 0, 1)));
    assert_eq!(read("0.0.0.0"), Some(Ipv4Addr(0, 0, 0, 0)));
    assert_eq!(read("255.255.255.255"), Some(Ipv4Addr(255, 255, 255, 255)));
    assert_eq!(read("192.168.1.100"), Some(Ipv4Addr(192, 168, 1, 100)));
    for s in [
        "256.1.1.1", "1.2.3", "1.2.3.4.5", "01.2.3.4", "1.2.3.4 ", " 1.2.3.4", "1..2.3", "a.b.c.d",
        "", "1.2.3.04", "+1.2.3.4", "1.2.3.4:5", "::1", "1.2.3.-4", "1.2.3.\u{664}", "1.2.3.",
    ] {
        assert_eq!(read(s), None, "{s:?}");
    }
}

#[test]
fn an_address_is_read_back_from_its_text() {
    for n in 0..=255u8 {
        let ip = Ipv4Addr(n, 255 - n, n / 2, 7);
        assert_eq!(read(&format!("{}.{}.{}.{}", ip.0, ip.1, ip.2, ip.3)), Some(ip));
    }
}

#[test]
fn private_and_loopback_ranges() {
    assert!(Ipv4Addr(10, 255, 0, 1).is_rfc1918());
    assert!(Ipv4Addr(172, 16, 0, 1).is_rfc1918());
    assert!(Ipv4Addr(172, 31, 0, 1).is_rfc1918());
    assert!(!Ipv4Addr(172, 15, 0, 1).is_rfc1918());
    assert!(!Ipv4Addr(172, 32, 0, 1).is_rfc1918());
    assert!(Ipv4Addr(192, 168, 0, 1).is_rfc1918());
    assert!(!Ipv4Addr(192, 169, 0, 1).is_rfc1918());
    assert!(!Ipv4Addr(8, 8, 8, 8).is_rfc1918());
    assert!(Ipv4Addr(127, 9, 9, 9).is_loopback());
    assert!(!Ipv4Addr(128, 0, 0, 1).is_loopback());
    assert_eq!(Ipv4Addr::localhost(), Ipv4Addr(127, 0, 0, 1));
}

#[test]
fn shared_prefixes_in_whole_octets() {
    let a = Ipv4Addr(192, 168, 1, 10);
    assert_eq!(same_lan_prefix(a, a), 32);
    assert_eq!(same_lan_prefix(a, Ipv4Addr(192, 168, 1, 11)), 24);
    assert_eq!(same_lan_prefix(a, Ipv4Addr(192, 168, 2, 10)), 16);
    assert_eq!(same_lan_prefix(a, Ipv4Addr(192, 1, 1, 10)), 8);
    assert_eq!(same_lan_prefix(a, Ipv4Addr(10, 168, 1, 10)), 0);
    assert_eq!(
        same_lan_prefix(a, Ipv4Addr(192, 168, 1, 11)),
        same_lan_prefix(Ipv4Addr(192, 168, 1, 11), a)
    );
}

#[test]
fn receive_errors_that_are_passed_over() {
    let reset = SocketError { connection_reset: true, os_error: None };
    let by_number = SocketError { connection_reset: false, os_error: Some(10054) };
    let other = SocketError { connection_reset: false, os_error: Some(104) };
    assert!(is_transient_udp_recv_err(&reset, Platform::Windows));
    assert!(is_transient_udp_recv_err(&by_number, Platform::Windows));
    assert!(!is_transient_udp_recv_err(&other, Platform::Windows));
    assert!(!is_transient_udp_recv_err(&reset, Platform::Other));
    assert!(!is_transient_udp_recv_err(&by_number, Platform::Other));
}

#[test]
fn send_errors_that_are_passed_over() {
    let einval = SocketError { connection_reset: false, os_error: Some(22) };
    let other = SocketError { connection_reset: false, os_error: Some(11) };
    let none = SocketError { connection_reset: false, os_error: None };
    let lan = IpAddr::V4(Ipv4Addr(192, 168, 1, 1));
    let loopback = IpAddr::V4(Ipv4Addr(127, 0, 0, 1));
    assert!(is_send_einval_to_non_loopback(&einval, lan));
    assert!(!is_send_einval_to_non_loopback(&einval, loopback));
    assert!(!is_send_einval_to_non_loopback(&einval, IpAddr::V6));
    assert!(!is_send_einval_to_non_loopback(&other, lan));
    assert!(!is_send_einval_to_non_loopback(&none, lan));
}

#[test]
fn offered_addresses() {
    let sdp = "v=0\r\n\
        a=candidate:1 1 UDP 12345 192.168.1.100 12345 typ host\r\n\
        a=candidate:2 1 UDP 12345 0a1b2c3d.local 12345 typ host\r\n\
        a=candidate:3 1 UDP 12345 fe80::1 12345 typ host\n\
        a=candidate:4 1 UDP 12345 10.0.0.7\r\n\
        m=application 9 UDP/DTLS/SCTP webrtc-datachannel\r\n\
        b=candidate:5 1 UDP 12345 10.0.0.8 12345\r\n\
        a=candidate:6 1 tcp 12345 10.0.0.9 9 typ host";
    assert_eq!(extract_offer_v4s(sdp), vec![Ipv4Addr(192, 168, 1, 100), Ipv4Addr(10, 0, 0, 9)]);
    assert_eq!(extract_offer_v4s(""), Vec::new());
}

#[test]
fn usable_candidates() {
    let lan = IpAddr::V4(Ipv4Addr(192, 168, 1, 5));
    let host = Some((Ipv4Addr(192, 168, 1, 100), 12345));
    let plain = "candidate:1 1 UDP 12345 192.168.1.100 12345 typ host";
    assert_eq!(read_candidate(plain, lan), host);
    assert_eq!(read_candidate(&format!("a={plain}"), lan), host);
    assert_eq!(read_candidate(&format!("a=a=candidate:{plain}"), lan), host);
    assert_eq!(read_candidate("1 1 udp 12345 192.168.1.100 +12345", lan), host);
    assert_eq!(read_candidate("1 1 tcp 12345 192.168.1.100 12345", lan), None);
    assert_eq!(read_candidate("1 1 udp 12345 192.168.1.100", lan), None);
    assert_eq!(read_candidate("1 1 udp 12345 abc.local 12345", lan), None);
    assert_eq!(read_candidate("1 1 udp 12345 fe80::1 12345", lan), None);
    assert_eq!(read_candidate("1 1 udp 12345 192.168.1.100 65536", lan), None);
    assert_eq!(read_candidate("1 1 udp 12345 8.8.8.8 12345", lan), None);
    assert_eq!(read_candidate("", lan), None);
}

#[test]
fn candidates_within_reach() {
    let loopback = IpAddr::V4(Ipv4Addr(127, 0, 0, 1));
    let lan = IpAddr::V4(Ipv4Addr(10, 0, 0, 1));
    assert!(is_within_reach(loopback, Ipv4Addr(127, 0, 0, 2)));
    assert!(!is_within_reach(loopback, Ipv4Addr(10, 0, 0, 2)));
    for local in [lan, IpAddr::V6] {
        assert!(is_within_reach(local, Ipv4Addr(127, 0, 0, 2)));
        assert!(is_within_reach(local, Ipv4Addr(172, 20, 0, 2)));
        assert!(!is_within_reach(local, Ipv4Addr(1, 1, 1, 1)));
    }
}

#[test]
fn virtual_interfaces_by_name() {
    for name in [
        "VirtualBox Host-Only Network", "vmware1", "vEthernet (Hyper-V)", "WinTun", "tailscale0",
        "ZeroTier One", "docker0", "vboxnet0", "Bridge101", "Hamachi", "Loopback Pseudo-Interface",
        "veth12ab",
    ] {
        assert!(if_is_virtual(name), "{name}");
    }
    for name in ["eth0", "en0", "Wi-Fi", "lo", ""] {
        assert!(!if_is_virtual(name), "{name}");
    }
}

#[test]
fn the_override_comes_first() {
    let interfaces = vec![interface("eth0", Ipv4Addr(10, 0, 0, 5))];
    let sdp = offer(&["127.0.0.1"]);
    assert_eq!(pick_bind_v4_for_offer(Some("8.8.8.8"), &sdp, &interfaces), Ipv4Addr(8, 8, 8, 8));
    assert_eq!(pick_bind_v4_for_offer(Some("eth0"), &sdp, &interfaces), Ipv4Addr(127, 0, 0, 1));
    assert_eq!(
        pick_bind_v4_for_offer(Some("::1"), &offer(&[]), &interfaces),
        Ipv4Addr(10, 0, 0, 5)
    );
}

#[test]
fn an_offer_from_loopback_is_served_on_loopback() {
    let interfaces = vec![interface("eth0", Ipv4Addr(10, 0, 0, 5))];
    let sdp = offer(&["10.0.0.9", "127.0.0.1"]);
    assert_eq!(pick_bind_v4_for_offer(None, &sdp, &interfaces), Ipv4Addr(127, 0, 0, 1));
}

#[test]
fn the_nearest_interface_is_picked() {
    let interfaces = vec![
        interface("eth0", Ipv4Addr(10, 0, 0, 5)),
        interface("docker0", Ipv4Addr(192, 168, 1, 1)),
        interface("wlan0", Ipv4Addr(192, 168, 1, 7)),
        interface("wlan1", Ipv4Addr(192, 168, 1, 8)),
        interface("ppp0", Ipv4Addr(1, 2, 3, 4)),
        interface("lo", Ipv4Addr(127, 0, 0, 1)),
        Interface { name: "eth1".to_string(), ip: IpAddr::V6, loopback: false },
    ];
    let sdp = offer(&["192.168.1.100"]);
    assert_eq!(pick_bind_v4_for_offer(None, &sdp, &interfaces), Ipv4Addr(192, 168, 1, 7));
    assert_eq!(pick_bind_v4_for_offer(None, &offer(&[]), &interfaces), Ipv4Addr(10, 0, 0, 5));
    assert_eq!(
        pick_bind_v4_for_offer(None, &offer(&["10.9.9.9", "192.168.7.7"]), &interfaces),
        Ipv4Addr(192, 168, 1, 7)
    );
}

#[test]
fn without_an_interface_loopback_is_picked() {
    let interfaces = vec![
        interface("docker0", Ipv4Addr(172, 17, 0, 1)),
        interface("eth0", Ipv4Addr(8, 8, 8, 8)),
        Interface {
            name: "odd".to_string(),
            ip: IpAddr::V4(Ipv4Addr(10, 0, 0, 1)),
            loopback: true,
        },
    ];
    let sdp = offer(&["192.168.1.100"]);
    assert_eq!(pick_bind_v4_for_offer(None, &sdp, &interfaces), Ipv4Addr(127, 0, 0, 1));
    assert_eq!(pick_bind_v4_for_offer(None, &sdp, &Vec::new()), Ipv4Addr(127, 0, 0, 1));
}
