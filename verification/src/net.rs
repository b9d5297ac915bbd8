//! Network addresses and socket errors, as far as the servers look at them.
use vstd::prelude::*;

use crate::numbers::{decimal, parse_octet};
use crate::platform::Platform;
use crate::text::{join, split_on};

verus! {

/// An IPv4 address by its four octets.
#[derive(Clone, Copy, Debug, PartialEq, Eq, Structural)]
pub struct Ipv4Addr(pub u8, pub u8, pub u8, pub u8);

/// An IP address. The servers talk IPv4, so IPv6 addresses are not told apart.
#[derive(Clone, Copy, Debug, PartialEq, Eq, Structural)]
pub enum IpAddr {
    V4(Ipv4Addr),
    V6,
}

/// The address of a UDP socket.
#[derive(Clone, Copy, Debug, PartialEq, Eq, Structural)]
pub struct SocketAddrV4 {
    pub ip: Ipv4Addr,
    pub port: u16,
}

/// What an error of a UDP socket is judged by.
#[derive(Clone, Copy, Debug)]
pub struct SocketError {
    /// Whether the error is of the kind "connection reset".
    pub connection_reset: bool,
    /// The error number of the operating system, if there is one.
    pub os_error: Option<i32>,
}

/// The error number with which Windows reports a connection reset by the peer.
pub const WSAECONNRESET: i32 = 10054;

/// The error number with which Linux reports an invalid argument.
pub const EINVAL: i32 = 22;

impl Ipv4Addr {
    /// Whether the address is in 127.0.0.0/8.
    pub open spec fn loopback(self) -> bool {
        self.0 == 127
    }

    /// Whether the address is in 10.0.0.0/8, 172.16.0.0/12 or 192.168.0.0/16.
    pub open spec fn private(self) -> bool {
        ||| self.0 == 10
        ||| self.0 == 172 && 16 <= self.1 <= 31
        ||| self.0 == 192 && self.1 == 168
    }

    /// The four octets in decimal, with dots between them.
    pub open spec fn text(self) -> Seq<char> {
        decimal(self.0 as nat) + seq!['.'] + decimal(self.1 as nat) + seq!['.'] + decimal(
            self.2 as nat,
        ) + seq!['.'] + decimal(self.3 as nat)
    }

    /// Whether the address is a loopback address.
    pub fn is_loopback(&self) -> (yes: bool)
        ensures
            yes == self.loopback(),
    {
        self.0 == 127
    }

    /// Whether the address is in a range for private networks (RFC 1918).
    pub fn is_rfc1918(&self) -> (yes: bool)
        ensures
            yes == self.private(),
    {
        self.0 == 10 || (self.0 == 172 && 16 <= self.1 && self.1 <= 31) || (self.0 == 192 && self.1
            == 168)
    }

    /// 127.0.0.1.
    pub fn localhost() -> (ip: Ipv4Addr)
        ensures
            ip == Ipv4Addr(127, 0, 0, 1),
    {
        Ipv4Addr(127, 0, 0, 1)
    }
}

/// The address that `s` is the text of, if it is that of any.
pub open spec fn parsed_ipv4(s: Seq<char>) -> Option<Ipv4Addr> {
    if exists|ip: Ipv4Addr| #[trigger] ip.text() == s {
        Some(choose|ip: Ipv4Addr| #[trigger] ip.text() == s)
    } else {
        None
    }
}

spec fn octet_texts(ip: Ipv4Addr) -> Seq<Seq<char>> {
    seq![
        decimal(ip.0 as nat),
        decimal(ip.1 as nat),
        decimal(ip.2 as nat),
        decimal(ip.3 as nat),
    ]
}

proof fn lemma_text_is_join(ip: Ipv4Addr)
    ensures
        ip.text() == join(octet_texts(ip), '.'),
        crate::text::split(ip.text(), '.') == octet_texts(ip),
{
    let parts = octet_texts(ip);
    reveal_with_fuel(join, 4);
    assert(parts.skip(1) =~= seq![parts[1], parts[2], parts[3]]);
    assert(parts.skip(1).skip(1) =~= seq![parts[2], parts[3]]);
    assert(parts.skip(1).skip(1).skip(1) =~= seq![parts[3]]);
    assert(ip.text() =~= join(parts, '.'));
    assert forall|i: int| 0 <= i < parts.len() implies !(#[trigger] parts[i]).contains('.') by {
        crate::numbers::lemma_decimal(ip.0 as nat);
        crate::numbers::lemma_decimal(ip.1 as nat);
        crate::numbers::lemma_decimal(ip.2 as nat);
        crate::numbers::lemma_decimal(ip.3 as nat);
        assert(!crate::numbers::is_digit('.'));
    }
    crate::text::lemma_split_of_join(parts, '.');
}

/// An address is read back from its text, so no two addresses have the same text.
pub proof fn lemma_text_round_trip(ip: Ipv4Addr)
    ensures
        parsed_ipv4(ip.text()) == Some(ip),
{
    let s = ip.text();
    let got = choose|other: Ipv4Addr| #[trigger] other.text() == s;
    assert(got.text() == s);
    lemma_text_is_join(ip);
    lemma_text_is_join(got);
    let a = octet_texts(ip);
    let b = octet_texts(got);
    assert(a[0] == b[0] && a[1] == b[1] && a[2] == b[2] && a[3] == b[3]);
    crate::numbers::lemma_decimal(ip.0 as nat);
    crate::numbers::lemma_decimal(ip.1 as nat);
    crate::numbers::lemma_decimal(ip.2 as nat);
    crate::numbers::lemma_decimal(ip.3 as nat);
    crate::numbers::lemma_decimal(got.0 as nat);
    crate::numbers::lemma_decimal(got.1 as nat);
    crate::numbers::lemma_decimal(got.2 as nat);
    crate::numbers::lemma_decimal(got.3 as nat);
}

/// Reads an IPv4 address in dotted decimal, each octet without leading zeros.
pub fn parse_ipv4(s: &[char]) -> (ip: Option<Ipv4Addr>)
    ensures
        ip == parsed_ipv4(s@),
{
    let parts = split_on(s, '.');
    proof {
        crate::text::lemma_join_of_split(s@, '.');
        assert forall|ip: Ipv4Addr| #[trigger] ip.text() == s@ implies crate::text::texts(parts@)
            == octet_texts(ip) by {
            lemma_text_is_join(ip);
        }
    }
    if parts.len() != 4 {
        assert(crate::text::texts(parts@).len() != 4);
        return None;
    }
    let a = parse_octet(parts[0]);
    let b = parse_octet(parts[1]);
    let c = parse_octet(parts[2]);
    let d = parse_octet(parts[3]);
    let ghost shown = crate::text::texts(parts@);
    assert(shown[0] == parts@[0]@ && shown[1] == parts@[1]@ && shown[2] == parts@[2]@ && shown[3]
        == parts@[3]@);
    match (a, b, c, d) {
        (Some(a), Some(b), Some(c), Some(d)) => {
            let ip = Ipv4Addr(a, b, c, d);
            proof {
                lemma_text_is_join(ip);
                assert(shown =~= octet_texts(ip));
                lemma_text_round_trip(ip);
            }
            Some(ip)
        },
        _ => {
            assert forall|ip: Ipv4Addr| #[trigger] ip.text() != s@ by {
                if ip.text() == s@ {
                    let t = octet_texts(ip);
                    assert(t[0] == decimal(ip.0 as nat) && t[1] == decimal(ip.1 as nat) && t[2]
                        == decimal(ip.2 as nat) && t[3] == decimal(ip.3 as nat));
                }
            }
            None
        },
    }
}

/// How many of the leading octets of two addresses agree.
pub open spec fn shared_octets(a: Ipv4Addr, b: Ipv4Addr) -> nat {
    if a.0 != b.0 {
        0
    } else if a.1 != b.1 {
        1
    } else if a.2 != b.2 {
        2
    } else if a.3 != b.3 {
        3
    } else {
        4
    }
}

/// How many leading bits two addresses share, counted in whole octets.
pub fn same_lan_prefix(a: Ipv4Addr, b: Ipv4Addr) -> (bits: u32)
    ensures
        bits == 8 * shared_octets(a, b),
{
    if a == b {
        return 32;
    }
    if a.0 == b.0 && a.1 == b.1 && a.2 == b.2 {
        return 24;
    }
    if a.0 == b.0 && a.1 == b.1 {
        return 16;
    }
    if a.0 == b.0 {
        return 8;
    }
    0
}

/// The prefix that two addresses share does not depend on their order, is at
/// most 32 bits, and is 32 bits only for equal addresses.
pub proof fn lemma_shared_octets(a: Ipv4Addr, b: Ipv4Addr)
    ensures
        shared_octets(a, b) == shared_octets(b, a),
        shared_octets(a, b) <= 4,
        shared_octets(a, b) == 4 <==> a == b,
{
}

/// Whether an error on receiving can be passed over in silence. Windows
/// reports on a UDP socket that some earlier datagram could not be delivered.
pub fn is_transient_udp_recv_err(e: &SocketError, platform: Platform) -> (yes: bool)
    ensures
        yes == (platform == Platform::Windows && (e.connection_reset || e.os_error == Some(
            WSAECONNRESET,
        ))),
{
    match platform {
        Platform::Windows => {
            if e.connection_reset {
                return true;
            }
            match e.os_error {
                Some(n) => n == WSAECONNRESET,
                None => false,
            }
        },
        Platform::Other => false,
    }
}

/// Whether an error on sending is the invalid argument that Linux reports
/// where a socket bound to loopback sends to an address that is not.
pub fn is_send_einval_to_non_loopback(e: &SocketError, dest: IpAddr) -> (yes: bool)
    ensures
        yes == (e.os_error == Some(EINVAL) && (dest matches IpAddr::V4(v4) && !v4.loopback())),
{
    match e.os_error {
        Some(n) => {
            if n != EINVAL {
                return false;
            }
        },
        None => {
            return false;
        },
    }
    match dest {
        IpAddr::V4(v4) => !v4.is_loopback(),
        IpAddr::V6 => false,
    }
}

impl Ipv4Addr {
    /// The number that the four octets make, the first of them being the highest.
    pub open spec fn number(self) -> int {
        16_777_216 * self.0 + 65_536 * self.1 + 256 * self.2 + self.3
    }
}

/// The loopback addresses are those from 127.0.0.0 to 127.255.255.255, and the
/// private ones those from 10.0.0.0 to 10.255.255.255, from 172.16.0.0 to
/// 172.31.255.255 and from 192.168.0.0 to 192.168.255.255.
pub proof fn lemma_ranges(ip: Ipv4Addr, loopback: bool, private: bool)
    requires
        call_ensures(Ipv4Addr::is_loopback, (&ip,), loopback),
        call_ensures(Ipv4Addr::is_rfc1918, (&ip,), private),
    ensures
        loopback == ip.loopback(),
        private == ip.private(),
        loopback <==> 0x7f00_0000 <= ip.number() <= 0x7fff_ffff,
        private <==> {
            ||| 0x0a00_0000 <= ip.number() <= 0x0aff_ffff
            ||| 0xac10_0000 <= ip.number() <= 0xac1f_ffff
            ||| 0xc0a8_0000 <= ip.number() <= 0xc0a8_ffff
        },
{
}

/// An address in a range is so however it is asked.
pub proof fn lemma_ranges_by_number(ip: Ipv4Addr)
    ensures
        ip.loopback() <==> 0x7f00_0000 <= ip.number() <= 0x7fff_ffff,
        ip.private() <==> {
            ||| 0x0a00_0000 <= ip.number() <= 0x0aff_ffff
            ||| 0xac10_0000 <= ip.number() <= 0xac1f_ffff
            ||| 0xc0a8_0000 <= ip.number() <= 0xc0a8_ffff
        },
{
}

/// Two addresses share as many octets as there are octets that their numbers
/// agree in, from the highest on.
pub proof fn lemma_shared_prefix(a: Ipv4Addr, b: Ipv4Addr, bits: u32)
    requires
        call_ensures(same_lan_prefix, (a, b), bits),
    ensures
        bits == 8 * shared_octets(a, b),
        bits % 8 == 0,
        bits <= 32,
        bits >= 8 <==> a.number() / 16_777_216 == b.number() / 16_777_216,
        bits >= 16 <==> a.number() / 65_536 == b.number() / 65_536,
        bits >= 24 <==> a.number() / 256 == b.number() / 256,
        bits >= 32 <==> a.number() == b.number(),
{
    lemma_shared_by_number(a, b);
}

/// How many octets two addresses share, by the numbers of the addresses.
pub proof fn lemma_shared_by_number(a: Ipv4Addr, b: Ipv4Addr)
    ensures
        shared_octets(a, b) <= 4,
        shared_octets(a, b) >= 1 <==> a.number() / 16_777_216 == b.number() / 16_777_216,
        shared_octets(a, b) >= 2 <==> a.number() / 65_536 == b.number() / 65_536,
        shared_octets(a, b) >= 3 <==> a.number() / 256 == b.number() / 256,
        shared_octets(a, b) >= 4 <==> a.number() == b.number(),
{
    lemma_number_prefixes(a);
    lemma_number_prefixes(b);
}

proof fn lemma_number_prefixes(a: Ipv4Addr)
    ensures
        a.number() / 16_777_216 == a.0,
        a.number() / 65_536 == 256 * a.0 + a.1,
        a.number() / 256 == 65_536 * a.0 + 256 * a.1 + a.2,
{
}

/// Two addresses with the same number are the same address.
pub proof fn lemma_number_tells_apart(a: Ipv4Addr, b: Ipv4Addr)
    requires
        a.number() == b.number(),
    ensures
        a == b,
{
    lemma_number_prefixes(a);
    lemma_number_prefixes(b);
    assert(a.0 == b.0);
    assert(a.1 == b.1);
    assert(a.2 == b.2);
}

/// The text of an address is four numerals with three dots between them.
pub proof fn lemma_text_parts(ip: Ipv4Addr)
    ensures
        crate::text::split(ip.text(), '.') == seq![
            decimal(ip.0 as nat),
            decimal(ip.1 as nat),
            decimal(ip.2 as nat),
            decimal(ip.3 as nat),
        ],
        join(crate::text::split(ip.text(), '.'), '.') == ip.text(),
{
    lemma_text_is_join(ip);
    crate::text::lemma_join_of_split(ip.text(), '.');
}

/// An address is read from its text and from no other.
pub proof fn lemma_addresses_are_read(s: &[char], read: Option<Ipv4Addr>, ip: Ipv4Addr)
    requires
        call_ensures(parse_ipv4, (s,), read),
    ensures
        read == Some(ip) <==> s@ == ip.text(),
{
    lemma_text_round_trip(ip);
    if let Some(other) = read {
        assert(other.text() == s@);
    }
}

/// The text of an address is digits and dots, and neither begins nor ends in a dot.
pub proof fn lemma_text_characters(ip: Ipv4Addr)
    ensures
        ip.text().len() > 0,
        forall|i: int|
            0 <= i < ip.text().len() ==> 48 <= #[trigger] ip.text()[i] as int <= 57
                || ip.text()[i] == '.',
        48 <= ip.text().last() as int <= 57,
{
    crate::numbers::lemma_decimal(ip.0 as nat);
    crate::numbers::lemma_decimal(ip.1 as nat);
    crate::numbers::lemma_decimal(ip.2 as nat);
    crate::numbers::lemma_decimal(ip.3 as nat);
    let (a, b, c, d) = (
        decimal(ip.0 as nat),
        decimal(ip.1 as nat),
        decimal(ip.2 as nat),
        decimal(ip.3 as nat),
    );
    let s = ip.text();
    assert(s == a + seq!['.'] + b + seq!['.'] + c + seq!['.'] + d);
    assert forall|i: int| 0 <= i < s.len() implies 48 <= #[trigger] s[i] as int <= 57 || s[i]
        == '.' by {
        let i1 = i - a.len() - 1;
        let i2 = i1 - b.len() - 1;
        let i3 = i2 - c.len() - 1;
        if i < a.len() {
            assert(s[i] == a[i]);
        } else if i1 == -1 {
        } else if i1 < b.len() {
            assert(s[i] == b[i1]);
        } else if i2 == -1 {
        } else if i2 < c.len() {
            assert(s[i] == c[i2]);
        } else if i3 == -1 {
        } else {
            assert(s[i] == d[i3]);
        }
    }
    assert(s.last() == d.last());
}

/// On Windows a reset connection is passed over, by its kind or its number;
/// nothing is anywhere else.
pub proof fn lemma_transient_errors(e: SocketError, platform: Platform, yes: bool)
    requires
        call_ensures(is_transient_udp_recv_err, (&e, platform), yes),
    ensures
        platform == Platform::Other ==> !yes,
        platform == Platform::Windows ==> (yes <==> e.connection_reset || e.os_error == Some(
            10054i32,
        )),
{
}

/// An invalid argument is passed over for each IPv4 address outside of
/// loopback, and no other error is for any address.
pub proof fn lemma_send_errors(e: SocketError, dest: IpAddr, yes: bool)
    requires
        call_ensures(is_send_einval_to_non_loopback, (&e, dest), yes),
    ensures
        e.os_error != Some(22i32) ==> !yes,
        dest is V6 ==> !yes,
        e.os_error == Some(22i32) && dest is V4 ==> (yes <==> !(0x7f00_0000 <= dest->V4_0.number()
            <= 0x7fff_ffff)),
{
}

/// The address of this machine itself is 127.0.0.1, which is one of loopback.
pub proof fn lemma_localhost(ip: Ipv4Addr, loopback: bool)
    requires
        call_ensures(Ipv4Addr::localhost, (), ip),
        call_ensures(Ipv4Addr::is_loopback, (&ip,), loopback),
    ensures
        ip.number() == 0x7f00_0001,
        loopback,
{
}

} // verus!
