//! Which of the host's addresses a connection is bound to.
use vstd::prelude::*;

use crate::net::{parse_ipv4, parsed_ipv4, same_lan_prefix, shared_octets, IpAddr, Ipv4Addr};
use crate::sdp::{extract_offer_v4s, offered_v4s};
use crate::text::{chars_of, contains, lines, lower, lower_case_of, occurs_in};

verus! {

/// A network interface of the host.
pub struct Interface {
    pub name: String,
    pub ip: IpAddr,
    /// Whether the host says that it is a loopback interface.
    pub loopback: bool,
}

/// What the names of virtual and tunnel interfaces contain.
pub open spec fn virtual_names() -> Seq<Seq<char>> {
    seq![
        "virtualbox"@,
        "vmware"@,
        "hyper-v"@,
        "wintun"@,
        "tailscale"@,
        "zerotier"@,
        "docker"@,
        "vbox"@,
        "bridge"@,
        "hamachi"@,
        "loopback"@,
        "veth"@,
    ]
}

/// Whether a name is that of a virtual or tunnel interface, in any case.
pub open spec fn is_virtual_name(name: Seq<char>) -> bool {
    exists|k: int|
        0 <= k < virtual_names().len() && occurs_in(#[trigger] virtual_names()[k], lower(name))
}

/// How near an address is to an offer: the bits of the longest prefix that it
/// shares with one of the offer's addresses.
pub open spec fn rank(ip: Ipv4Addr, offers: Seq<Ipv4Addr>) -> nat
    decreases offers.len(),
{
    if offers.len() == 0 {
        0
    } else {
        let before = rank(ip, offers.drop_last());
        let here = 8 * shared_octets(ip, offers.last());
        if here > before {
            here
        } else {
            before
        }
    }
}

impl Interface {
    /// Whether the interface has a private IPv4 address and is neither loopback nor virtual.
    pub open spec fn eligible(self) -> bool {
        &&& self.ip matches IpAddr::V4(v4)
        &&& !self.loopback
        &&& !v4.loopback()
        &&& v4.private()
        &&& !is_virtual_name(self.name@)
    }

    /// The IPv4 address of the interface.
    pub open spec fn v4(self) -> Ipv4Addr {
        self.ip->V4_0
    }
}

/// Whether `k` is the first of the eligible interfaces with the best rank.
pub open spec fn is_best(interfaces: Seq<Interface>, offers: Seq<Ipv4Addr>, k: int) -> bool {
    &&& 0 <= k < interfaces.len()
    &&& interfaces[k].eligible()
    &&& forall|j: int|
        0 <= j < interfaces.len() && (#[trigger] interfaces[j]).eligible() ==> rank(
            interfaces[j].v4(),
            offers,
        ) <= rank(interfaces[k].v4(), offers)
    &&& forall|j: int|
        0 <= j < k && (#[trigger] interfaces[j]).eligible() ==> rank(interfaces[j].v4(), offers)
            < rank(interfaces[k].v4(), offers)
}

/// Whether an offer holds a loopback address.
pub open spec fn offers_loopback(offers: Seq<Ipv4Addr>) -> bool {
    exists|i: int| 0 <= i < offers.len() && (#[trigger] offers[i]).loopback()
}

/// Whether `ip` is the address to bind to for an offer without being told
/// which: loopback for an offer from loopback, the address of the best
/// interface where there is one, and else loopback.
pub open spec fn suits_offer(
    ip: Ipv4Addr,
    offers: Seq<Ipv4Addr>,
    interfaces: Seq<Interface>,
) -> bool {
    if offers_loopback(offers) {
        ip == Ipv4Addr(127, 0, 0, 1)
    } else if exists|k: int| 0 <= k < interfaces.len() && (#[trigger] interfaces[k]).eligible() {
        exists|k: int| #[trigger] is_best(interfaces, offers, k) && ip == interfaces[k].v4()
    } else {
        ip == Ipv4Addr(127, 0, 0, 1)
    }
}

/// Whether the name of an interface suggests that it is virtual or a tunnel.
pub fn if_is_virtual(name: &str) -> (yes: bool)
    ensures
        yes == is_virtual_name(name@),
{
    let lowered = lower_case_of(chars_of(name).as_slice());
    let keys: Vec<&'static str> = vec![
        "virtualbox",
        "vmware",
        "hyper-v",
        "wintun",
        "tailscale",
        "zerotier",
        "docker",
        "vbox",
        "bridge",
        "hamachi",
        "loopback",
        "veth",
    ];
    assert(forall|k: int| 0 <= k < 12 ==> (#[trigger] keys@[k])@ == virtual_names()[k]);
    let mut i: usize = 0;
    while i < keys.len()
        invariant
            i <= keys@.len() == 12,
            lowered@ == lower(name@),
            forall|k: int| 0 <= k < 12 ==> (#[trigger] keys@[k])@ == virtual_names()[k],
            forall|k: int|
                0 <= k < i ==> !occurs_in(#[trigger] virtual_names()[k], lower(name@)),
        decreases 12 - i,
    {
        let key = chars_of(keys[i]);
        assert(key@ == virtual_names()[i as int]);
        if contains(lowered.as_slice(), key.as_slice()) {
            return true;
        }
        i = i + 1;
    }
    false
}

fn eligible_v4(interface: &Interface) -> (ip: Option<Ipv4Addr>)
    ensures
        ip == if interface.eligible() {
            Some(interface.v4())
        } else {
            None
        },
{
    match interface.ip {
        IpAddr::V4(ip) => {
            if interface.loopback || ip.is_loopback() {
                return None;
            }
            if if_is_virtual(interface.name.as_str()) {
                return None;
            }
            if !ip.is_rfc1918() {
                return None;
            }
            Some(ip)
        },
        IpAddr::V6 => None,
    }
}

fn rank_of(ip: Ipv4Addr, offers: &Vec<Ipv4Addr>) -> (bits: u32)
    ensures
        bits == rank(ip, offers@),
{
    let mut bits: u32 = 0;
    let mut i: usize = 0;
    while i < offers.len()
        invariant
            i <= offers@.len(),
            bits == rank(ip, offers@.take(i as int)),
        decreases offers@.len() - i,
    {
        let here: u32 = same_lan_prefix(ip, offers[i]);
        assert(offers@.take(i + 1).drop_last() == offers@.take(i as int));
        if here > bits {
            bits = here;
        }
        i = i + 1;
    }
    assert(offers@.take(i as int) == offers@);
    bits
}

fn any_loopback(offers: &Vec<Ipv4Addr>) -> (yes: bool)
    ensures
        yes == offers_loopback(offers@),
{
    let mut i: usize = 0;
    while i < offers.len()
        invariant
            i <= offers@.len(),
            forall|j: int| 0 <= j < i ==> !(#[trigger] offers@[j]).loopback(),
        decreases offers@.len() - i,
    {
        if offers[i].is_loopback() {
            return true;
        }
        i = i + 1;
    }
    false
}

/// The address to bind to for an offer. `bind_override` names the address to
/// use and is passed over where it is no IPv4 address; `interfaces` are those
/// of the host, none where they could not be listed.
pub fn pick_bind_v4_for_offer(
    bind_override: Option<&str>,
    offer_sdp: &str,
    interfaces: &Vec<Interface>,
) -> (ip: Ipv4Addr)
    ensures
        match bind_override {
            Some(s) => match parsed_ipv4(s@) {
                Some(named) => ip == named,
                None => suits_offer(ip, offered_v4s(lines(offer_sdp@)), interfaces@),
            },
            None => suits_offer(ip, offered_v4s(lines(offer_sdp@)), interfaces@),
        },
{
    if let Some(s) = bind_override {
        if let Some(named) = parse_ipv4(chars_of(s).as_slice()) {
            return named;
        }
    }
    let offers = extract_offer_v4s(offer_sdp);
    if any_loopback(&offers) {
        return Ipv4Addr::localhost();
    }
    let mut best: Option<(u32, Ipv4Addr)> = None;
    let ghost mut at: int = 0;
    let mut i: usize = 0;
    while i < interfaces.len()
        invariant
            i <= interfaces@.len(),
            match best {
                Some((bits, ip)) => {
                    &&& 0 <= at < i
                    &&& is_best(interfaces@.take(i as int), offers@, at)
                    &&& ip == interfaces@[at].v4()
                    &&& bits == rank(ip, offers@)
                },
                None => forall|k: int| 0 <= k < i ==> !(#[trigger] interfaces@[k]).eligible(),
            },
        decreases interfaces@.len() - i,
    {
        let ghost seen = interfaces@.take(i as int);
        let ghost now = interfaces@.take(i + 1);
        assert(forall|k: int| 0 <= k < i ==> #[trigger] now[k] == seen[k]);
        assert(now[i as int] == interfaces@[i as int]);
        if let Some(ip) = eligible_v4(&interfaces[i]) {
            let bits: u32 = rank_of(ip, &offers);
            let better = match best {
                Some((best_bits, _)) => bits > best_bits,
                None => true,
            };
            if better {
                best = Some((bits, ip));
                proof {
                    at = i as int;
                }
            }
        }
        i = i + 1;
    }
    assert(interfaces@.take(i as int) == interfaces@);
    match best {
        Some((_, ip)) => ip,
        None => Ipv4Addr::localhost(),
    }
}

/// No two interfaces are both the best, so that the offer and the interfaces
/// settle the address.
pub proof fn lemma_best_is_unique(
    interfaces: Seq<Interface>,
    offers: Seq<Ipv4Addr>,
    j: int,
    k: int,
)
    requires
        is_best(interfaces, offers, j),
        is_best(interfaces, offers, k),
    ensures
        j == k,
{
}

/// Whether one of the words by which virtual and tunnel interfaces are known is
/// somewhere in a name, in any case.
pub open spec fn sounds_virtual(name: Seq<char>) -> bool {
    ||| occurs_in("virtualbox"@, lower(name))
    ||| occurs_in("vmware"@, lower(name))
    ||| occurs_in("hyper-v"@, lower(name))
    ||| occurs_in("wintun"@, lower(name))
    ||| occurs_in("tailscale"@, lower(name))
    ||| occurs_in("zerotier"@, lower(name))
    ||| occurs_in("docker"@, lower(name))
    ||| occurs_in("vbox"@, lower(name))
    ||| occurs_in("bridge"@, lower(name))
    ||| occurs_in("hamachi"@, lower(name))
    ||| occurs_in("loopback"@, lower(name))
    ||| occurs_in("veth"@, lower(name))
}

/// Whether an interface is a real one on a private network.
pub open spec fn is_on_lan(interface: Interface) -> bool {
    &&& interface.ip is V4
    &&& !interface.loopback
    &&& !sounds_virtual(interface.name@)
    &&& {
        let n = interface.ip->V4_0.number();
        ||| 0x0a00_0000 <= n <= 0x0aff_ffff
        ||| 0xac10_0000 <= n <= 0xac1f_ffff
        ||| 0xc0a8_0000 <= n <= 0xc0a8_ffff
    }
}

/// The names of virtual interfaces are those that one of twelve words is in.
pub proof fn lemma_virtual_names(name: &str, yes: bool)
    requires
        call_ensures(if_is_virtual, (name,), yes),
    ensures
        yes == sounds_virtual(name@),
{
    lemma_sounds_virtual(name@);
}

proof fn lemma_sounds_virtual(name: Seq<char>)
    ensures
        is_virtual_name(name) <==> sounds_virtual(name),
{
    if is_virtual_name(name) {
        let k = choose|k: int|
            0 <= k < virtual_names().len() && occurs_in(#[trigger] virtual_names()[k], lower(name));
        assert(occurs_in(virtual_names()[k], lower(name)));
        assert(0 <= k < 12);
    }
    if sounds_virtual(name) {
        if occurs_in("virtualbox"@, lower(name)) {
            assert(virtual_names()[0] == "virtualbox"@);
        }
        if occurs_in("vmware"@, lower(name)) {
            assert(virtual_names()[1] == "vmware"@);
        }
        if occurs_in("hyper-v"@, lower(name)) {
            assert(virtual_names()[2] == "hyper-v"@);
        }
        if occurs_in("wintun"@, lower(name)) {
            assert(virtual_names()[3] == "wintun"@);
        }
        if occurs_in("tailscale"@, lower(name)) {
            assert(virtual_names()[4] == "tailscale"@);
        }
        if occurs_in("zerotier"@, lower(name)) {
            assert(virtual_names()[5] == "zerotier"@);
        }
        if occurs_in("docker"@, lower(name)) {
            assert(virtual_names()[6] == "docker"@);
        }
        if occurs_in("vbox"@, lower(name)) {
            assert(virtual_names()[7] == "vbox"@);
        }
        if occurs_in("bridge"@, lower(name)) {
            assert(virtual_names()[8] == "bridge"@);
        }
        if occurs_in("hamachi"@, lower(name)) {
            assert(virtual_names()[9] == "hamachi"@);
        }
        if occurs_in("loopback"@, lower(name)) {
            assert(virtual_names()[10] == "loopback"@);
        }
        if occurs_in("veth"@, lower(name)) {
            assert(virtual_names()[11] == "veth"@);
        }
    }
}

/// The case of a name does not tell whether it is that of a virtual interface.
pub proof fn lemma_case_of_names(name: &str, yes: bool, other: &str, other_yes: bool)
    requires
        call_ensures(if_is_virtual, (name,), yes),
        call_ensures(if_is_virtual, (other,), other_yes),
        name@.len() == other@.len(),
        forall|i: int|
            0 <= i < name@.len() ==> {
                ||| #[trigger] name@[i] == other@[i]
                ||| 65 <= name@[i] as int <= 90 && other@[i] as int == name@[i] as int + 32
                ||| 65 <= other@[i] as int <= 90 && name@[i] as int == other@[i] as int + 32
            },
    ensures
        yes == other_yes,
{
    crate::text::lemma_same_but_for_case(name@, other@);
}

proof fn lemma_on_lan(interface: Interface)
    ensures
        interface.eligible() <==> is_on_lan(interface),
{
    lemma_sounds_virtual(interface.name@);
    if let IpAddr::V4(v4) = interface.ip {
        crate::net::lemma_ranges_by_number(v4);
    }
}

/// An address is as near to an offer as to the nearest of the offer's addresses.
pub proof fn lemma_rank(ip: Ipv4Addr, offers: Seq<Ipv4Addr>)
    ensures
        forall|i: int|
            0 <= i < offers.len() ==> rank(ip, offers) >= 8 * shared_octets(
                ip,
                #[trigger] offers[i],
            ),
        offers.len() > 0 ==> exists|i: int|
            0 <= i < offers.len() && rank(ip, offers) == 8 * shared_octets(ip, #[trigger] offers[i]),
        offers.len() == 0 ==> rank(ip, offers) == 0,
    decreases offers.len(),
{
    if offers.len() > 0 {
        let fewer = offers.drop_last();
        let n = offers.len() - 1;
        lemma_rank(ip, fewer);
        assert forall|i: int| 0 <= i < offers.len() implies rank(ip, offers) >= 8 * shared_octets(
            ip,
            #[trigger] offers[i],
        ) by {
            if i < n {
                assert(fewer[i] == offers[i]);
            }
        }
        if rank(ip, offers) == 8 * shared_octets(ip, offers[n]) {
        } else {
            assert(fewer.len() > 0);
            let i = choose|i: int|
                0 <= i < fewer.len() && rank(ip, fewer) == 8 * shared_octets(
                    ip,
                    #[trigger] fewer[i],
                );
            assert(offers[i] == fewer[i]);
        }
    }
}

/// How near an address is to an offer does not depend on the order of the
/// offer's addresses, nor on how often each is in it.
pub proof fn lemma_order_of_offers(ip: Ipv4Addr, offers: Seq<Ipv4Addr>, others: Seq<Ipv4Addr>)
    requires
        forall|i: int| 0 <= i < offers.len() ==> others.contains(#[trigger] offers[i]),
        forall|i: int| 0 <= i < others.len() ==> offers.contains(#[trigger] others[i]),
    ensures
        rank(ip, offers) == rank(ip, others),
{
    lemma_rank_at_most(ip, offers, others);
    lemma_rank_at_most(ip, others, offers);
}

proof fn lemma_rank_at_most(ip: Ipv4Addr, offers: Seq<Ipv4Addr>, others: Seq<Ipv4Addr>)
    requires
        forall|i: int| 0 <= i < offers.len() ==> others.contains(#[trigger] offers[i]),
    ensures
        rank(ip, offers) <= rank(ip, others),
{
    lemma_rank(ip, offers);
    lemma_rank(ip, others);
    if offers.len() > 0 {
        let i = choose|i: int|
            0 <= i < offers.len() && rank(ip, offers) == 8 * shared_octets(ip, #[trigger] offers[i]);
        assert(others.contains(offers[i]));
        let j = choose|j: int| 0 <= j < others.len() && others[j] == offers[i];
        assert(others[j] == offers[i]);
    }
}

/// Whether an address shares at least as many octets with one of `offers`.
pub open spec fn shares(ip: Ipv4Addr, octets: nat, offers: Seq<Ipv4Addr>) -> bool {
    exists|j: int| 0 <= j < offers.len() && octets <= shared_octets(ip, #[trigger] offers[j])
}

/// Whether the address `ip` shares as many octets with one of `offers` as
/// `other` shares with any of them.
pub open spec fn is_as_near(ip: Ipv4Addr, other: Ipv4Addr, offers: Seq<Ipv4Addr>) -> bool {
    forall|i: int|
        0 <= i < offers.len() ==> shares(ip, shared_octets(other, #[trigger] offers[i]), offers)
}

/// Whether `ip` is the address of a real interface on a private network that is
/// as near to the offer as any such interface, and nearer than those before it.
pub open spec fn is_nearest(
    ip: Ipv4Addr,
    offers: Seq<Ipv4Addr>,
    interfaces: Seq<Interface>,
) -> bool {
    exists|k: int|
        {
            &&& 0 <= k < interfaces.len()
            &&& is_on_lan(#[trigger] interfaces[k])
            &&& interfaces[k].ip == IpAddr::V4(ip)
            &&& forall|j: int|
                0 <= j < interfaces.len() && is_on_lan(#[trigger] interfaces[j]) ==> {
                    &&& is_as_near(ip, interfaces[j].ip->V4_0, offers)
                    &&& j < k ==> !is_as_near(interfaces[j].ip->V4_0, ip, offers)
                }
        }
}

proof fn lemma_near(ip: Ipv4Addr, other: Ipv4Addr, offers: Seq<Ipv4Addr>)
    ensures
        is_as_near(ip, other, offers) <==> rank(other, offers) <= rank(ip, offers),
{
    if offers.len() == 0 {
        lemma_rank(ip, offers);
        lemma_rank(other, offers);
    } else {
        let best = lemma_rank_is_reached(ip, offers);
        let most = lemma_rank_is_reached(other, offers);
        if rank(other, offers) <= rank(ip, offers) {
            assert forall|i: int| 0 <= i < offers.len() implies shares(
                ip,
                shared_octets(other, #[trigger] offers[i]),
                offers,
            ) by {
                lemma_rank(other, offers);
                assert(rank(other, offers) >= 8 * shared_octets(other, offers[i]));
                assert(shared_octets(other, offers[i]) <= shared_octets(ip, offers[best]));
            }
        }
        if is_as_near(ip, other, offers) {
            let octets = shared_octets(other, offers[most]);
            assert(shares(ip, octets, offers));
            let j = choose|j: int|
                0 <= j < offers.len() && octets <= shared_octets(ip, #[trigger] offers[j]);
            lemma_rank(ip, offers);
            assert(rank(ip, offers) >= 8 * shared_octets(ip, offers[j]));
        }
    }
}

proof fn lemma_rank_is_reached(ip: Ipv4Addr, offers: Seq<Ipv4Addr>) -> (i: int)
    requires
        offers.len() > 0,
    ensures
        0 <= i < offers.len(),
        rank(ip, offers) == 8 * shared_octets(ip, offers[i]),
{
    lemma_rank(ip, offers);
    choose|i: int|
        0 <= i < offers.len() && rank(ip, offers) == 8 * shared_octets(ip, #[trigger] offers[i])
}

/// The address to bind to is the named one where one is named. Else it is
/// 127.0.0.1 for an offer with an address on loopback, and for a host without a
/// real interface on a private network. Else it is that of the interface
/// nearest to the offer, the first of those that are equally near.
pub proof fn lemma_picked(
    bind_override: Option<&str>,
    offer_sdp: &str,
    interfaces: &Vec<Interface>,
    ip: Ipv4Addr,
    offers: Vec<Ipv4Addr>,
)
    requires
        call_ensures(pick_bind_v4_for_offer, (bind_override, offer_sdp, interfaces), ip),
        call_ensures(extract_offer_v4s, (offer_sdp,), offers),
    ensures
        bind_override is Some ==> forall|named: Ipv4Addr|
            bind_override->0@ == #[trigger] named.text() ==> ip == named,
        bind_override is None || (forall|named: Ipv4Addr|
            bind_override->0@ != #[trigger] named.text()) ==> {
            let on_loopback = exists|i: int|
                0 <= i < offers@.len() && (#[trigger] offers@[i]).0 == 127;
            let on_lan = exists|k: int|
                0 <= k < interfaces@.len() && is_on_lan(#[trigger] interfaces@[k]);
            &&& on_loopback || !on_lan ==> ip == Ipv4Addr(127, 0, 0, 1)
            &&& !on_loopback && on_lan ==> is_nearest(ip, offers@, interfaces@)
        },
{
    if bind_override is Some {
        assert forall|named: Ipv4Addr| bind_override->0@ == #[trigger] named.text() implies ip
            == named by {
            crate::net::lemma_text_round_trip(named);
        }
    }
    if bind_override is None || (forall|named: Ipv4Addr|
        bind_override->0@ != #[trigger] named.text()) {
        assert(suits_offer(ip, offers@, interfaces@));
        assert(offers_loopback(offers@) <==> exists|i: int|
            0 <= i < offers@.len() && (#[trigger] offers@[i]).0 == 127) by {
            if offers_loopback(offers@) {
                let i = choose|i: int| 0 <= i < offers@.len() && (#[trigger] offers@[i]).loopback();
                assert(offers@[i].0 == 127);
            }
            if exists|i: int| 0 <= i < offers@.len() && (#[trigger] offers@[i]).0 == 127 {
                let i = choose|i: int| 0 <= i < offers@.len() && (#[trigger] offers@[i]).0 == 127;
                assert(offers@[i].loopback());
            }
        }
        assert forall|k: int| 0 <= k < interfaces@.len() implies (
        #[trigger] interfaces@[k]).eligible() == is_on_lan(interfaces@[k]) by {
            lemma_on_lan(interfaces@[k]);
        }
        if !offers_loopback(offers@) && exists|k: int|
            0 <= k < interfaces@.len() && is_on_lan(#[trigger] interfaces@[k]) {
            let k = choose|k: int| 0 <= k < interfaces@.len() && is_on_lan(
                #[trigger] interfaces@[k],
            );
            assert(interfaces@[k].eligible());
            let best = choose|k: int| #[trigger]
                is_best(interfaces@, offers@, k) && ip == interfaces@[k].v4();
            assert(is_best(interfaces@, offers@, best));
            assert(is_on_lan(interfaces@[best]));
            assert forall|j: int| 0 <= j < interfaces@.len() && is_on_lan(
                #[trigger] interfaces@[j],
            ) implies {
                &&& is_as_near(ip, interfaces@[j].ip->V4_0, offers@)
                &&& j < best ==> !is_as_near(interfaces@[j].ip->V4_0, ip, offers@)
            } by {
                assert(interfaces@[j].eligible());
                lemma_near(ip, interfaces@[j].ip->V4_0, offers@);
                lemma_near(interfaces@[j].ip->V4_0, ip, offers@);
            }
        }
        if !(exists|k: int| 0 <= k < interfaces@.len() && is_on_lan(#[trigger] interfaces@[k])) {
            assert forall|k: int| 0 <= k < interfaces@.len() implies !(
            #[trigger] interfaces@[k]).eligible() by {
                assert(!is_on_lan(interfaces@[k]));
            }
        }
    }
}

/// The order of the candidates in an offer does not change the address to bind to.
pub proof fn lemma_order_of_candidates(
    bind_override: Option<&str>,
    interfaces: &Vec<Interface>,
    offer_sdp: &str,
    offers: Vec<Ipv4Addr>,
    ip: Ipv4Addr,
    other_sdp: &str,
    others: Vec<Ipv4Addr>,
    other_ip: Ipv4Addr,
)
    requires
        call_ensures(pick_bind_v4_for_offer, (bind_override, offer_sdp, interfaces), ip),
        call_ensures(pick_bind_v4_for_offer, (bind_override, other_sdp, interfaces), other_ip),
        call_ensures(extract_offer_v4s, (offer_sdp,), offers),
        call_ensures(extract_offer_v4s, (other_sdp,), others),
        forall|i: int| 0 <= i < offers@.len() ==> others@.contains(#[trigger] offers@[i]),
        forall|i: int| 0 <= i < others@.len() ==> offers@.contains(#[trigger] others@[i]),
    ensures
        ip == other_ip,
{
    let a = offers@;
    let b = others@;
    if bind_override is None || parsed_ipv4(bind_override->0@) is None {
        assert(suits_offer(ip, a, interfaces@));
        assert(suits_offer(other_ip, b, interfaces@));
        assert(offers_loopback(a) == offers_loopback(b)) by {
            if offers_loopback(a) {
                let i = choose|i: int| 0 <= i < a.len() && (#[trigger] a[i]).loopback();
                assert(b.contains(a[i]));
                let j = choose|j: int| 0 <= j < b.len() && b[j] == a[i];
                assert(b[j].loopback());
            }
            if offers_loopback(b) {
                let i = choose|i: int| 0 <= i < b.len() && (#[trigger] b[i]).loopback();
                assert(a.contains(b[i]));
                let j = choose|j: int| 0 <= j < a.len() && a[j] == b[i];
                assert(a[j].loopback());
            }
        }
        assert forall|v4: Ipv4Addr| #[trigger] rank(v4, a) == rank(v4, b) by {
            lemma_order_of_offers(v4, a, b);
        }
        if !offers_loopback(a) && exists|k: int|
            0 <= k < interfaces@.len() && (#[trigger] interfaces@[k]).eligible() {
            let k = choose|k: int| #[trigger]
                is_best(interfaces@, a, k) && ip == interfaces@[k].v4();
            let m = choose|k: int| #[trigger]
                is_best(interfaces@, b, k) && other_ip == interfaces@[k].v4();
            assert(is_best(interfaces@, b, k)) by {
                assert forall|j: int|
                    0 <= j < interfaces@.len() && (
                    #[trigger] interfaces@[j]).eligible() implies rank(interfaces@[j].v4(), b)
                    <= rank(interfaces@[k].v4(), b) by {
                    assert(rank(interfaces@[j].v4(), a) == rank(interfaces@[j].v4(), b));
                    assert(rank(interfaces@[k].v4(), a) == rank(interfaces@[k].v4(), b));
                }
                assert forall|j: int| 0 <= j < k && (#[trigger] interfaces@[j]).eligible() implies rank(
                    interfaces@[j].v4(),
                    b,
                ) < rank(interfaces@[k].v4(), b) by {
                    assert(rank(interfaces@[j].v4(), a) == rank(interfaces@[j].v4(), b));
                    assert(rank(interfaces@[k].v4(), a) == rank(interfaces@[k].v4(), b));
                }
            }
            lemma_best_is_unique(interfaces@, b, k, m);
        }
    }
}

} // verus!
