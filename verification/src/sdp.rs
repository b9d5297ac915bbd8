//! What the server reads out of session descriptions and candidates.
use vstd::prelude::*;

use crate::net::{parse_ipv4, parsed_ipv4, IpAddr, Ipv4Addr};
use crate::numbers::{parse_u16, parsed_number};
use crate::text::{
    chars_of, contains, ends_with, eq_ignore_ascii_case, lines, lines_of, lower, occurs_in,
    split_whitespace, starts_with, trim_start_matches, without_leading, words,
};

verus! {

/// The IPv4 address of a candidate line. The line starts with `a=candidate:`
/// and has at least six words after it, the fifth of which is the address.
/// Names in the `.local` domain are no addresses.
pub open spec fn offered_v4(line: Seq<char>) -> Option<Ipv4Addr> {
    let parts = words(line.skip("a=candidate:"@.len() as int));
    if "a=candidate:"@.is_prefix_of(line) && parts.len() >= 6 && !".local"@.is_suffix_of(parts[4]) {
        parsed_ipv4(parts[4])
    } else {
        None
    }
}

/// The addresses of all candidate lines, in order.
pub open spec fn offered_v4s(all: Seq<Seq<char>>) -> Seq<Ipv4Addr>
    decreases all.len(),
{
    if all.len() == 0 {
        seq![]
    } else {
        let before = offered_v4s(all.drop_last());
        match offered_v4(all.last()) {
            Some(ip) => before.push(ip),
            None => before,
        }
    }
}

/// The words of a candidate, with or without the prefixes that it has in a
/// session description.
pub open spec fn candidate_words(candidate: Seq<char>) -> Seq<Seq<char>> {
    words(trim_start_matches(trim_start_matches(candidate, "a="@), "candidate:"@))
}

/// Whether a peer at `remote` is within reach of a server that is bound to
/// `local`: on loopback from loopback, and else also on a private network.
pub open spec fn within_reach(local: IpAddr, remote: Ipv4Addr) -> bool {
    match local {
        IpAddr::V4(v4) => remote.loopback() || (!v4.loopback() && remote.private()),
        IpAddr::V6 => remote.loopback() || remote.private(),
    }
}

/// The address and port of a candidate that the server can use: one over UDP,
/// with an IPv4 address within reach.
pub open spec fn usable_candidate(candidate: Seq<char>, local: IpAddr) -> Option<(Ipv4Addr, u16)> {
    let parts = candidate_words(candidate);
    if parts.len() < 6 || lower(parts[2]) != lower("udp"@) || ".local"@.is_suffix_of(parts[4]) {
        None
    } else {
        match (parsed_ipv4(parts[4]), parsed_number(parts[5], 0xffff)) {
            (Some(ip), Some(port)) => if within_reach(local, ip) {
                Some((ip, port as u16))
            } else {
                None
            },
            _ => None,
        }
    }
}

/// Whether a session description mentions audio or video: somewhere in it is
/// what a line begins with that offers either.
pub open spec fn mentions_media(sdp: Seq<char>) -> bool {
    occurs_in("m=audio"@, sdp) || occurs_in("m=video"@, sdp)
}

/// Whether a session description mentions audio or video.
pub fn has_media(sdp: &str) -> (yes: bool)
    ensures
        yes == mentions_media(sdp@),
{
    let text = chars_of(sdp);
    contains(text.as_slice(), chars_of("m=audio").as_slice()) || contains(
        text.as_slice(),
        chars_of("m=video").as_slice(),
    )
}

fn offered_address(line: &[char]) -> (ip: Option<Ipv4Addr>)
    ensures
        ip == offered_v4(line@),
{
    let prefix = chars_of("a=candidate:");
    if !starts_with(line, prefix.as_slice()) {
        return None;
    }
    let rest = &line[prefix.len()..line.len()];
    assert(rest@ == line@.skip("a=candidate:"@.len() as int));
    let parts = split_whitespace(rest);
    let ghost shown = crate::text::texts(parts@);
    if parts.len() < 6 {
        return None;
    }
    assert(shown[4] == parts@[4]@);
    if ends_with(parts[4], chars_of(".local").as_slice()) {
        return None;
    }
    parse_ipv4(parts[4])
}

/// The IPv4 addresses of the candidates in a session description.
pub fn extract_offer_v4s(sdp: &str) -> (ips: Vec<Ipv4Addr>)
    ensures
        ips@ == offered_v4s(lines(sdp@)),
{
    let text = chars_of(sdp);
    let all = lines_of(text.as_slice());
    let ghost shown = crate::text::texts(all@);
    let mut ips: Vec<Ipv4Addr> = Vec::new();
    let mut i: usize = 0;
    while i < all.len()
        invariant
            i <= all@.len(),
            shown == crate::text::texts(all@),
            ips@ == offered_v4s(shown.take(i as int)),
        decreases all@.len() - i,
    {
        let found = offered_address(all[i]);
        proof {
            assert(shown.take(i + 1).drop_last() == shown.take(i as int));
            assert(shown.take(i + 1).last() == all@[i as int]@);
        }
        match found {
            Some(ip) => ips.push(ip),
            None => {},
        }
        i = i + 1;
    }
    assert(shown.take(i as int) == shown);
    ips
}

/// Whether a peer at `remote` is within reach of a server that is bound to `local`.
pub fn is_within_reach(local: IpAddr, remote: Ipv4Addr) -> (yes: bool)
    ensures
        yes == within_reach(local, remote),
{
    match local {
        IpAddr::V4(v4) => if v4.is_loopback() {
            remote.is_loopback()
        } else {
            remote.is_rfc1918() || remote.is_loopback()
        },
        IpAddr::V6 => remote.is_rfc1918() || remote.is_loopback(),
    }
}

/// Reads the address and port of a candidate, if the server can use it.
pub fn read_candidate(candidate: &str, local: IpAddr) -> (host: Option<(Ipv4Addr, u16)>)
    ensures
        host == usable_candidate(candidate@, local),
{
    let text = chars_of(candidate);
    let line = without_leading(
        without_leading(text.as_slice(), chars_of("a=").as_slice()),
        chars_of("candidate:").as_slice(),
    );
    let parts = split_whitespace(line);
    let ghost shown = crate::text::texts(parts@);
    if parts.len() < 6 {
        return None;
    }
    assert(shown[2] == parts@[2]@ && shown[4] == parts@[4]@ && shown[5] == parts@[5]@);
    if !eq_ignore_ascii_case(parts[2], chars_of("udp").as_slice()) {
        return None;
    }
    if ends_with(parts[4], chars_of(".local").as_slice()) {
        return None;
    }
    let ip = match parse_ipv4(parts[4]) {
        Some(ip) => ip,
        None => {
            return None;
        },
    };
    let port: u16 = match parse_u16(parts[5]) {
        Some(port) => port,
        None => {
            return None;
        },
    };
    if is_within_reach(local, ip) {
        Some((ip, port))
    } else {
        None
    }
}

/// Whether these are words: none is empty or holds white space.
pub open spec fn are_words(parts: Seq<Seq<char>>) -> bool {
    &&& forall|i: int| 0 <= i < parts.len() ==> (#[trigger] parts[i]).len() > 0
    &&& forall|i: int, j: int|
        0 <= i < parts.len() && 0 <= j < parts[i].len() ==> !crate::text::is_space(
            #[trigger] parts[i][j],
        )
}

/// Whether a word is `udp`, in any case.
pub open spec fn is_udp(word: Seq<char>) -> bool {
    &&& word.len() == 3
    &&& word[0] == 'u' || word[0] == 'U'
    &&& word[1] == 'd' || word[1] == 'D'
    &&& word[2] == 'p' || word[2] == 'P'
}

/// Whether a server at `local` uses a peer at `ip`, by the ranges of their
/// numbers: a peer on loopback always, and one on a private network unless the
/// server itself is on loopback.
pub open spec fn is_in_reach(local: IpAddr, ip: Ipv4Addr) -> bool {
    ||| 0x7f00_0000 <= ip.number() <= 0x7fff_ffff
    ||| {
        &&& !(local matches IpAddr::V4(v4) && 0x7f00_0000 <= v4.number() <= 0x7fff_ffff)
        &&& {
            ||| 0x0a00_0000 <= ip.number() <= 0x0aff_ffff
            ||| 0xac10_0000 <= ip.number() <= 0xac1f_ffff
            ||| 0xc0a8_0000 <= ip.number() <= 0xc0a8_ffff
        }
    }
}

/// Whether `candidate` is made of words with a space between each two. Before
/// them it may have `candidate:`, and `a=` before that. The first word begins
/// with neither.
pub open spec fn is_candidate_of(candidate: Seq<char>, parts: Seq<Seq<char>>) -> bool {
    let line = crate::text::join(parts, ' ');
    &&& are_words(parts)
    &&& parts.len() > 0
    &&& !"candidate:"@.is_prefix_of(parts[0])
    &&& {
        ||| candidate == "a="@ + ("candidate:"@ + line)
        ||| candidate == "candidate:"@ + line
        ||| candidate == line && !"a="@.is_prefix_of(parts[0])
    }
}

proof fn lemma_udp(word: Seq<char>)
    ensures
        is_udp(word) <==> lower(word) == lower("udp"@),
{
    reveal_strlit("udp");
    let udp = "udp"@;
    assert(udp.len() == 3 && udp[0] == 'u' && udp[1] == 'd' && udp[2] == 'p');
    crate::text::lemma_same_but_for_case(word, udp);
    if is_udp(word) {
        assert forall|i: int| 0 <= i < word.len() implies {
            ||| #[trigger] word[i] == udp[i]
            ||| 65 <= word[i] as int <= 90 && udp[i] as int == word[i] as int + 32
            ||| 65 <= udp[i] as int <= 90 && word[i] as int == udp[i] as int + 32
        } by {
            assert(i == 0 || i == 1 || i == 2);
        }
    }
    if lower(word) == lower(udp) {
        assert(word.len() == 3);
        assert(word[0] == word[0] && word[1] == word[1] && word[2] == word[2]);
    }
}

/// A server is within reach of a peer as the ranges of their addresses say.
pub proof fn lemma_reach(local: IpAddr, remote: Ipv4Addr, yes: bool)
    requires
        call_ensures(is_within_reach, (local, remote), yes),
    ensures
        yes <==> is_in_reach(local, remote),
        yes == within_reach(local, remote),
{
    lemma_reach_by_number(local, remote);
}

proof fn lemma_reach_by_number(local: IpAddr, remote: Ipv4Addr)
    ensures
        within_reach(local, remote) <==> is_in_reach(local, remote),
{
    crate::net::lemma_ranges_by_number(remote);
    if let IpAddr::V4(v4) = local {
        crate::net::lemma_ranges_by_number(v4);
    }
}

proof fn lemma_joined_keeps_out(parts: Seq<Seq<char>>, prefix: Seq<char>)
    requires
        are_words(parts),
        parts.len() > 0,
        prefix.len() > 0,
        forall|i: int| 0 <= i < prefix.len() ==> prefix[i] != ' ',
        !prefix.is_prefix_of(parts[0]),
    ensures
        !prefix.is_prefix_of(crate::text::join(parts, ' ')),
{
    let line = crate::text::join(parts, ' ');
    let first = parts[0];
    if prefix.is_prefix_of(line) {
        let n = prefix.len() as int;
        assert(line.subrange(0, n) == prefix);
        if first.len() >= n {
            assert forall|i: int| 0 <= i < n implies first[i] == prefix[i] by {
                assert(line[i] == first[i]);
                assert(line.subrange(0, n)[i] == line[i]);
            }
            assert(first.subrange(0, n) =~= prefix);
        } else if parts.len() > 1 {
            assert(line[first.len() as int] == ' ');
            assert(line.subrange(0, n)[first.len() as int] == ' ');
        }
    }
}

proof fn lemma_candidate_words(candidate: Seq<char>, parts: Seq<Seq<char>>)
    requires
        is_candidate_of(candidate, parts),
    ensures
        candidate_words(candidate) == parts,
{
    let line = crate::text::join(parts, ' ');
    let a = "a="@;
    let c = "candidate:"@;
    reveal_strlit("a=");
    reveal_strlit("candidate:");
    lemma_joined_keeps_out(parts, c);
    crate::text::lemma_words_of_join(parts);
    crate::text::lemma_trim_start_matches(c, line);
    assert(line.len() < c.len() || line.subrange(0, c.len() as int) != c);
    assert(trim_start_matches(line, c) == line);
    let long = c + line;
    assert(!a.is_prefix_of(long)) by {
        if a.is_prefix_of(long) {
            assert(long.subrange(0, 2)[0] == long[0]);
            assert(long[0] == 'c');
        }
    }
    crate::text::lemma_trim_start_matches(a, long);
    assert(long.len() < a.len() || long.subrange(0, a.len() as int) != a);
    assert(trim_start_matches(a + long, a) == long);
    assert(trim_start_matches(long, a) == long);
    if candidate == line && !a.is_prefix_of(parts[0]) {
        lemma_joined_keeps_out(parts, a);
        crate::text::lemma_trim_start_matches(a, line);
        assert(line.len() < a.len() || line.subrange(0, a.len() as int) != a);
        assert(trim_start_matches(line, a) == line);
    }
}

proof fn lemma_no_address_is_local(ip: Ipv4Addr)
    ensures
        !".local"@.is_suffix_of(ip.text()),
{
    reveal_strlit(".local");
    crate::net::lemma_text_characters(ip);
    let s = ip.text();
    let l = ".local"@;
    if l.is_suffix_of(s) {
        let tail = s.subrange(s.len() - l.len(), s.len() as int);
        assert(tail == l);
        assert(tail[5] == s.last());
        assert(l[5] == 'l');
    }
}

/// A candidate is usable as its words say.
pub proof fn lemma_usable(
    candidate: Seq<char>,
    local: IpAddr,
    parts: Seq<Seq<char>>,
    ip: Ipv4Addr,
    port: u16,
)
    requires
        is_candidate_of(candidate, parts),
    ensures
        usable_candidate(candidate, local) == Some((ip, port)) <==> {
            &&& parts.len() >= 6
            &&& is_udp(parts[2])
            &&& parts[4] == ip.text()
            &&& parsed_number(parts[5], 0xffff) == Some(port as nat)
            &&& is_in_reach(local, ip)
        },
{
    lemma_candidate_words(candidate, parts);
    lemma_reach_by_number(local, ip);
    if parts.len() >= 6 {
        lemma_udp(parts[2]);
        if parts[4] == ip.text() {
            lemma_no_address_is_local(ip);
            crate::net::lemma_text_round_trip(ip);
        }
        if let Some(other) = parsed_ipv4(parts[4]) {
            assert(other.text() == parts[4]);
        }
        if let Some(n) = parsed_number(parts[5], 0xffff) {
            assert(n <= 0xffff);
        }
    }
}

/// A candidate is read as an address and a port if and only if it has at least
/// six words, the third is `udp` in any case, the fifth is the text of the
/// address, the sixth stands for the port, and the server can reach the address.
/// Whatever else it holds, however many words follow, changes nothing.
pub proof fn lemma_candidate(
    candidate: &str,
    local: IpAddr,
    host: Option<(Ipv4Addr, u16)>,
    parts: Seq<Seq<char>>,
    ip: Ipv4Addr,
    port: u16,
)
    requires
        call_ensures(read_candidate, (candidate, local), host),
        is_candidate_of(candidate@, parts),
    ensures
        host == Some((ip, port)) <==> {
            &&& parts.len() >= 6
            &&& is_udp(parts[2])
            &&& parts[4] == ip.text()
            &&& parsed_number(parts[5], 0xffff) == Some(port as nat)
            &&& is_in_reach(local, ip)
        },
        parts.len() >= 6 && is_udp(parts[2]) && parts[4] == ip.text() && parts[5]
            == crate::numbers::decimal(port as nat) && is_in_reach(local, ip) ==> host == Some(
            (ip, port),
        ),
{
    lemma_usable(candidate@, local, parts, ip, port);
    crate::numbers::lemma_number_round_trip(port as nat, 0xffff);
}

/// Of a candidate with six words or more only the third, the fifth and the
/// sixth count.
pub proof fn lemma_words_that_count(
    candidate: &str,
    host: Option<(Ipv4Addr, u16)>,
    parts: Seq<Seq<char>>,
    other: &str,
    other_host: Option<(Ipv4Addr, u16)>,
    other_parts: Seq<Seq<char>>,
    local: IpAddr,
)
    requires
        call_ensures(read_candidate, (candidate, local), host),
        call_ensures(read_candidate, (other, local), other_host),
        is_candidate_of(candidate@, parts),
        is_candidate_of(other@, other_parts),
        parts.len() >= 6,
        other_parts.len() >= 6,
        parts[2] == other_parts[2],
        parts[4] == other_parts[4],
        parts[5] == other_parts[5],
    ensures
        host == other_host,
{
    if let Some((ip, port)) = host {
        lemma_candidate(candidate, local, host, parts, ip, port);
        lemma_candidate(other, local, other_host, other_parts, ip, port);
    }
    if let Some((ip, port)) = other_host {
        lemma_candidate(candidate, local, host, parts, ip, port);
        lemma_candidate(other, local, other_host, other_parts, ip, port);
    }
}

/// White space of any kind, and any amount of it, stands between the words of a
/// candidate, and more may come after them.
pub proof fn lemma_white_space_in_candidates(
    candidate: &str,
    host: Option<(Ipv4Addr, u16)>,
    other: &str,
    other_host: Option<(Ipv4Addr, u16)>,
    local: IpAddr,
    first: Seq<char>,
    space: char,
    more: char,
    rest: Seq<char>,
)
    requires
        call_ensures(read_candidate, (candidate, local), host),
        call_ensures(read_candidate, (other, local), other_host),
        crate::text::is_space(space),
        crate::text::is_space(more),
        candidate@ == "candidate:"@ + (first + seq![space] + rest),
        other@ == "candidate:"@ + (first + seq![more] + (seq![space] + rest)),
        first.len() > 0,
        !"candidate:"@.is_prefix_of(first + seq![space] + rest),
        !"candidate:"@.is_prefix_of(first + seq![more] + (seq![space] + rest)),
    ensures
        host == other_host,
{
    let a = "a="@;
    let c = "candidate:"@;
    let short = first + seq![space] + rest;
    let long = first + seq![more] + (seq![space] + rest);
    reveal_strlit("a=");
    reveal_strlit("candidate:");
    lemma_stripped(short);
    lemma_stripped(long);
    crate::text::lemma_words_of_two(first, space, rest);
    crate::text::lemma_words_of_two(first, more, seq![space] + rest);
    crate::text::lemma_words_of_two(Seq::<char>::empty(), space, rest);
    assert(Seq::<char>::empty() + seq![space] + rest == seq![space] + rest);
    assert(words(Seq::<char>::empty()) + words(rest) == words(rest));
}

proof fn lemma_stripped(line: Seq<char>)
    requires
        !"candidate:"@.is_prefix_of(line),
    ensures
        candidate_words("candidate:"@ + line) == words(line),
{
    let a = "a="@;
    let c = "candidate:"@;
    reveal_strlit("a=");
    reveal_strlit("candidate:");
    let long = c + line;
    assert(!a.is_prefix_of(long)) by {
        if a.is_prefix_of(long) {
            assert(long.subrange(0, 2)[0] == long[0]);
            assert(long[0] == 'c');
        }
    }
    crate::text::lemma_trim_start_matches(a, long);
    assert(long.len() < a.len() || long.subrange(0, a.len() as int) != a);
    crate::text::lemma_trim_start_matches(c, line);
    assert(line.len() < c.len() || line.subrange(0, c.len() as int) != c);
}

/// The addresses of an offer are those of its lines, one after the other. A
/// line has one if and only if it is `a=candidate:` and then at least six words,
/// the fifth of which is the text of the address; its other words, and their
/// number beyond six, do not count.
pub proof fn lemma_offer_line(
    sdp: &str,
    ips: Vec<Ipv4Addr>,
    rest: &str,
    rest_ips: Vec<Ipv4Addr>,
    parts: Seq<Seq<char>>,
    ip: Ipv4Addr,
)
    requires
        call_ensures(extract_offer_v4s, (sdp,), ips),
        call_ensures(extract_offer_v4s, (rest,), rest_ips),
        are_words(parts),
        sdp@ == "a=candidate:"@ + crate::text::join(parts, ' ') + seq!['\r', '\n'] + rest@,
    ensures
        parts.len() >= 6 && parts[4] == ip.text() ==> ips@ == seq![ip] + rest_ips@,
        parts.len() < 6 || parsed_ipv4(parts[4]) is None ==> ips@ == rest_ips@,
{
    let line = "a=candidate:"@ + crate::text::join(parts, ' ');
    lemma_no_line_feed(parts);
    reveal_strlit("a=candidate:");
    assert forall|i: int| 0 <= i < line.len() implies line[i] != '\n' by {
        let n = "a=candidate:"@.len() as int;
        if i >= n {
            assert(line[i] == crate::text::join(parts, ' ')[i - n]);
        }
    }
    crate::text::lemma_lines_of_two(line, rest@);
    lemma_offered_line(line, parts, ip);
    lemma_offered_v4s_of_two(seq![line], lines(rest@));
    lemma_offered_v4s_of_one(line);
    assert(Seq::<Ipv4Addr>::empty() + rest_ips@ == rest_ips@);
}

/// A line that does not begin with `a=candidate:` adds no address.
pub proof fn lemma_other_line(
    sdp: &str,
    ips: Vec<Ipv4Addr>,
    rest: &str,
    rest_ips: Vec<Ipv4Addr>,
    line: Seq<char>,
)
    requires
        call_ensures(extract_offer_v4s, (sdp,), ips),
        call_ensures(extract_offer_v4s, (rest,), rest_ips),
        forall|i: int| 0 <= i < line.len() ==> line[i] != '\n',
        line.len() < 12 || line.take(12) != "a=candidate:"@,
        sdp@ == line + seq!['\r', '\n'] + rest@,
    ensures
        ips@ == rest_ips@,
{
    reveal_strlit("a=candidate:");
    crate::text::lemma_lines_of_two(line, rest@);
    assert(!"a=candidate:"@.is_prefix_of(line)) by {
        if "a=candidate:"@.is_prefix_of(line) {
            assert(line.subrange(0, 12) == line.take(12));
        }
    }
    lemma_offered_v4s_of_two(seq![line], lines(rest@));
    lemma_offered_v4s_of_one(line);
    assert(Seq::<Ipv4Addr>::empty() + rest_ips@ == rest_ips@);
}

/// An offer of no lines has no addresses.
pub proof fn lemma_empty_offer(sdp: &str, ips: Vec<Ipv4Addr>)
    requires
        call_ensures(extract_offer_v4s, (sdp,), ips),
        sdp@.len() == 0,
    ensures
        ips@.len() == 0,
{
}

proof fn lemma_no_line_feed(parts: Seq<Seq<char>>)
    requires
        are_words(parts),
    ensures
        forall|i: int|
            0 <= i < crate::text::join(parts, ' ').len() ==> crate::text::join(parts, ' ')[i]
                != '\n',
    decreases parts.len(),
{
    let line = crate::text::join(parts, ' ');
    if parts.len() > 0 {
        assert forall|j: int| 0 <= j < parts[0].len() implies parts[0][j] != '\n' by {
            assert(!crate::text::is_space(parts[0][j]));
        }
        if parts.len() > 1 {
            let rest = parts.skip(1);
            assert(are_words(rest)) by {
                assert forall|i: int| 0 <= i < rest.len() implies (#[trigger] rest[i]).len() > 0 by {
                    assert(rest[i] == parts[i + 1]);
                }
                assert forall|i: int, j: int|
                    0 <= i < rest.len() && 0 <= j < rest[i].len() implies !crate::text::is_space(
                    #[trigger] rest[i][j],
                ) by {
                    assert(!crate::text::is_space(parts[i + 1][j]));
                }
            }
            lemma_no_line_feed(rest);
            let tail = crate::text::join(rest, ' ');
            assert forall|i: int| 0 <= i < line.len() implies line[i] != '\n' by {
                let n = parts[0].len();
                if i < n {
                    assert(line[i] == parts[0][i]);
                } else if i > n {
                    assert(line[i] == tail[i - n - 1]);
                }
            }
        }
    }
}

proof fn lemma_offered_line(line: Seq<char>, parts: Seq<Seq<char>>, ip: Ipv4Addr)
    requires
        are_words(parts),
        line == "a=candidate:"@ + crate::text::join(parts, ' '),
    ensures
        parts.len() >= 6 && parts[4] == ip.text() ==> offered_v4(line) == Some(ip),
        parts.len() < 6 || parsed_ipv4(parts[4]) is None ==> offered_v4(line) is None,
{
    let prefix = "a=candidate:"@;
    assert(line.subrange(0, prefix.len() as int) == prefix);
    assert(line.skip(prefix.len() as int) == crate::text::join(parts, ' '));
    crate::text::lemma_words_of_join(parts);
    lemma_no_address_is_local(ip);
    crate::net::lemma_text_round_trip(ip);
}

proof fn lemma_offered_v4s_of_one(line: Seq<char>)
    ensures
        offered_v4s(seq![line]) == (match offered_v4(line) {
            Some(ip) => seq![ip],
            None => Seq::<Ipv4Addr>::empty(),
        }),
{
    assert(seq![line].drop_last() == Seq::<Seq<char>>::empty());
    assert(offered_v4s(Seq::<Seq<char>>::empty()) == Seq::<Ipv4Addr>::empty());
    assert(Seq::<Ipv4Addr>::empty().push(offered_v4(line)->0) =~= seq![offered_v4(line)->0]);
}

/// The addresses of lines are those of the first of them and then those of the others.
pub proof fn lemma_offered_v4s_of_two(all: Seq<Seq<char>>, more: Seq<Seq<char>>)
    ensures
        offered_v4s(all + more) == offered_v4s(all) + offered_v4s(more),
    decreases more.len(),
{
    if more.len() == 0 {
        assert(all + more == all);
        assert(offered_v4s(all) + offered_v4s(more) == offered_v4s(all));
    } else {
        let fewer = more.drop_last();
        lemma_offered_v4s_of_two(all, fewer);
        assert((all + more).drop_last() == all + fewer);
        assert((all + more).last() == more.last());
        if let Some(ip) = offered_v4(more.last()) {
            assert((offered_v4s(all) + offered_v4s(fewer)).push(ip) == offered_v4s(all)
                + offered_v4s(fewer).push(ip));
        }
    }
}

/// A session description mentions media if and only if one of two literals is
/// somewhere in it.
pub proof fn lemma_media(sdp: &str, yes: bool)
    requires
        call_ensures(has_media, (sdp,), yes),
    ensures
        yes == mentions_media(sdp@),
        yes <==> exists|i: int|
            0 <= i <= sdp@.len() - 7 && {
                ||| #[trigger] sdp@.subrange(i, i + 7) == seq!['m', '=', 'a', 'u', 'd', 'i', 'o']
                ||| sdp@.subrange(i, i + 7) == seq!['m', '=', 'v', 'i', 'd', 'e', 'o']
            },
{
    lemma_media_literals(sdp@);
}

/// Where a session description mentions media.
pub proof fn lemma_media_literals(sdp: Seq<char>)
    ensures
        mentions_media(sdp) <==> exists|i: int|
            0 <= i <= sdp.len() - 7 && {
                ||| #[trigger] sdp.subrange(i, i + 7) == seq!['m', '=', 'a', 'u', 'd', 'i', 'o']
                ||| sdp.subrange(i, i + 7) == seq!['m', '=', 'v', 'i', 'd', 'e', 'o']
            },
{
    reveal_strlit("m=audio");
    reveal_strlit("m=video");
    let audio = seq!['m', '=', 'a', 'u', 'd', 'i', 'o'];
    let video = seq!['m', '=', 'v', 'i', 'd', 'e', 'o'];
    assert("m=audio"@ =~= audio);
    assert("m=video"@ =~= video);
    if occurs_in(audio, sdp) {
        let i = choose|i: int|
            0 <= i <= sdp.len() - audio.len() && #[trigger] sdp.subrange(i, i + audio.len())
                == audio;
        assert(sdp.subrange(i, i + 7) == audio);
    }
    if occurs_in(video, sdp) {
        let i = choose|i: int|
            0 <= i <= sdp.len() - video.len() && #[trigger] sdp.subrange(i, i + video.len())
                == video;
        assert(sdp.subrange(i, i + 7) == video);
    }
    if exists|i: int|
        0 <= i <= sdp.len() - 7 && {
            ||| #[trigger] sdp.subrange(i, i + 7) == audio
            ||| sdp.subrange(i, i + 7) == video
        } {
        let i = choose|i: int|
            0 <= i <= sdp.len() - 7 && {
                ||| #[trigger] sdp.subrange(i, i + 7) == audio
                ||| sdp.subrange(i, i + 7) == video
            };
        if sdp.subrange(i, i + 7) == audio {
            assert(sdp.subrange(i, i + audio.len()) == audio);
        } else {
            assert(sdp.subrange(i, i + video.len()) == video);
        }
    }
}

/// A line may end in a line feed alone, and the last line need not end at all.
pub proof fn lemma_line_ends(
    sdp: &str,
    ips: Vec<Ipv4Addr>,
    rest: &str,
    rest_ips: Vec<Ipv4Addr>,
    last: &str,
    last_ips: Vec<Ipv4Addr>,
    parts: Seq<Seq<char>>,
    ip: Ipv4Addr,
)
    requires
        call_ensures(extract_offer_v4s, (sdp,), ips),
        call_ensures(extract_offer_v4s, (rest,), rest_ips),
        call_ensures(extract_offer_v4s, (last,), last_ips),
        are_words(parts),
        parts.len() >= 6,
        parts[4] == ip.text(),
        last@ == "a=candidate:"@ + crate::text::join(parts, ' '),
        last@.last() != '\r',
        sdp@ == last@ + seq!['\n'] + rest@,
    ensures
        ips@ == seq![ip] + rest_ips@,
        last_ips@ == seq![ip],
{
    let line = last@;
    lemma_no_line_feed(parts);
    reveal_strlit("a=candidate:");
    assert forall|i: int| 0 <= i < line.len() implies line[i] != '\n' by {
        let n = "a=candidate:"@.len() as int;
        if i >= n {
            assert(line[i] == crate::text::join(parts, ' ')[i - n]);
        }
    }
    crate::text::lemma_lines_of_two(line, rest@);
    crate::text::lemma_lines_of_one(line);
    lemma_offered_line(line, parts, ip);
    lemma_offered_v4s_of_two(seq![line], lines(rest@));
    lemma_offered_v4s_of_one(line);
}

} // verus!
