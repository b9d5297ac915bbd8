//! Setting up a peer connection: the local candidate, the answer to an offer,
//! and the candidates that the peer sends afterwards.
use str0m::change::{SdpAnswer, SdpOffer};
use str0m::error::{IceError, SdpError};
use str0m::{Candidate, Rtc, RtcConfig, RtcError};
use vstd::prelude::*;

use crate::channel::{channels_kept, open_channels};
use crate::net::{IpAddr, Ipv4Addr};
use crate::sdp::{has_media, mentions_media, read_candidate, usable_candidate};
use crate::signaling::WsInbound;

verus! {

/// The errors of `str0m` about candidates.
#[verifier::external_type_specification]
#[verifier::external_body]
pub struct ExIceError(IceError);

/// The errors of `str0m` about session descriptions.
#[verifier::external_type_specification]
#[verifier::external_body]
pub struct ExSdpError(SdpError);

/// An address at which a connection can be reached.
#[verifier::external_type_specification]
#[verifier::external_body]
pub struct ExCandidate(Candidate);

/// A session description that offers a connection.
#[verifier::external_type_specification]
#[verifier::external_body]
pub struct ExSdpOffer(SdpOffer);

/// A session description that answers an offer.
#[verifier::external_type_specification]
#[verifier::external_body]
pub struct ExSdpAnswer(SdpAnswer);

/// The IPv4 addresses and ports that a connection knows its peer by.
pub uninterp spec fn remote_hosts(rtc: Rtc) -> Set<(Ipv4Addr, u16)>;

/// The IPv4 addresses and ports that a connection was told it can be reached at.
pub uninterp spec fn local_hosts(rtc: Rtc) -> Set<(Ipv4Addr, u16)>;

/// How many candidates with an IPv4 address of this host a connection holds.
pub uninterp spec fn host_count(rtc: Rtc) -> nat;

/// The IPv4 address and port of a candidate that stands for a host reached over
/// UDP and belongs to no peer in particular.
pub uninterp spec fn udp_host(candidate: Candidate) -> Option<(Ipv4Addr, u16)>;

/// The offer that a text is read as, where it is a session description.
pub uninterp spec fn read_offer(text: Seq<char>) -> Option<SdpOffer>;

/// Whether an offer holds neither audio nor video.
pub uninterp spec fn is_without_media(offer: SdpOffer) -> bool;

/// Whether making a connection with the default settings can give this one.
pub uninterp spec fn can_be_made(rtc: Rtc) -> bool;

/// Whether telling a connection that it can be reached at a host can leave it
/// as `after`.
pub uninterp spec fn can_be_told(rtc: Rtc, host: (Ipv4Addr, u16), after: Rtc) -> bool;

/// Whether a connection that is given an offer can make this answer, or refuse
/// the offer where there is none, and is left as `after`.
pub uninterp spec fn can_answer(
    rtc: Rtc,
    offer: SdpOffer,
    answer: Option<SdpAnswer>,
    after: Rtc,
) -> bool;

/// The text of an answer.
pub uninterp spec fn answer_text(answer: SdpAnswer) -> Seq<char>;

/// Whether a candidate can have this address: it is that of one host, and not
/// bound to one link.
pub open spec fn candidate_ip(ip: Ipv4Addr) -> bool {
    &&& !(ip.0 == 169 && ip.1 == 254)
    &&& ip != Ipv4Addr(255, 255, 255, 255)
    &&& !(224 <= ip.0 <= 239)
    &&& ip != Ipv4Addr(0, 0, 0, 0)
}

/// How many candidates with an IPv4 address of this host a connection may hold
/// when it is told one more: each gets a preference two below the one before.
pub const HOST_LIMIT: usize = 32_767;

/// `str0m::RtcConfig::build` with the default settings, which use OpenSSL where
/// the process has chosen nothing else: the connection has no channels and no
/// candidates. Its keys are random: it is one of those that can be made.
#[verifier::external_body]
fn new_connection() -> (rtc: Rtc)
    ensures
        can_be_made(rtc),
        open_channels(rtc) == Set::<str0m::channel::ChannelId>::empty(),
        local_hosts(rtc) == Set::<(Ipv4Addr, u16)>::empty(),
        remote_hosts(rtc) == Set::<(Ipv4Addr, u16)>::empty(),
        host_count(rtc) == 0,
{
    RtcConfig::new().build()
}

/// `str0m::Candidate::host`: a candidate over UDP is made unless its address is
/// link-local, broadcast, multicast or unspecified.
#[verifier::external_body]
fn host_candidate(ip: Ipv4Addr, port: u16, protocol: &str) -> (candidate: Result<
    Candidate,
    IceError,
>)
    requires
        protocol@ == "udp"@,
    ensures
        candidate is Ok <==> candidate_ip(ip),
        candidate is Ok ==> udp_host(candidate->Ok_0) == Some((ip, port)),
{
    Candidate::host(([ip.0, ip.1, ip.2, ip.3], port).into(), protocol)
}

/// `str0m::Rtc::add_remote_candidate`: the connection knows its peer by the
/// candidate's address too. Its own addresses and its channels stay as they were.
pub assume_specification[ Rtc::add_remote_candidate ](rtc: &mut Rtc, c: Candidate)
    requires
        udp_host(c) is Some,
    ensures
        remote_hosts(*final(rtc)) == remote_hosts(*old(rtc)).insert(udp_host(c)->0),
        local_hosts(*final(rtc)) == local_hosts(*old(rtc)),
        host_count(*final(rtc)) == host_count(*old(rtc)),
        channels_kept(*old(rtc), *final(rtc)),
;

/// `str0m::Rtc::add_local_candidate`: a candidate with a new address is
/// accepted; one with an address that the connection already has may be turned
/// down. Either way the connection knows the address, and holds at most one
/// candidate more. What it knows of its peer and its channels stay as they were.
/// What else it notes is not told: it is left as one of the things that telling
/// it of this address can leave it as.
#[verifier::external_body]
fn add_local_candidate(rtc: &mut Rtc, candidate: Candidate) -> (accepted: bool)
    requires
        udp_host(candidate) is Some,
        host_count(*old(rtc)) <= HOST_LIMIT,
    ensures
        local_hosts(*final(rtc)) == local_hosts(*old(rtc)).insert(udp_host(candidate)->0),
        !accepted ==> local_hosts(*old(rtc)).contains(udp_host(candidate)->0),
        host_count(*final(rtc)) <= host_count(*old(rtc)) + 1,
        remote_hosts(*final(rtc)) == remote_hosts(*old(rtc)),
        channels_kept(*old(rtc), *final(rtc)),
        can_be_told(*old(rtc), udp_host(candidate)->0, *final(rtc)),
{
    rtc.add_local_candidate(candidate).is_some()
}

/// `str0m::change::SdpOffer::from_sdp_string` reads a session description, which
/// depends on the text alone. Audio and video are offered by lines that begin
/// with `m=audio` and `m=video`.
pub assume_specification[ SdpOffer::from_sdp_string ](input: &str) -> (offer: Result<
    SdpOffer,
    SdpError,
>)
    ensures
        match offer {
            Ok(o) => read_offer(input@) == Some(o),
            Err(_) => read_offer(input@) is None,
        },
        offer is Ok && !mentions_media(input@) ==> is_without_media(offer->Ok_0),
;

/// The answer that was made, if the offer was not refused.
pub open spec fn made_answer(answer: Result<SdpAnswer, RtcError>) -> Option<SdpAnswer> {
    match answer {
        Ok(sdp) => Some(sdp),
        Err(_) => None,
    }
}

/// `str0m::Rtc::sdp_api` and `str0m::change::SdpApi::accept_offer`: the offer
/// is applied and answered, or refused. The answer holds the connection's own
/// keys and random numbers: it is one of those that this connection can make
/// for this offer, and leaves it as it does then. Either way the connection
/// keeps the addresses that it was told it can be reached at. An offer of audio
/// or video is left out, since `str0m` panics where its payload types do not
/// fit those that it has.
#[verifier::external_body]
fn accept_offer(rtc: &mut Rtc, offer: SdpOffer) -> (answer: Result<SdpAnswer, RtcError>)
    requires
        is_without_media(offer),
    ensures
        can_answer(*old(rtc), offer, made_answer(answer), *final(rtc)),
        local_hosts(*final(rtc)) == local_hosts(*old(rtc)),
        host_count(*final(rtc)) == host_count(*old(rtc)),
{
    rtc.sdp_api().accept_offer(offer)
}

/// `str0m::change::SdpAnswer::to_sdp_string` writes an answer out, which
/// depends on the answer alone.
pub assume_specification[ SdpAnswer::to_sdp_string ](answer: &SdpAnswer) -> (text: String)
    ensures
        text@ == answer_text(*answer),
;

/// Why an offer got no answer.
#[derive(Clone, Copy, Debug, PartialEq, Eq, Structural)]
pub enum NegotiationError {
    /// The address that the server is bound to cannot be a candidate.
    BadLocalAddress,
    /// The connection did not take the local candidate.
    LocalCandidateRefused,
    /// The offer is no session description.
    BadOffer,
    /// The offer is one of audio or video.
    MediaOffered,
    /// The connection did not take the offer.
    OfferRefused,
}

/// Whether `answer` is what a connection makes of an offer where it makes the
/// answer `made`, or none.
pub open spec fn is_answer(
    answer: Result<Seq<char>, NegotiationError>,
    made: Option<SdpAnswer>,
) -> bool {
    match made {
        Some(sdp) => answer == Ok::<_, NegotiationError>(answer_text(sdp)),
        None => answer == Err::<Seq<char>, _>(NegotiationError::OfferRefused),
    }
}

/// An answer with its text as a sequence of characters.
pub open spec fn shown(answer: Result<String, NegotiationError>) -> Result<
    Seq<char>,
    NegotiationError,
> {
    match answer {
        Ok(text) => Ok(text@),
        Err(e) => Err(e),
    }
}

/// Whether `answer` is what the connection `rtc`, once it was told of `host`,
/// can make of `offer`, and leaves it as `after`.
pub open spec fn is_answer_from(
    answer: Result<Seq<char>, NegotiationError>,
    rtc: Rtc,
    host: (Ipv4Addr, u16),
    offer: SdpOffer,
    after: Rtc,
) -> bool {
    exists|told: Rtc, made: Option<SdpAnswer>|
        {
            &&& can_be_told(rtc, host, told)
            &&& #[trigger] can_answer(told, offer, made, after)
            &&& is_answer(answer, made)
        }
}

/// Whether `answer` is what comes of telling the connection `rtc` of `host` and
/// giving it the offer that `offer_sdp` holds, where it takes the host, and
/// `after` is what that leaves it as.
pub open spec fn is_reply(
    answer: Result<Seq<char>, NegotiationError>,
    rtc: Rtc,
    host: (Ipv4Addr, u16),
    offer_sdp: Seq<char>,
    after: Rtc,
) -> bool {
    match read_offer(offer_sdp) {
        None => {
            &&& answer == Err::<Seq<char>, _>(NegotiationError::BadOffer)
            &&& can_be_told(rtc, host, after)
        },
        Some(offer) => if mentions_media(offer_sdp) {
            &&& answer == Err::<Seq<char>, _>(NegotiationError::MediaOffered)
            &&& can_be_told(rtc, host, after)
        } else {
            is_answer_from(answer, rtc, host, offer, after)
        },
    }
}

/// The text of the answer that a connection made, or the error of one that
/// refused the offer.
pub fn answer_of(outcome: Result<SdpAnswer, RtcError>) -> (answer: Result<
    String,
    NegotiationError,
>)
    ensures
        match outcome {
            Ok(sdp) => answer is Ok && answer->Ok_0@ == answer_text(sdp),
            Err(_) => answer == Err::<String, _>(NegotiationError::OfferRefused),
        },
{
    match outcome {
        Ok(sdp) => Ok(sdp.to_sdp_string()),
        Err(_) => Err(NegotiationError::OfferRefused),
    }
}

/// Tells a connection where it can be reached and answers an offer.
pub fn answer_offer(rtc: &mut Rtc, local_ip: Ipv4Addr, udp_port: u16, offer_sdp: &str) -> (answer:
    Result<String, NegotiationError>)
    requires
        host_count(*old(rtc)) <= HOST_LIMIT,
    ensures
        answer == Err::<String, _>(NegotiationError::BadLocalAddress) <==> !candidate_ip(local_ip),
        !candidate_ip(local_ip) ==> *final(rtc) == *old(rtc),
        candidate_ip(local_ip) ==> local_hosts(*final(rtc)) == local_hosts(*old(rtc)).insert(
            (local_ip, udp_port),
        ),
        answer == Err::<String, _>(NegotiationError::LocalCandidateRefused) ==> {
            &&& candidate_ip(local_ip)
            &&& local_hosts(*old(rtc)).contains((local_ip, udp_port))
            &&& can_be_told(*old(rtc), (local_ip, udp_port), *final(rtc))
        },
        candidate_ip(local_ip) && answer != Err::<String, _>(
            NegotiationError::LocalCandidateRefused,
        ) ==> is_reply(
            shown(answer),
            *old(rtc),
            (local_ip, udp_port),
            offer_sdp@,
            *final(rtc),
        ),
        host_count(*final(rtc)) <= host_count(*old(rtc)) + 1,
{
    let candidate = match host_candidate(local_ip, udp_port, "udp") {
        Ok(candidate) => candidate,
        Err(_) => {
            return Err(NegotiationError::BadLocalAddress);
        },
    };
    if !add_local_candidate(rtc, candidate) {
        return Err(NegotiationError::LocalCandidateRefused);
    }
    let offer = match SdpOffer::from_sdp_string(offer_sdp) {
        Ok(offer) => offer,
        Err(_) => {
            return Err(NegotiationError::BadOffer);
        },
    };
    if has_media(offer_sdp) {
        return Err(NegotiationError::MediaOffered);
    }
    answer_of(accept_offer(rtc, offer))
}

/// Makes a connection with the default settings, tells it where it can be
/// reached, and answers an offer. The connection that is returned is the one
/// that made the answer.
pub fn answer_on_new(local_ip: Ipv4Addr, udp_port: u16, offer_sdp: &str) -> (answered: Result<
    (Rtc, String),
    NegotiationError,
>)
    ensures
        match answered {
            Ok((rtc, text)) => {
                &&& candidate_ip(local_ip)
                &&& exists|new: Rtc| #[trigger]
                    can_be_made(new) && is_reply(
                        Ok(text@),
                        new,
                        (local_ip, udp_port),
                        offer_sdp@,
                        rtc,
                    )
                &&& local_hosts(rtc) == set![(local_ip, udp_port)]
                &&& host_count(rtc) <= 1
            },
            Err(e) => {
                &&& e == NegotiationError::BadLocalAddress <==> !candidate_ip(local_ip)
                &&& candidate_ip(local_ip) ==> exists|new: Rtc, after: Rtc| #[trigger]
                    can_be_made(new) && #[trigger] is_reply(
                        Err(e),
                        new,
                        (local_ip, udp_port),
                        offer_sdp@,
                        after,
                    )
            },
        },
{
    let mut rtc = new_connection();
    let ghost new = rtc;
    assert(local_hosts(rtc).insert((local_ip, udp_port)) == set![(local_ip, udp_port)]);
    match answer_offer(&mut rtc, local_ip, udp_port, offer_sdp) {
        Ok(text) => Ok((rtc, text)),
        Err(e) => {
            assert(candidate_ip(local_ip) ==> can_be_made(new) && is_reply(
                Err(e),
                new,
                (local_ip, udp_port),
                offer_sdp@,
                rtc,
            ));
            Err(e)
        },
    }
}

/// Whether the connection `rtc` takes on a candidate of its peer in `after`, if
/// the server can use it, and is left alone otherwise.
pub open spec fn takes_candidate(
    rtc: Rtc,
    candidate: Seq<char>,
    local_ip: IpAddr,
    after: Rtc,
) -> bool {
    match usable_candidate(candidate, local_ip) {
        Some(host) => {
            &&& remote_hosts(after) == remote_hosts(rtc).insert(host)
            &&& local_hosts(after) == local_hosts(rtc)
            &&& host_count(after) == host_count(rtc)
            &&& channels_kept(rtc, after)
        },
        None => after == rtc,
    }
}

/// Whether a message that came while the connection `rtc` is being set up
/// leaves it as `after`: its candidates are taken on, and other messages
/// change nothing.
pub open spec fn takes_message(
    rtc: Rtc,
    message: WsInbound,
    local_ip: IpAddr,
    after: Rtc,
) -> bool {
    match message {
        WsInbound::Candidate { candidate, .. } => takes_candidate(rtc, candidate@, local_ip, after),
        _ => after == rtc,
    }
}

/// Adds a candidate of the peer to a connection that is bound to `local_ip`, if
/// the server can use it.
pub fn try_add_remote_candidate(rtc: &mut Rtc, candidate: &str, local_ip: IpAddr)
    ensures
        takes_candidate(*old(rtc), candidate@, local_ip, *final(rtc)),
{
    if let Some((ip, port)) = read_candidate(candidate, local_ip) {
        if let Ok(host) = host_candidate(ip, port, "udp") {
            rtc.add_remote_candidate(host);
        }
    }
}

/// Handles a message that came while the connection is being set up: its
/// candidates are added, and other messages change nothing.
pub fn handle_inbound(rtc: &mut Rtc, message: &WsInbound, local_ip: IpAddr)
    ensures
        takes_message(*old(rtc), *message, local_ip, *final(rtc)),
{
    match message {
        WsInbound::Candidate { candidate, .. } => {
            try_add_remote_candidate(rtc, candidate.as_str(), local_ip);
        },
        WsInbound::EndOfCandidates => {},
        WsInbound::Offer { .. } => {},
    }
}

/// A candidate of the peer that the server uses is within its reach, and the
/// connection takes it.
pub proof fn lemma_usable_candidate(
    candidate: Seq<char>,
    local: IpAddr,
    ip: Ipv4Addr,
    port: u16,
)
    requires
        usable_candidate(candidate, local) == Some((ip, port)),
    ensures
        crate::sdp::within_reach(local, ip),
        candidate_ip(ip),
        (local matches IpAddr::V4(v4) && v4.loopback()) ==> ip.loopback(),
{
}

/// An address that was picked for an offer is on loopback or on a private
/// network, on loopback where the offer is, and can be a candidate.
pub proof fn lemma_picked_address(
    ip: Ipv4Addr,
    offers: Seq<Ipv4Addr>,
    interfaces: Seq<crate::interfaces::Interface>,
)
    requires
        crate::interfaces::suits_offer(ip, offers, interfaces),
    ensures
        ip.loopback() || ip.private(),
        crate::interfaces::offers_loopback(offers) ==> ip.loopback(),
        candidate_ip(ip),
{
}

/// The addresses that cannot be a candidate are those from 169.254.0.0 to
/// 169.254.255.255, from 224.0.0.0 to 239.255.255.255, 0.0.0.0 and
/// 255.255.255.255.
pub proof fn lemma_candidate_addresses(ip: Ipv4Addr)
    ensures
        !candidate_ip(ip) <==> {
            ||| 0xa9fe_0000 <= ip.number() <= 0xa9fe_ffff
            ||| 0xe000_0000 <= ip.number() <= 0xefff_ffff
            ||| ip.number() == 0
            ||| ip.number() == 0xffff_ffff
        },
{
}

/// The answer that a connection made is handed on as its text, and a refusal as one.
pub proof fn lemma_answers_are_handed_on(
    outcome: Result<SdpAnswer, RtcError>,
    answer: Result<String, NegotiationError>,
)
    requires
        call_ensures(answer_of, (outcome,), answer),
    ensures
        outcome is Ok ==> answer is Ok && answer->Ok_0@ == answer_text(outcome->Ok_0),
        outcome is Err ==> answer is Err && answer->Err_0 == NegotiationError::OfferRefused,
{
}

/// An offer of audio or video is one whose text holds `m=audio` or `m=video`.
pub open spec fn holds_media(sdp: Seq<char>) -> bool {
    exists|i: int|
        0 <= i <= sdp.len() - 7 && {
            ||| #[trigger] sdp.subrange(i, i + 7) == seq!['m', '=', 'a', 'u', 'd', 'i', 'o']
            ||| sdp.subrange(i, i + 7) == seq!['m', '=', 'v', 'i', 'd', 'e', 'o']
        }
}

/// A connection that was told of its host answers every session description
/// that holds neither `m=audio` nor `m=video`, or refuses it, as the connection
/// itself does; one that holds either is refused as an offer of media, and what
/// is no session description as a bad offer.
pub proof fn lemma_reply(
    answer: Result<Seq<char>, NegotiationError>,
    rtc: Rtc,
    host: (Ipv4Addr, u16),
    offer_sdp: Seq<char>,
    after: Rtc,
)
    requires
        is_reply(answer, rtc, host, offer_sdp, after),
    ensures
        answer == Err::<Seq<char>, _>(NegotiationError::BadOffer) <==> read_offer(offer_sdp) is None,
        answer == Err::<Seq<char>, _>(NegotiationError::MediaOffered) <==> read_offer(
            offer_sdp,
        ) is Some && holds_media(offer_sdp),
        answer is Err && answer->Err_0 != NegotiationError::OfferRefused ==> can_be_told(
            rtc,
            host,
            after,
        ),
        read_offer(offer_sdp) is Some && !holds_media(offer_sdp) ==> exists|
            told: Rtc,
            made: Option<SdpAnswer>,
        |
            {
                &&& can_be_told(rtc, host, told)
                &&& #[trigger] can_answer(told, read_offer(offer_sdp)->0, made, after)
                &&& made is Some ==> answer == Ok::<_, NegotiationError>(answer_text(made->0))
                &&& made is None ==> answer == Err::<Seq<char>, _>(NegotiationError::OfferRefused)
            },
{
    crate::sdp::lemma_media_literals(offer_sdp);
    if read_offer(offer_sdp) is Some && !holds_media(offer_sdp) {
        let offer = read_offer(offer_sdp)->0;
        let (told, made) = choose|told: Rtc, made: Option<SdpAnswer>|
            {
                &&& can_be_told(rtc, host, told)
                &&& #[trigger] can_answer(told, offer, made, after)
                &&& is_answer(answer, made)
            };
        assert(can_answer(told, offer, made, after));
    }
}

/// An offer is refused for media only where its text holds `m=audio` or
/// `m=video`, and as a bad one only where it is no session description. Any
/// other gets what a new connection, told of its host, makes of it, and with the
/// answer comes the connection that made it.
pub proof fn lemma_new_connections_answer(
    local_ip: Ipv4Addr,
    udp_port: u16,
    offer_sdp: &str,
    answered: Result<(Rtc, String), NegotiationError>,
)
    requires
        call_ensures(answer_on_new, (local_ip, udp_port, offer_sdp), answered),
    ensures
        (answered is Err && answered->Err_0 == NegotiationError::MediaOffered) <==> candidate_ip(
            local_ip,
        ) && read_offer(offer_sdp@) is Some && holds_media(offer_sdp@),
        (answered is Err && answered->Err_0 == NegotiationError::BadOffer) <==> candidate_ip(
            local_ip,
        ) && read_offer(offer_sdp@) is None,
        (answered is Err && answered->Err_0 == NegotiationError::BadLocalAddress) <==> {
            ||| 0xa9fe_0000 <= local_ip.number() <= 0xa9fe_ffff
            ||| 0xe000_0000 <= local_ip.number() <= 0xefff_ffff
            ||| local_ip.number() == 0
            ||| local_ip.number() == 0xffff_ffff
        },
        candidate_ip(local_ip) && read_offer(offer_sdp@) is Some && !holds_media(offer_sdp@)
            ==> exists|new: Rtc, told: Rtc, made: Option<SdpAnswer>, after: Rtc|
            {
                &&& #[trigger] can_be_made(new)
                &&& can_be_told(new, (local_ip, udp_port), told)
                &&& #[trigger] can_answer(told, read_offer(offer_sdp@)->0, made, after)
                &&& made is Some ==> {
                    &&& answered is Ok
                    &&& answered->Ok_0.0 == after
                    &&& answered->Ok_0.1@ == answer_text(made->0)
                }
                &&& made is None ==> answered is Err && answered->Err_0
                    == NegotiationError::OfferRefused
            },
{
    lemma_candidate_addresses(local_ip);
    let host = (local_ip, udp_port);
    match answered {
        Ok((rtc, text)) => {
            let new = choose|new: Rtc| #[trigger]
                can_be_made(new) && is_reply(Ok(text@), new, host, offer_sdp@, rtc);
            lemma_reply(Ok(text@), new, host, offer_sdp@, rtc);
            let offer = read_offer(offer_sdp@)->0;
            let (told, made) = choose|told: Rtc, made: Option<SdpAnswer>|
                {
                    &&& can_be_told(new, host, told)
                    &&& #[trigger] can_answer(told, offer, made, rtc)
                    &&& made is Some ==> Ok::<_, NegotiationError>(text@) == Ok::<
                        _,
                        NegotiationError,
                    >(answer_text(made->0))
                    &&& made is None ==> Ok::<_, NegotiationError>(text@) == Err::<Seq<char>, _>(
                        NegotiationError::OfferRefused,
                    )
                };
            assert(can_be_made(new) && can_answer(told, offer, made, rtc));
        },
        Err(e) => {
            if candidate_ip(local_ip) {
                let (new, after) = choose|new: Rtc, after: Rtc| #[trigger]
                    can_be_made(new) && #[trigger] is_reply(Err(e), new, host, offer_sdp@, after);
                lemma_reply(Err(e), new, host, offer_sdp@, after);
                if read_offer(offer_sdp@) is Some && !holds_media(offer_sdp@) {
                    let offer = read_offer(offer_sdp@)->0;
                    let (told, made) = choose|told: Rtc, made: Option<SdpAnswer>|
                        {
                            &&& can_be_told(new, host, told)
                            &&& #[trigger] can_answer(told, offer, made, after)
                            &&& made is Some ==> Err::<Seq<char>, _>(e) == Ok::<
                                _,
                                NegotiationError,
                            >(answer_text(made->0))
                            &&& made is None ==> Err::<Seq<char>, _>(e) == Err::<Seq<char>, _>(
                                NegotiationError::OfferRefused,
                            )
                        };
                    assert(can_be_made(new) && can_answer(told, offer, made, after));
                }
            }
        },
    }
}

/// A candidate of the peer is taken on if and only if it has at least six
/// words, the third is `udp` in any case, the fifth is the text of an address
/// that the server can reach, and the sixth is a port; then the connection knows
/// its peer by that address and port too. Any other changes nothing.
pub proof fn lemma_candidates_are_taken(
    rtc: Rtc,
    candidate: Seq<char>,
    local_ip: IpAddr,
    after: Rtc,
    parts: Seq<Seq<char>>,
    ip: Ipv4Addr,
    port: u16,
)
    requires
        takes_candidate(rtc, candidate, local_ip, after),
        crate::sdp::is_candidate_of(candidate, parts),
    ensures
        ({
            &&& parts.len() >= 6
            &&& crate::sdp::is_udp(parts[2])
            &&& parts[4] == ip.text()
            &&& crate::numbers::parsed_number(parts[5], 0xffff) == Some(port as nat)
            &&& crate::sdp::is_in_reach(local_ip, ip)
        }) ==> {
            &&& remote_hosts(after) == remote_hosts(rtc).insert((ip, port))
            &&& local_hosts(after) == local_hosts(rtc)
            &&& channels_kept(rtc, after)
        },
        parts.len() < 6 || !crate::sdp::is_udp(parts[2]) || (forall|v4: Ipv4Addr|
            parts[4] != #[trigger] v4.text()) || crate::numbers::parsed_number(
            parts[5],
            0xffff,
        ) is None || (parts[4] == ip.text() && !crate::sdp::is_in_reach(local_ip, ip)) ==> after
            == rtc,
{
    crate::sdp::lemma_usable(candidate, local_ip, parts, ip, port);
    if let Some((v4, n)) = usable_candidate(candidate, local_ip) {
        crate::sdp::lemma_usable(candidate, local_ip, parts, v4, n);
        if parts[4] == ip.text() {
            crate::net::lemma_text_round_trip(ip);
            crate::net::lemma_text_round_trip(v4);
        }
    }
}

/// A message with a candidate is handled as the candidate is, and one without
/// changes nothing.
pub proof fn lemma_messages_are_handled(
    rtc: Rtc,
    message: WsInbound,
    local_ip: IpAddr,
    after: Rtc,
)
    requires
        takes_message(rtc, message, local_ip, after),
    ensures
        message is Candidate ==> takes_candidate(
            rtc,
            message->candidate@,
            local_ip,
            after,
        ),
        message is Offer ==> after == rtc,
        message is EndOfCandidates ==> after == rtc,
{
}

/// An answer is shown as its text, and an error as it is; an answer is made if
/// and only if the offer is not refused.
pub proof fn lemma_what_is_shown(
    answer: Result<String, NegotiationError>,
    outcome: Result<SdpAnswer, RtcError>,
)
    ensures
        answer is Ok ==> shown(answer) == Ok::<_, NegotiationError>(answer->Ok_0@),
        answer is Err ==> shown(answer) == Err::<Seq<char>, _>(answer->Err_0),
        outcome is Ok ==> made_answer(outcome) == Some(outcome->Ok_0),
        outcome is Err ==> made_answer(outcome) is None,
{
}

/// A connection can be told of an address if and only if that can be a
/// candidate. One that it knows already may be turned down; else the offer is
/// replied to. Either way the connection knows the address from then on.
pub proof fn lemma_offers_are_answered(
    rtc: &mut Rtc,
    local_ip: Ipv4Addr,
    udp_port: u16,
    offer_sdp: &str,
    answer: Result<String, NegotiationError>,
)
    requires
        call_ensures(answer_offer, (rtc, local_ip, udp_port, offer_sdp), answer),
    ensures
        ({
            let host = (local_ip, udp_port);
            let usable = !({
                ||| 0xa9fe_0000 <= local_ip.number() <= 0xa9fe_ffff
                ||| 0xe000_0000 <= local_ip.number() <= 0xefff_ffff
                ||| local_ip.number() == 0
                ||| local_ip.number() == 0xffff_ffff
            });
            let turned_down = answer is Err && answer->Err_0
                == NegotiationError::LocalCandidateRefused;
            &&& !usable <==> answer is Err && answer->Err_0 == NegotiationError::BadLocalAddress
            &&& !usable ==> *final(rtc) == *old(rtc)
            &&& usable ==> local_hosts(*final(rtc)) == local_hosts(*old(rtc)).insert(host)
            &&& turned_down ==> local_hosts(*old(rtc)).contains(host)
            &&& usable && !turned_down ==> is_reply(
                match answer {
                    Ok(text) => Ok(text@),
                    Err(e) => Err(e),
                },
                *old(rtc),
                host,
                offer_sdp@,
                *final(rtc),
            )
            &&& (answer is Err && answer->Err_0 == NegotiationError::MediaOffered) ==> holds_media(
                offer_sdp@,
            )
        }),
{
    lemma_candidate_addresses(local_ip);
    crate::sdp::lemma_media_literals(offer_sdp@);
}

/// A trickled candidate and the message that brings it are handled alike.
pub proof fn lemma_trickled_candidates(
    rtc: &mut Rtc,
    candidate: &str,
    local_ip: IpAddr,
    other: &mut Rtc,
    message: &WsInbound,
)
    requires
        call_ensures(try_add_remote_candidate, (rtc, candidate, local_ip), ()),
        call_ensures(handle_inbound, (other, message, local_ip), ()),
    ensures
        takes_candidate(*old(rtc), candidate@, local_ip, *final(rtc)),
        takes_message(*old(other), *message, local_ip, *final(other)),
{
}

/// A candidate of the peer changes nothing of what a connection knows of itself,
/// nor of its channels and what they hold, whatever it says.
pub proof fn lemma_candidates_keep_the_rest(rtc: &mut Rtc, candidate: &str, local_ip: IpAddr)
    requires
        call_ensures(try_add_remote_candidate, (rtc, candidate, local_ip), ()),
    ensures
        local_hosts(*final(rtc)) == local_hosts(*old(rtc)),
        host_count(*final(rtc)) == host_count(*old(rtc)),
        remote_hosts(*old(rtc)).subset_of(remote_hosts(*final(rtc))),
        open_channels(*final(rtc)) == open_channels(*old(rtc)),
        crate::channel::queued(*final(rtc)) == crate::channel::queued(*old(rtc)),
        crate::channel::buffered(*final(rtc)) == crate::channel::buffered(*old(rtc)),
        crate::channel::drain_marks(*final(rtc)) == crate::channel::drain_marks(*old(rtc)),
{
}

} // verus!
