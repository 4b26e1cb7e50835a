//! What the frames mean: which byte of an answer comes from where.

use vstd::prelude::*;

verus! {

use crate::net::backend::{address_hash, asks_ping, mac_for, sent, PendingReply, Route};
use crate::net::checksum::{
    self, checksum, ones_complement, with_checksum, word_sum,
};
use crate::net::frames::{
    arp_reply, be16, be16_at, echo_request_to_gateway, external_echo_message,
    external_icmp_reply, icmp_reply, ip_header, law_external_frames_verify, udp_datagram,
    udp_frame,
};
use crate::net::gateway::{
    all_different, answers, answers_exactly, describes_session, fresh, handed_over, has_payload,
    is_outbound, lemma_fresh, lemma_kept_sessions, lemma_with_session, outbound_ping,
    payload_end, same_exchange, session_frame, udp_start, with_session, NatUdpSession,
    PingRequest,
};

/// That a number stands in two bytes of a frame, the most significant first.
pub open spec fn stands(frame: Seq<u8>, at: int, n: int) -> bool {
    frame[at] * 256 + frame[at + 1] == n
}

/// That a number of sixteen bits stands in two bytes of a frame.
pub open spec fn tells(frame: Seq<u8>, at: int, n: u16) -> bool {
    stands(frame, at, n as int)
}

/// That `frame` has the bytes of `part` from `at` on.
pub open spec fn shows(frame: Seq<u8>, at: int, part: Seq<u8>) -> bool {
    &&& at + part.len() <= frame.len()
    &&& forall|i: int| 0 <= i < part.len() ==> #[trigger] frame[at + i] == part[i]
}

/// Numbers of sixteen bits stand in two bytes, and are read back.
pub proof fn law_numbers_in_frames(n: u16, data: Seq<u8>, at: int)
    requires
        0 <= at,
        at + 1 < data.len(),
    ensures
        be16(n).len() == 2,
        stands(be16(n), 0, n as int),
        stands(data, at, be16_at(data, at) as int),
        be16_at(be16(n), 0) == n,
{
}

/// That a frame has a header of the Internet Protocol of twenty bytes that verifies, with the
/// fields given.
pub open spec fn has_ip_header(
    frame: Seq<u8>,
    total_len: int,
    protocol: u8,
    src_ip: Seq<u8>,
    dst_ip: Seq<u8>,
) -> bool {
    &&& frame.len() >= 34
    &&& stands(frame, 12, 0x0800)
    &&& frame[14] == 0x45
    &&& frame[15] == 0
    &&& stands(frame, 16, total_len)
    &&& frame[22] == 64
    &&& frame[23] == protocol
    &&& checksum(frame.subrange(14, 34)) == 0
    &&& shows(frame, 26, src_ip)
    &&& shows(frame, 30, dst_ip)
}

/// The answer to a ping of a host beyond the gateway comes from that host to the one who
/// asked, and carries the numbers of the request and the text of such answers.
pub proof fn law_external_reply(
    dst_mac: Seq<u8>,
    dst_ip: Seq<u8>,
    src_ip: Seq<u8>,
    ident: u16,
    seq: u16,
)
    requires
        dst_mac.len() == 6,
        dst_ip.len() == 4,
        src_ip.len() == 4,
    ensures
        ({
            let f = external_icmp_reply(dst_mac, dst_ip, src_ip, ident, seq);
            &&& f.len() == 52
            &&& shows(f, 0, dst_mac)
            &&& shows(f, 6, seq![0x52u8, 0x54, 0x00, 0x12, 0x34, 0x56])
            &&& has_ip_header(f, 38, 1, src_ip, dst_ip)
            &&& tells(f, 18, ident)
            &&& f[20] == 0 && f[21] == 0
            &&& f[34] == 0 && f[35] == 0
            &&& checksum(f.skip(34)) == 0
            &&& be16_at(f, 38) == ident && tells(f, 38, ident)
            &&& be16_at(f, 40) == seq && tells(f, 40, seq)
            &&& shows(f, 42, seq![0x52u8, 0x49, 0x53, 0x43, 0x56, 0x5f, 0x50, 0x49, 0x4e, 0x47])
        }),
{
    let f = external_icmp_reply(dst_mac, dst_ip, src_ip, ident, seq);
    let header = ip_header(38, ident, 0, 1, src_ip, dst_ip);
    let message = external_echo_message(ident, seq);
    law_external_frames_verify(38, ident, 0, 1, src_ip, dst_ip, seq);
    assert(header.len() == 20);
    assert(message.len() == 18);
    assert(f.subrange(14, 34) =~= with_checksum(header, 10));
    assert(f.skip(34) =~= with_checksum(message, 2));
    assert(f[16] == header[2] && f[17] == header[3]);
    assert(f[38] == message[4] && f[39] == message[5] && f[40] == message[6] && f[41]
        == message[7]);
}

/// The answer to a ping of a host beyond the gateway goes back the way that the ping came: the
/// addresses change places, and the bytes that tell pings apart are those of the ping.
pub proof fn law_external_reply_echoes(request: Seq<u8>, ping: PingRequest)
    requires
        outbound_ping(request),
        asks_ping(request, ping),
    ensures
        ({
            let f = external_icmp_reply(
                ping.src_mac@,
                ping.src_ip@,
                ping.dst_ip@,
                ping.ident,
                ping.seq,
            );
            &&& f.subrange(0, 6) == request.subrange(6, 12)
            &&& f.subrange(26, 30) == request.subrange(30, 34)
            &&& f.subrange(30, 34) == request.subrange(26, 30)
            &&& f.subrange(38, 42) == request.subrange(38, 42)
            &&& request[34] == 8 && f[34] == 0
        }),
{
    let f = external_icmp_reply(ping.src_mac@, ping.src_ip@, ping.dst_ip@, ping.ident, ping.seq);
    law_external_reply(ping.src_mac@, ping.src_ip@, ping.dst_ip@, ping.ident, ping.seq);
    assert forall|i: int| 0 <= i < 6 implies #[trigger] f[i] == request[6 + i] by {
        assert(f[0 + i] == ping.src_mac@[i]);
    }
    assert(f.subrange(0, 6) =~= request.subrange(6, 12));
    assert forall|i: int| 0 <= i < 4 implies f.subrange(26, 30)[i] == request.subrange(30, 34)[i] by {
        assert(f[26 + i] == ping.dst_ip@[i]);
    }
    assert(f.subrange(26, 30) =~= request.subrange(30, 34));
    assert forall|i: int| 0 <= i < 4 implies f.subrange(30, 34)[i] == request.subrange(26, 30)[i] by {
        assert(f[30 + i] == ping.src_ip@[i]);
    }
    assert(f.subrange(30, 34) =~= request.subrange(26, 30));
    assert(f.subrange(38, 42) =~= request.subrange(38, 42));
}

/// A UDP frame from beyond the gateway has its addresses, ports, lengths and payload in their
/// places, and a header that verifies.
pub proof fn law_udp_frame(
    dst_mac: Seq<u8>,
    source_mac: Seq<u8>,
    src_ip: Seq<u8>,
    src_port: u16,
    dst_ip: Seq<u8>,
    dst_port: u16,
    payload: Seq<u8>,
)
    requires
        dst_mac.len() == 6,
        source_mac.len() == 6,
        src_ip.len() == 4,
        dst_ip.len() == 4,
        payload.len() <= 0xffe3,
    ensures
        ({
            let f = udp_frame(dst_mac, source_mac, src_ip, src_port, dst_ip, dst_port, payload);
            &&& f.len() == 42 + payload.len()
            &&& shows(f, 0, dst_mac)
            &&& shows(f, 6, source_mac)
            &&& has_ip_header(f, (28 + payload.len()) as int, 17, src_ip, dst_ip)
            &&& stands(f, 18, 0)
            &&& stands(f, 20, 0x4000)
            &&& stands(f, 34, src_port as int)
            &&& stands(f, 36, dst_port as int)
            &&& stands(f, 38, (8 + payload.len()) as int)
            &&& stands(f, 40, 0)
            &&& f.skip(42) == payload
        }),
{
    let f = udp_frame(dst_mac, source_mac, src_ip, src_port, dst_ip, dst_port, payload);
    let total_len = (28 + payload.len()) as u16;
    let header = ip_header(total_len, 0, 0x40, 17, src_ip, dst_ip);
    law_external_frames_verify(total_len, 0, 0x40, 17, src_ip, dst_ip, 0);
    assert(header.len() == 20);
    let datagram = udp_datagram(src_port, dst_port, payload);
    assert(f.subrange(14, 34) =~= with_checksum(header, 10));
    assert(f.skip(34) =~= datagram);
    assert(f[16] == header[2] && f[17] == header[3]);
    assert(f[34] == datagram[0] && f[35] == datagram[1] && f[36] == datagram[2] && f[37]
        == datagram[3] && f[38] == datagram[4] && f[39] == datagram[5]);
    assert(f.skip(42) =~= payload);
}

/// The header of the Internet Protocol gives its own length, in words of four bytes.
pub proof fn law_udp_header_follows(frame: Seq<u8>, version: int, words: int)
    requires
        frame.len() > 14,
        frame[14] == 16 * version + words,
        0 <= words < 16,
    ensures
        udp_start(frame) == 14 + 4 * words,
{
}

/// The answer to a UDP packet comes from the host and port that the packet went to, and goes
/// to those that it came from.
pub proof fn law_udp_answers_go_back(
    frame: Seq<u8>,
    now: u64,
    session: NatUdpSession,
    payload: Seq<u8>,
    mac: Seq<u8>,
)
    requires
        is_outbound(frame),
        describes_session(frame, now, session),
        mac.len() == 6,
        payload.len() <= 0xffe3,
    ensures
        ({
            let f = session_frame(session, payload, mac);
            let start = udp_start(frame);
            &&& f.subrange(0, 6) == frame.subrange(6, 12)
            &&& f.subrange(6, 12) == mac
            &&& f.subrange(26, 30) == frame.subrange(30, 34)
            &&& f.subrange(30, 34) == frame.subrange(26, 30)
            &&& f.subrange(34, 36) == frame.subrange(start + 2, start + 4)
            &&& f.subrange(36, 38) == frame.subrange(start, start + 2)
            &&& f.skip(42) == payload
        }),
{
    let f = session_frame(session, payload, mac);
    let start = udp_start(frame);
    law_udp_frame(
        session.src_mac@,
        mac,
        session.dst_ip@,
        session.dst_port,
        session.src_ip@,
        session.src_port,
        payload,
    );
    assert forall|i: int| 0 <= i < 6 implies #[trigger] f[i] == frame[6 + i] by {
        assert(f[0 + i] == session.src_mac@[i]);
    }
    assert(f.subrange(0, 6) =~= frame.subrange(6, 12));
    assert forall|i: int| 0 <= i < 6 implies f.subrange(6, 12)[i] == mac[i] by {
        assert(f[6 + i] == mac[i]);
    }
    assert(f.subrange(6, 12) =~= mac);
    assert forall|i: int| 0 <= i < 4 implies f.subrange(26, 30)[i] == frame.subrange(30, 34)[i] by {
        assert(f[26 + i] == session.dst_ip@[i]);
    }
    assert(f.subrange(26, 30) =~= frame.subrange(30, 34));
    assert forall|i: int| 0 <= i < 4 implies f.subrange(30, 34)[i] == frame.subrange(26, 30)[i] by {
        assert(f[30 + i] == session.src_ip@[i]);
    }
    assert(f.subrange(30, 34) =~= frame.subrange(26, 30));
    assert(f.subrange(34, 36) =~= frame.subrange(start + 2, start + 4));
    assert(f.subrange(36, 38) =~= frame.subrange(start, start + 2));
}

/// A UDP frame to the outside is forwarded with the payload that was put into it; bytes that
/// were added behind it are left out.
pub proof fn law_payloads_are_forwarded(
    dst_mac: Seq<u8>,
    source_mac: Seq<u8>,
    src_ip: Seq<u8>,
    src_port: u16,
    dst_ip: Seq<u8>,
    dst_port: u16,
    payload: Seq<u8>,
    padding: Seq<u8>,
)
    requires
        dst_mac.len() == 6,
        source_mac.len() == 6,
        src_ip.len() == 4,
        dst_ip.len() == 4,
        dst_ip[0] != 10,
        dst_ip[0] != 127,
        0 < payload.len() <= 0xffe3,
    ensures
        ({
            let f = udp_frame(dst_mac, source_mac, src_ip, src_port, dst_ip, dst_port, payload)
                + padding;
            &&& is_outbound(f)
            &&& has_payload(f)
            &&& be16_at(f, udp_start(f)) == src_port
            &&& be16_at(f, udp_start(f) + 2) == dst_port
            &&& f.subrange(udp_start(f) + 8, payload_end(f)) == payload
            &&& f.subrange(26, 30) == src_ip
            &&& f.subrange(30, 34) == dst_ip
        }),
{
    let bare = udp_frame(dst_mac, source_mac, src_ip, src_port, dst_ip, dst_port, payload);
    let f = bare + padding;
    law_udp_frame(dst_mac, source_mac, src_ip, src_port, dst_ip, dst_port, payload);
    assert(f[14] == bare[14]);
    assert(udp_start(f) == 34);
    assert(f[30] == bare[30int + 0]);
    assert(f[34] == bare[34] && f[35] == bare[35] && f[36] == bare[36] && f[37] == bare[37]
        && f[38] == bare[38] && f[39] == bare[39]);
    assert(payload_end(f) == 42 + payload.len());
    assert forall|i: int| 0 <= i < payload.len() implies f.subrange(
        42,
        (42 + payload.len()) as int,
    )[i] == payload[i] by {
        assert(bare.skip(42)[i] == payload[i]);
    }
    assert(f.subrange(42, (42 + payload.len()) as int) =~= payload);
    assert forall|i: int| 0 <= i < 4 implies f.subrange(26, 30)[i] == src_ip[i] by {
        assert(bare[26 + i] == src_ip[i]);
    }
    assert(f.subrange(26, 30) =~= src_ip);
    assert forall|i: int| 0 <= i < 4 implies f.subrange(30, 34)[i] == dst_ip[i] by {
        assert(bare[30 + i] == dst_ip[i]);
    }
    assert(f.subrange(30, 34) =~= dst_ip);
}

/// A new exchange is remembered in place of an earlier one between the same ports and with the
/// same host; every other exchange stays.
pub proof fn law_exchanges_are_remembered(
    sessions: Seq<NatUdpSession>,
    session: NatUdpSession,
    other: NatUdpSession,
)
    requires
        all_different(sessions),
        sessions.contains(other),
    ensures
        with_session(sessions, session).contains(session),
        other.dst_ip@ != session.dst_ip@ || other.dst_port != session.dst_port || other.src_port
            != session.src_port ==> with_session(sessions, session).contains(other),
        other.dst_ip@ == session.dst_ip@ && other.dst_port == session.dst_port && other.src_port
            == session.src_port && other != session ==> !with_session(sessions, session).contains(
            other,
        ),
{
    lemma_with_session(sessions, session);
    if !same_exchange(other, session) {
        lemma_kept_sessions(sessions, session, other);
    }
}

/// Exchanges are remembered for thirty seconds.
pub proof fn law_exchanges_last(sessions: Seq<NatUdpSession>, session: NatUdpSession, now: u64)
    requires
        sessions.contains(session),
    ensures
        fresh(sessions, now).contains(session) <==> now < session.created + 30_000_000_000,
{
    lemma_fresh(sessions, now);
}

/// A packet from the host and the port that an exchange is with is handed over, from that host
/// to where the exchange came from. On the port of the domain name service it may come from
/// any host; on any other port it is handed over only from the very host.
pub proof fn law_answers_are_handed_over(
    sessions: Seq<NatUdpSession>,
    k: int,
    ip: [u8; 4],
    port: u16,
    payload: Seq<u8>,
    mac: Seq<u8>,
    frame: Option<Vec<u8>>,
)
    requires
        0 <= k < sessions.len(),
        handed_over(sessions, Some(ip), port, payload, mac, frame),
    ensures
        sessions[k].dst_port == port && (sessions[k].dst_ip@ == ip@ || port == 53) ==> frame is Some,
        frame matches Some(data) ==> exists|i: int|
            0 <= i < sessions.len() && (#[trigger] sessions[i]).dst_port == port && (port != 53
                || sessions[k].dst_port == port && sessions[k].dst_ip@ == ip@
                ==> sessions[i].dst_ip@ == ip@) && data@ == session_frame(
                sessions[i],
                payload,
                mac,
            ),
{
    if frame is Some {
        let i = choose|i: int|
            0 <= i < sessions.len() && answers(#[trigger] sessions[i], ip@, port) && frame->0@
                == session_frame(sessions[i], payload, mac) && (answers_exactly(
                sessions[i],
                ip@,
                port,
            ) || crate::net::gateway::none_exact(sessions, ip@, port));
        assert(sessions[i].dst_port == port);
        if sessions[k].dst_port == port && sessions[k].dst_ip@ == ip@ {
            assert(answers_exactly(sessions[k], ip@, port));
        }
    } else if sessions[k].dst_port == port && (sessions[k].dst_ip@ == ip@ || port == 53) {
        assert(!answers(sessions[k], ip@, port));
    }
}

/// A ping of a host that is in none of the networks 10.0.0.0/8 and 127.0.0.0/8 is carried out,
/// and a UDP packet to such a host is forwarded where it has a payload.
pub proof fn law_frames_to_the_outside_leave(
    frame: Seq<u8>,
    now: u64,
    waiting: Seq<PendingReply>,
    sessions: Seq<NatUdpSession>,
    started: bool,
    route: Route,
    waiting_after: Seq<PendingReply>,
    sessions_after: Seq<NatUdpSession>,
)
    requires
        frame.len() >= 42,
        stands(frame, 12, 0x0800),
        frame[30] != 10,
        frame[30] != 127,
        sent(frame, now, waiting, sessions, started, route, waiting_after, sessions_after),
    ensures
        waiting_after == waiting,
        frame[23] == 1 && frame[34] == 8 ==> (route matches Route::Ping(ping) && ping.dst_ip@
            == frame.subrange(30, 34) && ping.src_ip@ == frame.subrange(26, 30) && ping.src_mac@
            == frame.subrange(6, 12) && stands(frame, 38, ping.ident as int) && stands(
            frame,
            40,
            ping.seq as int,
        )),
        frame[23] == 1 && frame[34] != 8 ==> !(route is Ping) && !(route is Forward),
        frame[23] == 17 && frame[14] == 0x45 && 8 < frame[38] * 256 + frame[39] <= frame.len() - 34
            ==> (route matches Route::Forward(forward) && forward.dst_ip@ == frame.subrange(30, 34)
            && stands(frame, 34, forward.src_port as int) && stands(
            frame,
            36,
            forward.dst_port as int,
        ) && forward.payload@ == frame.subrange(42, 34 + frame[38] * 256 + frame[39])),
        frame[23] != 1 && frame[23] != 17 ==> !(route is Ping) && !(route is Forward),
{
    assert(frame[12] == 0x08 && frame[13] == 0x00);
    if echo_request_to_gateway(frame) {
        assert(frame.subrange(30, 34)[0] == 10);
    }
}

/// What is neither an answer of the gateway nor for the outside goes to the other machines
/// where there is a network, and is refused where there is none.
pub proof fn law_other_frames_are_published(
    frame: Seq<u8>,
    now: u64,
    waiting: Seq<PendingReply>,
    sessions: Seq<NatUdpSession>,
    started: bool,
    route: Route,
    waiting_after: Seq<PendingReply>,
    sessions_after: Seq<NatUdpSession>,
)
    requires
        frame.len() < 34 || !stands(frame, 12, 0x0800) || (frame[23] != 1 && frame[23] != 17),
        frame.len() < 42 || !stands(frame, 12, 0x0806),
        sent(frame, now, waiting, sessions, started, route, waiting_after, sessions_after),
    ensures
        started ==> route is Publish,
        !started ==> route is Refused,
        waiting_after == waiting,
        sessions_after == sessions,
{
}

/// The gateway answers requests for its own address, after its time: those for a hardware
/// address after one millisecond, and pings after ten.
pub proof fn law_gateway_takes_its_time(
    frame: Seq<u8>,
    now: u64,
    waiting: Seq<PendingReply>,
    sessions: Seq<NatUdpSession>,
    started: bool,
    route: Route,
    waiting_after: Seq<PendingReply>,
    sessions_after: Seq<NatUdpSession>,
)
    requires
        frame.len() >= 42,
        sent(frame, now, waiting, sessions, started, route, waiting_after, sessions_after),
    ensures
        stands(frame, 12, 0x0806) && stands(frame, 20, 1) && shows(frame, 38, seq![10u8, 0, 2, 2])
            ==> route is Answered && waiting_after.last().deliver_at == now + 1_000_000,
        stands(frame, 12, 0x0800) && frame[23] == 1 && frame[34] == 8 && shows(
            frame,
            30,
            seq![10u8, 0, 2, 2],
        ) ==> route is Answered && waiting_after.last().deliver_at == now + 10_000_000,
{
    if shows(frame, 38, seq![10u8, 0, 2, 2]) {
        assert(frame[38int + 0] == 10 && frame[38int + 1] == 0 && frame[38int + 2] == 2 && frame[38int + 3]
            == 2);
        assert(frame.subrange(38, 42) =~= seq![10u8, 0, 2, 2]);
    }
    if shows(frame, 30, seq![10u8, 0, 2, 2]) {
        assert(frame[30int + 0] == 10 && frame[30int + 1] == 0 && frame[30int + 2] == 2 && frame[30int + 3]
            == 2);
        assert(frame.subrange(30, 34) =~= seq![10u8, 0, 2, 2]);
    }
}

/// The answer to a request for a hardware address is one for Ethernet and the Internet
/// Protocol, and names the gateway.
pub proof fn law_arp_reply_is_well_formed(request: Seq<u8>)
    requires
        request.len() >= 32,
    ensures
        ({
            let f = arp_reply(request);
            &&& stands(f, 12, 0x0806)
            &&& stands(f, 14, 1)
            &&& stands(f, 16, 0x0800)
            &&& f[18] == 6
            &&& f[19] == 4
            &&& stands(f, 20, 2)
            &&& shows(f, 6, seq![0x52u8, 0x54, 0x00, 0x12, 0x34, 0x56])
            &&& shows(f, 22, seq![0x52u8, 0x54, 0x00, 0x12, 0x34, 0x56])
            &&& shows(f, 28, seq![10u8, 0, 2, 2])
        }),
{
}

/// The answer to a ping comes from the gateway.
pub proof fn law_icmp_reply_names_the_gateway(request: Seq<u8>)
    requires
        request.len() >= 38,
    ensures
        shows(icmp_reply(request), 6, seq![0x52u8, 0x54, 0x00, 0x12, 0x34, 0x56]),
{
}

/// The words of data are summed up: those of two parts, the first of even length, add up, two
/// bytes count as a number, and a byte left over as the upper half of one.
pub proof fn law_words_add_up(a: Seq<u8>, b: Seq<u8>, hi: u8, lo: u8)
    requires
        a.len() % 2 == 0,
    ensures
        word_sum(a + b) == word_sum(a) + word_sum(b),
        word_sum(seq![hi, lo]) == hi * 256 + lo,
        word_sum(seq![hi]) == hi * 256,
        word_sum(Seq::<u8>::empty()) == 0,
    decreases a.len(),
{
    reveal_with_fuel(word_sum, 3);
    assert(seq![hi, lo].skip(2) =~= Seq::<u8>::empty());
    if a.len() > 0 {
        law_words_add_up(a.skip(2), b, hi, lo);
        assert((a + b).skip(2) =~= a.skip(2) + b);
    } else {
        assert(a + b =~= b);
    }
}

/// The checksum of data and its words together are a multiple of 2^16 - 1. It is zero in no
/// other form than as 0, but for data whose words are all zero.
pub proof fn law_checksum_completes(data: Seq<u8>)
    requires
        data.len() <= 0x2_0000,
    ensures
        (checksum(data) + word_sum(data)) % 0xffff == 0,
        checksum(data) == 0xffff <==> word_sum(data) == 0,
{
    checksum::lemma_sum_bound(data);
    let n = word_sum(data);
    assert(n % 0x1_0000_0000 == n);
    if n > 0 {
        let q = (n - 1) / 0xffff;
        let f = (n - 1) % 0xffff + 1;
        assert(n == 0xffff * q + f);
        assert(ones_complement(n) == f);
        assert(checksum(data) + n == 0xffff * (q + 1));
    }
}

/// The checksum goes into its place most significant byte first, and no other byte changes.
pub proof fn law_checksum_is_put_in(data: Seq<u8>, at: int)
    requires
        0 <= at,
        at + 1 < data.len(),
    ensures
        with_checksum(data, at).len() == data.len(),
        stands(with_checksum(data, at), at, checksum(data) as int),
        forall|i: int|
            0 <= i < data.len() && i != at && i != at + 1 ==> with_checksum(data, at)[i]
                == data[i],
{
}

/// The number of an address is built up from its bytes, and the hardware address of a virtual
/// machine shows the low 24 bits of it, most significant byte first, behind a fixed start.
pub proof fn law_hardware_addresses(addr: Seq<u8>, last: u8)
    ensures
        address_hash(Seq::<u8>::empty()) == 0,
        address_hash(addr.push(last)) == (address_hash(addr) * 31 + last) % 0x1_0000_0000,
        mac_for(addr).len() == 6,
        shows(mac_for(addr), 0, seq![0x52u8, 0x54, 0x00]),
        mac_for(addr)[3] * 0x1_0000 + mac_for(addr)[4] * 0x100 + mac_for(addr)[5] == address_hash(
            addr,
        ) % 0x100_0000,
{
    assert(addr.push(last).drop_last() =~= addr);
    crate::meaning::lemma_low_bytes(address_hash(addr));
}

} // verus!
