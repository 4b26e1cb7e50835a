//! Ethernet frames: telling them apart, and writing the gateway's answers.

use crate::net::checksum::set_checksum;
use vstd::prelude::*;

verus! {

use crate::net::checksum::{checksum, law_checksum_verifies, with_checksum};

/// The address of the gateway.
pub const GATEWAY_IP: [u8; 4] = [10, 0, 2, 2];

/// The hardware address of the gateway.
pub const GATEWAY_MAC: [u8; 6] = [0x52, 0x54, 0x00, 0x12, 0x34, 0x56];

/// The address of the gateway.
pub open spec fn gateway_ip() -> Seq<u8> {
    seq![10, 0, 2, 2]
}

/// The hardware address of the gateway.
pub open spec fn gateway_mac() -> Seq<u8> {
    seq![0x52, 0x54, 0x00, 0x12, 0x34, 0x56]
}

/// What an echo reply from beyond the gateway carries: "RISCV_PING" in ASCII.
pub open spec fn ping_data() -> Seq<u8> {
    seq![82, 73, 83, 67, 86, 95, 80, 73, 78, 71]
}

/// A number of sixteen bits, most significant byte first.
pub open spec fn be16(n: u16) -> Seq<u8> {
    seq![(n / 256) as u8, (n % 256) as u8]
}

/// The number in the two bytes from `at` on.
pub open spec fn be16_at(data: Seq<u8>, at: int) -> u16 {
    (data[at] as u16 * 256 + data[at + 1] as u16) as u16
}

/// The number in the two bytes from `at` on.
pub fn read_be16(data: &[u8], at: usize) -> (n: u16)
    requires
        at + 1 < data.len(),
    ensures
        n == be16_at(data@, at as int),
{
    data[at] as u16 * 256 + data[at + 1] as u16
}

/// Appends bytes.
pub fn append(out: &mut Vec<u8>, part: &[u8])
    ensures
        final(out)@ == old(out)@ + part@,
{
    append_range(out, part, 0, part.len());
    assert(part@.subrange(0, part@.len() as int) =~= part@);
}

/// Appends the bytes of `source` from `from` up to `to`.
pub fn append_range(out: &mut Vec<u8>, source: &[u8], from: usize, to: usize)
    requires
        from <= to <= source.len(),
    ensures
        final(out)@ == old(out)@ + source@.subrange(from as int, to as int),
{
    let ghost before = out@;
    let mut i: usize = from;
    assert(before =~= before + source@.subrange(from as int, from as int));
    while i < to
        invariant
            from <= i <= to <= source.len(),
            out@ == before + source@.subrange(from as int, i as int),
        decreases to - i,
    {
        out.push(source[i]);
        i = i + 1;
        assert(out@ =~= before + source@.subrange(from as int, i as int));
    }
}

/// Appends a number of sixteen bits.
pub fn append_be16(out: &mut Vec<u8>, n: u16)
    ensures
        final(out)@ == old(out)@ + be16(n),
{
    out.push((n / 256) as u8);
    out.push((n % 256) as u8);
    assert(out@ =~= old(out)@ + be16(n));
}

// Classification.

/// Whether the bytes of `data` from `at` on are those of `part`.
pub open spec fn holds_at(data: Seq<u8>, at: int, part: Seq<u8>) -> bool {
    data.subrange(at, at + part.len()) == part
}

/// Whether an address lies outside the networks 10.0.0.0/8 and 127.0.0.0/8.
pub open spec fn external(first: u8) -> bool {
    first != 10 && first != 127
}

/// Whether an address lies outside the networks 10.0.0.0/8 and 127.0.0.0/8.
pub fn is_external_ip(ip: &[u8; 4]) -> (b: bool)
    ensures
        b == external(ip[0]),
{
    ip[0] != 10 && ip[0] != 127
}

/// Whether a frame carries a packet of the Internet Protocol with the protocol number given.
pub open spec fn carries(frame: Seq<u8>, protocol: u8) -> bool {
    frame[12] == 0x08 && frame[13] == 0x00 && frame[23] == protocol
}

/// Whether a frame is a UDP packet to the outside.
pub open spec fn external_udp(frame: Seq<u8>) -> bool {
    frame.len() >= 34 && carries(frame, 17) && external(frame[30])
}

/// Whether a frame is a UDP packet to the outside.
pub fn is_external_udp_packet(frame: &[u8]) -> (b: bool)
    ensures
        b == external_udp(frame@),
{
    frame.len() >= 34 && frame[12] == 0x08 && frame[13] == 0x00 && frame[23] == 17 && frame[30]
        != 10 && frame[30] != 127
}

/// Whether a frame is an ICMP packet to the outside.
pub open spec fn external_icmp(frame: Seq<u8>) -> bool {
    frame.len() >= 34 && carries(frame, 1) && external(frame[30])
}

/// Whether a frame is an ICMP packet to the outside.
pub fn is_external_icmp_packet(frame: &[u8]) -> (b: bool)
    ensures
        b == external_icmp(frame@),
{
    frame.len() >= 34 && frame[12] == 0x08 && frame[13] == 0x00 && frame[23] == 1 && frame[30]
        != 10 && frame[30] != 127
}

/// Whether a frame asks for the hardware address of the gateway.
pub open spec fn arp_request_for_gateway(frame: Seq<u8>) -> bool {
    &&& frame.len() >= 42
    &&& frame[12] == 0x08
    &&& frame[13] == 0x06
    &&& frame[20] == 0x00
    &&& frame[21] == 0x01
    &&& holds_at(frame, 38, gateway_ip())
}

/// Whether a frame asks for the hardware address of the gateway.
pub fn is_arp_request_for_gateway(frame: &[u8]) -> (b: bool)
    ensures
        b == arp_request_for_gateway(frame@),
{
    if frame.len() < 42 {
        return false;
    }
    let b: bool = frame[12] == 0x08 && frame[13] == 0x06 && frame[20] == 0x00 && frame[21] == 0x01
        && names_gateway(frame, 38);
    b
}

/// Whether the four bytes from `at` on are the gateway's address.
fn names_gateway(frame: &[u8], at: usize) -> (b: bool)
    requires
        at + 4 <= frame.len(),
    ensures
        b == holds_at(frame@, at as int, gateway_ip()),
{
    let b: bool = frame[at] == 10 && frame[at + 1] == 0 && frame[at + 2] == 2 && frame[at + 3] == 2;
    proof {
        let window = frame@.subrange(at as int, at + 4);
        if b {
            assert(window =~= gateway_ip());
        } else {
            assert(window[0] == frame@[at as int]);
            assert(window[1] == frame@[at + 1]);
            assert(window[2] == frame@[at + 2]);
            assert(window[3] == frame@[at + 3]);
        }
    }
    b
}

/// Whether a frame is a ping of the gateway.
pub open spec fn echo_request_to_gateway(frame: Seq<u8>) -> bool {
    frame.len() >= 42 && carries(frame, 1) && holds_at(frame, 30, gateway_ip()) && frame[34] == 8
}

/// Whether a frame is a ping of the gateway.
pub fn is_icmp_echo_request_to_gateway(frame: &[u8]) -> (b: bool)
    ensures
        b == echo_request_to_gateway(frame@),
{
    if frame.len() < 42 {
        return false;
    }
    let b: bool = frame[12] == 0x08 && frame[13] == 0x00 && frame[23] == 1 && names_gateway(
        frame,
        30,
    ) && frame[34] == 8;
    b
}

// Answers.

/// The gateway's answer to a request for its hardware address.
pub open spec fn arp_reply(request: Seq<u8>) -> Seq<u8> {
    request.subrange(6, 12) + gateway_mac() + seq![0x08, 0x06] + seq![0x00, 0x01] + seq![0x08, 0x00]
        + seq![6, 4] + seq![0x00, 0x02] + gateway_mac() + gateway_ip() + request.subrange(22, 28)
        + request.subrange(28, 32)
}

/// Writes the gateway's answer to a request for its hardware address.
pub fn generate_arp_reply(request: &[u8]) -> (reply: Vec<u8>)
    requires
        request.len() >= 32,
    ensures
        reply@ == arp_reply(request@),
{
    let mut reply: Vec<u8> = Vec::new();
    append_range(&mut reply, request, 6, 12);
    assert(reply@ =~= request@.subrange(6, 12));
    append_mac(&mut reply);
    append(&mut reply, &[0x08, 0x06]);
    append(&mut reply, &[0x00, 0x01]);
    append(&mut reply, &[0x08, 0x00]);
    append(&mut reply, &[6, 4]);
    append(&mut reply, &[0x00, 0x02]);
    append_mac(&mut reply);
    append(&mut reply, &[10, 0, 2, 2]);
    append_range(&mut reply, request, 22, 28);
    append_range(&mut reply, request, 28, 32);
    proof {
        let parts = arp_reply(request@);
        assert(reply@ =~= parts);
    }
    reply
}

fn append_mac(out: &mut Vec<u8>)
    ensures
        final(out)@ == old(out)@ + gateway_mac(),
{
    append(out, &[0x52, 0x54, 0x00, 0x12, 0x34, 0x56]);
    assert(out@ =~= old(out)@ + gateway_mac());
}

/// The header of the echo reply to `request`, without its checksum: source and destination
/// change places.
pub open spec fn echo_header(request: Seq<u8>) -> Seq<u8> {
    request.subrange(14, 24) + seq![0, 0] + request.subrange(30, 34) + request.subrange(26, 30)
}

/// The message of the echo reply to `request`, without its checksum.
pub open spec fn echo_message(request: Seq<u8>) -> Seq<u8> {
    seq![0] + request.subrange(35, 36) + seq![0, 0] + request.subrange(38, request.len() as int)
}

/// The gateway's answer to a ping.
pub open spec fn icmp_reply(request: Seq<u8>) -> Seq<u8> {
    request.subrange(6, 12) + gateway_mac() + request.subrange(12, 14) + with_checksum(
        echo_header(request),
        10,
    ) + with_checksum(echo_message(request), 2)
}

/// Writes the gateway's answer to a ping.
pub fn generate_icmp_reply(request: &[u8]) -> (reply: Vec<u8>)
    requires
        request.len() >= 38,
    ensures
        reply@ == icmp_reply(request@),
        reply@.len() == request@.len(),
{
    let mut header: Vec<u8> = Vec::new();
    append_range(&mut header, request, 14, 24);
    append(&mut header, &[0, 0]);
    append_range(&mut header, request, 30, 34);
    append_range(&mut header, request, 26, 30);
    assert(header@ =~= echo_header(request@));
    set_checksum(&mut header, 10);
    let mut message: Vec<u8> = Vec::new();
    message.push(0);
    append_range(&mut message, request, 35, 36);
    append(&mut message, &[0, 0]);
    append_range(&mut message, request, 38, request.len());
    assert(message@ =~= echo_message(request@));
    set_checksum(&mut message, 2);
    let mut reply: Vec<u8> = Vec::new();
    append_range(&mut reply, request, 6, 12);
    append_mac(&mut reply);
    append_range(&mut reply, request, 12, 14);
    append(&mut reply, header.as_slice());
    append(&mut reply, message.as_slice());
    assert(reply@ =~= icmp_reply(request@));
    reply
}

/// The Ethernet header of a packet of the Internet Protocol from the gateway.
pub open spec fn ethernet_header(dst_mac: Seq<u8>) -> Seq<u8> {
    dst_mac + gateway_mac() + seq![0x08, 0x00]
}

/// A header of the Internet Protocol, without its checksum.
pub open spec fn ip_header(
    total_len: u16,
    ident: u16,
    flags: u8,
    protocol: u8,
    src_ip: Seq<u8>,
    dst_ip: Seq<u8>,
) -> Seq<u8> {
    seq![0x45, 0] + be16(total_len) + be16(ident) + seq![flags, 0, 64, protocol, 0, 0] + src_ip
        + dst_ip
}

/// Writes a header of the Internet Protocol with its checksum.
fn write_ip_header(
    total_len: u16,
    ident: u16,
    flags: u8,
    protocol: u8,
    src_ip: &[u8; 4],
    dst_ip: &[u8; 4],
) -> (header: Vec<u8>)
    ensures
        header@ == with_checksum(
            ip_header(total_len, ident, flags, protocol, src_ip@, dst_ip@),
            10,
        ),
        header@.len() == 20,
{
    let mut header: Vec<u8> = Vec::new();
    header.push(0x45);
    header.push(0);
    append_be16(&mut header, total_len);
    append_be16(&mut header, ident);
    header.push(flags);
    header.push(0);
    header.push(64);
    header.push(protocol);
    header.push(0);
    header.push(0);
    append(&mut header, src_ip.as_slice());
    append(&mut header, dst_ip.as_slice());
    assert(header@ =~= ip_header(total_len, ident, flags, protocol, src_ip@, dst_ip@));
    set_checksum(&mut header, 10);
    header
}

/// An echo reply, without its checksum.
pub open spec fn external_echo_message(ident: u16, seq: u16) -> Seq<u8> {
    seq![0, 0, 0, 0] + be16(ident) + be16(seq) + ping_data()
}

/// The frame that answers a ping of a host beyond the gateway.
pub open spec fn external_icmp_reply(
    dst_mac: Seq<u8>,
    dst_ip: Seq<u8>,
    src_ip: Seq<u8>,
    ident: u16,
    seq: u16,
) -> Seq<u8> {
    ethernet_header(dst_mac) + with_checksum(ip_header(38, ident, 0, 1, src_ip, dst_ip), 10)
        + with_checksum(external_echo_message(ident, seq), 2)
}

/// Writes the frame that answers a ping of a host beyond the gateway.
pub fn generate_icmp_reply_for_external(
    dst_mac: &[u8; 6],
    dst_ip: &[u8; 4],
    src_ip: &[u8; 4],
    ident: u16,
    seq: u16,
) -> (frame: Vec<u8>)
    ensures
        frame@ == external_icmp_reply(dst_mac@, dst_ip@, src_ip@, ident, seq),
{
    let header: Vec<u8> = write_ip_header(38, ident, 0, 1, src_ip, dst_ip);
    let mut message: Vec<u8> = Vec::new();
    append(&mut message, &[0, 0, 0, 0]);
    append_be16(&mut message, ident);
    append_be16(&mut message, seq);
    append(&mut message, &[82, 73, 83, 67, 86, 95, 80, 73, 78, 71]);
    assert(message@ =~= external_echo_message(ident, seq));
    set_checksum(&mut message, 2);
    let mut frame: Vec<u8> = Vec::new();
    append(&mut frame, dst_mac.as_slice());
    append_mac(&mut frame);
    append(&mut frame, &[0x08, 0x00]);
    assert(frame@ =~= ethernet_header(dst_mac@));
    append(&mut frame, header.as_slice());
    append(&mut frame, message.as_slice());
    frame
}

/// A UDP datagram; its checksum is left out, as it may be.
pub open spec fn udp_datagram(src_port: u16, dst_port: u16, payload: Seq<u8>) -> Seq<u8> {
    be16(src_port) + be16(dst_port) + be16((8 + payload.len()) as u16) + seq![0, 0] + payload
}

/// The frame that brings a UDP payload from beyond the gateway. The lengths in its headers
/// are kept in sixteen bits.
pub open spec fn udp_frame(
    dst_mac: Seq<u8>,
    source_mac: Seq<u8>,
    src_ip: Seq<u8>,
    src_port: u16,
    dst_ip: Seq<u8>,
    dst_port: u16,
    payload: Seq<u8>,
) -> Seq<u8> {
    dst_mac + source_mac + seq![0x08, 0x00] + with_checksum(
        ip_header((28 + payload.len()) as u16, 0, 0x40, 17, src_ip, dst_ip),
        10,
    ) + udp_datagram(src_port, dst_port, payload)
}

/// Writes the frame that brings a UDP payload from beyond the gateway.
pub fn write_udp_frame(
    dst_mac: &[u8; 6],
    source_mac: &[u8; 6],
    src_ip: &[u8; 4],
    src_port: u16,
    dst_ip: &[u8; 4],
    dst_port: u16,
    payload: &[u8],
) -> (frame: Vec<u8>)
    requires
        payload.len() + 28 <= usize::MAX,
    ensures
        frame@ == udp_frame(
            dst_mac@,
            source_mac@,
            src_ip@,
            src_port,
            dst_ip@,
            dst_port,
            payload@,
        ),
{
    let udp_len: usize = 8 + payload.len();
    let ip_len: usize = 20 + udp_len;
    let header: Vec<u8> = write_ip_header(ip_len as u16, 0, 0x40, 17, src_ip, dst_ip);
    let mut datagram: Vec<u8> = Vec::new();
    append_be16(&mut datagram, src_port);
    append_be16(&mut datagram, dst_port);
    append_be16(&mut datagram, udp_len as u16);
    append(&mut datagram, &[0, 0]);
    append(&mut datagram, payload);
    assert(datagram@ =~= udp_datagram(src_port, dst_port, payload@));
    let mut frame: Vec<u8> = Vec::new();
    append(&mut frame, dst_mac.as_slice());
    append(&mut frame, source_mac.as_slice());
    append(&mut frame, &[0x08, 0x00]);
    assert(frame@ =~= dst_mac@ + source_mac@ + seq![0x08u8, 0x00]);
    append(&mut frame, header.as_slice());
    append(&mut frame, datagram.as_slice());
    frame
}

// Laws.

/// The gateway answers a request for its hardware address with that address, to the one
/// who asked.
pub proof fn law_arp_reply_answers_the_sender(request: Seq<u8>)
    requires
        arp_request_for_gateway(request),
    ensures
        ({
            let reply = arp_reply(request);
            &&& reply.len() == 42
            &&& reply.subrange(0, 6) == request.subrange(6, 12)
            &&& reply.subrange(6, 12) == gateway_mac()
            &&& reply.subrange(12, 14) == seq![0x08u8, 0x06]
            &&& reply.subrange(20, 22) == seq![0x00u8, 0x02]
            &&& reply.subrange(22, 28) == gateway_mac()
            &&& reply.subrange(28, 32) == request.subrange(38, 42)
            &&& reply.subrange(32, 38) == request.subrange(22, 28)
            &&& reply.subrange(38, 42) == request.subrange(28, 32)
        }),
{
    let reply = arp_reply(request);
    assert(reply.subrange(0, 6) =~= request.subrange(6, 12));
    assert(reply.subrange(6, 12) =~= gateway_mac());
    assert(reply.subrange(12, 14) =~= seq![0x08u8, 0x06]);
    assert(reply.subrange(20, 22) =~= seq![0x00u8, 0x02]);
    assert(reply.subrange(22, 28) =~= gateway_mac());
    assert(reply.subrange(28, 32) =~= gateway_ip());
    assert(reply.subrange(32, 38) =~= request.subrange(22, 28));
    assert(reply.subrange(38, 42) =~= request.subrange(28, 32));
}

/// The gateway answers a ping with the data that came with it, to the one who sent it. But
/// for the addresses, the kind of the message and the checksums, which hold, the answer is
/// the request.
pub proof fn law_icmp_reply_echoes(request: Seq<u8>)
    requires
        echo_request_to_gateway(request),
        request.len() <= 0x2_0000,
    ensures
        ({
            let reply = icmp_reply(request);
            &&& reply.len() == request.len()
            &&& reply.subrange(0, 6) == request.subrange(6, 12)
            &&& reply.subrange(6, 12) == gateway_mac()
            &&& reply.subrange(12, 24) == request.subrange(12, 24)
            &&& reply.subrange(26, 30) == gateway_ip()
            &&& reply.subrange(30, 34) == request.subrange(26, 30)
            &&& reply[34] == 0
            &&& reply[35] == request[35]
            &&& reply.skip(38) == request.skip(38)
            &&& checksum(reply.subrange(14, 34)) == 0
            &&& checksum(reply.skip(34)) == 0
        }),
{
    let reply = icmp_reply(request);
    let header = echo_header(request);
    let message = echo_message(request);
    assert(header.len() == 20);
    assert(message.len() == request.len() - 34);
    law_checksum_verifies(header, 10);
    law_checksum_verifies(message, 2);
    assert(reply.subrange(0, 6) =~= request.subrange(6, 12));
    assert(reply.subrange(6, 12) =~= gateway_mac());
    assert(reply.subrange(14, 34) =~= with_checksum(header, 10));
    assert(reply.skip(34) =~= with_checksum(message, 2));
    assert(reply.subrange(12, 24) =~= request.subrange(12, 24));
    assert(reply.subrange(26, 30) =~= request.subrange(30, 34));
    assert(reply.subrange(30, 34) =~= request.subrange(26, 30));
    assert(reply.skip(38) =~= request.skip(38));
}

/// The header checksum of a frame from beyond the gateway holds, and so does that of an
/// echo reply.
pub proof fn law_external_frames_verify(
    total_len: u16,
    ident: u16,
    flags: u8,
    protocol: u8,
    src_ip: Seq<u8>,
    dst_ip: Seq<u8>,
    seq: u16,
)
    requires
        src_ip.len() == 4,
        dst_ip.len() == 4,
    ensures
        checksum(
            with_checksum(ip_header(total_len, ident, flags, protocol, src_ip, dst_ip), 10),
        ) == 0,
        checksum(with_checksum(external_echo_message(ident, seq), 2)) == 0,
{
    let header = ip_header(total_len, ident, flags, protocol, src_ip, dst_ip);
    let message = external_echo_message(ident, seq);
    assert(header.len() == 20 && header[10] == 0 && header[11] == 0);
    assert(message.len() == 18 && message[2] == 0 && message[3] == 0);
    law_checksum_verifies(header, 10);
    law_checksum_verifies(message, 2);
}

} // verus!
