//! Where frames go: to the gateway itself, beyond it, or to the other virtual machines.

use crate::net::frames::{
    generate_arp_reply, generate_icmp_reply, is_arp_request_for_gateway, is_external_icmp_packet,
    is_external_udp_packet, is_icmp_echo_request_to_gateway,
};
use crate::net::gateway::{process_icmp_outbound, NatGateway, PingRequest, UdpForward};
use std::collections::VecDeque;
use vstd::prelude::*;
use vstd::string::StringExecFns;

verus! {

use crate::net::frames::{
    arp_reply, arp_request_for_gateway, be16_at, echo_request_to_gateway, external_icmp,
    external_udp, icmp_reply,
};
use crate::net::gateway::{
    describes_session, fresh, handed_over, has_payload, is_outbound, outbound_ping, payload_end,
    udp_start, with_session, NatUdpSession,
};

/// How many frames wait for a connection at most.
pub const MAX_RX_QUEUE_SIZE: usize = 256;

/// How long the gateway takes to tell its hardware address, in nanoseconds.
pub const ARP_DELAY: u64 = 1_000_000;

/// How long the gateway takes to answer a ping, in nanoseconds.
pub const PING_DELAY: u64 = 10_000_000;

/// A frame for the virtual machine, not to be handed over before its time.
#[derive(Debug)]
pub struct PendingReply {
    pub data: Vec<u8>,
    pub deliver_at: u64,
}

/// Where a frame goes.
#[derive(Debug)]
pub enum Route {
    /// The gateway answers it; the answer waits.
    Answered,
    /// It is a ping of a host beyond the gateway.
    Ping(PingRequest),
    /// It goes to a host beyond the gateway.
    Forward(UdpForward),
    /// It goes to the other virtual machines.
    Publish,
    /// There is no network.
    Refused(String),
}

/// What the network has for the virtual machine.
#[derive(Debug)]
pub enum Received {
    Frame(Vec<u8>),
    Empty,
    Disconnected,
    /// The network was not started.
    Absent,
}

/// What a relay address says, or what is wrong with it.
pub uninterp spec fn parsed_address(addr: Seq<char>) -> Result<Seq<u8>, Seq<char>>;

/// `Multiaddr::from_str` of the crate `multiaddr`, which `libp2p` exports, reads an address;
/// `Multiaddr::to_vec` gives it as bytes. Both depend on the text alone, and so does the text
/// of the error.
#[verifier::external_body]
fn parse_multiaddr(addr: &str) -> (r: Result<Vec<u8>, String>)
    ensures
        match r {
            Ok(address) => parsed_address(addr@) == Ok::<Seq<u8>, Seq<char>>(address@),
            Err(text) => parsed_address(addr@) == Err::<Seq<u8>, Seq<char>>(text@),
        },
{
    match addr.parse::<libp2p::Multiaddr>() {
        Ok(address) => Ok(address.to_vec()),
        Err(e) => Err(e.to_string()),
    }
}

/// What is made of a relay address that was read, or could not be.
pub fn relay_outcome(parsed: Result<Vec<u8>, String>) -> (r: Result<Vec<u8>, String>)
    ensures
        match parsed {
            Ok(address) => r matches Ok(same) && same@ == address@,
            Err(text) => r matches Err(message) && message@ == "Invalid relay address: "@ + text@,
        },
{
    match parsed {
        Ok(address) => Ok(address),
        Err(text) => {
            let mut message = String::from_str("Invalid relay address: ");
            message.append(text.as_str());
            Err(message)
        },
    }
}

/// Reads the address of the relay, which comes as bytes.
pub fn relay_address(addr: &str) -> (r: Result<Vec<u8>, String>)
    ensures
        match parsed_address(addr@) {
            Ok(address) => r matches Ok(same) && same@ == address,
            Err(text) => r matches Err(message) && message@ == "Invalid relay address: "@ + text,
        },
{
    relay_outcome(parse_multiaddr(addr))
}

/// A number for an address: each byte counts 31 times as much as the next.
pub open spec fn address_hash(addr: Seq<u8>) -> u32
    decreases addr.len(),
{
    if addr.len() == 0 {
        0
    } else {
        address_hash(addr.drop_last()).wrapping_mul(31).wrapping_add(addr.last() as u32)
    }
}

/// The hardware address of a virtual machine whose relay has the address given.
pub open spec fn mac_for(addr: Seq<u8>) -> Seq<u8> {
    let hash = address_hash(addr);
    seq![
        0x52,
        0x54,
        0x00,
        ((hash >> 16) & 0xff) as u8,
        ((hash >> 8) & 0xff) as u8,
        (hash & 0xff) as u8,
    ]
}

fn hash_address(addr: &[u8]) -> (hash: u32)
    ensures
        hash == address_hash(addr@),
{
    let mut hash: u32 = 0;
    let mut i: usize = 0;
    while i < addr.len()
        invariant
            i <= addr.len(),
            hash == address_hash(addr@.take(i as int)),
        decreases addr.len() - i,
    {
        assert(addr@.take(i + 1).drop_last() =~= addr@.take(i as int));
        hash = hash.wrapping_mul(31).wrapping_add(addr[i] as u32);
        i = i + 1;
    }
    assert(addr@.take(addr@.len() as int) =~= addr@);
    hash
}

/// That a frame is to be handed over at the time given.
pub open spec fn is_reply(reply: PendingReply, data: Seq<u8>, at: int) -> bool {
    reply.data@ == data && reply.deliver_at == at
}

/// The network of a virtual machine, as far as it decides.
pub struct Libp2pBackend {
    relay_addr: String,
    mac: [u8; 6],
    /// Whether there is a network to publish to.
    started: bool,
    replies: VecDeque<PendingReply>,
    gateway: NatGateway,
}

impl Libp2pBackend {
    /// The address of the relay.
    pub closed spec fn relay(&self) -> Seq<char> {
        self.relay_addr@
    }

    /// The hardware address of the virtual machine.
    pub closed spec fn mac(&self) -> Seq<u8> {
        self.mac@
    }

    /// Whether there is a network to publish to.
    pub closed spec fn is_started(&self) -> bool {
        self.started
    }

    /// The answers that wait for their time.
    pub closed spec fn waiting(&self) -> Seq<PendingReply> {
        self.replies@
    }

    /// The exchanges with hosts beyond the gateway.
    pub closed spec fn sessions(&self) -> Seq<NatUdpSession> {
        self.gateway@
    }

    /// The exchanges differ.
    pub closed spec fn wf(&self) -> bool {
        self.gateway.wf()
    }

    /// That nothing differs but the answers that wait and the exchanges.
    pub open spec fn same_place(&self, other: &Self) -> bool {
        &&& self.relay() == other.relay()
        &&& self.mac() == other.mac()
        &&& self.is_started() == other.is_started()
    }

    /// A network that is not started. The hardware address follows from that of the relay.
    pub fn new(relay_addr: &str) -> (backend: Self)
        ensures
            backend.wf(),
            backend.relay() == relay_addr@,
            backend.mac() == mac_for(vstd::utf8::encode_utf8(relay_addr@)),
            !backend.is_started(),
            backend.waiting() == Seq::<PendingReply>::empty(),
            backend.sessions() == Seq::<NatUdpSession>::empty(),
    {
        let hash: u32 = hash_address(relay_addr.as_bytes());
        let mac: [u8; 6] = [
            0x52,
            0x54,
            0x00,
            ((hash >> 16) & 0xff) as u8,
            ((hash >> 8) & 0xff) as u8,
            (hash & 0xff) as u8,
        ];
        assert(mac@ =~= mac_for(vstd::utf8::encode_utf8(relay_addr@)));
        Self {
            relay_addr: String::from_str(relay_addr),
            mac,
            started: false,
            replies: VecDeque::new(),
            gateway: NatGateway::new(),
        }
    }

    pub fn mac_address(&self) -> (mac: [u8; 6])
        ensures
            mac@ == self.mac(),
    {
        self.mac
    }

    pub fn relay_addr(&self) -> (addr: &str)
        ensures
            addr@ == self.relay(),
    {
        self.relay_addr.as_str()
    }

    /// Notes that there is a network to publish to.
    pub fn start(&mut self)
        requires
            old(self).wf(),
        ensures
            final(self).wf(),
            final(self).is_started(),
            final(self).relay() == old(self).relay(),
            final(self).mac() == old(self).mac(),
            final(self).waiting() == old(self).waiting(),
            final(self).sessions() == old(self).sessions(),
    {
        self.started = true;
    }

    /// Keeps an answer for `delay` nanoseconds.
    pub fn queue_reply(&mut self, data: Vec<u8>, now: u64, delay: u64)
        requires
            old(self).wf(),
            now + delay <= u64::MAX,
        ensures
            final(self).wf(),
            final(self).same_place(old(self)),
            final(self).sessions() == old(self).sessions(),
            final(self).waiting() == old(self).waiting().push(
                (PendingReply { data, deliver_at: (now + delay) as u64 }),
            ),
    {
        self.replies.push_back(PendingReply { data, deliver_at: now + delay });
    }

    /// Where a frame goes that is neither for the gateway nor for beyond: there has to be a
    /// network.
    pub fn publish_route(&self) -> (route: Route)
        ensures
            self.is_started() ==> route is Publish,
            !self.is_started() ==> (route matches Route::Refused(message) && message@
                == "libp2p not initialized"@),
    {
        if self.started {
            Route::Publish
        } else {
            Route::Refused(String::from_str("libp2p not initialized"))
        }
    }

    /// Decides where a frame from the virtual machine goes. The gateway answers for itself;
    /// pings and UDP packets to the outside go there; all else is published.
    pub fn send(&mut self, buf: &[u8], now: u64) -> (route: Route)
        requires
            old(self).wf(),
            now + PING_DELAY <= u64::MAX,
        ensures
            final(self).wf(),
            final(self).same_place(old(self)),
            sent(
                buf@,
                now,
                old(self).waiting(),
                old(self).sessions(),
                old(self).is_started(),
                route,
                final(self).waiting(),
                final(self).sessions(),
            ),
    {
        if is_arp_request_for_gateway(buf) {
            let reply: Vec<u8> = generate_arp_reply(buf);
            self.queue_reply(reply, now, ARP_DELAY);
            assert(self.waiting().drop_last() =~= old(self).waiting());
            return Route::Answered;
        }
        if is_icmp_echo_request_to_gateway(buf) {
            let reply: Vec<u8> = generate_icmp_reply(buf);
            self.queue_reply(reply, now, PING_DELAY);
            assert(self.waiting().drop_last() =~= old(self).waiting());
            return Route::Answered;
        }
        if is_external_icmp_packet(buf) {
            if let Some(ping) = process_icmp_outbound(buf) {
                return Route::Ping(ping);
            }
        }
        if is_external_udp_packet(buf) {
            if let Some(forward) = self.gateway.process_udp_outbound(buf, now) {
                return Route::Forward(forward);
            }
        }
        self.publish_route()
    }

    /// The first waiting answer, where its time has come.
    pub fn take_ready(&mut self, now: u64) -> (frame: Option<Vec<u8>>)
        requires
            old(self).wf(),
        ensures
            final(self).wf(),
            final(self).same_place(old(self)),
            final(self).sessions() == old(self).sessions(),
            frame is Some <==> old(self).waiting().len() > 0 && now >= old(
                self,
            ).waiting()[0].deliver_at,
            frame matches Some(data) ==> data@ == old(self).waiting()[0].data@
                && final(self).waiting() == old(self).waiting().skip(1),
            frame is None ==> final(self).waiting() == old(self).waiting(),
    {
        if self.replies.len() == 0 {
            return None;
        }
        if now < self.replies[0].deliver_at {
            return None;
        }
        match self.replies.pop_front() {
            Some(reply) => {
                assert(self.waiting() =~= old(self).waiting().skip(1));
                Some(reply.data)
            },
            None => None,
        }
    }

    /// Takes a packet from a host beyond the gateway, and gives the frame that hands it to
    /// the virtual machine.
    pub fn accept_udp(
        &mut self,
        src_ip: Option<[u8; 4]>,
        src_port: u16,
        payload: &[u8],
        now: u64,
    ) -> (frame: Option<Vec<u8>>)
        requires
            old(self).wf(),
            payload.len() + 28 <= usize::MAX,
        ensures
            final(self).wf(),
            final(self).same_place(old(self)),
            final(self).waiting() == old(self).waiting(),
            final(self).sessions() == fresh(old(self).sessions(), now),
            handed_over(
                final(self).sessions(),
                src_ip,
                src_port,
                payload@,
                crate::net::frames::gateway_mac(),
                frame,
            ),
    {
        let mac: [u8; 6] = [0x52, 0x54, 0x00, 0x12, 0x34, 0x56];
        assert(mac@ =~= crate::net::frames::gateway_mac());
        self.gateway.accept_udp_response(src_ip, src_port, payload, &mac, now)
    }
}

/// How a frame was dealt with: the route that it took, and what waits and which exchanges
/// are known then.
pub open spec fn sent(
    frame: Seq<u8>,
    now: u64,
    waiting: Seq<PendingReply>,
    sessions: Seq<NatUdpSession>,
    started: bool,
    route: Route,
    waiting_after: Seq<PendingReply>,
    sessions_after: Seq<NatUdpSession>,
) -> bool {
    if arp_request_for_gateway(frame) {
        &&& route is Answered
        &&& queued(waiting, waiting_after, arp_reply(frame), now + ARP_DELAY)
        &&& sessions_after == sessions
    } else if echo_request_to_gateway(frame) {
        &&& route is Answered
        &&& queued(waiting, waiting_after, icmp_reply(frame), now + PING_DELAY)
        &&& sessions_after == sessions
    } else if external_icmp(frame) && outbound_ping(frame) {
        &&& waiting_after == waiting
        &&& sessions_after == sessions
        &&& (route matches Route::Ping(ping) && asks_ping(frame, ping))
    } else if external_udp(frame) && is_outbound(frame) {
        &&& waiting_after == waiting
        &&& noted(frame, now, sessions, sessions_after)
        &&& if has_payload(frame) {
            route matches Route::Forward(forward) && forwards(frame, forward)
        } else {
            published(started, route)
        }
    } else {
        &&& waiting_after == waiting
        &&& sessions_after == sessions
        &&& published(started, route)
    }
}

/// That an answer was added to those that wait.
pub open spec fn queued(
    waiting: Seq<PendingReply>,
    waiting_after: Seq<PendingReply>,
    data: Seq<u8>,
    at: int,
) -> bool {
    &&& waiting_after.len() == waiting.len() + 1
    &&& waiting_after.drop_last() == waiting
    &&& is_reply(waiting_after.last(), data, at)
}

/// That a ping is the one that a frame asks for.
pub open spec fn asks_ping(frame: Seq<u8>, ping: PingRequest) -> bool {
    &&& ping.src_mac@ == frame.subrange(6, 12)
    &&& ping.src_ip@ == frame.subrange(26, 30)
    &&& ping.dst_ip@ == frame.subrange(30, 34)
    &&& ping.ident == be16_at(frame, 38)
    &&& ping.seq == be16_at(frame, 40)
}

/// That what goes beyond the gateway is the payload of a frame.
pub open spec fn forwards(frame: Seq<u8>, forward: UdpForward) -> bool {
    let start = udp_start(frame);
    &&& forward.dst_ip@ == frame.subrange(30, 34)
    &&& forward.dst_port == be16_at(frame, start + 2)
    &&& forward.src_port == be16_at(frame, start)
    &&& forward.payload@ == frame.subrange(start + 8, payload_end(frame))
}

/// That the exchange of a frame was noted.
pub open spec fn noted(
    frame: Seq<u8>,
    now: u64,
    sessions: Seq<NatUdpSession>,
    sessions_after: Seq<NatUdpSession>,
) -> bool {
    exists|session: NatUdpSession|
        #[trigger] describes_session(frame, now, session) && sessions_after == with_session(
            sessions,
            session,
        )
}

/// That a frame goes to the other virtual machines, where there is a network.
pub open spec fn published(started: bool, route: Route) -> bool {
    if started {
        route is Publish
    } else {
        route matches Route::Refused(message) && message@ == "libp2p not initialized"@
    }
}

/// What a receiver is told of what the network has.
pub fn receive(received: Received) -> (r: Result<Option<Vec<u8>>, String>)
    ensures
        match received {
            Received::Frame(data) => r matches Ok(Some(frame)) && frame@ == data@,
            Received::Empty => r == Ok::<Option<Vec<u8>>, String>(None),
            Received::Disconnected => r matches Err(message) && message@ == "libp2p disconnected"@,
            Received::Absent => r == Ok::<Option<Vec<u8>>, String>(None),
        },
{
    match received {
        Received::Frame(data) => Ok(Some(data)),
        Received::Empty => Ok(None),
        Received::Disconnected => Err(String::from_str("libp2p disconnected")),
        Received::Absent => Ok(None),
    }
}

/// The gateway answers a request for its hardware address on its own, network or not: the
/// answer waits behind the earlier ones, and no exchange is noted.
pub proof fn law_gateway_answers_by_itself(
    frame: Seq<u8>,
    now: u64,
    waiting: Seq<PendingReply>,
    sessions: Seq<NatUdpSession>,
    started: bool,
    route: Route,
    waiting_after: Seq<PendingReply>,
    sessions_after: Seq<NatUdpSession>,
)
    requires
        arp_request_for_gateway(frame) || echo_request_to_gateway(frame),
        sent(frame, now, waiting, sessions, started, route, waiting_after, sessions_after),
    ensures
        route is Answered,
        sessions_after == sessions,
        waiting_after.len() == waiting.len() + 1,
        forall|i: int| 0 <= i < waiting.len() ==> waiting_after[i] == waiting[i],
        waiting_after.last().data@ == (if arp_request_for_gateway(frame) {
            arp_reply(frame)
        } else {
            icmp_reply(frame)
        }),
{
    assert forall|i: int| 0 <= i < waiting.len() implies waiting_after[i] == waiting[i] by {
        assert(waiting_after.drop_last()[i] == waiting[i]);
    }
}

/// Nothing that goes to the networks of the virtual machines themselves leaves them: no ping
/// and no datagram for such an address is sent beyond the gateway.
pub proof fn law_internal_frames_stay_inside(
    frame: Seq<u8>,
    now: u64,
    waiting: Seq<PendingReply>,
    sessions: Seq<NatUdpSession>,
    started: bool,
    route: Route,
    waiting_after: Seq<PendingReply>,
    sessions_after: Seq<NatUdpSession>,
)
    requires
        frame.len() >= 34,
        frame[30] == 10 || frame[30] == 127,
        sent(frame, now, waiting, sessions, started, route, waiting_after, sessions_after),
    ensures
        !(route is Ping),
        !(route is Forward),
        sessions_after == sessions,
{
}

} // verus!
