//! Address translation: packets that a virtual machine sends beyond the gateway, and the
//! answers to them.

use crate::net::frames::{self, is_external_ip, read_be16, write_udp_frame};
use vstd::prelude::*;

verus! {

use crate::net::frames::{be16_at, external, udp_frame};

/// How long an exchange is remembered, in nanoseconds.
pub const SESSION_TIMEOUT: u64 = 30_000_000_000;

/// The port of the domain name service, whose answers may come from another address.
pub const DNS_PORT: u16 = 53;

/// An exchange of UDP packets with a host beyond the gateway.
#[derive(Debug, Clone, Copy, PartialEq, Eq)]
pub struct NatUdpSession {
    pub src_ip: [u8; 4],
    pub src_port: u16,
    pub dst_ip: [u8; 4],
    pub dst_port: u16,
    pub src_mac: [u8; 6],
    /// When it began, in nanoseconds.
    pub created: u64,
}

/// That two exchanges are between the same ports and with the same host.
pub open spec fn same_exchange(a: NatUdpSession, b: NatUdpSession) -> bool {
    a.dst_ip@ == b.dst_ip@ && a.dst_port == b.dst_port && a.src_port == b.src_port
}

/// A UDP payload for a host beyond the gateway.
#[derive(Debug)]
pub struct UdpForward {
    pub dst_ip: [u8; 4],
    pub dst_port: u16,
    pub src_port: u16,
    pub payload: Vec<u8>,
}

/// A ping of a host beyond the gateway.
#[derive(Debug, Clone, Copy, PartialEq, Eq)]
pub struct PingRequest {
    pub src_mac: [u8; 6],
    pub src_ip: [u8; 4],
    pub dst_ip: [u8; 4],
    pub ident: u16,
    pub seq: u16,
}

/// The four bytes of a frame from `at` on.
pub fn read_ip(frame: &[u8], at: usize) -> (ip: [u8; 4])
    requires
        at + 4 <= frame.len(),
    ensures
        ip@ == frame@.subrange(at as int, at + 4),
{
    let ip: [u8; 4] = [frame[at], frame[at + 1], frame[at + 2], frame[at + 3]];
    assert(ip@ =~= frame@.subrange(at as int, at + 4));
    ip
}

/// The six bytes of a frame from `at` on.
pub fn read_mac(frame: &[u8], at: usize) -> (mac: [u8; 6])
    requires
        at + 6 <= frame.len(),
    ensures
        mac@ == frame@.subrange(at as int, at + 6),
{
    let mac: [u8; 6] = [
        frame[at],
        frame[at + 1],
        frame[at + 2],
        frame[at + 3],
        frame[at + 4],
        frame[at + 5],
    ];
    assert(mac@ =~= frame@.subrange(at as int, at + 6));
    mac
}

/// Where the UDP header of a frame starts: after the header of the Internet Protocol,
/// whose length stands in its first byte.
pub open spec fn udp_start(frame: Seq<u8>) -> int {
    14 + (frame[14] % 16) * 4
}

/// Whether a frame begins or continues an exchange with a host beyond the gateway.
pub open spec fn is_outbound(frame: Seq<u8>) -> bool {
    &&& frame.len() >= 42
    &&& external(frame[30])
    &&& frame.len() >= udp_start(frame) + 8
}

/// The exchange that an outbound frame belongs to.
pub open spec fn describes_session(frame: Seq<u8>, now: u64, session: NatUdpSession) -> bool {
    let start = udp_start(frame);
    &&& session.src_ip@ == frame.subrange(26, 30)
    &&& session.dst_ip@ == frame.subrange(30, 34)
    &&& session.src_mac@ == frame.subrange(6, 12)
    &&& session.src_port == be16_at(frame, start)
    &&& session.dst_port == be16_at(frame, start + 2)
    &&& session.created == now
}

/// Where the UDP payload of a frame ends: where its header says, or at the end of the
/// frame.
pub open spec fn payload_end(frame: Seq<u8>) -> int {
    let end = udp_start(frame) + be16_at(frame, udp_start(frame) + 4);
    if end < frame.len() {
        end
    } else {
        frame.len() as int
    }
}

/// Whether an outbound frame has a payload to forward.
pub open spec fn has_payload(frame: Seq<u8>) -> bool {
    udp_start(frame) + 8 < payload_end(frame)
}

/// The exchanges with one more, in place of an earlier one between the same ports and
/// with the same host.
pub open spec fn with_session(
    sessions: Seq<NatUdpSession>,
    session: NatUdpSession,
) -> Seq<NatUdpSession>
    decreases sessions.len(),
{
    if sessions.len() == 0 {
        seq![session]
    } else if same_exchange(sessions.last(), session) {
        sessions.drop_last().push(session)
    } else {
        with_session(sessions.drop_last(), session).push(sessions.last())
    }
}

/// That no two exchanges are between the same ports and with the same host.
pub open spec fn all_different(sessions: Seq<NatUdpSession>) -> bool {
    forall|i: int, j: int|
        0 <= i < j < sessions.len() ==> !same_exchange(#[trigger] sessions[i], #[trigger] sessions[j])
}

/// Whether an exchange is still remembered.
pub open spec fn is_fresh(session: NatUdpSession, now: u64) -> bool {
    session.created > now || now - session.created < SESSION_TIMEOUT
}

/// The exchanges that are still remembered.
pub open spec fn fresh(sessions: Seq<NatUdpSession>, now: u64) -> Seq<NatUdpSession>
    decreases sessions.len(),
{
    if sessions.len() == 0 {
        Seq::empty()
    } else if is_fresh(sessions.last(), now) {
        fresh(sessions.drop_last(), now).push(sessions.last())
    } else {
        fresh(sessions.drop_last(), now)
    }
}

/// Whether a packet from a host beyond the gateway belongs to an exchange.
pub open spec fn answers(session: NatUdpSession, src_ip: Seq<u8>, src_port: u16) -> bool {
    session.dst_port == src_port && (session.dst_ip@ == src_ip || src_port == DNS_PORT)
}

/// Whether a packet comes from the very host that an exchange is with.
pub open spec fn answers_exactly(session: NatUdpSession, src_ip: Seq<u8>, src_port: u16) -> bool {
    session.dst_port == src_port && session.dst_ip@ == src_ip
}

/// The frame that hands a payload of an exchange to the virtual machine.
pub open spec fn session_frame(
    session: NatUdpSession,
    payload: Seq<u8>,
    gateway_mac: Seq<u8>,
) -> Seq<u8> {
    udp_frame(
        session.src_mac@,
        gateway_mac,
        session.dst_ip@,
        session.dst_port,
        session.src_ip@,
        session.src_port,
        payload,
    )
}

/// That no exchange is with the very host that a packet comes from.
pub open spec fn none_exact(sessions: Seq<NatUdpSession>, src_ip: Seq<u8>, src_port: u16) -> bool {
    forall|i: int|
        0 <= i < sessions.len() ==> !answers_exactly(#[trigger] sessions[i], src_ip, src_port)
}

/// What becomes of a packet from a host beyond the gateway: a frame for an exchange that it
/// belongs to, and nothing where there is no such exchange. One with the very host is
/// preferred.
pub open spec fn handed_over(
    sessions: Seq<NatUdpSession>,
    src_ip: Option<[u8; 4]>,
    src_port: u16,
    payload: Seq<u8>,
    gateway_mac: Seq<u8>,
    frame: Option<Vec<u8>>,
) -> bool {
    &&& frame is Some ==> src_ip is Some && exists|i: int|
        0 <= i < sessions.len() && answers(#[trigger] sessions[i], src_ip->0@, src_port)
            && frame->0@ == session_frame(sessions[i], payload, gateway_mac) && (answers_exactly(
            sessions[i],
            src_ip->0@,
            src_port,
        ) || none_exact(sessions, src_ip->0@, src_port))
    &&& frame is None && src_ip is Some ==> forall|i: int|
        0 <= i < sessions.len() ==> !answers(#[trigger] sessions[i], src_ip->0@, src_port)
}

/// The exchanges with hosts beyond the gateway.
pub struct NatGateway {
    udp_sessions: Vec<NatUdpSession>,
}

impl View for NatGateway {
    type V = Seq<NatUdpSession>;

    closed spec fn view(&self) -> Seq<NatUdpSession> {
        self.udp_sessions@
    }
}

fn ip_equal(a: &[u8; 4], b: &[u8; 4]) -> (equal: bool)
    ensures
        equal == (a@ == b@),
{
    let equal: bool = a[0] == b[0] && a[1] == b[1] && a[2] == b[2] && a[3] == b[3];
    proof {
        if equal {
            assert(a@ =~= b@);
        }
    }
    equal
}

/// A session in place of an equal one leaves the others as they are.
pub proof fn lemma_with_session(sessions: Seq<NatUdpSession>, session: NatUdpSession)
    requires
        all_different(sessions),
    ensures
        all_different(with_session(sessions, session)),
        exists|i: int|
            0 <= i < with_session(sessions, session).len() && with_session(sessions, session)[i]
                == session,
        forall|i: int|
            0 <= i < with_session(sessions, session).len() ==> #[trigger] with_session(
                sessions,
                session,
            )[i] == session || (sessions.contains(with_session(sessions, session)[i])
                && !same_exchange(with_session(sessions, session)[i], session)),
    decreases sessions.len(),
{
    let r = with_session(sessions, session);
    if sessions.len() == 0 {
        assert(r[0] == session);
    } else if same_exchange(sessions.last(), session) {
        assert(r[sessions.len() - 1] == session);
        assert forall|i: int| 0 <= i < r.len() implies #[trigger] r[i] == session || (
        sessions.contains(r[i]) && !same_exchange(r[i], session)) by {
            if i < sessions.len() - 1 {
                assert(r[i] == sessions[i]);
                assert(!same_exchange(sessions[i], sessions[sessions.len() - 1]));
            }
        }
        assert forall|i: int, j: int| 0 <= i < j < r.len() implies !same_exchange(
            #[trigger] r[i],
            #[trigger] r[j],
        ) by {
            assert(r[i] == sessions[i]);
            assert(!same_exchange(sessions[i], sessions[j]));
        }
    } else {
        let rest = sessions.drop_last();
        assert(all_different(rest)) by {
            assert forall|i: int, j: int| 0 <= i < j < rest.len() implies !same_exchange(
                #[trigger] rest[i],
                #[trigger] rest[j],
            ) by {
                assert(rest[i] == sessions[i] && rest[j] == sessions[j]);
            }
        }
        lemma_with_session(rest, session);
        let part = with_session(rest, session);
        assert(r == part.push(sessions.last()));
        let w = choose|i: int| 0 <= i < part.len() && part[i] == session;
        assert(r[w] == session);
        assert forall|i: int| 0 <= i < r.len() implies #[trigger] r[i] == session || (
        sessions.contains(r[i]) && !same_exchange(r[i], session)) by {
            if i < part.len() {
                assert(r[i] == part[i]);
                if part[i] != session {
                    let k = choose|k: int| 0 <= k < rest.len() && rest[k] == part[i];
                    assert(sessions[k] == part[i]);
                }
            } else {
                assert(r[i] == sessions[sessions.len() - 1]);
            }
        }
        assert forall|i: int, j: int| 0 <= i < j < r.len() implies !same_exchange(
            #[trigger] r[i],
            #[trigger] r[j],
        ) by {
            if j < part.len() {
                assert(r[i] == part[i] && r[j] == part[j]);
            } else {
                assert(r[j] == sessions.last());
                assert(r[i] == part[i]);
                if part[i] != session {
                    let k = choose|k: int| 0 <= k < rest.len() && rest[k] == part[i];
                    assert(sessions[k] == part[i]);
                    assert(!same_exchange(sessions[k], sessions[sessions.len() - 1]));
                }
            }
        }
    }
}

/// An exchange that differs from a new one stays.
pub proof fn lemma_kept_sessions(
    sessions: Seq<NatUdpSession>,
    session: NatUdpSession,
    other: NatUdpSession,
)
    requires
        sessions.contains(other),
        !same_exchange(other, session),
    ensures
        with_session(sessions, session).contains(other),
    decreases sessions.len(),
{
    let r = with_session(sessions, session);
    let k = choose|k: int| 0 <= k < sessions.len() && sessions[k] == other;
    if same_exchange(sessions.last(), session) {
        assert(r[k] == other);
    } else if k == sessions.len() - 1 {
        assert(r[r.len() - 1] == other);
    } else {
        assert(sessions.drop_last()[k] == other);
        lemma_kept_sessions(sessions.drop_last(), session, other);
        let part = with_session(sessions.drop_last(), session);
        let j = choose|j: int| 0 <= j < part.len() && part[j] == other;
        assert(r[j] == other);
    }
}

/// Forgetting exchanges leaves the others different.
pub proof fn lemma_fresh(sessions: Seq<NatUdpSession>, now: u64)
    ensures
        all_different(sessions) ==> all_different(fresh(sessions, now)),
        forall|s: NatUdpSession| #[trigger]
            fresh(sessions, now).contains(s) ==> sessions.contains(s) && is_fresh(s, now),
        forall|s: NatUdpSession| #[trigger]
            sessions.contains(s) && is_fresh(s, now) ==> fresh(sessions, now).contains(s),
    decreases sessions.len(),
{
    let r = fresh(sessions, now);
    if sessions.len() > 0 {
        let rest = sessions.drop_last();
        lemma_fresh(rest, now);
        let part = fresh(rest, now);
        let last = sessions.last();
        assert forall|s: NatUdpSession| #[trigger] r.contains(s) implies sessions.contains(s)
            && is_fresh(s, now) by {
            let i = choose|i: int| 0 <= i < r.len() && r[i] == s;
            if i < part.len() {
                assert(part[i] == s);
                assert(part.contains(s));
                assert(rest.contains(s));
                let k = choose|k: int| 0 <= k < rest.len() && rest[k] == s;
                assert(sessions[k] == s);
            } else {
                assert(sessions[sessions.len() - 1] == s);
            }
        }
        assert forall|s: NatUdpSession| #[trigger] sessions.contains(s) && is_fresh(s, now) implies
            r.contains(s) by {
            let k = choose|k: int| 0 <= k < sessions.len() && sessions[k] == s;
            if k < rest.len() {
                assert(rest[k] == s);
                assert(rest.contains(s));
                assert(part.contains(s));
                let i = choose|i: int| 0 <= i < part.len() && part[i] == s;
                assert(r[i] == s);
            } else {
                assert(r[part.len() as int] == s);
            }
        }
        if all_different(sessions) {
            assert(all_different(rest)) by {
                assert forall|i: int, j: int| 0 <= i < j < rest.len() implies !same_exchange(
                    #[trigger] rest[i],
                    #[trigger] rest[j],
                ) by {
                    assert(rest[i] == sessions[i] && rest[j] == sessions[j]);
                }
            }
            assert forall|i: int, j: int| 0 <= i < j < r.len() implies !same_exchange(
                #[trigger] r[i],
                #[trigger] r[j],
            ) by {
                assert(r[i] == part[i]);
                if j < part.len() {
                    assert(r[j] == part[j]);
                } else {
                    assert(part.contains(part[i]));
                    assert(rest.contains(part[i]));
                    let k = choose|k: int| 0 <= k < rest.len() && rest[k] == part[i];
                    assert(sessions[k] == part[i]);
                    assert(!same_exchange(sessions[k], sessions[sessions.len() - 1]));
                }
            }
        }
    }
}

impl NatGateway {
    /// The exchanges differ.
    pub open spec fn wf(&self) -> bool {
        all_different(self@)
    }

    pub fn new() -> (gateway: Self)
        ensures
            gateway@ == Seq::<NatUdpSession>::empty(),
            gateway.wf(),
    {
        Self { udp_sessions: Vec::new() }
    }

    /// Forgets the exchanges that are too old at `now`.
    pub fn cleanup_expired(&mut self, now: u64)
        requires
            old(self).wf(),
        ensures
            final(self)@ == fresh(old(self)@, now),
            final(self).wf(),
    {
        let mut kept: Vec<NatUdpSession> = Vec::new();
        let mut i: usize = 0;
        let ghost all = self@;
        while i < self.udp_sessions.len()
            invariant
                i <= self.udp_sessions.len(),
                all == self.udp_sessions@,
                kept@ == fresh(all.take(i as int), now),
            decreases self.udp_sessions.len() - i,
        {
            let session = self.udp_sessions[i];
            assert(all.take(i + 1).drop_last() =~= all.take(i as int));
            if now < session.created || now - session.created < SESSION_TIMEOUT {
                kept.push(session);
            }
            i = i + 1;
        }
        assert(all.take(all.len() as int) =~= all);
        self.udp_sessions = kept;
        proof {
            lemma_fresh(all, now);
        }
    }

    /// Notes an exchange.
    fn note_session(&mut self, session: NatUdpSession)
        requires
            old(self).wf(),
        ensures
            final(self)@ == with_session(old(self)@, session),
            final(self).wf(),
    {
        let ghost all = self@;
        proof {
            lemma_with_session(all, session);
        }
        let mut i: usize = self.udp_sessions.len();
        assert(all.take(i as int) + Seq::<NatUdpSession>::empty() =~= all);
        assert(all.skip(i as int) =~= Seq::<NatUdpSession>::empty());
        assert(with_session(all, session) =~= with_session(all.take(i as int), session) + all.skip(
            i as int,
        ));
        while i > 0
            invariant
                i <= self.udp_sessions.len(),
                all == self.udp_sessions@,
                all == old(self)@,
                all_different(with_session(all, session)),
                with_session(all, session) == with_session(all.take(i as int), session) + all.skip(
                    i as int,
                ),
            decreases i,
        {
            let known = self.udp_sessions[i - 1];
            let ghost part = all.take(i as int);
            assert(part.last() == known);
            assert(part.drop_last() =~= all.take(i - 1));
            if ip_equal(&known.dst_ip, &session.dst_ip) && known.dst_port == session.dst_port
                && known.src_port == session.src_port {
                self.udp_sessions.set(i - 1, session);
                assert(self.udp_sessions@ =~= with_session(part, session) + all.skip(i as int));
                return;
            }
            i = i - 1;
            assert(all.skip(i as int) =~= seq![known] + all.skip(i + 1));
            assert(with_session(all, session) =~= with_session(all.take(i as int), session)
                + all.skip(i as int));
        }
        let mut grown: Vec<NatUdpSession> = Vec::new();
        grown.push(session);
        let mut k: usize = 0;
        assert(grown@ =~= seq![session] + all.take(0));
        while k < self.udp_sessions.len()
            invariant
                k <= self.udp_sessions.len(),
                all == self.udp_sessions@,
                all == old(self)@,
                grown@ == seq![session] + all.take(k as int),
            decreases self.udp_sessions.len() - k,
        {
            grown.push(self.udp_sessions[k]);
            k = k + 1;
            assert(grown@ =~= seq![session] + all.take(k as int));
        }
        assert(all.take(0) =~= Seq::<NatUdpSession>::empty());
        assert(grown@ =~= with_session(all.take(0), session) + all.skip(0));
        self.udp_sessions = grown;
    }

    /// Notes the exchange of an outbound UDP packet, and gives what is to be forwarded. A
    /// frame that stays behind the gateway, or is cut short, is none of them.
    pub fn process_udp_outbound(&mut self, frame: &[u8], now: u64) -> (forward: Option<UdpForward>)
        requires
            old(self).wf(),
        ensures
            final(self).wf(),
            !is_outbound(frame@) ==> final(self)@ == old(self)@ && forward is None,
            is_outbound(frame@) ==> exists|session: NatUdpSession|
                #[trigger] describes_session(frame@, now, session) && final(self)@ == with_session(
                    old(self)@,
                    session,
                ),
            is_outbound(frame@) ==> (forward is Some <==> has_payload(frame@)),
            forward matches Some(f) ==> {
                let start = udp_start(frame@);
                &&& f.dst_ip@ == frame@.subrange(30, 34)
                &&& f.dst_port == be16_at(frame@, start + 2)
                &&& f.src_port == be16_at(frame@, start)
                &&& f.payload@ == frame@.subrange(start + 8, payload_end(frame@))
            },
    {
        if frame.len() < 42 {
            return None;
        }
        let dst_ip: [u8; 4] = read_ip(frame, 30);
        assert(dst_ip@[0] == frame@[30]);
        if !is_external_ip(&dst_ip) {
            return None;
        }
        let start: usize = 14 + (frame[14] % 16) as usize * 4;
        if frame.len() < start + 8 {
            return None;
        }
        let src_port: u16 = read_be16(frame, start);
        let dst_port: u16 = read_be16(frame, start + 2);
        let udp_len: usize = read_be16(frame, start + 4) as usize;
        let session = NatUdpSession {
            src_ip: read_ip(frame, 26),
            src_port,
            dst_ip,
            dst_port,
            src_mac: read_mac(frame, 6),
            created: now,
        };
        assert(describes_session(frame@, now, session));
        self.note_session(session);
        let end: usize = if start + udp_len < frame.len() {
            start + udp_len
        } else {
            frame.len()
        };
        if start + 8 >= end {
            return None;
        }
        let mut payload: Vec<u8> = Vec::new();
        frames::append_range(&mut payload, frame, start + 8, end);
        assert(payload@ =~= frame@.subrange(start + 8, payload_end(frame@)));
        Some(UdpForward { dst_ip, dst_port, src_port, payload })
    }

    /// Writes the frame that hands a payload of an exchange to the virtual machine.
    pub fn generate_udp_response(
        &self,
        session: &NatUdpSession,
        payload: &[u8],
        gateway_mac: &[u8; 6],
    ) -> (frame: Vec<u8>)
        requires
            payload.len() + 28 <= usize::MAX,
        ensures
            frame@ == session_frame(*session, payload@, gateway_mac@),
    {
        write_udp_frame(
            &session.src_mac,
            gateway_mac,
            &session.dst_ip,
            session.dst_port,
            &session.src_ip,
            session.src_port,
            payload,
        )
    }

    /// Takes a packet from a host beyond the gateway, and gives the frame that hands it to
    /// the virtual machine where it belongs to an exchange that is still remembered. `src_ip`
    /// is `None` where the host has no address of four bytes.
    pub fn accept_udp_response(
        &mut self,
        src_ip: Option<[u8; 4]>,
        src_port: u16,
        payload: &[u8],
        gateway_mac: &[u8; 6],
        now: u64,
    ) -> (frame: Option<Vec<u8>>)
        requires
            old(self).wf(),
            payload.len() + 28 <= usize::MAX,
        ensures
            final(self)@ == fresh(old(self)@, now),
            final(self).wf(),
            handed_over(final(self)@, src_ip, src_port, payload@, gateway_mac@, frame),
    {
        self.cleanup_expired(now);
        let ip: [u8; 4] = match src_ip {
            Some(ip) => ip,
            None => {
                return None;
            },
        };
        let mut i: usize = 0;
        while i < self.udp_sessions.len()
            invariant
                i <= self.udp_sessions.len(),
                self.wf(),
                self@ == fresh(old(self)@, now),
                src_ip == Some(ip),
                payload.len() + 28 <= usize::MAX,
                forall|j: int| 0 <= j < i ==> !answers_exactly(#[trigger] self@[j], ip@, src_port),
            decreases self.udp_sessions.len() - i,
        {
            let session = self.udp_sessions[i];
            assert(session == self@[i as int]);
            if session.dst_port == src_port && ip_equal(&session.dst_ip, &ip) {
                let data = self.generate_udp_response(&session, payload, gateway_mac);
                assert(answers_exactly(self@[i as int], src_ip->0@, src_port));
                assert(data@ == session_frame(self@[i as int], payload@, gateway_mac@));
                return Some(data);
            }
            i = i + 1;
        }
        assert(none_exact(self@, src_ip->0@, src_port));
        if src_port != DNS_PORT {
            return None;
        }
        let mut i: usize = 0;
        while i < self.udp_sessions.len()
            invariant
                i <= self.udp_sessions.len(),
                self.wf(),
                self@ == fresh(old(self)@, now),
                src_ip is Some,
                src_port == DNS_PORT,
                payload.len() + 28 <= usize::MAX,
                none_exact(self@, src_ip->0@, src_port),
                forall|j: int| 0 <= j < i ==> (#[trigger] self@[j]).dst_port != src_port,
            decreases self.udp_sessions.len() - i,
        {
            let session = self.udp_sessions[i];
            assert(session == self@[i as int]);
            if session.dst_port == src_port {
                let data = self.generate_udp_response(&session, payload, gateway_mac);
                assert(answers(self@[i as int], src_ip->0@, src_port));
                assert(data@ == session_frame(self@[i as int], payload@, gateway_mac@));
                return Some(data);
            }
            i = i + 1;
        }
        None
    }
}

/// Whether a frame of an external ICMP packet is a ping.
pub open spec fn outbound_ping(frame: Seq<u8>) -> bool {
    frame.len() >= 42 && external(frame[30]) && frame[34] == 8
}

/// The ping that an outbound frame asks for.
pub fn process_icmp_outbound(frame: &[u8]) -> (ping: Option<PingRequest>)
    ensures
        ping is Some <==> outbound_ping(frame@),
        ping matches Some(p) ==> {
            &&& p.src_mac@ == frame@.subrange(6, 12)
            &&& p.src_ip@ == frame@.subrange(26, 30)
            &&& p.dst_ip@ == frame@.subrange(30, 34)
            &&& p.ident == be16_at(frame@, 38)
            &&& p.seq == be16_at(frame@, 40)
        },
{
    if frame.len() < 42 {
        return None;
    }
    let dst_ip: [u8; 4] = read_ip(frame, 30);
    assert(dst_ip@[0] == frame@[30]);
    if !is_external_ip(&dst_ip) {
        return None;
    }
    if frame[34] != 8 {
        return None;
    }
    Some(
        PingRequest {
            src_mac: read_mac(frame, 6),
            src_ip: read_ip(frame, 26),
            dst_ip,
            ident: read_be16(frame, 38),
            seq: read_be16(frame, 40),
        },
    )
}

// Laws.

/// An answer from the host and the port that a packet went to, within the time that
/// exchanges are remembered, finds the way back.
pub proof fn law_answers_find_their_way_back(
    sessions: Seq<NatUdpSession>,
    session: NatUdpSession,
    now: u64,
)
    requires
        all_different(sessions),
        session.created <= now,
        now - session.created < SESSION_TIMEOUT,
    ensures
        ({
            let kept = fresh(with_session(sessions, session), now);
            exists|i: int|
                0 <= i < kept.len() && answers_exactly(
                    #[trigger] kept[i],
                    session.dst_ip@,
                    session.dst_port,
                ) && kept[i] == session
        }),
{
    let noted = with_session(sessions, session);
    lemma_with_session(sessions, session);
    lemma_fresh(noted, now);
    assert(noted.contains(session));
    let kept = fresh(noted, now);
    assert(kept.contains(session));
    let i = choose|i: int| 0 <= i < kept.len() && kept[i] == session;
    assert(answers_exactly(kept[i], session.dst_ip@, session.dst_port));
}

/// An exchange that is too old is forgotten.
pub proof fn law_old_exchanges_are_forgotten(
    sessions: Seq<NatUdpSession>,
    session: NatUdpSession,
    now: u64,
)
    requires
        session.created <= now,
        now - session.created >= SESSION_TIMEOUT,
    ensures
        !fresh(sessions, now).contains(session),
{
    lemma_fresh(sessions, now);
}

} // verus!
