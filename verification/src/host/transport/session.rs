//! Single-client session state machine.
//!
//! Pure logic with an injected clock: the transport feeds it inbound control
//! messages and time ticks, and gets back actions (reply datagrams, changes of
//! shared state) to carry out.

use vstd::prelude::*;

use crate::wire::v2::control;
use crate::wire::v2::control::{
    encode_control, ByeReason, ControlMessage, ControlMessageView, Heartbeat, Hello2, Hello2View,
    HelloAck, HelloAckView, HelloStatus, InputEvent, Ping, Pong, ReceiverReport,
    StreamConfig, CAP_DECODE_HEVC, FEATURE_WANTS_INPUT,
};

verus! {

/// Host-dictated timing (nanoseconds), advertised to the client in HELLO_ACK.
pub const HEARTBEAT_INTERVAL: u64 = 1_000_000_000;

pub const REPORT_INTERVAL_MS: u16 = 500;

/// A client that has been silent this long (nanoseconds) is gone.
pub const LIVENESS_TIMEOUT: u64 = 3_000_000_000;

/// At most one keyframe request is honored per this window (nanoseconds).
pub const KEYFRAME_REQUEST_MIN_INTERVAL: u64 = 500_000_000;

/// Step of the session id generator.
pub const SESSION_ID_STEP: u32 = 0x9E37_79B9;

/// The IP address of a peer.
#[derive(Debug, Clone, Copy, PartialEq, Eq, Structural)]
pub enum HostIp {
    V4(u32),
    V6(u128),
}

/// The address and port of a peer.
#[derive(Debug, Clone, Copy, PartialEq, Eq, Structural)]
pub struct PeerAddr {
    pub ip: HostIp,
    pub port: u16,
}

impl PeerAddr {
    /// Whether the address is the unspecified one.
    pub open spec fn ip_is_unspecified(self) -> bool {
        self.ip == HostIp::V4(0) || self.ip == HostIp::V6(0)
    }

    /// Whether media can be sent to this address.
    pub fn is_reachable(&self) -> (b: bool)
        ensures
            b == (!self.ip_is_unspecified() && self.port != 0),
    {
        let unspecified = match self.ip {
            HostIp::V4(bits) => bits == 0,
            HostIp::V6(bits) => bits == 0,
        };
        !unspecified && self.port != 0
    }
}

/// What the transport must do after feeding the session an event.
#[derive(Debug)]
pub struct Actions {
    /// Serialized control datagrams to send, with their destination.
    pub replies: Vec<(PeerAddr, Vec<u8>)>,
    /// The media target changed (new session or takeover).
    pub new_target: Option<PeerAddr>,
    /// Ask the encoder for a keyframe (new or superseded session, request).
    pub force_idr: bool,
    /// The client is gone (BYE or liveness expiry): stop sending media.
    pub client_lost: bool,
    /// A fresh receiver report arrived (it feeds the bitrate controller).
    pub report: Option<ReceiverReport>,
    /// An input event of the connected client and its session id, produced
    /// only where that client asked for input relay.
    pub input: Option<(u32, InputEvent)>,
}

/// [`Actions`] with the datagrams as sequences.
#[verifier::ext_equal]
pub struct ActionsView {
    pub replies: Seq<(PeerAddr, Seq<u8>)>,
    pub new_target: Option<PeerAddr>,
    pub force_idr: bool,
    pub client_lost: bool,
    pub report: Option<ReceiverReport>,
    pub input: Option<(u32, InputEvent)>,
}

/// What a list of datagrams holds.
pub open spec fn datagrams(replies: Seq<(PeerAddr, Vec<u8>)>) -> Seq<(PeerAddr, Seq<u8>)> {
    Seq::new(replies.len(), |i: int| (replies[i].0, replies[i].1@))
}

impl View for Actions {
    type V = ActionsView;

    open spec fn view(&self) -> ActionsView {
        ActionsView {
            replies: datagrams(self.replies@),
            new_target: self.new_target,
            force_idr: self.force_idr,
            client_lost: self.client_lost,
            report: self.report,
            input: self.input,
        }
    }
}

/// Nothing to do.
pub open spec fn no_actions() -> ActionsView {
    ActionsView {
        replies: Seq::empty(),
        new_target: None,
        force_idr: false,
        client_lost: false,
        report: None,
        input: None,
    }
}

/// One datagram to send.
pub open spec fn reply(to: PeerAddr, datagram: Seq<u8>) -> ActionsView {
    ActionsView { replies: seq![(to, datagram)], ..no_actions() }
}

impl Default for Actions {
    fn default() -> (a: Actions)
        ensures
            a@ == no_actions(),
    {
        let a = Actions {
            replies: Vec::new(),
            new_target: None,
            force_idr: false,
            client_lost: false,
            report: None,
            input: None,
        };
        assert(a@ =~= no_actions());
        a
    }
}

/// What the host knows of its client.
#[derive(Debug)]
pub struct ClientInfo {
    pub device_name: String,
    pub screen_px: (u16, u16),
    pub refresh_hz: u8,
    pub decoder_caps: u16,
    pub feature_caps: u16,
    pub connected_at: u64,
}

/// A [`ClientInfo`] with its name as a sequence of characters.
#[verifier::ext_equal]
pub struct ClientInfoView {
    pub device_name: Seq<char>,
    pub screen_px: (u16, u16),
    pub refresh_hz: u8,
    pub decoder_caps: u16,
    pub feature_caps: u16,
    pub connected_at: u64,
}

impl View for ClientInfo {
    type V = ClientInfoView;

    open spec fn view(&self) -> ClientInfoView {
        ClientInfoView {
            device_name: self.device_name@,
            screen_px: self.screen_px,
            refresh_hz: self.refresh_hz,
            decoder_caps: self.decoder_caps,
            feature_caps: self.feature_caps,
            connected_at: self.connected_at,
        }
    }
}

impl Clone for ClientInfo {
    fn clone(&self) -> (copy: ClientInfo)
        ensures
            copy@ == self@,
    {
        ClientInfo {
            device_name: self.device_name.clone(),
            screen_px: self.screen_px,
            refresh_hz: self.refresh_hz,
            decoder_caps: self.decoder_caps,
            feature_caps: self.feature_caps,
            connected_at: self.connected_at,
        }
    }
}

/// Provides the current stream parameters for replies, and the host clock.
pub trait ConfigSource {
    /// The stream parameters that the client is told.
    fn stream_config(&self) -> StreamConfig;

    /// The name that the client is told.
    fn host_name(&self) -> String;

    /// The host clock, in microseconds.
    fn host_now_us(&self) -> u64;
}

// ---- the model -------------------------------------------------------------

/// The session with the connected client.
#[verifier::ext_equal]
pub struct ActiveView {
    pub session_id: u32,
    pub client_nonce: u32,
    pub peer: PeerAddr,
    pub info: ClientInfoView,
    pub liveness_deadline: u64,
    pub last_keyframe_grant: Option<u64>,
    pub last_report: Option<ReceiverReport>,
    pub msg_seq_out: u32,
}

/// The state of the session machine.
#[verifier::ext_equal]
pub struct SessionView {
    pub active: Option<ActiveView>,
    pub next_session_id: u32,
    pub legacy_client_warned: bool,
}

/// The id that follows `id`. Ids are never 0.
pub open spec fn id_after(id: u32) -> u32 {
    let next = ((id + SESSION_ID_STEP) % 0x1_0000_0000) as u32;
    if next == 0 {
        1
    } else {
        next
    }
}

/// What every session machine satisfies: ids are nonzero, and the next id is
/// another one than that of the session in place.
pub open spec fn session_ok(s: SessionView) -> bool {
    &&& s.next_session_id != 0
    &&& s.active matches Some(a) ==> a.session_id != 0 && s.next_session_id == id_after(
        a.session_id,
    )
}

/// A machine that has had no client. Session ids start at the seed.
pub open spec fn without_client(session_id_seed: u32) -> SessionView {
    SessionView {
        active: None,
        next_session_id: if session_id_seed == 0 {
            1
        } else {
            session_id_seed
        },
        legacy_client_warned: false,
    }
}

/// The sequence number that follows `seq`. Sequence numbers are never 0.
pub open spec fn seq_after(seq: u32) -> u32 {
    if seq == u32::MAX {
        1
    } else {
        (seq + 1) as u32
    }
}

/// The sequence number of the next outgoing message.
pub open spec fn outgoing_seq(s: SessionView) -> u32 {
    match s.active {
        Some(a) => seq_after(a.msg_seq_out),
        None => 1,
    }
}

/// The state once a message has gone out.
pub open spec fn sent_one(s: SessionView) -> SessionView {
    match s.active {
        Some(a) => SessionView {
            active: Some(ActiveView { msg_seq_out: seq_after(a.msg_seq_out), ..a }),
            ..s
        },
        None => s,
    }
}

/// What the host offers a client.
#[verifier::ext_equal]
pub struct Offer {
    pub stream_config: StreamConfig,
    pub host_name: Seq<char>,
}

/// The HELLO_ACK for a request.
pub open spec fn ack(status: HelloStatus, nonce: u32, session_id: u32, offer: Offer) -> HelloAckView {
    HelloAckView {
        status,
        accepted_version: 2,
        client_nonce: nonce,
        session_id,
        heartbeat_interval_ms: 1000,
        report_interval_ms: REPORT_INTERVAL_MS,
        liveness_timeout_ms: 3000,
        stream_config: offer.stream_config,
        host_name: offer.host_name,
    }
}

/// The datagram of a HELLO_ACK.
pub open spec fn ack_datagram(
    s: SessionView,
    status: HelloStatus,
    nonce: u32,
    session_id: u32,
    offer: Offer,
) -> Seq<u8> {
    control::control_datagram(
        session_id,
        outgoing_seq(s),
        ControlMessageView::HelloAck(ack(status, nonce, session_id, offer)),
    )
}

/// Whether a message from `source` belongs to the session: the same device has
/// the same IP address, whatever its port.
pub open spec fn is_peer(s: SessionView, source: PeerAddr) -> bool {
    s.active matches Some(a) && a.peer.ip == source.ip
}

/// Where media goes: the port that the client asked for at its address, or the
/// port it sent from.
pub open spec fn media_target(source: PeerAddr, listen_port: u16) -> PeerAddr {
    PeerAddr {
        ip: source.ip,
        port: if listen_port != 0 {
            listen_port
        } else {
            source.port
        },
    }
}

/// The session that a request opens.
pub open spec fn opened(s: SessionView, source: PeerAddr, h: Hello2View, now: u64) -> SessionView {
    SessionView {
        active: Some(
            ActiveView {
                session_id: s.next_session_id,
                client_nonce: h.client_nonce,
                peer: source,
                info: ClientInfoView {
                    device_name: h.device_name,
                    screen_px: (h.screen_px_w, h.screen_px_h),
                    refresh_hz: h.refresh_hz,
                    decoder_caps: h.decoder_caps,
                    feature_caps: h.feature_caps,
                    connected_at: now,
                },
                liveness_deadline: (now + LIVENESS_TIMEOUT) as u64,
                last_keyframe_grant: None,
                last_report: None,
                msg_seq_out: 0,
            },
        ),
        next_session_id: id_after(s.next_session_id),
        ..s
    }
}

/// A session request. A version that the host does not speak is refused; so is
/// a second device while one is streaming. A retransmit gets the same answer
/// again; a new attempt of the same device supersedes its session in place.
pub open spec fn hello_step(
    s: SessionView,
    source: PeerAddr,
    h: Hello2View,
    offer: Offer,
    now: u64,
) -> (SessionView, ActionsView) {
    if h.proto_min > 2 || h.proto_max < 2 {
        (
            sent_one(s),
            reply(
                source,
                ack_datagram(s, HelloStatus::VersionUnsupported, h.client_nonce, 0, offer),
            ),
        )
    } else if s.active is Some && !is_peer(s, source) {
        (
            sent_one(s),
            reply(source, ack_datagram(s, HelloStatus::Busy, h.client_nonce, 0, offer)),
        )
    } else if s.active is Some && s.active->0.client_nonce == h.client_nonce {
        (
            sent_one(s),
            reply(
                source,
                ack_datagram(
                    s,
                    HelloStatus::Accepted,
                    h.client_nonce,
                    s.active->0.session_id,
                    offer,
                ),
            ),
        )
    } else {
        let t = opened(s, source, h, now);
        (
            sent_one(t),
            ActionsView {
                new_target: Some(media_target(source, h.listen_port)),
                force_idr: true,
                ..reply(
                    source,
                    ack_datagram(
                        t,
                        HelloStatus::Accepted,
                        h.client_nonce,
                        s.next_session_id,
                        offer,
                    ),
                )
            },
        )
    }
}

/// The state once the client has given a sign of life.
pub open spec fn alive(s: SessionView, now: u64) -> SessionView {
    match s.active {
        Some(a) => SessionView {
            active: Some(
                ActiveView { liveness_deadline: (now + LIVENESS_TIMEOUT) as u64, ..a },
            ),
            ..s
        },
        None => s,
    }
}

/// A goodbye.
pub open spec fn bye_step(s: SessionView, source: PeerAddr) -> (SessionView, ActionsView) {
    if is_peer(s, source) {
        (
            SessionView { active: None, ..s },
            ActionsView { client_lost: true, ..no_actions() },
        )
    } else {
        (s, no_actions())
    }
}

/// Whether a keyframe request is honored: the last one was not within the
/// window.
pub open spec fn grants_keyframe(a: ActiveView, now: u64) -> bool {
    match a.last_keyframe_grant {
        Some(last) => now >= last + KEYFRAME_REQUEST_MIN_INTERVAL,
        None => true,
    }
}

/// A keyframe request.
pub open spec fn keyframe_step(s: SessionView, source: PeerAddr, now: u64) -> (
    SessionView,
    ActionsView,
) {
    if !is_peer(s, source) {
        (s, no_actions())
    } else if grants_keyframe(s.active->0, now) {
        let a = alive(s, now).active->0;
        (
            SessionView { active: Some(ActiveView { last_keyframe_grant: Some(now), ..a }), ..s },
            ActionsView { force_idr: true, ..no_actions() },
        )
    } else {
        (alive(s, now), no_actions())
    }
}

/// A receiver report.
pub open spec fn report_step(
    s: SessionView,
    source: PeerAddr,
    report: ReceiverReport,
    now: u64,
) -> (SessionView, ActionsView) {
    if !is_peer(s, source) {
        (s, no_actions())
    } else {
        let a = alive(s, now).active->0;
        (
            SessionView { active: Some(ActiveView { last_report: Some(report), ..a }), ..s },
            ActionsView { report: Some(report), ..no_actions() },
        )
    }
}

/// A clock probe: it is echoed with the host's receive and send times.
pub open spec fn ping_step(
    s: SessionView,
    source: PeerAddr,
    t1_us: u64,
    t2_us: u64,
    t3_us: u64,
    now: u64,
) -> (SessionView, ActionsView) {
    if !is_peer(s, source) {
        (s, no_actions())
    } else {
        (
            sent_one(alive(s, now)),
            reply(
                source,
                control::control_datagram(
                    s.active->0.session_id,
                    outgoing_seq(s),
                    ControlMessageView::Pong(Pong { t1_us, t2_us, t3_us }),
                ),
            ),
        )
    }
}

/// An input event: relayed only for a client that asked for input relay.
pub open spec fn input_step(
    s: SessionView,
    source: PeerAddr,
    event: InputEvent,
    now: u64,
) -> (SessionView, ActionsView) {
    if is_peer(s, source) && s.active->0.info.feature_caps & FEATURE_WANTS_INPUT != 0 {
        (
            alive(s, now),
            ActionsView { input: Some((s.active->0.session_id, event)), ..no_actions() },
        )
    } else {
        (s, no_actions())
    }
}

/// What the host reads while it handles a message.
#[verifier::ext_equal]
pub struct Readings {
    pub offer: Offer,
    pub t2_us: u64,
    pub t3_us: u64,
}

/// Whether readings are what a source gives: the parameters, the name, and the
/// clock at receipt and at reply.
pub open spec fn read_from<C: ConfigSource>(config: &C, r: Readings) -> bool {
    &&& call_ensures(C::stream_config, (config,), r.offer.stream_config)
    &&& exists|name: String| #[trigger]
        call_ensures(C::host_name, (config,), name) && name@ == r.offer.host_name
    &&& call_ensures(C::host_now_us, (config,), r.t2_us)
    &&& call_ensures(C::host_now_us, (config,), r.t3_us)
}

/// One inbound control message. Messages that only a host sends are ignored.
pub open spec fn control_step(
    s: SessionView,
    source: PeerAddr,
    message: ControlMessageView,
    r: Readings,
    now: u64,
) -> (SessionView, ActionsView) {
    match message {
        ControlMessageView::Hello2(h) => hello_step(s, source, h, r.offer, now),
        ControlMessageView::Bye(_) => bye_step(s, source),
        ControlMessageView::KeyframeRequest(_) => keyframe_step(s, source, now),
        ControlMessageView::ReceiverReport(report) => report_step(s, source, report, now),
        ControlMessageView::Ping(p) => ping_step(s, source, p.t1_us, r.t2_us, r.t3_us, now),
        ControlMessageView::InputEvent(e) => input_step(s, source, e, now),
        _ => (s, no_actions()),
    }
}

/// One periodic tick: a client that has been silent past its deadline is gone;
/// otherwise it gets a heartbeat where one is due.
pub open spec fn tick_step(
    s: SessionView,
    stream_config: StreamConfig,
    host_time_us: u64,
    send_heartbeat: bool,
    now: u64,
) -> (SessionView, ActionsView) {
    match s.active {
        None => (s, no_actions()),
        Some(a) => if now >= a.liveness_deadline {
            (
                SessionView { active: None, ..s },
                ActionsView { client_lost: true, ..no_actions() },
            )
        } else if send_heartbeat {
            (
                sent_one(s),
                reply(
                    a.peer,
                    control::control_datagram(
                        a.session_id,
                        outgoing_seq(s),
                        ControlMessageView::Heartbeat(Heartbeat { host_time_us, stream_config }),
                    ),
                ),
            )
        } else {
            (s, no_actions())
        },
    }
}

/// The host takes leave of its client: the client is told why, and the session
/// is over.
pub open spec fn close_step(s: SessionView, reason: ByeReason) -> (SessionView, ActionsView) {
    match s.active {
        None => (s, no_actions()),
        Some(a) => (
            SessionView { active: None, ..s },
            ActionsView {
                client_lost: true,
                ..reply(
                    a.peer,
                    control::control_datagram(
                        a.session_id,
                        outgoing_seq(s),
                        ControlMessageView::Bye(reason),
                    ),
                )
            },
        ),
    }
}

// ---- the session -----------------------------------------------------------

struct ActiveSession {
    session_id: u32,
    client_nonce: u32,
    peer: PeerAddr,
    info: ClientInfo,
    liveness_deadline: u64,
    last_keyframe_grant: Option<u64>,
    last_report: Option<ReceiverReport>,
    msg_seq_out: u32,
}

impl ActiveSession {
    spec fn model(self) -> ActiveView {
        ActiveView {
            session_id: self.session_id,
            client_nonce: self.client_nonce,
            peer: self.peer,
            info: self.info@,
            liveness_deadline: self.liveness_deadline,
            last_keyframe_grant: self.last_keyframe_grant,
            last_report: self.last_report,
            msg_seq_out: self.msg_seq_out,
        }
    }
}

/// The session machine of a host: at most one client at a time.
pub struct Session {
    active: Option<ActiveSession>,
    next_session_id: u32,
    legacy_client_warned: bool,
}

impl View for Session {
    type V = SessionView;

    closed spec fn view(&self) -> SessionView {
        SessionView {
            active: match self.active {
                Some(a) => Some(a.model()),
                None => None,
            },
            next_session_id: self.next_session_id,
            legacy_client_warned: self.legacy_client_warned,
        }
    }
}

/// What the host offers a client, as read for one reply.
pub struct HostOffer {
    pub stream_config: StreamConfig,
    pub host_name: String,
}

impl View for HostOffer {
    type V = Offer;

    open spec fn view(&self) -> Offer {
        Offer { stream_config: self.stream_config, host_name: self.host_name@ }
    }
}

impl Session {
    /// What every session machine satisfies.
    pub open spec fn ok(&self) -> bool {
        session_ok(self@)
    }

    /// A machine without a client. Session ids start at the seed.
    pub fn new(session_id_seed: u32) -> (s: Session)
        ensures
            s.ok(),
            s@ == without_client(session_id_seed),
    {
        Session {
            active: None,
            next_session_id: if session_id_seed == 0 {
                1
            } else {
                session_id_seed
            },
            legacy_client_warned: false,
        }
    }

    /// Whether a client is connected.
    pub fn is_active(&self) -> (b: bool)
        ensures
            b == self@.active is Some,
    {
        self.active.is_some()
    }

    /// The id of the session.
    pub fn session_id(&self) -> (id: Option<u32>)
        ensures
            id == (match self@.active {
                Some(a) => Some(a.session_id),
                None => None,
            }),
    {
        match &self.active {
            Some(a) => Some(a.session_id),
            None => None,
        }
    }

    /// The address of the client.
    pub fn peer(&self) -> (p: Option<PeerAddr>)
        ensures
            p == (match self@.active {
                Some(a) => Some(a.peer),
                None => None,
            }),
    {
        match &self.active {
            Some(a) => Some(a.peer),
            None => None,
        }
    }

    /// What is known of the client.
    pub fn client_info(&self) -> (info: Option<ClientInfo>)
        ensures
            match self@.active {
                Some(a) => info matches Some(i) && i@ == a.info,
                None => info is None,
            },
    {
        match &self.active {
            Some(a) => Some(a.info.clone()),
            None => None,
        }
    }

    /// Whether the connected client can decode HEVC. False without a client.
    pub fn client_supports_hevc(&self) -> (b: bool)
        ensures
            b == (self@.active matches Some(a) && a.info.decoder_caps & CAP_DECODE_HEVC != 0),
    {
        match &self.active {
            Some(a) => a.info.decoder_caps & CAP_DECODE_HEVC != 0,
            None => false,
        }
    }

    /// The last report of the client.
    pub fn last_report(&self) -> (r: Option<ReceiverReport>)
        ensures
            r == (match self@.active {
                Some(a) => a.last_report,
                None => None,
            }),
    {
        match &self.active {
            Some(a) => a.last_report,
            None => None,
        }
    }

    fn allocate_session_id(&mut self) -> (id: u32)
        ensures
            id == old(self)@.next_session_id,
            final(self)@ == (SessionView {
                next_session_id: id_after(old(self)@.next_session_id),
                ..old(self)@
            }),
    {
        let id: u32 = self.next_session_id;
        let next: u32 = ((id as u64 + SESSION_ID_STEP as u64) % 0x1_0000_0000) as u32;
        self.next_session_id = if next == 0 {
            1
        } else {
            next
        };
        id
    }

    fn next_msg_seq(&mut self) -> (seq: u32)
        ensures
            seq == outgoing_seq(old(self)@),
            final(self)@ == sent_one(old(self)@),
    {
        match &mut self.active {
            Some(session) => {
                session.msg_seq_out = if session.msg_seq_out == u32::MAX {
                    1
                } else {
                    session.msg_seq_out + 1
                };
                session.msg_seq_out
            },
            None => 1,
        }
    }

    fn matches_peer(&self, source: PeerAddr) -> (b: bool)
        ensures
            b == is_peer(self@, source),
    {
        match &self.active {
            Some(a) => a.peer.ip == source.ip,
            None => false,
        }
    }

    fn mark_alive(&mut self, now: u64)
        requires
            now + LIVENESS_TIMEOUT <= u64::MAX,
        ensures
            final(self)@ == alive(old(self)@, now),
    {
        match &mut self.active {
            Some(session) => {
                session.liveness_deadline = now + LIVENESS_TIMEOUT;
            },
            None => {},
        }
    }

    fn make_ack(
        &mut self,
        status: HelloStatus,
        client_nonce: u32,
        session_id: u32,
        offer: &HostOffer,
    ) -> (datagram: Vec<u8>)
        ensures
            datagram@ == ack_datagram(old(self)@, status, client_nonce, session_id, offer@),
            final(self)@ == sent_one(old(self)@),
    {
        let msg_seq: u32 = self.next_msg_seq();
        let message = ControlMessage::HelloAck(
            HelloAck {
                status,
                accepted_version: 2,
                client_nonce,
                session_id,
                heartbeat_interval_ms: (HEARTBEAT_INTERVAL / 1_000_000) as u16,
                report_interval_ms: REPORT_INTERVAL_MS,
                liveness_timeout_ms: (LIVENESS_TIMEOUT / 1_000_000) as u16,
                stream_config: offer.stream_config,
                host_name: offer.host_name.clone(),
            },
        );
        encode_control(session_id, msg_seq, &message)
    }

    /// Handles a session request, given what the host offers.
    pub fn handle_hello(
        &mut self,
        source: PeerAddr,
        hello: Hello2,
        offer: &HostOffer,
        now: u64,
    ) -> (actions: Actions)
        requires
            old(self).ok(),
            now + LIVENESS_TIMEOUT <= u64::MAX,
        ensures
            final(self).ok(),
            (final(self)@, actions@) == hello_step(old(self)@, source, hello@, offer@, now),
    {
        if hello.proto_min > 2 || hello.proto_max < 2 {
            let ack = self.make_ack(
                HelloStatus::VersionUnsupported,
                hello.client_nonce,
                0,
                offer,
            );
            return single_reply(source, ack);
        }
        if self.is_active() {
            if !self.matches_peer(source) {
                let ack = self.make_ack(HelloStatus::Busy, hello.client_nonce, 0, offer);
                return single_reply(source, ack);
            }
            let (session_id, nonce) = match &self.active {
                Some(a) => (a.session_id, a.client_nonce),
                None => (0u32, 0u32),
            };
            if nonce == hello.client_nonce {
                let ack = self.make_ack(HelloStatus::Accepted, nonce, session_id, offer);
                return single_reply(source, ack);
            }
        }
        let ghost before = self@;
        let session_id: u32 = self.allocate_session_id();
        self.active = Some(
            ActiveSession {
                session_id,
                client_nonce: hello.client_nonce,
                peer: source,
                info: ClientInfo {
                    device_name: hello.device_name,
                    screen_px: (hello.screen_px_w, hello.screen_px_h),
                    refresh_hz: hello.refresh_hz,
                    decoder_caps: hello.decoder_caps,
                    feature_caps: hello.feature_caps,
                    connected_at: now,
                },
                liveness_deadline: now + LIVENESS_TIMEOUT,
                last_keyframe_grant: None,
                last_report: None,
                msg_seq_out: 0,
            },
        );
        assert(self@ =~= opened(before, source, hello@, now));
        let ack = self.make_ack(HelloStatus::Accepted, hello.client_nonce, session_id, offer);
        let mut actions = single_reply(source, ack);
        actions.new_target = Some(
            PeerAddr {
                ip: source.ip,
                port: if hello.listen_port != 0 {
                    hello.listen_port
                } else {
                    source.port
                },
            },
        );
        actions.force_idr = true;
        actions
    }

    fn handle_bye(&mut self, source: PeerAddr) -> (actions: Actions)
        requires
            old(self).ok(),
        ensures
            final(self).ok(),
            (final(self)@, actions@) == bye_step(old(self)@, source),
    {
        let mut actions = Actions::default();
        if self.matches_peer(source) {
            self.active = None;
            actions.client_lost = true;
        }
        actions
    }

    fn handle_keyframe(&mut self, source: PeerAddr, now: u64) -> (actions: Actions)
        requires
            old(self).ok(),
            now + LIVENESS_TIMEOUT <= u64::MAX,
        ensures
            final(self).ok(),
            (final(self)@, actions@) == keyframe_step(old(self)@, source, now),
    {
        let mut actions = Actions::default();
        if !self.matches_peer(source) {
            return actions;
        }
        self.mark_alive(now);
        match &mut self.active {
            Some(session) => {
                let granted = match session.last_keyframe_grant {
                    Some(last) => now >= last && now - last >= KEYFRAME_REQUEST_MIN_INTERVAL,
                    None => true,
                };
                if granted {
                    session.last_keyframe_grant = Some(now);
                    actions.force_idr = true;
                }
            },
            None => {},
        }
        actions
    }

    fn handle_report(&mut self, source: PeerAddr, report: ReceiverReport, now: u64) -> (actions:
        Actions)
        requires
            old(self).ok(),
            now + LIVENESS_TIMEOUT <= u64::MAX,
        ensures
            final(self).ok(),
            (final(self)@, actions@) == report_step(old(self)@, source, report, now),
    {
        let mut actions = Actions::default();
        if self.matches_peer(source) {
            self.mark_alive(now);
            match &mut self.active {
                Some(session) => {
                    session.last_report = Some(report);
                },
                None => {},
            }
            actions.report = Some(report);
        }
        actions
    }

    /// Handles a clock probe, given the host clock at receipt and at reply.
    pub fn handle_ping(
        &mut self,
        source: PeerAddr,
        ping: Ping,
        t2_us: u64,
        t3_us: u64,
        now: u64,
    ) -> (actions: Actions)
        requires
            old(self).ok(),
            now + LIVENESS_TIMEOUT <= u64::MAX,
        ensures
            final(self).ok(),
            (final(self)@, actions@) == ping_step(
                old(self)@,
                source,
                ping.t1_us,
                t2_us,
                t3_us,
                now,
            ),
    {
        if !self.matches_peer(source) {
            return Actions::default();
        }
        self.mark_alive(now);
        let session_id: u32 = match &self.active {
            Some(a) => a.session_id,
            None => 0,
        };
        let msg_seq: u32 = self.next_msg_seq();
        let pong = ControlMessage::Pong(Pong { t1_us: ping.t1_us, t2_us, t3_us });
        single_reply(source, encode_control(session_id, msg_seq, &pong))
    }

    fn handle_input(&mut self, source: PeerAddr, event: InputEvent, now: u64) -> (actions: Actions)
        requires
            old(self).ok(),
            now + LIVENESS_TIMEOUT <= u64::MAX,
        ensures
            final(self).ok(),
            (final(self)@, actions@) == input_step(old(self)@, source, event, now),
    {
        let mut actions = Actions::default();
        if !self.matches_peer(source) {
            return actions;
        }
        let (session_id, wants_input) = match &self.active {
            Some(a) => (a.session_id, a.info.feature_caps & FEATURE_WANTS_INPUT != 0),
            None => (0u32, false),
        };
        if wants_input {
            self.mark_alive(now);
            actions.input = Some((session_id, event));
        }
        actions
    }

    /// One inbound control message, given what the host offers and when a
    /// probe was received and is answered on its clock.
    pub fn handle_with(
        &mut self,
        source: PeerAddr,
        message: ControlMessage,
        offer: &HostOffer,
        t2_us: u64,
        t3_us: u64,
        now: u64,
    ) -> (actions: Actions)
        requires
            old(self).ok(),
            now + LIVENESS_TIMEOUT <= u64::MAX,
        ensures
            final(self).ok(),
            (final(self)@, actions@) == control_step(
                old(self)@,
                source,
                message@,
                (Readings { offer: offer@, t2_us, t3_us }),
                now,
            ),
    {
        match message {
            ControlMessage::Hello2(hello) => self.handle_hello(source, hello, offer, now),
            ControlMessage::Bye(_reason) => self.handle_bye(source),
            ControlMessage::KeyframeRequest(_request) => self.handle_keyframe(source, now),
            ControlMessage::ReceiverReport(report) => self.handle_report(source, report, now),
            ControlMessage::Ping(ping) => self.handle_ping(source, ping, t2_us, t3_us, now),
            ControlMessage::InputEvent(event) => self.handle_input(source, event, now),
            _ => Actions::default(),
        }
    }

    /// Feeds one inbound control message.
    pub fn handle_control<C: ConfigSource>(
        &mut self,
        source: PeerAddr,
        message: ControlMessage,
        config: &C,
        now: u64,
    ) -> (actions: Actions)
        requires
            old(self).ok(),
            now + LIVENESS_TIMEOUT <= u64::MAX,
        ensures
            final(self).ok(),
            exists|r: Readings| #[trigger]
                control_step(old(self)@, source, message@, r, now) == (final(self)@, actions@)
                    && read_from(config, r),
    {
        let stream_config = config.stream_config();
        let host_name = config.host_name();
        let ghost name = host_name;
        let offer = HostOffer { stream_config, host_name };
        let t2_us: u64 = config.host_now_us();
        let t3_us: u64 = config.host_now_us();
        let ghost r = Readings { offer: offer@, t2_us, t3_us };
        assert(call_ensures(C::host_name, (config,), name) && name@ == r.offer.host_name);
        assert(read_from(config, r));
        self.handle_with(source, message, &offer, t2_us, t3_us, now)
    }

    /// One tick, given the stream parameters and the host clock.
    pub fn tick_with(
        &mut self,
        stream_config: StreamConfig,
        host_time_us: u64,
        send_heartbeat: bool,
        now: u64,
    ) -> (actions: Actions)
        requires
            old(self).ok(),
        ensures
            final(self).ok(),
            (final(self)@, actions@) == tick_step(
                old(self)@,
                stream_config,
                host_time_us,
                send_heartbeat,
                now,
            ),
    {
        let mut actions = Actions::default();
        let (peer, session_id, deadline) = match &self.active {
            Some(a) => (a.peer, a.session_id, a.liveness_deadline),
            None => return actions,
        };
        if now >= deadline {
            self.active = None;
            actions.client_lost = true;
            return actions;
        }
        if send_heartbeat {
            let msg_seq: u32 = self.next_msg_seq();
            let heartbeat = ControlMessage::Heartbeat(Heartbeat { host_time_us, stream_config });
            return single_reply(peer, encode_control(session_id, msg_seq, &heartbeat));
        }
        actions
    }

    /// Periodic tick: expires the session when the client has been silent past
    /// the liveness window, and sends the heartbeat where one is due.
    pub fn tick<C: ConfigSource>(&mut self, config: &C, send_heartbeat: bool, now: u64) -> (actions:
        Actions)
        requires
            old(self).ok(),
        ensures
            final(self).ok(),
            exists|c: StreamConfig, t: u64| #[trigger]
                tick_step(old(self)@, c, t, send_heartbeat, now) == (final(self)@, actions@)
                    && call_ensures(C::stream_config, (config,), c) && call_ensures(
                    C::host_now_us,
                    (config,),
                    t,
                ),
    {
        let stream_config = config.stream_config();
        let host_time_us: u64 = config.host_now_us();
        self.tick_with(stream_config, host_time_us, send_heartbeat, now)
    }

    /// One STREAM_CONFIG notice for the active client, given the parameters.
    /// The heartbeat repeats them, should it be lost.
    pub fn notify_config(&mut self, stream_config: StreamConfig) -> (replies: Vec<
        (PeerAddr, Vec<u8>),
    >)
        requires
            old(self).ok(),
        ensures
            final(self).ok(),
            final(self)@ == sent_one(old(self)@),
            datagrams(replies@) == (match old(self)@.active {
                None => Seq::empty(),
                Some(a) => seq![
                    (
                        a.peer,
                        control::control_datagram(
                            a.session_id,
                            outgoing_seq(old(self)@),
                            ControlMessageView::StreamConfig(stream_config),
                        ),
                    ),
                ],
            }),
    {
        let (peer, session_id) = match &self.active {
            Some(a) => (a.peer, a.session_id),
            None => {
                let none: Vec<(PeerAddr, Vec<u8>)> = Vec::new();
                assert(datagrams(none@) =~= Seq::empty());
                return none;
            },
        };
        let msg_seq: u32 = self.next_msg_seq();
        let message = ControlMessage::StreamConfig(stream_config);
        single_reply(peer, encode_control(session_id, msg_seq, &message)).replies
    }

    /// One STREAM_CONFIG notice for the active client (bitrate, frame rate or
    /// resolution changed).
    pub fn stream_config_notify<C: ConfigSource>(&mut self, config: &C) -> (replies: Vec<
        (PeerAddr, Vec<u8>),
    >)
        requires
            old(self).ok(),
        ensures
            final(self).ok(),
            final(self)@ == sent_one(old(self)@),
            match old(self)@.active {
                None => replies@.len() == 0,
                Some(a) => replies@.len() == 1 && replies@[0].0 == a.peer && exists|
                    c: StreamConfig,
                |
                    replies@[0].1@ == #[trigger] control::control_datagram(
                        a.session_id,
                        outgoing_seq(old(self)@),
                        ControlMessageView::StreamConfig(c),
                    ) && call_ensures(C::stream_config, (config,), c),
            },
    {
        let stream_config = config.stream_config();
        let replies = self.notify_config(stream_config);
        assert(datagrams(replies@).len() == replies@.len());
        assert(replies@.len() == 1 ==> datagrams(replies@)[0] == (replies@[0].0, replies@[0].1@));
        replies
    }

    /// Takes leave of the client, if there is one.
    pub fn close(&mut self, reason: ByeReason) -> (actions: Actions)
        requires
            old(self).ok(),
        ensures
            final(self).ok(),
            (final(self)@, actions@) == close_step(old(self)@, reason),
    {
        let (peer, session_id) = match &self.active {
            Some(a) => (a.peer, a.session_id),
            None => return Actions::default(),
        };
        let msg_seq: u32 = self.next_msg_seq();
        let message = ControlMessage::Bye(reason);
        let mut actions = single_reply(peer, encode_control(session_id, msg_seq, &message));
        actions.client_lost = true;
        self.active = None;
        actions
    }

    /// A version 1 hello arrived. There is no reply that the old client could
    /// parse; the user is told, once. Returns whether this is that time.
    pub fn note_legacy_hello(&mut self) -> (first: bool)
        ensures
            first == !old(self)@.legacy_client_warned,
            final(self)@ == (SessionView { legacy_client_warned: true, ..old(self)@ }),
    {
        let first = !self.legacy_client_warned;
        self.legacy_client_warned = true;
        first
    }
}

fn single_reply(to: PeerAddr, datagram: Vec<u8>) -> (actions: Actions)
    ensures
        actions@ == reply(to, datagram@),
{
    let mut actions = Actions::default();
    actions.replies.push((to, datagram));
    assert(actions@ =~= reply(to, datagram@));
    actions
}

// ---- laws ------------------------------------------------------------------

/// A new session never has the id of the one before it, and no id is 0.
pub proof fn session_ids_are_fresh(id: u32)
    ensures
        id_after(id) != id,
        id_after(id) != 0,
{
}

/// Every message, from whoever, leaves a sound machine.
pub proof fn messages_keep_the_invariant(
    s: SessionView,
    source: PeerAddr,
    message: ControlMessageView,
    r: Readings,
    now: u64,
)
    requires
        session_ok(s),
    ensures
        session_ok(control_step(s, source, message, r, now).0),
{
}

/// A retransmitted request is answered with the same acknowledgement, under
/// the same session id, and does nothing else: the session is untouched but
/// for its message counter, media is not re-targeted and no keyframe is forced.
pub proof fn retransmits_are_idempotent(
    s: SessionView,
    source: PeerAddr,
    again: PeerAddr,
    h: Hello2View,
    offer: Offer,
    now: u64,
    later: u64,
)
    requires
        session_ok(s),
        h.proto_min <= 2 <= h.proto_max,
        s.active is None || (is_peer(s, source) && s.active->0.client_nonce != h.client_nonce),
        again.ip == source.ip,
    ensures
        ({
            let (first, a) = hello_step(s, source, h, offer, now);
            let (second, b) = hello_step(first, again, h, offer, later);
            let id = s.next_session_id;
            &&& second == sent_one(first)
            &&& b == reply(
                again,
                control::control_datagram(
                    id,
                    2,
                    ControlMessageView::HelloAck(
                        ack(HelloStatus::Accepted, h.client_nonce, id, offer),
                    ),
                ),
            )
            &&& a.replies == seq![
                (
                    source,
                    control::control_datagram(
                        id,
                        1,
                        ControlMessageView::HelloAck(
                            ack(HelloStatus::Accepted, h.client_nonce, id, offer),
                        ),
                    ),
                ),
            ]
        }),
{
    let (first, a) = hello_step(s, source, h, offer, now);
    assert(first.active->0.msg_seq_out == 1);
}

/// The same device with a new nonce supersedes its session in place: fresh id,
/// media re-targeted to it, keyframe forced.
pub proof fn new_attempts_supersede(
    s: SessionView,
    source: PeerAddr,
    h: Hello2View,
    offer: Offer,
    now: u64,
)
    requires
        session_ok(s),
        h.proto_min <= 2 <= h.proto_max,
        is_peer(s, source),
        s.active->0.client_nonce != h.client_nonce,
    ensures
        ({
            let (t, a) = hello_step(s, source, h, offer, now);
            &&& t.active->0.session_id != s.active->0.session_id
            &&& t.active->0.peer == source
            &&& a.new_target == Some(media_target(source, h.listen_port))
            &&& a.force_idr
        }),
{
    session_ids_are_fresh(s.active->0.session_id);
}

/// While a client streams, whatever another device sends leaves the session in
/// place untouched but for its message counter; all that the other device ever
/// gets is a refusal.
pub proof fn other_devices_change_nothing(
    s: SessionView,
    source: PeerAddr,
    message: ControlMessageView,
    r: Readings,
    now: u64,
)
    requires
        session_ok(s),
        s.active is Some,
        !is_peer(s, source),
    ensures
        ({
            let (t, a) = control_step(s, source, message, r, now);
            &&& t == s || t == sent_one(s)
            &&& a.new_target is None && !a.force_idr && !a.client_lost
            &&& a.report is None && a.input is None
            &&& message !is Hello2 ==> a == no_actions()
            &&& message matches ControlMessageView::Hello2(h) ==> a.replies.len() == 1
                && a.replies[0].0 == source && exists|status: HelloStatus| #[trigger]
                    ack_datagram(s, status, h.client_nonce, 0, r.offer) == a.replies[0].1 && status
                        != HelloStatus::Accepted
        }),
{
    match message {
        ControlMessageView::Hello2(h) => {
            let (t, a) = control_step(s, source, message, r, now);
            if h.proto_min > 2 || h.proto_max < 2 {
                assert(ack_datagram(
                    s,
                    HelloStatus::VersionUnsupported,
                    h.client_nonce,
                    0,
                    r.offer,
                ) == a.replies[0].1);
            } else {
                assert(ack_datagram(s, HelloStatus::Busy, h.client_nonce, 0, r.offer)
                    == a.replies[0].1);
            }
        },
        _ => {},
    }
}

/// Input is relayed only from the connected client's address, only into its
/// own session, and only if it asked for input relay when it connected.
pub proof fn view_only_sessions_never_inject(
    s: SessionView,
    source: PeerAddr,
    message: ControlMessageView,
    r: Readings,
    now: u64,
)
    ensures
        control_step(s, source, message, r, now).1.input matches Some((id, e)) ==> {
            &&& is_peer(s, source)
            &&& s.active->0.info.feature_caps & FEATURE_WANTS_INPUT != 0
            &&& id == s.active->0.session_id
            &&& message == ControlMessageView::InputEvent(e)
        },
{
}

/// Between two keyframes that clients' requests force within one session lies
/// at least the minimum interval.
pub proof fn keyframe_grants_are_spaced(
    s: SessionView,
    source: PeerAddr,
    now: u64,
    later: u64,
)
    requires
        keyframe_step(s, source, now).1.force_idr,
        later < now + KEYFRAME_REQUEST_MIN_INTERVAL,
    ensures
        !keyframe_step(keyframe_step(s, source, now).0, source, later).1.force_idr,
{
}

/// Whether a message of the client is a sign of life: a report, a keyframe
/// request, a clock probe, or input that it asked to have relayed.
pub open spec fn is_sign_of_life(s: SessionView, message: ControlMessageView) -> bool {
    match message {
        ControlMessageView::ReceiverReport(_) => true,
        ControlMessageView::KeyframeRequest(_) => true,
        ControlMessageView::Ping(_) => true,
        ControlMessageView::InputEvent(_) => s.active->0.info.feature_caps & FEATURE_WANTS_INPUT
            != 0,
        _ => false,
    }
}

/// A sign of life keeps the session for exactly the liveness window: every
/// tick before its end leaves it, and the first one at or after its end ends
/// it.
pub proof fn liveness_window_is_exact(
    s: SessionView,
    source: PeerAddr,
    message: ControlMessageView,
    r: Readings,
    now: u64,
    c: StreamConfig,
    t: u64,
    heartbeat: bool,
    later: u64,
)
    requires
        is_peer(s, source),
        is_sign_of_life(s, message),
        now + LIVENESS_TIMEOUT <= u64::MAX,
    ensures
        ({
            let heard = control_step(s, source, message, r, now).0;
            let (after, a) = tick_step(heard, c, t, heartbeat, later);
            &&& a.client_lost <==> later >= now + LIVENESS_TIMEOUT
            &&& after.active is None <==> later >= now + LIVENESS_TIMEOUT
        }),
{
}

/// What can happen to a session machine.
pub enum Event {
    Message { source: PeerAddr, message: ControlMessageView, readings: Readings, now: u64 },
    LegacyHello,
    Tick { stream_config: StreamConfig, host_time_us: u64, send_heartbeat: bool, now: u64 },
    Notice,
    Close(ByeReason),
}

/// What an event leaves.
pub open spec fn event_step(s: SessionView, event: Event) -> SessionView {
    match event {
        Event::Message { source, message, readings, now } => control_step(
            s,
            source,
            message,
            readings,
            now,
        ).0,
        Event::LegacyHello => SessionView { legacy_client_warned: true, ..s },
        Event::Tick { stream_config, host_time_us, send_heartbeat, now } => tick_step(
            s,
            stream_config,
            host_time_us,
            send_heartbeat,
            now,
        ).0,
        Event::Notice => sent_one(s),
        Event::Close(reason) => close_step(s, reason).0,
    }
}

/// A session machine after some events.
pub open spec fn session_after(session_id_seed: u32, events: Seq<Event>) -> SessionView
    decreases events.len(),
{
    if events.len() == 0 {
        without_client(session_id_seed)
    } else {
        event_step(session_after(session_id_seed, events.drop_last()), events.last())
    }
}

/// Whether a message shows that the client is there: it sets up the session, or
/// it is a sign of life of the client in place. What is refused, ignored or
/// only answered again shows nothing.
pub open spec fn shows_client(
    s: SessionView,
    source: PeerAddr,
    message: ControlMessageView,
    readings: Readings,
    now: u64,
) -> bool {
    ||| control_step(s, source, message, readings, now).1.new_target is Some
    ||| is_peer(s, source) && is_sign_of_life(s, message)
}

/// When the client was last heard.
pub open spec fn last_heard(session_id_seed: u32, events: Seq<Event>) -> Option<u64>
    decreases events.len(),
{
    if events.len() == 0 {
        None
    } else {
        let s = session_after(session_id_seed, events.drop_last());
        match events.last() {
            Event::Message { source, message, readings, now } if shows_client(
                s,
                source,
                message,
                readings,
                now,
            ) => Some(now),
            _ => last_heard(session_id_seed, events.drop_last()),
        }
    }
}

/// Whether the clock has room for the liveness window after every message.
pub open spec fn clock_has_room(events: Seq<Event>) -> bool {
    forall|i: int|
        0 <= i < events.len() ==> (#[trigger] events[i] matches Event::Message { now, .. } ==> now
            + LIVENESS_TIMEOUT <= u64::MAX)
}

/// The deadline of a session lies one liveness window after its client was last
/// heard.
proof fn deadline_follows_the_client(session_id_seed: u32, events: Seq<Event>)
    requires
        clock_has_room(events),
    ensures
        session_after(session_id_seed, events).active matches Some(a) ==> (last_heard(
            session_id_seed,
            events,
        ) matches Some(heard) && a.liveness_deadline == heard + LIVENESS_TIMEOUT),
    decreases events.len(),
{
    if events.len() > 0 {
        let rest = events.drop_last();
        assert forall|i: int| 0 <= i < rest.len() implies (#[trigger] rest[i] matches Event::Message {
            now,
            ..
        } ==> now + LIVENESS_TIMEOUT <= u64::MAX) by {
            assert(rest[i] == events[i]);
        }
        deadline_follows_the_client(session_id_seed, rest);
        assert(events[events.len() - 1] == events.last());
    }
}

/// A session lives from its opening for as long as its client is heard in time,
/// whatever else happens: messages that are refused or ignored, other devices,
/// ticks, notices. A tick without a session does nothing. A tick at or after the
/// end of the liveness window, counted from when the client was last heard, ends
/// the session and sends nothing. Every other tick leaves the session and sends
/// the client one heartbeat where one is due, else nothing.
pub proof fn sessions_live_while_heard(
    session_id_seed: u32,
    events: Seq<Event>,
    stream_config: StreamConfig,
    host_time_us: u64,
    send_heartbeat: bool,
    now: u64,
)
    requires
        clock_has_room(events),
    ensures
        ({
            let s = session_after(session_id_seed, events);
            let heard = last_heard(session_id_seed, events);
            let (t, a) = tick_step(s, stream_config, host_time_us, send_heartbeat, now);
            match s.active {
                None => t.active is None && a.replies.len() == 0 && !a.client_lost,
                Some(client) => {
                    &&& heard is Some
                    &&& now >= heard->0 + LIVENESS_TIMEOUT ==> t.active is None && a.client_lost
                        && a.replies.len() == 0
                    &&& now < heard->0 + LIVENESS_TIMEOUT ==> {
                        &&& !a.client_lost
                        &&& t.active matches Some(kept) && kept.session_id == client.session_id
                            && kept.peer == client.peer
                        &&& !send_heartbeat ==> t == s && a.replies.len() == 0
                        &&& send_heartbeat ==> {
                            &&& a.replies.len() == 1
                            &&& a.replies[0].0 == client.peer
                            &&& control::parsed(a.replies[0].1) matches Ok((h, m))
                            &&& h.session_id == client.session_id
                            &&& m == ControlMessageView::Heartbeat(
                                Heartbeat { host_time_us, stream_config },
                            )
                        }
                    }
                },
            }
        }),
{
    deadline_follows_the_client(session_id_seed, events);
    let s = session_after(session_id_seed, events);
    if let Some(client) = s.active {
        control::control_round_trip(
            client.session_id,
            outgoing_seq(s),
            ControlMessageView::Heartbeat(Heartbeat { host_time_us, stream_config }),
        );
    }
}

/// Heartbeats go out only while a client is connected, and only to it.
pub proof fn heartbeats_need_a_client(
    s: SessionView,
    c: StreamConfig,
    t: u64,
    heartbeat: bool,
    now: u64,
)
    ensures
        ({
            let a = tick_step(s, c, t, heartbeat, now).1;
            &&& s.active is None ==> a == no_actions()
            &&& a.replies.len() > 0 ==> heartbeat && a.replies.len() == 1 && a.replies[0].0
                == s.active->0.peer
        }),
{
}

/// Every answer to a session request parses, as an acknowledgement of that
/// request that carries a session id if and only if it accepts.
pub proof fn hello_replies_parse(
    s: SessionView,
    source: PeerAddr,
    h: Hello2View,
    offer: Offer,
    now: u64,
)
    requires
        session_ok(s),
    ensures
        ({
            let a = hello_step(s, source, h, offer, now).1;
            &&& a.replies.len() == 1
            &&& a.replies[0].0 == source
            &&& control::parsed(a.replies[0].1) matches Ok((_, m))
            &&& m matches ControlMessageView::HelloAck(x)
            &&& x.client_nonce == h.client_nonce
            &&& x.stream_config == offer.stream_config
            &&& (x.status == HelloStatus::Accepted) == (x.session_id != 0)
        }),
{
    let (t, a) = hello_step(s, source, h, offer, now);
    let (from, status, id) = if h.proto_min > 2 || h.proto_max < 2 {
        (s, HelloStatus::VersionUnsupported, 0u32)
    } else if s.active is Some && !is_peer(s, source) {
        (s, HelloStatus::Busy, 0u32)
    } else if s.active is Some && s.active->0.client_nonce == h.client_nonce {
        (s, HelloStatus::Accepted, s.active->0.session_id)
    } else {
        (opened(s, source, h, now), HelloStatus::Accepted, s.next_session_id)
    };
    let m = ControlMessageView::HelloAck(ack(status, h.client_nonce, id, offer));
    assert(a.replies =~= seq![(source, ack_datagram(from, status, h.client_nonce, id, offer))]);
    control::control_round_trip(id, outgoing_seq(from), m);
}

/// A host that takes leave sends its client one datagram, which parses as a
/// goodbye with the reason, and has no client any more: from then on it sends
/// nothing of its own accord.
pub proof fn goodbyes_are_heard(
    s: SessionView,
    reason: ByeReason,
    c: StreamConfig,
    t: u64,
    heartbeat: bool,
    now: u64,
)
    requires
        session_ok(s),
        s.active is Some,
    ensures
        ({
            let (ended, a) = close_step(s, reason);
            &&& a.replies.len() == 1
            &&& a.replies[0].0 == s.active->0.peer
            &&& control::parsed(a.replies[0].1) matches Ok((h, m))
            &&& h.session_id == s.active->0.session_id
            &&& m == ControlMessageView::Bye(reason)
            &&& a.client_lost
            &&& tick_step(ended, c, t, heartbeat, now) == (ended, no_actions())
        }),
{
    control::control_round_trip(
        s.active->0.session_id,
        outgoing_seq(s),
        ControlMessageView::Bye(reason),
    );
}

/// A clock probe of the client is answered with one datagram, to where it came
/// from. It parses, under the session's id, as an echo of the probe: it carries
/// the client's own time back, and the host clock at receipt and at reply. So
/// the client can tell its round trip, and the offset of the two clocks, from
/// the answer alone. A probe of anyone else gets no answer.
pub proof fn probes_are_echoed(
    s: SessionView,
    source: PeerAddr,
    probe: Ping,
    r: Readings,
    now: u64,
)
    ensures
        ({
            let a = control_step(s, source, ControlMessageView::Ping(probe), r, now).1;
            &&& s.active is None || s.active->0.peer.ip != source.ip ==> a.replies.len() == 0
            &&& s.active is Some && s.active->0.peer.ip == source.ip ==> {
                &&& a.replies.len() == 1
                &&& a.replies[0].0 == source
                &&& control::parsed(a.replies[0].1) matches Ok((h, m))
                &&& h.session_id == s.active->0.session_id
                &&& m matches ControlMessageView::Pong(pong)
                &&& pong.t1_us == probe.t1_us
                &&& pong.t2_us == r.t2_us
                &&& pong.t3_us == r.t3_us
            }
            &&& a.new_target is None && !a.force_idr && !a.client_lost
            &&& a.report is None && a.input is None
        }),
{
    if let Some(client) = s.active {
        control::control_round_trip(
            client.session_id,
            outgoing_seq(s),
            ControlMessageView::Pong(
                Pong { t1_us: probe.t1_us, t2_us: r.t2_us, t3_us: r.t3_us },
            ),
        );
    }
}

/// How a session request is answered. A client that does not speak version 2 is
/// told so. While another device is streaming, the answer is that the host is
/// busy. Everyone else is accepted: with the session that is in place if the
/// request is a retransmit of the one that opened it, else with a new session.
/// The answer carries the host's timing, in milliseconds, and what it streams.
pub proof fn hellos_are_answered_by_rule(
    s: SessionView,
    source: PeerAddr,
    h: Hello2View,
    r: Readings,
    now: u64,
)
    requires
        session_ok(s),
    ensures
        ({
            let (t, a) = control_step(s, source, ControlMessageView::Hello2(h), r, now);
            let speaks = h.proto_min <= 2 && 2 <= h.proto_max;
            let taken = s.active is Some && s.active->0.peer.ip != source.ip;
            let known = s.active is Some && !taken && s.active->0.client_nonce == h.client_nonce;
            &&& a.replies.len() == 1
            &&& a.replies[0].0 == source
            &&& control::parsed(a.replies[0].1) matches Ok((head, m))
            &&& m matches ControlMessageView::HelloAck(x)
            &&& head.session_id == x.session_id
            &&& x.client_nonce == h.client_nonce
            &&& x.accepted_version == 2
            &&& x.heartbeat_interval_ms * 1_000_000 == HEARTBEAT_INTERVAL
            &&& x.liveness_timeout_ms * 1_000_000 == LIVENESS_TIMEOUT
            &&& x.report_interval_ms == REPORT_INTERVAL_MS
            &&& x.stream_config == r.offer.stream_config
            &&& x.status == (if !speaks {
                HelloStatus::VersionUnsupported
            } else if taken {
                HelloStatus::Busy
            } else {
                HelloStatus::Accepted
            })
            &&& speaks && known ==> x.session_id == s.active->0.session_id
            &&& !speaks || taken || known ==> {
                &&& a.new_target is None && !a.force_idr
                &&& t.active is Some == s.active is Some
                &&& s.active is Some ==> t.active->0 == (ActiveView {
                    msg_seq_out: t.active->0.msg_seq_out,
                    ..s.active->0
                })
                &&& t.next_session_id == s.next_session_id
            }
            &&& speaks && !taken && !known ==> {
                &&& t.active is Some
                &&& t.active->0.session_id == x.session_id
                &&& s.active is Some ==> x.session_id != s.active->0.session_id
                &&& t.active->0.client_nonce == h.client_nonce
                &&& t.active->0.peer == source
                &&& t.active->0.info.device_name == h.device_name
                &&& t.active->0.info.screen_px == (h.screen_px_w, h.screen_px_h)
                &&& t.active->0.info.refresh_hz == h.refresh_hz
                &&& t.active->0.info.decoder_caps == h.decoder_caps
                &&& t.active->0.info.feature_caps == h.feature_caps
                &&& t.active->0.info.connected_at == now
                &&& t.active->0.last_keyframe_grant is None
                &&& t.active->0.last_report is None
                &&& a.force_idr
                &&& a.new_target is Some
                &&& a.new_target->0.ip == source.ip
                &&& h.listen_port != 0 ==> a.new_target->0.port == h.listen_port
                &&& h.listen_port == 0 ==> a.new_target->0.port == source.port
            }
            &&& !a.client_lost && a.report is None && a.input is None
        }),
{
    hello_replies_parse(s, source, h, r.offer, now);
    if s.active is Some {
        session_ids_are_fresh(s.active->0.session_id);
    }
    let (from, status, id) = if h.proto_min > 2 || h.proto_max < 2 {
        (s, HelloStatus::VersionUnsupported, 0u32)
    } else if s.active is Some && !is_peer(s, source) {
        (s, HelloStatus::Busy, 0u32)
    } else if s.active is Some && s.active->0.client_nonce == h.client_nonce {
        (s, HelloStatus::Accepted, s.active->0.session_id)
    } else {
        (opened(s, source, h, now), HelloStatus::Accepted, s.next_session_id)
    };
    control::control_round_trip(
        id,
        outgoing_seq(from),
        ControlMessageView::HelloAck(ack(status, h.client_nonce, id, r.offer)),
    );
}

/// What the messages of the client are for. A report is handed on and
/// remembered. A keyframe request forces a keyframe, unless one was granted
/// within the minimum interval. Input is handed on under the session's id if the
/// client asked for that when it connected. A goodbye ends the session. None of
/// them is answered, and none does anything else but to keep the session alive.
pub proof fn messages_of_the_client_are_heeded(
    s: SessionView,
    source: PeerAddr,
    message: ControlMessageView,
    r: Readings,
    now: u64,
)
    requires
        s.active is Some,
        s.active->0.peer.ip == source.ip,
        message !is Hello2,
        message !is Ping,
    ensures
        ({
            let (t, a) = control_step(s, source, message, r, now);
            let before = s.active->0;
            let granted = before.last_keyframe_grant is None || now
                >= before.last_keyframe_grant->0 + KEYFRAME_REQUEST_MIN_INTERVAL;
            &&& a.replies.len() == 0 && a.new_target is None
            &&& a.client_lost == (message is Bye)
            &&& t.active is None == (message is Bye)
            &&& a.force_idr == (message is KeyframeRequest && granted)
            &&& a.report == (match message {
                ControlMessageView::ReceiverReport(report) => Some(report),
                _ => None,
            })
            &&& a.input == (match message {
                ControlMessageView::InputEvent(e) => if before.info.feature_caps
                    & FEATURE_WANTS_INPUT != 0 {
                    Some((before.session_id, e))
                } else {
                    None
                },
                _ => None,
            })
            &&& message !is Bye ==> t.active->0 == (ActiveView {
                liveness_deadline: t.active->0.liveness_deadline,
                last_keyframe_grant: if a.force_idr {
                    Some(now)
                } else {
                    before.last_keyframe_grant
                },
                last_report: if a.report is Some {
                    a.report
                } else {
                    before.last_report
                },
                ..before
            })
            &&& t.next_session_id == s.next_session_id
            &&& t.legacy_client_warned == s.legacy_client_warned
        }),
{
}

/// The number that a datagram carries as its place among those of a session.
pub open spec fn number_of(datagram: Seq<u8>) -> u32 {
    match control::parsed(datagram) {
        Ok((head, _)) => head.msg_seq,
        Err(_) => 0,
    }
}

/// What the host sends within a session is numbered: after the first 1, each
/// message has the number after that of the message before, and none has 0.
pub proof fn messages_are_numbered(
    s: SessionView,
    source: PeerAddr,
    probe: Ping,
    r: Readings,
    now: u64,
    c: StreamConfig,
    t: u64,
    later: u64,
)
    requires
        session_ok(s),
        s.active is Some,
        s.active->0.peer.ip == source.ip,
        now + LIVENESS_TIMEOUT <= u64::MAX,
        later < now + LIVENESS_TIMEOUT,
    ensures
        ({
            let (s1, a) = control_step(s, source, ControlMessageView::Ping(probe), r, now);
            let (s2, b) = tick_step(s1, c, t, true, later);
            let first = number_of(a.replies[0].1);
            let second = number_of(b.replies[0].1);
            &&& a.replies.len() == 1 && b.replies.len() == 1
            &&& first != 0 && second != 0
            &&& first < u32::MAX ==> second == first + 1
            &&& first == u32::MAX ==> second == 1
            &&& s.active->0.msg_seq_out == 0 ==> first == 1
        }),
{
    let s1 = control_step(s, source, ControlMessageView::Ping(probe), r, now).0;
    control::control_round_trip(
        s.active->0.session_id,
        outgoing_seq(s),
        ControlMessageView::Pong(Pong { t1_us: probe.t1_us, t2_us: r.t2_us, t3_us: r.t3_us }),
    );
    control::control_round_trip(
        s.active->0.session_id,
        outgoing_seq(s1),
        ControlMessageView::Heartbeat(Heartbeat { host_time_us: t, stream_config: c }),
    );
}

/// A message that only a host sends does nothing.
pub proof fn messages_of_a_host_are_ignored(
    s: SessionView,
    source: PeerAddr,
    message: ControlMessageView,
    r: Readings,
    now: u64,
)
    requires
        message is HelloAck || message is Heartbeat || message is Pong || message is StreamConfig,
    ensures
        control_step(s, source, message, r, now) == (s, no_actions()),
{
}

/// Actions are seen as what they ask for: every reply with its address and its
/// bytes, in order, and all else as it is.
pub proof fn actions_are_seen(a: Actions, i: int)
    ensures
        a@.replies.len() == a.replies@.len(),
        0 <= i < a.replies@.len() ==> a@.replies[i] == (a.replies@[i].0, a.replies@[i].1@),
        a@.new_target == a.new_target,
        a@.force_idr == a.force_idr,
        a@.client_lost == a.client_lost,
        a@.report == a.report,
        a@.input == a.input,
{
}

/// The first client of a host is given the session that the host was made for,
/// and a host that was made for session 0 begins with 1. Whatever a host
/// answers to the first request, accepted or not, is its message number 1.
#[verifier::spinoff_prover]
#[verifier::rlimit(30)]
pub proof fn first_sessions_take_the_seed(
    seed: u32,
    source: PeerAddr,
    h: Hello2View,
    r: Readings,
    now: u64,
)
    ensures
        ({
            let s = without_client(seed);
            let (t, a) = control_step(s, source, ControlMessageView::Hello2(h), r, now);
            let speaks = h.proto_min <= 2 && 2 <= h.proto_max;
            &&& s.active is None && !s.legacy_client_warned
            &&& a.replies.len() == 1
            &&& number_of(a.replies[0].1) == 1
            &&& speaks == (t.active is Some)
            &&& speaks && seed != 0 ==> t.active->0.session_id == seed
            &&& speaks && seed == 0 ==> t.active->0.session_id == 1
        }),
{
    let s = without_client(seed);
    let (from, status, id) = if h.proto_min > 2 || h.proto_max < 2 {
        (s, HelloStatus::VersionUnsupported, 0u32)
    } else {
        (opened(s, source, h, now), HelloStatus::Accepted, s.next_session_id)
    };
    let (t, a) = hello_step(s, source, h, r.offer, now);
    assert(a.replies =~= seq![(source, ack_datagram(from, status, h.client_nonce, id, r.offer))]);
    control::control_round_trip(
        id,
        outgoing_seq(from),
        ControlMessageView::HelloAck(ack(status, h.client_nonce, id, r.offer)),
    );
}

} // verus!
