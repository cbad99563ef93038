//! The sending side of the transport: media datagrams out, control datagrams
//! in, on one socket. Everything that the socket loop decides is decided here.

use vstd::prelude::*;

use crate::host::clock;
use crate::host::clock::instant_to_us;
use crate::host::control::{CaptureTarget, SharedControl, Target, VddStatus};
use crate::host::encoder::NALUnit;
use crate::host::input;
use crate::host::input::{InputRelay, Injection, RelayView, VirtualScreen};
use crate::host::transport::abr;
use crate::host::transport::abr::{AbrController, AbrDecision};
use crate::host::transport::session;
use crate::host::transport::session::{
    Actions, ActionsView, HostIp, HostOffer, PeerAddr, LIVENESS_TIMEOUT,
};
use crate::wire::v2;
use crate::wire::v2::control;
use crate::wire::v2::control::{
    parse_control, ControlMessage, ControlMessageView, ReceiverReport, StreamConfig, STREAM_FLAG_SOFTWARE_ENCODER,
};
use crate::wire::v2::media;
use crate::wire::v2::media::{fragment_access_unit, MediaHeader, MAX_FRAG_COUNT};
use crate::wire::v2::{classify, Classified, WireError};

verus! {

/// The next stream epoch and the count of runs that belongs to it: every run
/// of the sender gets a fresh epoch, so that a client sees a restart at once.
/// An epoch is never 0, which receivers take for invalid.
pub fn next_stream_epoch(runs: u32) -> (r: (u32, u32))
    ensures
        r.0 == runs_after(runs),
        r.1 == epoch_of(runs),
{
    let after: u32 = if runs == u32::MAX {
        0
    } else {
        runs + 1
    };
    let epoch: u32 = if after == 0 {
        1
    } else {
        after
    };
    (after, epoch)
}

/// One run more; the count wraps.
pub open spec fn runs_after(runs: u32) -> u32 {
    if runs == u32::MAX {
        0
    } else {
        (runs + 1) as u32
    }
}

/// The epoch of the run after `runs` others.
pub open spec fn epoch_of(runs: u32) -> u32 {
    if runs_after(runs) == 0 {
        1
    } else {
        runs_after(runs)
    }
}

/// What the statistics know of the stream.
#[derive(Debug, Clone, Copy, PartialEq, Eq, Structural)]
pub struct StreamFacts {
    pub width: u32,
    pub height: u32,
    /// Whether a software encoder stands in for a failed hardware encoder.
    pub software: bool,
}

/// A number on 16 bits: larger ones become the largest.
pub open spec fn capped16(n: u32) -> u16 {
    if n <= 65535 {
        n as u16
    } else {
        65535
    }
}

fn cap16(n: u32) -> (c: u16)
    ensures
        c == capped16(n),
{
    if n <= 65535 {
        n as u16
    } else {
        65535
    }
}

/// The stream parameters that a client is told.
pub open spec fn config_of(c: SharedControl, stream_epoch: u32, facts: StreamFacts) -> StreamConfig {
    StreamConfig {
        stream_epoch,
        width: capped16(facts.width),
        height: capped16(facts.height),
        fps: capped16(c.target_fps),
        codec: c.active_codec,
        flags: if facts.software {
            STREAM_FLAG_SOFTWARE_ENCODER
        } else {
            0
        },
        bitrate_bps: c.abr_current_bps,
    }
}

/// The stream parameters in force, as advertised in replies and heartbeats:
/// the codec that is being emitted and the bitrate that is being produced.
pub fn stream_config(shared: &SharedControl, stream_epoch: u32, facts: StreamFacts) -> (c:
    StreamConfig)
    ensures
        c == config_of(*shared, stream_epoch, facts),
{
    StreamConfig {
        stream_epoch,
        width: cap16(facts.width),
        height: cap16(facts.height),
        fps: cap16(shared.target_fps),
        codec: shared.active_codec,
        flags: if facts.software {
            STREAM_FLAG_SOFTWARE_ENCODER
        } else {
            0
        },
        bitrate_bps: shared.abr_current_bps,
    }
}

// ---- inbound ---------------------------------------------------------------

/// What became of an inbound datagram.
#[derive(Debug)]
pub enum Inbound {
    /// A control message, what it calls for, and whether it is a request of
    /// the client for a keyframe.
    Handled { actions: Actions, keyframe_requested: bool },
    /// A control datagram that does not parse: dropped.
    Malformed(WireError),
    /// A version 1 client. The user is told the first time.
    LegacyHello { first: bool },
    /// Media, or nothing of ours.
    Ignored,
}

/// Whether a datagram is routed to the control parser.
pub open spec fn is_control(d: Seq<u8>) -> bool {
    exists|t: v2::PacketType| #[trigger] v2::classified_as(d, Classified::Control(t))
}

/// Takes one inbound datagram. Nothing but the session changes.
pub fn on_datagram(
    shared: &mut SharedControl,
    source: PeerAddr,
    datagram: &[u8],
    offer: &HostOffer,
    t2_us: u64,
    t3_us: u64,
    now: u64,
) -> (inbound: Inbound)
    requires
        old(shared).session.ok(),
        now + LIVENESS_TIMEOUT <= u64::MAX,
    ensures
        final(shared).session.ok(),
        *final(shared) == (SharedControl { session: final(shared).session, ..*old(shared) }),
        match inbound {
            Inbound::Handled { actions, keyframe_requested } => {
                &&& is_control(datagram@)
                &&& control::parsed(datagram@) matches Ok((_, message)) && (
                    final(shared).session@,
                    actions@,
                ) == session::control_step(
                    old(shared).session@,
                    source,
                    message,
                    (session::Readings { offer: offer@, t2_us, t3_us }),
                    now,
                ) && keyframe_requested == (message is KeyframeRequest && session::is_peer(
                    old(shared).session@,
                    source,
                ))
            },
            Inbound::Malformed(error) => {
                &&& is_control(datagram@)
                &&& control::parsed(datagram@) == Err::<
                    (control::ControlHeader, ControlMessageView),
                    WireError,
                >(error)
                &&& final(shared).session@ == old(shared).session@
            },
            Inbound::LegacyHello { first } => {
                &&& v2::is_legacy_hello(datagram@)
                &&& first == !old(shared).session@.legacy_client_warned
                &&& final(shared).session@ == (session::SessionView {
                    legacy_client_warned: true,
                    ..old(shared).session@
                })
            },
            Inbound::Ignored => {
                &&& !is_control(datagram@)
                &&& !v2::is_legacy_hello(datagram@)
                &&& final(shared).session@ == old(shared).session@
            },
        },
{
    let class = classify(datagram);
    proof {
        routes_are_exclusive(datagram@, class);
    }
    match class {
        Classified::Control(_t) => match parse_control(datagram) {
            Ok((_header, message)) => {
                let asks = match message {
                    ControlMessage::KeyframeRequest(_) => true,
                    _ => false,
                };
                let of_client = match shared.session.peer() {
                    Some(peer) => peer.ip == source.ip,
                    None => false,
                };
                Inbound::Handled {
                    actions: shared.session.handle_with(source, message, offer, t2_us, t3_us, now),
                    keyframe_requested: asks && of_client,
                }
            },
            Err(error) => Inbound::Malformed(error),
        },
        Classified::LegacyHello => Inbound::LegacyHello {
            first: shared.session.note_legacy_hello(),
        },
        Classified::Media { .. } | Classified::Unknown => Inbound::Ignored,
    }
}

proof fn routes_are_exclusive(d: Seq<u8>, c: Classified)
    requires
        v2::classified_as(d, c),
    ensures
        is_control(d) <==> c is Control,
        v2::is_legacy_hello(d) <==> c is LegacyHello,
{
    if is_control(d) {
        let t = choose|t: v2::PacketType| #[trigger]
            v2::classified_as(d, Classified::Control(t));
        v2::classification_is_unique(d, c, Classified::Control(t));
    }
    if v2::is_legacy_hello(d) {
        assert(v2::classified_as(d, Classified::LegacyHello));
        v2::classification_is_unique(d, c, Classified::LegacyHello);
    }
}

// ---- actions ---------------------------------------------------------------

/// Where media goes while there is no client: nowhere.
pub open spec fn nowhere() -> PeerAddr {
    PeerAddr { ip: HostIp::V4(0), port: 0 }
}

/// The shared state after the actions of the session, and whether the pipeline
/// must restart. A restart is what brings the managed virtual display up for
/// its first viewer, and takes it down after the last.
pub open spec fn applied(c: SharedControl, a: ActionsView) -> (SharedControl, bool) {
    let bring_up = a.new_target is Some && c.capture_target@ == Target::VirtualExtended
        && c.vdd_status == VddStatus::WaitingForClient;
    let take_down = a.client_lost && c.capture_target@ == Target::VirtualExtended && c.vdd_status
        == VddStatus::Active;
    (
        SharedControl {
            target_addr: if a.client_lost {
                nowhere()
            } else {
                match a.new_target {
                    Some(target) => target,
                    None => c.target_addr,
                }
            },
            force_next_idr: c.force_next_idr || a.force_idr,
            running: c.running && !bring_up && !take_down,
            ..c
        },
        bring_up || take_down,
    )
}

fn is_virtual(target: &CaptureTarget) -> (b: bool)
    ensures
        b == (target@ == Target::VirtualExtended),
{
    match target {
        CaptureTarget::VirtualExtended => true,
        _ => false,
    }
}

/// Carries out what the session asks of the shared state. Returns whether the
/// pipeline must restart.
pub fn apply_actions(shared: &mut SharedControl, actions: &Actions) -> (restart: bool)
    ensures
        (*final(shared), restart) == applied(*old(shared), actions@),
{
    let mut restart = false;
    if let Some(target) = actions.new_target {
        shared.target_addr = target;
        if is_virtual(&shared.capture_target) && shared.vdd_status == VddStatus::WaitingForClient {
            shared.stop();
            restart = true;
        }
    }
    if actions.force_idr {
        shared.force_next_idr = true;
    }
    if actions.client_lost {
        shared.target_addr = PeerAddr { ip: HostIp::V4(0), port: 0 };
        if is_virtual(&shared.capture_target) && shared.vdd_status == VddStatus::Active {
            shared.stop();
            restart = true;
        }
    }
    restart
}

/// One run of the sender.
pub struct Sender {
    pub stream_epoch: u32,
    /// The stream parameters that were told last.
    pub announced: Option<StreamConfig>,
    pub abr: AbrController,
    pub relay: InputRelay,
}

/// What is left to do outside once a round of the sender is over.
#[derive(Debug)]
pub struct Outbox {
    /// Datagrams to send, in order.
    pub datagrams: Vec<(PeerAddr, Vec<u8>)>,
    /// Commands for the desktop.
    pub injections: Vec<Injection>,
    /// Whether the pipeline must restart.
    pub restart: bool,
    /// Whether the bitrate changed.
    pub bitrate_changed: bool,
}

/// The notice of new stream parameters: one datagram for the client, if there
/// is one.
pub open spec fn notice(s: session::SessionView, config: StreamConfig) -> Seq<
    (PeerAddr, Seq<u8>),
> {
    match s.active {
        None => Seq::empty(),
        Some(a) => seq![
            (
                a.peer,
                control::control_datagram(
                    a.session_id,
                    session::outgoing_seq(s),
                    ControlMessageView::StreamConfig(config),
                ),
            ),
        ],
    }
}

/// What goes out where `announced` was told last and `config` is in force: a
/// notice if they differ, else nothing.
pub open spec fn announcement(
    announced: Option<StreamConfig>,
    s: session::SessionView,
    config: StreamConfig,
) -> Seq<(PeerAddr, Seq<u8>)> {
    if announced == Some(config) {
        Seq::empty()
    } else {
        notice(s, config)
    }
}

/// What a report and a keyframe request do to the bitrate controller, if they
/// are there.
pub open spec fn adapted(
    s: abr::AbrView,
    report: Option<ReceiverReport>,
    keyframe_requested: bool,
    now: u64,
) -> (abr::AbrView, AbrDecision) {
    let (t, d) = match report {
        Some(r) => abr::report_step(s, r, now),
        None => abr::stay(s),
    };
    if keyframe_requested {
        let (u, e) = abr::request_step(t, now);
        (u, AbrDecision { changed: d.changed || e.changed, ..e })
    } else {
        (t, d)
    }
}

/// Shared state with a bitrate in force.
pub open spec fn at_bitrate(c: SharedControl, d: AbrDecision) -> SharedControl {
    if d.changed {
        SharedControl { abr_current_bps: d.target_bps, ..c }
    } else {
        c
    }
}

impl Sender {
    /// A sender that starts at the controller's first pick and has told nothing
    /// yet.
    pub fn new(shared: &mut SharedControl, stream_epoch: u32, abr_enabled: bool) -> (s: Sender)
        ensures
            s.stream_epoch == stream_epoch,
            s.announced is None,
            s.abr.ok(),
            s.abr@.enabled == abr_enabled,
            s.abr@.ceiling_bps == old(shared).bitrate_bps,
            s.abr@.current_bps == abr::clamped(abr::START_BPS, old(shared).bitrate_bps),
            s.relay@ == (RelayView { session_id: None, accepted: Set::empty() }),
            *final(shared) == (SharedControl {
                abr_current_bps: s.abr@.current_bps,
                ..*old(shared)
            }),
    {
        let abr = AbrController::new(shared.bitrate_bps, abr_enabled);
        shared.abr_current_bps = abr.current_bps();
        Sender { stream_epoch, announced: None, abr, relay: InputRelay::default() }
    }

    /// Carries out what the session asks for: the shared state is brought up
    /// to date, a report or a keyframe request feeds the bitrate controller, a
    /// changed bitrate is told to the client at once, and an input event becomes
    /// commands for the desktop (none before there is a captured output).
    pub fn perform(
        &mut self,
        shared: &mut SharedControl,
        actions: Actions,
        keyframe_requested: bool,
        facts: StreamFacts,
        screen: VirtualScreen,
        now: u64,
    ) -> (out: Outbox)
        requires
            old(self).abr.ok(),
            old(shared).session.ok(),
            old(shared).capture_geometry matches Some(g) ==> input::fits_desktop(g),
        ensures
            final(self).abr.ok(),
            final(shared).session.ok(),
            final(self).stream_epoch == old(self).stream_epoch,
            out.restart == applied(*old(shared), actions@).1,
            out.bitrate_changed == adapted(old(self).abr@, actions.report, keyframe_requested, now).1.changed,
            final(self).abr@ == adapted(old(self).abr@, actions.report, keyframe_requested, now).0,
            *final(shared) == (SharedControl {
                session: final(shared).session,
                ..at_bitrate(
                    applied(*old(shared), actions@).0,
                    adapted(old(self).abr@, actions.report, keyframe_requested, now).1,
                )
            }),
            final(shared).session@ == (if out.bitrate_changed {
                session::sent_one(old(shared).session@)
            } else {
                old(shared).session@
            }),
            final(self).announced == (if out.bitrate_changed {
                Some(config_of(*final(shared), old(self).stream_epoch, facts))
            } else {
                old(self).announced
            }),
            session::datagrams(out.datagrams@) == (if out.bitrate_changed {
                actions@.replies + notice(
                    old(shared).session@,
                    config_of(*final(shared), old(self).stream_epoch, facts),
                )
            } else {
                actions@.replies
            }),
            match (actions.input, old(shared).capture_geometry) {
                (Some((session_id, event)), Some(geometry)) => {
                    &&& out.injections@ == input::relayed(
                        old(self).relay@,
                        session_id,
                        event,
                        geometry,
                        screen,
                    )
                    &&& final(self).relay@ == input::relay_after(
                        old(self).relay@,
                        session_id,
                        event,
                    )
                },
                _ => out.injections@.len() == 0 && final(self).relay@ == old(self).relay@,
            },
    {
        let restart = apply_actions(shared, &actions);
        let mut bitrate_changed = false;
        if let Some(report) = actions.report {
            let decision = self.abr.on_report(&report, now);
            if decision.changed {
                bitrate_changed = true;
                shared.abr_current_bps = decision.target_bps;
            }
        }
        if keyframe_requested {
            let decision = self.abr.on_keyframe_request(now);
            if decision.changed {
                bitrate_changed = true;
                shared.abr_current_bps = decision.target_bps;
            }
        }
        let injections = match (actions.input, shared.capture_geometry) {
            (Some((session_id, event)), Some(geometry)) => self.relay.relay(
                session_id,
                &event,
                geometry,
                screen,
            ),
            _ => Vec::new(),
        };
        let mut datagrams = actions.replies;
        if bitrate_changed {
            let config = stream_config(shared, self.stream_epoch, facts);
            self.announced = Some(config);
            let mut notices = shared.session.notify_config(config);
            let ghost first = datagrams@;
            let ghost second = notices@;
            datagrams.append(&mut notices);
            assert(session::datagrams(first + second) =~= session::datagrams(first)
                + session::datagrams(second));
        }
        Outbox { datagrams, injections, restart, bitrate_changed }
    }

    /// One periodic round: a moved ceiling takes effect, stream parameters that
    /// are not those told last (be it the bitrate, the codec, the resolution or
    /// another) are told to the client, a silent client is given up, and a
    /// heartbeat goes out where one is due.
    pub fn tick(
        &mut self,
        shared: &mut SharedControl,
        facts: StreamFacts,
        host_time_us: u64,
        send_heartbeat: bool,
        now: u64,
    ) -> (r: (Vec<(PeerAddr, Vec<u8>)>, Actions))
        requires
            old(self).abr.ok(),
            old(shared).session.ok(),
        ensures
            final(self).abr.ok(),
            final(shared).session.ok(),
            final(self).stream_epoch == old(self).stream_epoch,
            final(self).relay@ == old(self).relay@,
            ({
                let before = old(self).abr@;
                let bps = abr::clamped(before.current_bps, old(shared).bitrate_bps);
                let moved = bps != before.current_bps;
                let rate = if moved {
                    bps
                } else {
                    old(shared).abr_current_bps
                };
                let config = config_of(*final(shared), old(self).stream_epoch, facts);
                let s = old(shared).session@;
                let told = if old(self).announced == Some(config) {
                    s
                } else {
                    session::sent_one(s)
                };
                &&& final(self).abr@ == (abr::AbrView {
                    ceiling_bps: old(shared).bitrate_bps,
                    current_bps: bps,
                    ..before
                })
                &&& *final(shared) == (SharedControl {
                    session: final(shared).session,
                    abr_current_bps: rate,
                    ..*old(shared)
                })
                &&& final(self).announced == Some(config)
                &&& session::datagrams(r.0@) == announcement(old(self).announced, s, config)
                &&& (final(shared).session@, r.1@) == session::tick_step(
                    told,
                    config,
                    host_time_us,
                    send_heartbeat,
                    now,
                )
            }),
    {
        let decision = self.abr.set_ceiling(shared.bitrate_bps);
        let mut notices: Vec<(PeerAddr, Vec<u8>)> = Vec::new();
        assert(session::datagrams(notices@) =~= Seq::empty());
        if decision.changed {
            shared.abr_current_bps = decision.target_bps;
        }
        let config = stream_config(shared, self.stream_epoch, facts);
        let news = match self.announced {
            Some(told) => told != config,
            None => true,
        };
        if news {
            self.announced = Some(config);
            notices = shared.session.notify_config(config);
        }
        let actions = shared.session.tick_with(config, host_time_us, send_heartbeat, now);
        (notices, actions)
    }
}

// ---- media -----------------------------------------------------------------

/// What to do with an encoded access unit.
#[derive(Debug)]
pub enum MediaPlan {
    /// Nobody to send it to.
    Skip,
    /// It takes more datagrams than a frame may have: dropped.
    TooLarge,
    /// These datagrams go to this address, in order.
    Send { target: PeerAddr, datagrams: Vec<Vec<u8>> },
}

/// The fields that all datagrams of an access unit share.
pub open spec fn media_template(
    session_id: u32,
    stream_epoch: u32,
    nal: NALUnit,
    clock_epoch: u64,
) -> MediaHeader {
    MediaHeader {
        session_id,
        stream_epoch,
        frame_seq: (nal.sequence % 0x1_0000_0000) as u32,
        frag_index: 0,
        frag_count: 0,
        is_keyframe: nal.is_keyframe,
        capture_ts_us: clock::micros_since(clock_epoch, nal.timestamp),
        payload_len: 0,
    }
}

/// The datagrams of an access unit; an empty one has none.
pub open spec fn media_datagrams(template: MediaHeader, payload: Seq<u8>) -> Seq<Seq<u8>> {
    Seq::new(
        if payload.len() == 0 {
            0
        } else {
            media::fragment_total(payload.len() as int) as nat
        },
        |i: int| media::fragment_datagram(template, payload, i),
    )
}

/// [`MediaPlan`] with its datagrams as sequences.
pub enum MediaPlanView {
    Skip,
    TooLarge,
    Send { target: PeerAddr, datagrams: Seq<Seq<u8>> },
}

impl View for MediaPlan {
    type V = MediaPlanView;

    open spec fn view(&self) -> MediaPlanView {
        match *self {
            MediaPlan::Skip => MediaPlanView::Skip,
            MediaPlan::TooLarge => MediaPlanView::TooLarge,
            MediaPlan::Send { target, datagrams } => MediaPlanView::Send {
                target,
                datagrams: Seq::new(datagrams@.len(), |i: int| datagrams@[i]@),
            },
        }
    }
}

/// What to do with an access unit: it goes to the client of the session, if
/// there is one and its address is known.
pub open spec fn planned(
    c: SharedControl,
    stream_epoch: u32,
    nal: NALUnit,
    clock_epoch: u64,
) -> MediaPlanView {
    match c.session@.active {
        None => MediaPlanView::Skip,
        Some(a) => if c.target_addr.ip_is_unspecified() || c.target_addr.port == 0 {
            MediaPlanView::Skip
        } else if media::fragment_total(nal.data@.len() as int) > MAX_FRAG_COUNT {
            MediaPlanView::TooLarge
        } else {
            MediaPlanView::Send {
                target: c.target_addr,
                datagrams: media_datagrams(
                    media_template(a.session_id, stream_epoch, nal, clock_epoch),
                    nal.data@,
                ),
            }
        },
    }
}

/// Plans the sending of one access unit to the client of the session.
pub fn plan_media(shared: &SharedControl, stream_epoch: u32, nal: &NALUnit, clock_epoch: u64) -> (plan:
    MediaPlan)
    requires
        shared.session.ok(),
    ensures
        plan@ == planned(*shared, stream_epoch, *nal, clock_epoch),
{
    let session_id: u32 = match shared.session.session_id() {
        Some(id) => id,
        None => return MediaPlan::Skip,
    };
    let target = shared.target_addr;
    if !target.is_reachable() {
        return MediaPlan::Skip;
    }
    if nal.data.len() == 0 {
        let plan = MediaPlan::Send { target, datagrams: Vec::new() };
        assert(plan@->datagrams =~= planned(
            *shared,
            stream_epoch,
            *nal,
            clock_epoch,
        )->datagrams);
        return plan;
    }
    let template = MediaHeader {
        session_id,
        stream_epoch,
        frame_seq: (nal.sequence % 0x1_0000_0000) as u32,
        frag_index: 0,
        frag_count: 0,
        is_keyframe: nal.is_keyframe,
        capture_ts_us: instant_to_us(clock_epoch, nal.timestamp),
        payload_len: 0,
    };
    match fragment_access_unit(template, nal.data.as_slice()) {
        Ok(datagrams) => {
            let plan = MediaPlan::Send { target, datagrams };
            assert(plan@->datagrams =~= media_datagrams(template, nal.data@));
            plan
        },
        Err(_) => MediaPlan::TooLarge,
    }
}

// ---- laws ------------------------------------------------------------------

/// No run has the epoch that receivers take for invalid, and until the count
/// of runs wraps every run has a later epoch than the one before.
pub proof fn epochs_go_forward(runs: u32)
    ensures
        epoch_of(runs) != 0,
        runs < u32::MAX - 1 ==> epoch_of(runs) < epoch_of(runs_after(runs)),
{
}

/// A change of bitrate, codec or resolution is told to the client: one datagram
/// goes to it, which parses as the new stream parameters. Once told, they are
/// not told again.
pub proof fn changes_are_told_once(
    before: StreamConfig,
    after: StreamConfig,
    s: session::SessionView,
    later: session::SessionView,
)
    requires
        session::session_ok(s),
        s.active is Some,
        before.bitrate_bps != after.bitrate_bps || before.codec != after.codec || before.width
            != after.width || before.height != after.height,
    ensures
        ({
            let sent = announcement(Some(before), s, after);
            &&& sent.len() == 1
            &&& sent[0].0 == s.active->0.peer
            &&& control::parsed(sent[0].1) matches Ok((h, m))
            &&& h.session_id == s.active->0.session_id
            &&& m == ControlMessageView::StreamConfig(after)
        }),
        announcement(Some(after), later, after).len() == 0,
{
    control::control_round_trip(
        s.active->0.session_id,
        session::outgoing_seq(s),
        ControlMessageView::StreamConfig(after),
    );
}

/// Every media datagram is stamped with the session that was negotiated, and
/// decodes to its own header.
pub proof fn media_carries_the_session(template: MediaHeader, payload: Seq<u8>, i: int)
    requires
        template.session_id != 0,
        template.stream_epoch != 0,
        media::fragment_total(payload.len() as int) <= MAX_FRAG_COUNT,
        0 <= i < media_datagrams(template, payload).len(),
    ensures
        media::media_error(media_datagrams(template, payload)[i]) is None,
        media::media_header_of(media_datagrams(template, payload)[i]).session_id
            == template.session_id,
        media::media_header_of(media_datagrams(template, payload)[i]).stream_epoch
            == template.stream_epoch,
        media::media_header_of(media_datagrams(template, payload)[i]).frame_seq
            == template.frame_seq,
{
    media::fragments_decode(template, payload, i);
}

/// Once a client is lost, no media is sent, and the display that was up for it
/// alone is taken down.
pub proof fn a_lost_client_gets_nothing(
    c: SharedControl,
    a: ActionsView,
    stream_epoch: u32,
    nal: NALUnit,
    clock_epoch: u64,
)
    requires
        a.client_lost,
    ensures
        planned(applied(c, a).0, stream_epoch, nal, clock_epoch) == MediaPlanView::Skip,
        c.capture_target@ == Target::VirtualExtended && c.vdd_status == VddStatus::Active
            ==> applied(c, a).1 && !applied(c, a).0.running,
{
}

/// The session outlives the pipeline: when a pipeline has stopped and the next
/// one runs, media goes on to the same client under the same session, stamped
/// with a later epoch. The client need not greet again.
pub proof fn restarts_keep_the_client(
    before: SharedControl,
    runs: u32,
    bps: u32,
    nal: NALUnit,
    clock_epoch: u64,
    i: int,
)
    requires
        runs < u32::MAX - 1,
        before.session.ok(),
        planned(before, epoch_of(runs), nal, clock_epoch) is Send,
    ensures
        ({
            let stopped = SharedControl { running: false, ..before };
            let again = SharedControl { running: true, abr_current_bps: bps, ..stopped };
            let old_plan = planned(before, epoch_of(runs), nal, clock_epoch);
            let new_plan = planned(again, epoch_of(runs_after(runs)), nal, clock_epoch);
            &&& new_plan is Send && new_plan->target == old_plan->target
            &&& new_plan->datagrams.len() == old_plan->datagrams.len()
            &&& 0 <= i < old_plan->datagrams.len() ==> {
                let old_header = media::media_header_of(old_plan->datagrams[i]);
                let new_header = media::media_header_of(new_plan->datagrams[i]);
                &&& media::media_error(new_plan->datagrams[i]) is None
                &&& new_header.session_id == old_header.session_id
                &&& old_header.stream_epoch < new_header.stream_epoch
            }
        }),
{
    let a = before.session@.active->0;
    if 0 <= i < media_datagrams(
        media_template(a.session_id, epoch_of(runs), nal, clock_epoch),
        nal.data@,
    ).len() {
        media::fragments_decode(
            media_template(a.session_id, epoch_of(runs), nal, clock_epoch),
            nal.data@,
            i,
        );
        media::fragments_decode(
            media_template(a.session_id, epoch_of(runs_after(runs)), nal, clock_epoch),
            nal.data@,
            i,
        );
    }
}

/// Actions that neither bring a client nor lose one leave target and pipeline
/// alone.
pub proof fn other_actions_keep_the_stream(c: SharedControl, a: ActionsView)
    requires
        a.new_target is None,
        !a.client_lost,
    ensures
        !applied(c, a).1,
        applied(c, a).0 == (SharedControl {
            force_next_idr: c.force_next_idr || a.force_idr,
            ..c
        }),
{
}

/// While there is a client whose address is known, every access unit that a
/// frame can hold goes to it: as datagrams that carry its session, the epoch of
/// the run, the frame's number, whether it is a keyframe, the microseconds of
/// the host's clock at its capture, and, in order, all of its bytes.
pub proof fn media_reaches_the_client(
    c: SharedControl,
    stream_epoch: u32,
    nal: NALUnit,
    clock_epoch: u64,
    i: int,
)
    requires
        c.session.ok(),
        c.session@.active is Some,
        stream_epoch != 0,
        c.target_addr.ip != HostIp::V4(0),
        c.target_addr.ip != HostIp::V6(0),
        c.target_addr.port != 0,
        0 < nal.data@.len() <= MAX_FRAG_COUNT * media::MAX_MEDIA_PAYLOAD,
        nal.timestamp >= clock_epoch,
    ensures
        ({
            let plan = planned(c, stream_epoch, nal, clock_epoch);
            &&& plan is Send
            &&& plan->target == c.target_addr
            &&& (plan->datagrams.len() - 1) * media::MAX_MEDIA_PAYLOAD < nal.data@.len()
                <= plan->datagrams.len() * media::MAX_MEDIA_PAYLOAD
            &&& 0 <= i < plan->datagrams.len() ==> {
                let d = plan->datagrams[i];
                let h = media::media_header_of(d);
                &&& media::media_error(d) is None
                &&& h.session_id == c.session@.active->0.session_id
                &&& h.stream_epoch == stream_epoch
                &&& h.frame_seq == nal.sequence % 0x1_0000_0000
                &&& h.frag_index == i
                &&& h.frag_count == plan->datagrams.len()
                &&& h.is_keyframe == nal.is_keyframe
                &&& h.capture_ts_us * 1000 <= nal.timestamp - clock_epoch < h.capture_ts_us * 1000
                    + 1000
                &&& i < plan->datagrams.len() - 1 ==> d.len() == 32 + media::MAX_MEDIA_PAYLOAD
                &&& forall|j: int|
                    32 <= j < d.len() ==> #[trigger] d[j] == nal.data@[i
                        * media::MAX_MEDIA_PAYLOAD + j - 32]
            }
        }),
{
    let a = c.session@.active->0;
    let template = media_template(a.session_id, stream_epoch, nal, clock_epoch);
    let n = media::fragment_total(nal.data@.len() as int);
    assert(n <= MAX_FRAG_COUNT);
    media::fragments_are_full_and_numbered(template, nal.data@, 0);
    if 0 <= i < n {
        media::fragments_are_full_and_numbered(template, nal.data@, i);
    }
}

/// What the session asks of the shared state is done, and nothing else. A new
/// client becomes the target, a lost one leaves none, a forced keyframe stays
/// wanted until it comes. The pipeline stops, to start over, exactly where the
/// managed virtual display waits for its first viewer and one comes, or is up
/// and its viewer is lost.
pub proof fn actions_are_carried_out(c: SharedControl, a: ActionsView)
    ensures
        ({
            let (t, restart) = applied(c, a);
            let managed = c.capture_target@ == Target::VirtualExtended;
            &&& a.client_lost ==> t.target_addr.ip == HostIp::V4(0) && t.target_addr.port == 0
            &&& !a.client_lost && a.new_target is Some ==> t.target_addr == a.new_target->0
            &&& !a.client_lost && a.new_target is None ==> t.target_addr == c.target_addr
            &&& t.force_next_idr <==> c.force_next_idr || a.force_idr
            &&& restart <==> managed && ((a.new_target is Some && c.vdd_status
                == VddStatus::WaitingForClient) || (a.client_lost && c.vdd_status
                == VddStatus::Active))
            &&& t.running <==> c.running && !restart
            &&& t == (SharedControl {
                target_addr: t.target_addr,
                force_next_idr: t.force_next_idr,
                running: t.running,
                ..c
            })
        }),
{
}

/// What the client is told of the stream is what is in force: the epoch, the
/// captured size, the frame rate and the bitrate, each as far as it fits, the
/// codec that is being emitted, and whether a software encoder stands in.
pub proof fn configurations_tell_what_is_in_force(c: SharedControl, epoch: u32, facts: StreamFacts)
    ensures
        ({
            let told = config_of(c, epoch, facts);
            &&& told.stream_epoch == epoch
            &&& facts.width <= u16::MAX ==> told.width == facts.width
            &&& facts.height <= u16::MAX ==> told.height == facts.height
            &&& c.target_fps <= u16::MAX ==> told.fps == c.target_fps
            &&& facts.width > u16::MAX ==> told.width == u16::MAX
            &&& facts.height > u16::MAX ==> told.height == u16::MAX
            &&& c.target_fps > u16::MAX ==> told.fps == u16::MAX
            &&& told.codec == c.active_codec
            &&& told.bitrate_bps == c.abr_current_bps
            &&& told.flags & STREAM_FLAG_SOFTWARE_ENCODER != 0 <==> facts.software
        }),
{
    assert(0u8 & 1u8 == 0) by (bit_vector);
    assert(1u8 & 1u8 == 1) by (bit_vector);
}

/// What the client lets know reaches the bitrate controller: a report, a
/// keyframe request, both one after the other, or nothing. The shared state takes
/// on the controller's bitrate where that changed, and only that.
pub proof fn feedback_reaches_the_controller(
    s: abr::AbrView,
    report: ReceiverReport,
    now: u64,
    c: SharedControl,
)
    requires
        abr::abr_ok(s),
    ensures
        adapted(s, None, false, now) == abr::stay(s),
        adapted(s, Some(report), false, now) == abr::report_step(s, report, now),
        adapted(s, None, true, now) == abr::request_step(s, now),
        adapted(s, Some(report), true, now).0 == abr::request_step(
            abr::report_step(s, report, now).0,
            now,
        ).0,
        ({
            let (t, d) = adapted(s, Some(report), false, now);
            &&& at_bitrate(c, d) == (SharedControl {
                abr_current_bps: if t.current_bps != s.current_bps {
                    t.current_bps
                } else {
                    c.abr_current_bps
                },
                ..c
            })
        }),
{
    abr::steps_go_the_right_way(s, report, now);
}

/// Control datagrams are what is routed to the control parser: everything that
/// the protocol encodes as a control message is.
pub proof fn control_messages_reach_the_parser(
    session_id: u32,
    msg_seq: u32,
    m: ControlMessageView,
)
    ensures
        is_control(control::control_datagram(session_id, msg_seq, m)),
{
    let d = control::control_datagram(session_id, msg_seq, m);
    control::own_messages_are_routed_as_control(session_id, msg_seq, m);
    let t = control::message_type(m);
    let p = v2::CommonPrefix { packet_type: t, flags: d[4], payload_len: crate::bytes::le16(d, 6) };
    assert(v2::has_prefix(d, p));
    assert(v2::classified_as(d, Classified::Control(t)));
}

} // verus!
