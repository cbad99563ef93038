//! Control datagrams: everything that is not media.
//!
//! A 16-byte control header, then one message body:
//!
//! ```text
//! [0..8]   common prefix   (packet_type = the message discriminator)
//! [8..12]  session_id u32  0 in HELLO2 (no session assigned yet)
//! [12..16] msg_seq    u32  per-sender counter across all control types,
//!                          starting at 1
//! ```
//!
//! Bodies are append-only: decoders ignore trailing bytes that they do not
//! understand, so fields can be appended without a version bump.

use vstd::prelude::*;
use vstd::slice::{slice_subrange, slice_to_vec};

use super::{CommonPrefix, PacketType, WireError, PREFIX_SIZE};
use crate::bytes;
use crate::bytes::{
    get_u16, get_u32, get_u64, push_all, push_u16, push_u32, push_u64, to_signed16, to_unsigned16,
};
use crate::text::string_from_utf8;
use crate::wire::v2;

verus! {

/// Size of the control header (common prefix counted in).
pub const CONTROL_HEADER_SIZE: usize = 16;

/// Longest device or host name on the wire, in UTF-8 bytes.
pub const MAX_NAME_LEN: usize = 64;

/// Codec identifiers used in [`StreamConfig`].
pub const CODEC_H264: u8 = 0;

pub const CODEC_HEVC: u8 = 1;

/// [`Hello2::decoder_caps`] bits.
pub const CAP_DECODE_H264: u16 = 1;

pub const CAP_DECODE_HEVC: u16 = 2;

pub const CAP_DECODE_HEVC_10BIT: u16 = 4;

/// [`Hello2::feature_caps`] bits.
pub const FEATURE_WANTS_INPUT: u16 = 1;

pub const FEATURE_WANTS_AUDIO: u16 = 2;

/// [`StreamConfig::flags`] bits.
pub const STREAM_FLAG_SOFTWARE_ENCODER: u8 = 1;

/// Size of a [`StreamConfig`] block.
pub const STREAM_CONFIG_SIZE: usize = 16;

/// Size of a [`ReceiverReport`] body.
pub const RECEIVER_REPORT_SIZE: usize = 36;

/// Size of an [`InputEvent`] body.
pub const INPUT_EVENT_SIZE: usize = 30;

/// The header of a control datagram.
#[derive(Debug, Clone, Copy, PartialEq, Eq, Structural)]
pub struct ControlHeader {
    pub packet_type: PacketType,
    pub session_id: u32,
    pub msg_seq: u32,
}

/// Current stream parameters, embedded in HELLO_ACK and HEARTBEAT and sent on
/// their own as STREAM_CONFIG on change.
#[derive(Debug, Clone, Copy, PartialEq, Eq, Structural)]
pub struct StreamConfig {
    pub stream_epoch: u32,
    pub width: u16,
    pub height: u16,
    pub fps: u16,
    pub codec: u8,
    pub flags: u8,
    pub bitrate_bps: u32,
}

impl Default for StreamConfig {
    fn default() -> (c: StreamConfig)
        ensures
            c == (StreamConfig {
                stream_epoch: 0,
                width: 0,
                height: 0,
                fps: 0,
                codec: 0,
                flags: 0,
                bitrate_bps: 0,
            }),
    {
        StreamConfig {
            stream_epoch: 0,
            width: 0,
            height: 0,
            fps: 0,
            codec: 0,
            flags: 0,
            bitrate_bps: 0,
        }
    }
}

/// Client to host session request. Sent with session id 0.
#[derive(Debug, Clone, PartialEq, Eq)]
pub struct Hello2 {
    pub proto_min: u8,
    pub proto_max: u8,
    /// Fresh random value per connect attempt; the host echoes it in HELLO_ACK
    /// and treats a duplicate HELLO2 with the same nonce as a retransmit.
    pub client_nonce: u32,
    /// Normally equals the UDP source port.
    pub listen_port: u16,
    pub decoder_caps: u16,
    pub feature_caps: u16,
    pub screen_px_w: u16,
    pub screen_px_h: u16,
    pub screen_pt_w: u16,
    pub screen_pt_h: u16,
    pub refresh_hz: u8,
    pub device_name: String,
}

/// A [`Hello2`] with its name as a sequence of characters.
#[verifier::ext_equal]
pub struct Hello2View {
    pub proto_min: u8,
    pub proto_max: u8,
    pub client_nonce: u32,
    pub listen_port: u16,
    pub decoder_caps: u16,
    pub feature_caps: u16,
    pub screen_px_w: u16,
    pub screen_px_h: u16,
    pub screen_pt_w: u16,
    pub screen_pt_h: u16,
    pub refresh_hz: u8,
    pub device_name: Seq<char>,
}

impl View for Hello2 {
    type V = Hello2View;

    open spec fn view(&self) -> Hello2View {
        Hello2View {
            proto_min: self.proto_min,
            proto_max: self.proto_max,
            client_nonce: self.client_nonce,
            listen_port: self.listen_port,
            decoder_caps: self.decoder_caps,
            feature_caps: self.feature_caps,
            screen_px_w: self.screen_px_w,
            screen_px_h: self.screen_px_h,
            screen_pt_w: self.screen_pt_w,
            screen_pt_h: self.screen_pt_h,
            refresh_hz: self.refresh_hz,
            device_name: self.device_name@,
        }
    }
}

/// The host's answer to a session request.
#[derive(Debug, Clone, Copy, PartialEq, Eq, Structural)]
pub enum HelloStatus {
    Accepted,
    Busy,
    VersionUnsupported,
    Error,
}

/// The wire value of a status.
pub open spec fn hello_status_byte(s: HelloStatus) -> u8 {
    match s {
        HelloStatus::Accepted => 0,
        HelloStatus::Busy => 1,
        HelloStatus::VersionUnsupported => 2,
        HelloStatus::Error => 3,
    }
}

/// The status that a wire value stands for.
pub open spec fn hello_status_from(b: u8) -> Option<HelloStatus> {
    match b {
        0 => Some(HelloStatus::Accepted),
        1 => Some(HelloStatus::Busy),
        2 => Some(HelloStatus::VersionUnsupported),
        3 => Some(HelloStatus::Error),
        _ => None,
    }
}

impl HelloStatus {
    /// The wire value of this status.
    pub fn to_u8(self) -> (b: u8)
        ensures
            b == hello_status_byte(self),
            hello_status_from(b) == Some(self),
    {
        match self {
            HelloStatus::Accepted => 0,
            HelloStatus::Busy => 1,
            HelloStatus::VersionUnsupported => 2,
            HelloStatus::Error => 3,
        }
    }

    fn from_u8(value: u8) -> (s: Option<HelloStatus>)
        ensures
            s == hello_status_from(value),
    {
        match value {
            0 => Some(HelloStatus::Accepted),
            1 => Some(HelloStatus::Busy),
            2 => Some(HelloStatus::VersionUnsupported),
            3 => Some(HelloStatus::Error),
            _ => None,
        }
    }
}

/// Host to client HELLO2 response.
#[derive(Debug, Clone, PartialEq, Eq)]
pub struct HelloAck {
    pub status: HelloStatus,
    pub accepted_version: u8,
    pub client_nonce: u32,
    /// Nonzero if and only if the request was accepted.
    pub session_id: u32,
    pub heartbeat_interval_ms: u16,
    pub report_interval_ms: u16,
    pub liveness_timeout_ms: u16,
    pub stream_config: StreamConfig,
    pub host_name: String,
}

/// A [`HelloAck`] with its name as a sequence of characters.
#[verifier::ext_equal]
pub struct HelloAckView {
    pub status: HelloStatus,
    pub accepted_version: u8,
    pub client_nonce: u32,
    pub session_id: u32,
    pub heartbeat_interval_ms: u16,
    pub report_interval_ms: u16,
    pub liveness_timeout_ms: u16,
    pub stream_config: StreamConfig,
    pub host_name: Seq<char>,
}

impl View for HelloAck {
    type V = HelloAckView;

    open spec fn view(&self) -> HelloAckView {
        HelloAckView {
            status: self.status,
            accepted_version: self.accepted_version,
            client_nonce: self.client_nonce,
            session_id: self.session_id,
            heartbeat_interval_ms: self.heartbeat_interval_ms,
            report_interval_ms: self.report_interval_ms,
            liveness_timeout_ms: self.liveness_timeout_ms,
            stream_config: self.stream_config,
            host_name: self.host_name@,
        }
    }
}

/// Host to client, every heartbeat interval while a session is active.
#[derive(Debug, Clone, Copy, PartialEq, Eq, Structural)]
pub struct Heartbeat {
    pub host_time_us: u64,
    pub stream_config: StreamConfig,
}

/// Why a session ends.
#[derive(Debug, Clone, Copy, PartialEq, Eq, Structural)]
pub enum ByeReason {
    UserDisconnect,
    AppBackground,
    HostShuttingDown,
    Error,
    Superseded,
}

/// The wire value of a reason.
pub open spec fn bye_reason_byte(r: ByeReason) -> u8 {
    match r {
        ByeReason::UserDisconnect => 0,
        ByeReason::AppBackground => 1,
        ByeReason::HostShuttingDown => 2,
        ByeReason::Error => 3,
        ByeReason::Superseded => 4,
    }
}

/// The reason that a wire value stands for.
pub open spec fn bye_reason_from(b: u8) -> Option<ByeReason> {
    match b {
        0 => Some(ByeReason::UserDisconnect),
        1 => Some(ByeReason::AppBackground),
        2 => Some(ByeReason::HostShuttingDown),
        3 => Some(ByeReason::Error),
        4 => Some(ByeReason::Superseded),
        _ => None,
    }
}

impl ByeReason {
    /// The wire value of this reason.
    pub fn to_u8(self) -> (b: u8)
        ensures
            b == bye_reason_byte(self),
            bye_reason_from(b) == Some(self),
    {
        match self {
            ByeReason::UserDisconnect => 0,
            ByeReason::AppBackground => 1,
            ByeReason::HostShuttingDown => 2,
            ByeReason::Error => 3,
            ByeReason::Superseded => 4,
        }
    }

    fn from_u8(value: u8) -> (r: Option<ByeReason>)
        ensures
            r == bye_reason_from(value),
    {
        match value {
            0 => Some(ByeReason::UserDisconnect),
            1 => Some(ByeReason::AppBackground),
            2 => Some(ByeReason::HostShuttingDown),
            3 => Some(ByeReason::Error),
            4 => Some(ByeReason::Superseded),
            _ => None,
        }
    }
}

/// Why a client asks for a keyframe.
#[derive(Debug, Clone, Copy, PartialEq, Eq, Structural)]
pub enum KeyframeReason {
    GapLoss,
    DecodeError,
    Startup,
    Resume,
}

/// The wire value of a reason.
pub open spec fn keyframe_reason_byte(r: KeyframeReason) -> u8 {
    match r {
        KeyframeReason::GapLoss => 0,
        KeyframeReason::DecodeError => 1,
        KeyframeReason::Startup => 2,
        KeyframeReason::Resume => 3,
    }
}

/// The reason that a wire value stands for.
pub open spec fn keyframe_reason_from(b: u8) -> Option<KeyframeReason> {
    match b {
        0 => Some(KeyframeReason::GapLoss),
        1 => Some(KeyframeReason::DecodeError),
        2 => Some(KeyframeReason::Startup),
        3 => Some(KeyframeReason::Resume),
        _ => None,
    }
}

impl KeyframeReason {
    /// The wire value of this reason.
    pub fn to_u8(self) -> (b: u8)
        ensures
            b == keyframe_reason_byte(self),
            keyframe_reason_from(b) == Some(self),
    {
        match self {
            KeyframeReason::GapLoss => 0,
            KeyframeReason::DecodeError => 1,
            KeyframeReason::Startup => 2,
            KeyframeReason::Resume => 3,
        }
    }

    fn from_u8(value: u8) -> (r: Option<KeyframeReason>)
        ensures
            r == keyframe_reason_from(value),
    {
        match value {
            0 => Some(KeyframeReason::GapLoss),
            1 => Some(KeyframeReason::DecodeError),
            2 => Some(KeyframeReason::Startup),
            3 => Some(KeyframeReason::Resume),
            _ => None,
        }
    }
}

/// Client to host request for a keyframe. Idempotent; rate-limited by the host.
#[derive(Debug, Clone, Copy, PartialEq, Eq, Structural)]
pub struct KeyframeRequest {
    pub stream_epoch: u32,
    pub last_complete_seq: u32,
    pub reason: KeyframeReason,
}

/// Client to host statistics, every report interval. Cumulative per epoch: the
/// host diffs consecutive reports. Doubles as the client's liveness signal.
#[derive(Debug, Clone, Copy, PartialEq, Eq, Structural)]
pub struct ReceiverReport {
    pub stream_epoch: u32,
    pub highest_seq: u32,
    pub frames_complete: u32,
    pub frames_dropped: u32,
    pub frags_received: u32,
    pub frags_lost: u32,
    /// Interarrival jitter, microseconds.
    pub jitter_us: u32,
    pub decode_fps_x10: u16,
    pub assembler_depth: u8,
    pub decode_depth: u8,
    /// 0 until clock sync has converged.
    pub e2e_latency_ms_x10: u16,
    pub rtt_ms_x10: u16,
}

/// The report of a client that has seen nothing yet.
pub open spec fn empty_report() -> ReceiverReport {
    ReceiverReport {
        stream_epoch: 0,
        highest_seq: 0,
        frames_complete: 0,
        frames_dropped: 0,
        frags_received: 0,
        frags_lost: 0,
        jitter_us: 0,
        decode_fps_x10: 0,
        assembler_depth: 0,
        decode_depth: 0,
        e2e_latency_ms_x10: 0,
        rtt_ms_x10: 0,
    }
}

impl Default for ReceiverReport {
    fn default() -> (r: ReceiverReport)
        ensures
            r == empty_report(),
    {
        ReceiverReport {
            stream_epoch: 0,
            highest_seq: 0,
            frames_complete: 0,
            frames_dropped: 0,
            frags_received: 0,
            frags_lost: 0,
            jitter_us: 0,
            decode_fps_x10: 0,
            assembler_depth: 0,
            decode_depth: 0,
            e2e_latency_ms_x10: 0,
            rtt_ms_x10: 0,
        }
    }
}

/// Client to host clock probe. `t1_us` is the client clock at send.
#[derive(Debug, Clone, Copy, PartialEq, Eq, Structural)]
pub struct Ping {
    pub t1_us: u64,
}

/// Host to client probe reply: echoes `t1_us`, adds host receive and send times.
#[derive(Debug, Clone, Copy, PartialEq, Eq, Structural)]
pub struct Pong {
    pub t1_us: u64,
    pub t2_us: u64,
    pub t3_us: u64,
}

/// Touch, pencil, mouse or key event, client to host.
#[derive(Debug, Clone, Copy, PartialEq, Eq, Structural)]
pub struct InputEvent {
    pub input_ver: u8,
    pub kind: u8,
    pub phase: u8,
    pub buttons: u8,
    /// Per-session monotonic; began and ended events are sent twice for loss
    /// tolerance, so the host dedupes on this id.
    pub event_id: u32,
    pub x_norm: u16,
    pub y_norm: u16,
    pub pressure_x1000: u16,
    pub scroll_dx: i16,
    pub scroll_dy: i16,
    pub keycode: u16,
    pub modifiers: u8,
    pub client_time_us: u64,
}

/// One control message.
#[derive(Debug, Clone, PartialEq)]
pub enum ControlMessage {
    Hello2(Hello2),
    HelloAck(HelloAck),
    Heartbeat(Heartbeat),
    Bye(ByeReason),
    KeyframeRequest(KeyframeRequest),
    ReceiverReport(ReceiverReport),
    Ping(Ping),
    Pong(Pong),
    StreamConfig(StreamConfig),
    InputEvent(InputEvent),
}

/// A [`ControlMessage`] with its names as sequences of characters.
#[verifier::ext_equal]
pub enum ControlMessageView {
    Hello2(Hello2View),
    HelloAck(HelloAckView),
    Heartbeat(Heartbeat),
    Bye(ByeReason),
    KeyframeRequest(KeyframeRequest),
    ReceiverReport(ReceiverReport),
    Ping(Ping),
    Pong(Pong),
    StreamConfig(StreamConfig),
    InputEvent(InputEvent),
}

impl View for ControlMessage {
    type V = ControlMessageView;

    open spec fn view(&self) -> ControlMessageView {
        match self {
            ControlMessage::Hello2(h) => ControlMessageView::Hello2(h@),
            ControlMessage::HelloAck(a) => ControlMessageView::HelloAck(a@),
            ControlMessage::Heartbeat(h) => ControlMessageView::Heartbeat(*h),
            ControlMessage::Bye(r) => ControlMessageView::Bye(*r),
            ControlMessage::KeyframeRequest(k) => ControlMessageView::KeyframeRequest(*k),
            ControlMessage::ReceiverReport(r) => ControlMessageView::ReceiverReport(*r),
            ControlMessage::Ping(p) => ControlMessageView::Ping(*p),
            ControlMessage::Pong(p) => ControlMessageView::Pong(*p),
            ControlMessage::StreamConfig(c) => ControlMessageView::StreamConfig(*c),
            ControlMessage::InputEvent(e) => ControlMessageView::InputEvent(*e),
        }
    }
}

/// The packet type under which a message travels.
pub open spec fn message_type(m: ControlMessageView) -> PacketType {
    match m {
        ControlMessageView::Hello2(_) => PacketType::Hello2,
        ControlMessageView::HelloAck(_) => PacketType::HelloAck,
        ControlMessageView::Heartbeat(_) => PacketType::Heartbeat,
        ControlMessageView::Bye(_) => PacketType::Bye,
        ControlMessageView::KeyframeRequest(_) => PacketType::KeyframeRequest,
        ControlMessageView::ReceiverReport(_) => PacketType::ReceiverReport,
        ControlMessageView::Ping(_) => PacketType::Ping,
        ControlMessageView::Pong(_) => PacketType::Pong,
        ControlMessageView::StreamConfig(_) => PacketType::StreamConfig,
        ControlMessageView::InputEvent(_) => PacketType::InputEvent,
    }
}

impl ControlMessage {
    fn packet_type(&self) -> (t: PacketType)
        ensures
            t == message_type(self@),
    {
        match self {
            ControlMessage::Hello2(_) => PacketType::Hello2,
            ControlMessage::HelloAck(_) => PacketType::HelloAck,
            ControlMessage::Heartbeat(_) => PacketType::Heartbeat,
            ControlMessage::Bye(_) => PacketType::Bye,
            ControlMessage::KeyframeRequest(_) => PacketType::KeyframeRequest,
            ControlMessage::ReceiverReport(_) => PacketType::ReceiverReport,
            ControlMessage::Ping(_) => PacketType::Ping,
            ControlMessage::Pong(_) => PacketType::Pong,
            ControlMessage::StreamConfig(_) => PacketType::StreamConfig,
            ControlMessage::InputEvent(_) => PacketType::InputEvent,
        }
    }
}

// ---- names -----------------------------------------------------------------

/// The largest character boundary of `b` at or below `end`.
pub open spec fn boundary_below(b: Seq<u8>, end: int) -> int
    decreases end,
{
    if end <= 0 || vstd::utf8::is_char_boundary(b, end) {
        end
    } else {
        boundary_below(b, end - 1)
    }
}

/// The UTF-8 bytes of a name as they travel: all of them, or as many whole
/// characters as fit [`MAX_NAME_LEN`].
pub open spec fn name_bytes(name: Seq<char>) -> Seq<u8> {
    let b = vstd::utf8::encode_utf8(name);
    if b.len() <= MAX_NAME_LEN {
        b
    } else {
        b.take(boundary_below(b, MAX_NAME_LEN as int))
    }
}

/// A name as the receiver sees it.
pub open spec fn name_on_wire(name: Seq<char>) -> Seq<char> {
    vstd::utf8::decode_utf8(name_bytes(name))
}

/// A name on the wire is well-formed UTF-8 of at most [`MAX_NAME_LEN`] bytes,
/// and a name that fits travels unchanged.
pub proof fn name_bytes_are_valid(name: Seq<char>)
    ensures
        name_bytes(name).len() <= MAX_NAME_LEN,
        vstd::utf8::valid_utf8(name_bytes(name)),
        name_bytes(name).is_prefix_of(vstd::utf8::encode_utf8(name)),
        vstd::utf8::encode_utf8(name).len() <= MAX_NAME_LEN ==> name_on_wire(name) == name,
{
    let b = vstd::utf8::encode_utf8(name);
    vstd::utf8::encode_utf8_valid_utf8(name);
    vstd::utf8::encode_utf8_decode_utf8(name);
    if b.len() > MAX_NAME_LEN {
        boundary_below_bounds(b, MAX_NAME_LEN as int);
        let cut = boundary_below(b, MAX_NAME_LEN as int);
        vstd::utf8::valid_utf8_split(b, cut);
        assert(b.take(cut) =~= b.subrange(0, cut));
    }
}

proof fn boundary_below_bounds(b: Seq<u8>, end: int)
    requires
        vstd::utf8::valid_utf8(b),
        0 <= end <= b.len(),
    ensures
        0 <= boundary_below(b, end) <= end,
        vstd::utf8::is_char_boundary(b, boundary_below(b, end)),
    decreases end,
{
    vstd::utf8::is_char_boundary_start_end_of_seq(b);
    if end > 0 && !vstd::utf8::is_char_boundary(b, end) {
        boundary_below_bounds(b, end - 1);
    }
}

fn truncated_name(name: &str) -> (kept: &[u8])
    ensures
        kept@ == name_bytes(name@),
{
    let all = name.as_bytes();
    proof {
        vstd::utf8::encode_utf8_valid_utf8(name@);
        vstd::utf8::is_char_boundary_start_end_of_seq(all@);
    }
    if all.len() <= MAX_NAME_LEN {
        return all;
    }
    let mut end: usize = MAX_NAME_LEN;
    while end > 0 && !name.is_char_boundary(end)
        invariant
            end <= MAX_NAME_LEN < all@.len(),
            all@ == vstd::utf8::encode_utf8(name@),
            boundary_below(all@, end as int) == boundary_below(all@, MAX_NAME_LEN as int),
        decreases end,
    {
        end -= 1;
    }
    let kept = slice_subrange(all, 0, end);
    assert(kept@ =~= name_bytes(name@));
    kept
}

// ---- bodies ----------------------------------------------------------------

/// The 16 bytes of a stream configuration.
pub open spec fn stream_config_bytes(c: StreamConfig) -> Seq<u8> {
    bytes::bytes32(c.stream_epoch) + bytes::bytes16(c.width) + bytes::bytes16(c.height)
        + bytes::bytes16(c.fps) + seq![c.codec, c.flags] + bytes::bytes32(c.bitrate_bps)
}

/// The stream configuration in the 16 bytes from `at` on.
pub open spec fn stream_config_at(b: Seq<u8>, at: int) -> StreamConfig {
    StreamConfig {
        stream_epoch: bytes::le32(b, at),
        width: bytes::le16(b, at + 4),
        height: bytes::le16(b, at + 6),
        fps: bytes::le16(b, at + 8),
        codec: b[at + 10],
        flags: b[at + 11],
        bitrate_bps: bytes::le32(b, at + 12),
    }
}

/// A name behind its length byte.
pub open spec fn counted_name(name: Seq<char>) -> Seq<u8> {
    seq![name_bytes(name).len() as u8] + name_bytes(name)
}

/// The body of a session request.
pub open spec fn hello2_bytes(h: Hello2View) -> Seq<u8> {
    seq![h.proto_min, h.proto_max] + bytes::bytes32(h.client_nonce) + bytes::bytes16(h.listen_port)
        + bytes::bytes16(h.decoder_caps) + bytes::bytes16(h.feature_caps) + bytes::bytes16(
        h.screen_px_w,
    ) + bytes::bytes16(h.screen_px_h) + bytes::bytes16(h.screen_pt_w) + bytes::bytes16(
        h.screen_pt_h,
    ) + seq![h.refresh_hz] + counted_name(h.device_name)
}

/// The fields of a session response in front of the stream configuration.
pub open spec fn hello_ack_head(a: HelloAckView) -> Seq<u8> {
    seq![hello_status_byte(a.status), a.accepted_version] + bytes::bytes32(a.client_nonce)
        + bytes::bytes32(a.session_id) + bytes::bytes16(a.heartbeat_interval_ms) + bytes::bytes16(
        a.report_interval_ms,
    ) + bytes::bytes16(a.liveness_timeout_ms)
}

/// The body of a session response.
pub open spec fn hello_ack_bytes(a: HelloAckView) -> Seq<u8> {
    hello_ack_head(a) + stream_config_bytes(a.stream_config) + counted_name(a.host_name)
}

/// The body of a receiver report.
pub open spec fn receiver_report_bytes(r: ReceiverReport) -> Seq<u8> {
    bytes::bytes32(r.stream_epoch) + bytes::bytes32(r.highest_seq) + bytes::bytes32(
        r.frames_complete,
    ) + bytes::bytes32(r.frames_dropped) + bytes::bytes32(r.frags_received) + bytes::bytes32(
        r.frags_lost,
    ) + bytes::bytes32(r.jitter_us) + bytes::bytes16(r.decode_fps_x10) + seq![
        r.assembler_depth,
        r.decode_depth,
    ] + bytes::bytes16(r.e2e_latency_ms_x10) + bytes::bytes16(r.rtt_ms_x10)
}

/// The body of an input event.
pub open spec fn input_event_bytes(e: InputEvent) -> Seq<u8> {
    seq![e.input_ver, e.kind, e.phase, e.buttons] + bytes::bytes32(e.event_id) + bytes::bytes16(
        e.x_norm,
    ) + bytes::bytes16(e.y_norm) + bytes::bytes16(e.pressure_x1000) + bytes::bytes16(
        bytes::unsigned16(e.scroll_dx),
    ) + bytes::bytes16(bytes::unsigned16(e.scroll_dy)) + bytes::bytes16(e.keycode) + seq![
        e.modifiers,
        0u8,
    ] + bytes::bytes64(e.client_time_us)
}

/// The body of a message.
pub open spec fn control_body(m: ControlMessageView) -> Seq<u8> {
    match m {
        ControlMessageView::Hello2(h) => hello2_bytes(h),
        ControlMessageView::HelloAck(a) => hello_ack_bytes(a),
        ControlMessageView::Heartbeat(h) => bytes::bytes64(h.host_time_us) + stream_config_bytes(
            h.stream_config,
        ),
        ControlMessageView::Bye(r) => seq![bye_reason_byte(r)],
        ControlMessageView::KeyframeRequest(k) => bytes::bytes32(k.stream_epoch) + bytes::bytes32(
            k.last_complete_seq,
        ) + seq![keyframe_reason_byte(k.reason)],
        ControlMessageView::ReceiverReport(r) => receiver_report_bytes(r),
        ControlMessageView::Ping(p) => bytes::bytes64(p.t1_us),
        ControlMessageView::Pong(p) => bytes::bytes64(p.t1_us) + bytes::bytes64(p.t2_us)
            + bytes::bytes64(p.t3_us),
        ControlMessageView::StreamConfig(c) => stream_config_bytes(c),
        ControlMessageView::InputEvent(e) => input_event_bytes(e),
    }
}

/// A control datagram with this body.
pub open spec fn control_frame(
    packet_type: PacketType,
    session_id: u32,
    msg_seq: u32,
    body: Seq<u8>,
) -> Seq<u8> {
    v2::prefix_bytes(
        CommonPrefix { packet_type, flags: 0, payload_len: body.len() as u16 },
    ) + bytes::bytes32(session_id) + bytes::bytes32(msg_seq) + body
}

/// The datagram that carries a message.
pub open spec fn control_datagram(session_id: u32, msg_seq: u32, m: ControlMessageView) -> Seq<u8> {
    control_frame(message_type(m), session_id, msg_seq, control_body(m))
}

fn push_stream_config(body: &mut Vec<u8>, c: &StreamConfig)
    ensures
        final(body)@ == old(body)@ + stream_config_bytes(*c),
{
    push_u32(body, c.stream_epoch);
    push_u16(body, c.width);
    push_u16(body, c.height);
    push_u16(body, c.fps);
    body.push(c.codec);
    body.push(c.flags);
    push_u32(body, c.bitrate_bps);
    assert(body@ =~= old(body)@ + stream_config_bytes(*c));
}

fn push_name(body: &mut Vec<u8>, name: &str)
    ensures
        final(body)@ == old(body)@ + counted_name(name@),
{
    let kept = truncated_name(name);
    proof {
        name_bytes_are_valid(name@);
    }
    body.push(kept.len() as u8);
    push_all(body, kept);
    assert(body@ =~= old(body)@ + counted_name(name@));
}

fn encode_hello2(h: &Hello2) -> (body: Vec<u8>)
    ensures
        body@ == hello2_bytes(h@),
{
    let mut body: Vec<u8> = Vec::new();
    body.push(h.proto_min);
    body.push(h.proto_max);
    push_u32(&mut body, h.client_nonce);
    push_u16(&mut body, h.listen_port);
    push_u16(&mut body, h.decoder_caps);
    push_u16(&mut body, h.feature_caps);
    push_u16(&mut body, h.screen_px_w);
    push_u16(&mut body, h.screen_px_h);
    push_u16(&mut body, h.screen_pt_w);
    push_u16(&mut body, h.screen_pt_h);
    body.push(h.refresh_hz);
    push_name(&mut body, h.device_name.as_str());
    assert(body@ =~= hello2_bytes(h@));
    body
}

fn encode_hello_ack(a: &HelloAck) -> (body: Vec<u8>)
    ensures
        body@ == hello_ack_bytes(a@),
{
    let mut body: Vec<u8> = Vec::new();
    body.push(a.status.to_u8());
    body.push(a.accepted_version);
    push_u32(&mut body, a.client_nonce);
    push_u32(&mut body, a.session_id);
    push_u16(&mut body, a.heartbeat_interval_ms);
    push_u16(&mut body, a.report_interval_ms);
    push_u16(&mut body, a.liveness_timeout_ms);
    push_stream_config(&mut body, &a.stream_config);
    push_name(&mut body, a.host_name.as_str());
    assert(body@ =~= hello_ack_bytes(a@));
    body
}

fn encode_receiver_report(r: &ReceiverReport) -> (body: Vec<u8>)
    ensures
        body@ == receiver_report_bytes(*r),
{
    let mut body: Vec<u8> = Vec::new();
    push_u32(&mut body, r.stream_epoch);
    push_u32(&mut body, r.highest_seq);
    push_u32(&mut body, r.frames_complete);
    push_u32(&mut body, r.frames_dropped);
    push_u32(&mut body, r.frags_received);
    push_u32(&mut body, r.frags_lost);
    push_u32(&mut body, r.jitter_us);
    push_u16(&mut body, r.decode_fps_x10);
    body.push(r.assembler_depth);
    body.push(r.decode_depth);
    push_u16(&mut body, r.e2e_latency_ms_x10);
    push_u16(&mut body, r.rtt_ms_x10);
    assert(body@ =~= receiver_report_bytes(*r));
    body
}

fn encode_input_event(e: &InputEvent) -> (body: Vec<u8>)
    ensures
        body@ == input_event_bytes(*e),
{
    let mut body: Vec<u8> = Vec::new();
    body.push(e.input_ver);
    body.push(e.kind);
    body.push(e.phase);
    body.push(e.buttons);
    push_u32(&mut body, e.event_id);
    push_u16(&mut body, e.x_norm);
    push_u16(&mut body, e.y_norm);
    push_u16(&mut body, e.pressure_x1000);
    push_u16(&mut body, to_unsigned16(e.scroll_dx));
    push_u16(&mut body, to_unsigned16(e.scroll_dy));
    push_u16(&mut body, e.keycode);
    body.push(e.modifiers);
    body.push(0);
    push_u64(&mut body, e.client_time_us);
    assert(body@ =~= input_event_bytes(*e));
    body
}

fn encode_body(message: &ControlMessage) -> (body: Vec<u8>)
    ensures
        body@ == control_body(message@),
{
    let mut body: Vec<u8> = Vec::new();
    match message {
        ControlMessage::Hello2(h) => {
            return encode_hello2(h);
        },
        ControlMessage::HelloAck(a) => {
            return encode_hello_ack(a);
        },
        ControlMessage::Heartbeat(hb) => {
            push_u64(&mut body, hb.host_time_us);
            push_stream_config(&mut body, &hb.stream_config);
        },
        ControlMessage::Bye(reason) => {
            body.push(reason.to_u8());
        },
        ControlMessage::KeyframeRequest(k) => {
            push_u32(&mut body, k.stream_epoch);
            push_u32(&mut body, k.last_complete_seq);
            body.push(k.reason.to_u8());
        },
        ControlMessage::ReceiverReport(r) => {
            return encode_receiver_report(r);
        },
        ControlMessage::Ping(p) => {
            push_u64(&mut body, p.t1_us);
        },
        ControlMessage::Pong(p) => {
            push_u64(&mut body, p.t1_us);
            push_u64(&mut body, p.t2_us);
            push_u64(&mut body, p.t3_us);
        },
        ControlMessage::StreamConfig(cfg) => {
            push_stream_config(&mut body, cfg);
        },
        ControlMessage::InputEvent(e) => {
            return encode_input_event(e);
        },
    }
    assert(body@ =~= control_body(message@));
    body
}

/// Serializes one control datagram (header and message body).
pub fn encode_control(session_id: u32, msg_seq: u32, message: &ControlMessage) -> (datagram: Vec<
    u8,
>)
    ensures
        datagram@ == control_datagram(session_id, msg_seq, message@),
{
    let body = encode_body(message);
    let mut datagram: Vec<u8> = vec![0; PREFIX_SIZE];
    proof {
        control_body_is_short(message@);
    }
    CommonPrefix {
        packet_type: message.packet_type(),
        flags: 0,
        payload_len: body.len() as u16,
    }.encode_into(&mut datagram);
    push_u32(&mut datagram, session_id);
    push_u32(&mut datagram, msg_seq);
    push_all(&mut datagram, &body);
    assert(datagram@ =~= control_datagram(session_id, msg_seq, message@));
    datagram
}

/// A message body is never longer than 97 bytes, so its length always fits the
/// length field.
pub proof fn control_body_is_short(m: ControlMessageView)
    ensures
        control_body(m).len() <= 97,
{
    match m {
        ControlMessageView::Hello2(h) => name_bytes_are_valid(h.device_name),
        ControlMessageView::HelloAck(a) => name_bytes_are_valid(a.host_name),
        _ => {},
    }
}

// ---- parsing ---------------------------------------------------------------

/// The counted name at `at`, or why there is none.
pub open spec fn name_at(b: Seq<u8>, at: int) -> Result<Seq<char>, WireError> {
    if b.len() <= at {
        Err(WireError::Truncated)
    } else if b[at] > MAX_NAME_LEN {
        Err(WireError::InvalidField("name_len"))
    } else if b.len() < at + 1 + b[at] {
        Err(WireError::Truncated)
    } else if !vstd::utf8::valid_utf8(b.subrange(at + 1, at + 1 + b[at])) {
        Err(WireError::InvalidField("name_utf8"))
    } else {
        Ok(vstd::utf8::decode_utf8(b.subrange(at + 1, at + 1 + b[at])))
    }
}

/// The session request in a body, or why there is none.
pub open spec fn parse_hello2(b: Seq<u8>) -> Result<ControlMessageView, WireError> {
    if b.len() < 21 {
        Err(WireError::Truncated)
    } else {
        match name_at(b, 21) {
            Err(e) => Err(e),
            Ok(name) => if b[0] > b[1] {
                Err(WireError::InvalidField("proto_range"))
            } else {
                Ok(
                    ControlMessageView::Hello2(
                        Hello2View {
                            proto_min: b[0],
                            proto_max: b[1],
                            client_nonce: bytes::le32(b, 2),
                            listen_port: bytes::le16(b, 6),
                            decoder_caps: bytes::le16(b, 8),
                            feature_caps: bytes::le16(b, 10),
                            screen_px_w: bytes::le16(b, 12),
                            screen_px_h: bytes::le16(b, 14),
                            screen_pt_w: bytes::le16(b, 16),
                            screen_pt_h: bytes::le16(b, 18),
                            refresh_hz: b[20],
                            device_name: name,
                        },
                    ),
                )
            },
        }
    }
}

/// The session response in a body, or why there is none.
pub open spec fn parse_hello_ack(b: Seq<u8>) -> Result<ControlMessageView, WireError> {
    if b.len() < 1 {
        Err(WireError::Truncated)
    } else {
        match hello_status_from(b[0]) {
            None => Err(WireError::InvalidField("status")),
            Some(status) => if b.len() < 32 {
                Err(WireError::Truncated)
            } else {
                match name_at(b, 32) {
                    Err(e) => Err(e),
                    Ok(name) => if (status == HelloStatus::Accepted) != (bytes::le32(b, 6) != 0) {
                        Err(WireError::InvalidField("session_id"))
                    } else {
                        Ok(
                            ControlMessageView::HelloAck(
                                HelloAckView {
                                    status,
                                    accepted_version: b[1],
                                    client_nonce: bytes::le32(b, 2),
                                    session_id: bytes::le32(b, 6),
                                    heartbeat_interval_ms: bytes::le16(b, 10),
                                    report_interval_ms: bytes::le16(b, 12),
                                    liveness_timeout_ms: bytes::le16(b, 14),
                                    stream_config: stream_config_at(b, 16),
                                    host_name: name,
                                },
                            ),
                        )
                    },
                }
            },
        }
    }
}

/// The receiver report in a body that is long enough.
pub open spec fn receiver_report_of(b: Seq<u8>) -> ReceiverReport {
    ReceiverReport {
        stream_epoch: bytes::le32(b, 0),
        highest_seq: bytes::le32(b, 4),
        frames_complete: bytes::le32(b, 8),
        frames_dropped: bytes::le32(b, 12),
        frags_received: bytes::le32(b, 16),
        frags_lost: bytes::le32(b, 20),
        jitter_us: bytes::le32(b, 24),
        decode_fps_x10: bytes::le16(b, 28),
        assembler_depth: b[30],
        decode_depth: b[31],
        e2e_latency_ms_x10: bytes::le16(b, 32),
        rtt_ms_x10: bytes::le16(b, 34),
    }
}

/// The input event in a body that is long enough.
pub open spec fn input_event_of(b: Seq<u8>) -> InputEvent {
    InputEvent {
        input_ver: b[0],
        kind: b[1],
        phase: b[2],
        buttons: b[3],
        event_id: bytes::le32(b, 4),
        x_norm: bytes::le16(b, 8),
        y_norm: bytes::le16(b, 10),
        pressure_x1000: bytes::le16(b, 12),
        scroll_dx: bytes::signed16(bytes::le16(b, 14)),
        scroll_dy: bytes::signed16(bytes::le16(b, 16)),
        keycode: bytes::le16(b, 18),
        modifiers: b[20],
        client_time_us: bytes::le64(b, 22),
    }
}

/// The message in a body of this type, or why there is none. Bytes behind the
/// known fields are ignored.
pub open spec fn parse_body(t: PacketType, b: Seq<u8>) -> Result<ControlMessageView, WireError> {
    match t {
        PacketType::Hello2 => parse_hello2(b),
        PacketType::HelloAck => parse_hello_ack(b),
        PacketType::Heartbeat => if b.len() < 24 {
            Err(WireError::Truncated)
        } else {
            Ok(
                ControlMessageView::Heartbeat(
                    Heartbeat {
                        host_time_us: bytes::le64(b, 0),
                        stream_config: stream_config_at(b, 8),
                    },
                ),
            )
        },
        PacketType::Bye => if b.len() < 1 {
            Err(WireError::Truncated)
        } else {
            match bye_reason_from(b[0]) {
                None => Err(WireError::InvalidField("bye_reason")),
                Some(r) => Ok(ControlMessageView::Bye(r)),
            }
        },
        PacketType::KeyframeRequest => if b.len() < 9 {
            Err(WireError::Truncated)
        } else {
            match keyframe_reason_from(b[8]) {
                None => Err(WireError::InvalidField("keyframe_reason")),
                Some(reason) => Ok(
                    ControlMessageView::KeyframeRequest(
                        KeyframeRequest {
                            stream_epoch: bytes::le32(b, 0),
                            last_complete_seq: bytes::le32(b, 4),
                            reason,
                        },
                    ),
                ),
            }
        },
        PacketType::ReceiverReport => if b.len() < RECEIVER_REPORT_SIZE {
            Err(WireError::Truncated)
        } else {
            Ok(ControlMessageView::ReceiverReport(receiver_report_of(b)))
        },
        PacketType::Ping => if b.len() < 8 {
            Err(WireError::Truncated)
        } else {
            Ok(ControlMessageView::Ping(Ping { t1_us: bytes::le64(b, 0) }))
        },
        PacketType::Pong => if b.len() < 24 {
            Err(WireError::Truncated)
        } else {
            Ok(
                ControlMessageView::Pong(
                    Pong {
                        t1_us: bytes::le64(b, 0),
                        t2_us: bytes::le64(b, 8),
                        t3_us: bytes::le64(b, 16),
                    },
                ),
            )
        },
        PacketType::StreamConfig => if b.len() < STREAM_CONFIG_SIZE {
            Err(WireError::Truncated)
        } else {
            Ok(ControlMessageView::StreamConfig(stream_config_at(b, 0)))
        },
        PacketType::InputEvent => if b.len() < INPUT_EVENT_SIZE {
            Err(WireError::Truncated)
        } else {
            Ok(ControlMessageView::InputEvent(input_event_of(b)))
        },
        PacketType::Media | PacketType::MediaFec | PacketType::Error => Err(
            WireError::InvalidField("packet_type"),
        ),
    }
}

/// The control header that the fields of a datagram spell.
pub open spec fn control_header_of(d: Seq<u8>) -> ControlHeader {
    ControlHeader {
        packet_type: v2::packet_type_from(d[3]),
        session_id: bytes::le32(d, 8),
        msg_seq: bytes::le32(d, 12),
    }
}

/// What a control datagram holds, or why it is rejected.
pub open spec fn parsed(d: Seq<u8>) -> Result<(ControlHeader, ControlMessageView), WireError> {
    if v2::prefix_error(d) is Some {
        Err(v2::prefix_error(d)->0)
    } else if d.len() < CONTROL_HEADER_SIZE {
        Err(WireError::Truncated)
    } else if bytes::le16(d, 6) != d.len() - CONTROL_HEADER_SIZE {
        Err(WireError::LengthMismatch)
    } else {
        match parse_body(v2::packet_type_from(d[3]), d.skip(CONTROL_HEADER_SIZE as int)) {
            Err(e) => Err(e),
            Ok(m) => Ok((control_header_of(d), m)),
        }
    }
}

/// What an executable parse must agree with.
pub open spec fn same_parse<H>(
    r: Result<(H, ControlMessage), WireError>,
    want: Result<(H, ControlMessageView), WireError>,
) -> bool {
    match r {
        Ok((h, m)) => want == Ok::<(H, ControlMessageView), WireError>((h, m@)),
        Err(e) => want == Err::<(H, ControlMessageView), WireError>(e),
    }
}

/// What an executable body parse must agree with.
pub open spec fn same_body(
    r: Result<ControlMessage, WireError>,
    want: Result<ControlMessageView, WireError>,
) -> bool {
    match r {
        Ok(m) => want == Ok::<ControlMessageView, WireError>(m@),
        Err(e) => want == Err::<ControlMessageView, WireError>(e),
    }
}

fn get_stream_config(b: &[u8], at: usize) -> (c: StreamConfig)
    requires
        at + 16 <= b@.len(),
    ensures
        c == stream_config_at(b@, at as int),
{
    assert(b@.len() == b.len());
    StreamConfig {
        stream_epoch: get_u32(b, at),
        width: get_u16(b, at + 4),
        height: get_u16(b, at + 6),
        fps: get_u16(b, at + 8),
        codec: b[at + 10],
        flags: b[at + 11],
        bitrate_bps: get_u32(b, at + 12),
    }
}

fn get_name(b: &[u8], at: usize) -> (r: Result<String, WireError>)
    requires
        at <= 32,
    ensures
        match r {
            Ok(name) => name_at(b@, at as int) == Ok::<Seq<char>, WireError>(name@),
            Err(e) => name_at(b@, at as int) == Err::<Seq<char>, WireError>(e),
        },
{
    if b.len() <= at {
        return Err(WireError::Truncated);
    }
    let len: usize = b[at] as usize;
    if len > MAX_NAME_LEN {
        return Err(WireError::InvalidField("name_len"));
    }
    if b.len() - at - 1 < len {
        return Err(WireError::Truncated);
    }
    let name = slice_to_vec(slice_subrange(b, at + 1, at + 1 + len));
    match string_from_utf8(name) {
        Some(s) => Ok(s),
        None => Err(WireError::InvalidField("name_utf8")),
    }
}

fn decode_hello2(b: &[u8]) -> (r: Result<ControlMessage, WireError>)
    ensures
        same_body(r, parse_hello2(b@)),
{
    if b.len() < 21 {
        return Err(WireError::Truncated);
    }
    let device_name = match get_name(b, 21) {
        Ok(name) => name,
        Err(e) => return Err(e),
    };
    if b[0] > b[1] {
        return Err(WireError::InvalidField("proto_range"));
    }
    Ok(
        ControlMessage::Hello2(
            Hello2 {
                proto_min: b[0],
                proto_max: b[1],
                client_nonce: get_u32(b, 2),
                listen_port: get_u16(b, 6),
                decoder_caps: get_u16(b, 8),
                feature_caps: get_u16(b, 10),
                screen_px_w: get_u16(b, 12),
                screen_px_h: get_u16(b, 14),
                screen_pt_w: get_u16(b, 16),
                screen_pt_h: get_u16(b, 18),
                refresh_hz: b[20],
                device_name,
            },
        ),
    )
}

fn decode_hello_ack(b: &[u8]) -> (r: Result<ControlMessage, WireError>)
    ensures
        same_body(r, parse_hello_ack(b@)),
{
    if b.len() < 1 {
        return Err(WireError::Truncated);
    }
    let status = match HelloStatus::from_u8(b[0]) {
        Some(status) => status,
        None => return Err(WireError::InvalidField("status")),
    };
    if b.len() < 32 {
        return Err(WireError::Truncated);
    }
    let host_name = match get_name(b, 32) {
        Ok(name) => name,
        Err(e) => return Err(e),
    };
    let session_id: u32 = get_u32(b, 6);
    if (status == HelloStatus::Accepted) != (session_id != 0) {
        return Err(WireError::InvalidField("session_id"));
    }
    Ok(
        ControlMessage::HelloAck(
            HelloAck {
                status,
                accepted_version: b[1],
                client_nonce: get_u32(b, 2),
                session_id,
                heartbeat_interval_ms: get_u16(b, 10),
                report_interval_ms: get_u16(b, 12),
                liveness_timeout_ms: get_u16(b, 14),
                stream_config: get_stream_config(b, 16),
                host_name,
            },
        ),
    )
}

fn decode_receiver_report(b: &[u8]) -> (r: ReceiverReport)
    requires
        b@.len() >= RECEIVER_REPORT_SIZE,
    ensures
        r == receiver_report_of(b@),
{
    ReceiverReport {
        stream_epoch: get_u32(b, 0),
        highest_seq: get_u32(b, 4),
        frames_complete: get_u32(b, 8),
        frames_dropped: get_u32(b, 12),
        frags_received: get_u32(b, 16),
        frags_lost: get_u32(b, 20),
        jitter_us: get_u32(b, 24),
        decode_fps_x10: get_u16(b, 28),
        assembler_depth: b[30],
        decode_depth: b[31],
        e2e_latency_ms_x10: get_u16(b, 32),
        rtt_ms_x10: get_u16(b, 34),
    }
}

fn decode_input_event(b: &[u8]) -> (e: InputEvent)
    requires
        b@.len() >= INPUT_EVENT_SIZE,
    ensures
        e == input_event_of(b@),
{
    InputEvent {
        input_ver: b[0],
        kind: b[1],
        phase: b[2],
        buttons: b[3],
        event_id: get_u32(b, 4),
        x_norm: get_u16(b, 8),
        y_norm: get_u16(b, 10),
        pressure_x1000: get_u16(b, 12),
        scroll_dx: to_signed16(get_u16(b, 14)),
        scroll_dy: to_signed16(get_u16(b, 16)),
        keycode: get_u16(b, 18),
        modifiers: b[20],
        client_time_us: get_u64(b, 22),
    }
}

fn decode_body(t: PacketType, b: &[u8]) -> (r: Result<ControlMessage, WireError>)
    ensures
        same_body(r, parse_body(t, b@)),
{
    match t {
        PacketType::Hello2 => decode_hello2(b),
        PacketType::HelloAck => decode_hello_ack(b),
        PacketType::Heartbeat => {
            if b.len() < 24 {
                return Err(WireError::Truncated);
            }
            Ok(
                ControlMessage::Heartbeat(
                    Heartbeat {
                        host_time_us: get_u64(b, 0),
                        stream_config: get_stream_config(b, 8),
                    },
                ),
            )
        },
        PacketType::Bye => {
            if b.len() < 1 {
                return Err(WireError::Truncated);
            }
            match ByeReason::from_u8(b[0]) {
                Some(reason) => Ok(ControlMessage::Bye(reason)),
                None => Err(WireError::InvalidField("bye_reason")),
            }
        },
        PacketType::KeyframeRequest => {
            if b.len() < 9 {
                return Err(WireError::Truncated);
            }
            match KeyframeReason::from_u8(b[8]) {
                Some(reason) => Ok(
                    ControlMessage::KeyframeRequest(
                        KeyframeRequest {
                            stream_epoch: get_u32(b, 0),
                            last_complete_seq: get_u32(b, 4),
                            reason,
                        },
                    ),
                ),
                None => Err(WireError::InvalidField("keyframe_reason")),
            }
        },
        PacketType::ReceiverReport => {
            if b.len() < RECEIVER_REPORT_SIZE {
                return Err(WireError::Truncated);
            }
            Ok(ControlMessage::ReceiverReport(decode_receiver_report(b)))
        },
        PacketType::Ping => {
            if b.len() < 8 {
                return Err(WireError::Truncated);
            }
            Ok(ControlMessage::Ping(Ping { t1_us: get_u64(b, 0) }))
        },
        PacketType::Pong => {
            if b.len() < 24 {
                return Err(WireError::Truncated);
            }
            Ok(
                ControlMessage::Pong(
                    Pong {
                        t1_us: get_u64(b, 0),
                        t2_us: get_u64(b, 8),
                        t3_us: get_u64(b, 16),
                    },
                ),
            )
        },
        PacketType::StreamConfig => {
            if b.len() < STREAM_CONFIG_SIZE {
                return Err(WireError::Truncated);
            }
            Ok(ControlMessage::StreamConfig(get_stream_config(b, 0)))
        },
        PacketType::InputEvent => {
            if b.len() < INPUT_EVENT_SIZE {
                return Err(WireError::Truncated);
            }
            Ok(ControlMessage::InputEvent(decode_input_event(b)))
        },
        PacketType::Media | PacketType::MediaFec | PacketType::Error => Err(
            WireError::InvalidField("packet_type"),
        ),
    }
}

/// Parses one control datagram. Enforces that the length field covers the rest
/// of the datagram and every field-level rule, and ignores body bytes behind
/// the fields that it knows.
pub fn parse_control(datagram: &[u8]) -> (r: Result<(ControlHeader, ControlMessage), WireError>)
    ensures
        same_parse(r, parsed(datagram@)),
{
    let prefix = match CommonPrefix::decode(datagram) {
        Ok(prefix) => prefix,
        Err(e) => return Err(e),
    };
    if datagram.len() < CONTROL_HEADER_SIZE {
        return Err(WireError::Truncated);
    }
    if prefix.payload_len as usize != datagram.len() - CONTROL_HEADER_SIZE {
        return Err(WireError::LengthMismatch);
    }
    proof {
        v2::packet_type_from_is_inverse(prefix.packet_type);
    }
    let header = ControlHeader {
        packet_type: prefix.packet_type,
        session_id: get_u32(datagram, 8),
        msg_seq: get_u32(datagram, 12),
    };
    let body = slice_subrange(datagram, CONTROL_HEADER_SIZE, datagram.len());
    assert(body@ =~= datagram@.skip(CONTROL_HEADER_SIZE as int));
    match decode_body(prefix.packet_type, body) {
        Ok(message) => Ok((header, message)),
        Err(e) => Err(e),
    }
}

// ---- laws ------------------------------------------------------------------

/// What the protocol demands of a message.
pub open spec fn message_ok(m: ControlMessageView) -> bool {
    match m {
        ControlMessageView::Hello2(h) => h.proto_min <= h.proto_max,
        ControlMessageView::HelloAck(a) => (a.status == HelloStatus::Accepted) == (a.session_id
            != 0),
        _ => true,
    }
}

/// A message as the receiver sees it: names are cut to what travels.
pub open spec fn on_wire(m: ControlMessageView) -> ControlMessageView {
    match m {
        ControlMessageView::Hello2(h) => ControlMessageView::Hello2(
            Hello2View { device_name: name_on_wire(h.device_name), ..h },
        ),
        ControlMessageView::HelloAck(a) => ControlMessageView::HelloAck(
            HelloAckView { host_name: name_on_wire(a.host_name), ..a },
        ),
        other => other,
    }
}

/// Whether the names of a message fit the wire.
pub open spec fn names_fit(m: ControlMessageView) -> bool {
    match m {
        ControlMessageView::Hello2(h) => vstd::utf8::encode_utf8(h.device_name).len()
            <= MAX_NAME_LEN,
        ControlMessageView::HelloAck(a) => vstd::utf8::encode_utf8(a.host_name).len()
            <= MAX_NAME_LEN,
        _ => true,
    }
}

/// A message whose names fit arrives as it was sent.
pub proof fn fitting_messages_travel_unchanged(m: ControlMessageView)
    requires
        names_fit(m),
    ensures
        on_wire(m) == m,
{
    match m {
        ControlMessageView::Hello2(h) => name_bytes_are_valid(h.device_name),
        ControlMessageView::HelloAck(a) => name_bytes_are_valid(a.host_name),
        _ => {},
    }
}

proof fn stream_config_reads_back(b: Seq<u8>, at: int, c: StreamConfig)
    requires
        0 <= at,
        at + 16 <= b.len(),
        b.subrange(at, at + 16) == stream_config_bytes(c),
    ensures
        stream_config_at(b, at) == c,
{
    let w = b.subrange(at, at + 16);
    assert(b.subrange(at, at + 4) =~= w.subrange(0, 4));
    assert(b.subrange(at + 4, at + 6) =~= w.subrange(4, 6));
    assert(b.subrange(at + 6, at + 8) =~= w.subrange(6, 8));
    assert(b.subrange(at + 8, at + 10) =~= w.subrange(8, 10));
    assert(b.subrange(at + 12, at + 16) =~= w.subrange(12, 16));
    assert(w.subrange(0, 4) =~= bytes::bytes32(c.stream_epoch));
    assert(w.subrange(4, 6) =~= bytes::bytes16(c.width));
    assert(w.subrange(6, 8) =~= bytes::bytes16(c.height));
    assert(w.subrange(8, 10) =~= bytes::bytes16(c.fps));
    assert(w.subrange(12, 16) =~= bytes::bytes32(c.bitrate_bps));
    assert(w[10] == b[at + 10] && w[11] == b[at + 11]);
    bytes::le32_reads_bytes32(b, at, c.stream_epoch);
    bytes::le16_reads_bytes16(b, at + 4, c.width);
    bytes::le16_reads_bytes16(b, at + 6, c.height);
    bytes::le16_reads_bytes16(b, at + 8, c.fps);
    bytes::le32_reads_bytes32(b, at + 12, c.bitrate_bps);
}

proof fn name_reads_back(b: Seq<u8>, at: int, name: Seq<char>)
    requires
        0 <= at <= b.len(),
        b.skip(at) == counted_name(name),
    ensures
        name_at(b, at) == Ok::<Seq<char>, WireError>(name_on_wire(name)),
{
    name_bytes_are_valid(name);
    let w = b.skip(at);
    assert(w.len() == 1 + name_bytes(name).len());
    assert(w[0] == b[at]);
    assert(b.subrange(at + 1, at + 1 + b[at]) =~= w.subrange(1, w.len() as int));
    assert(w.subrange(1, w.len() as int) =~= name_bytes(name));
}

proof fn hello2_reads_back(h: Hello2View)
    requires
        h.proto_min <= h.proto_max,
    ensures
        parse_hello2(hello2_bytes(h)) == Ok::<ControlMessageView, WireError>(
            on_wire(ControlMessageView::Hello2(h)),
        ),
{
    let b = hello2_bytes(h);
    assert(b.subrange(2, 6) =~= bytes::bytes32(h.client_nonce));
    assert(b.subrange(6, 8) =~= bytes::bytes16(h.listen_port));
    assert(b.subrange(8, 10) =~= bytes::bytes16(h.decoder_caps));
    assert(b.subrange(10, 12) =~= bytes::bytes16(h.feature_caps));
    assert(b.subrange(12, 14) =~= bytes::bytes16(h.screen_px_w));
    assert(b.subrange(14, 16) =~= bytes::bytes16(h.screen_px_h));
    assert(b.subrange(16, 18) =~= bytes::bytes16(h.screen_pt_w));
    assert(b.subrange(18, 20) =~= bytes::bytes16(h.screen_pt_h));
    assert(b.skip(21) =~= counted_name(h.device_name));
    bytes::le32_reads_bytes32(b, 2, h.client_nonce);
    bytes::le16_reads_bytes16(b, 6, h.listen_port);
    bytes::le16_reads_bytes16(b, 8, h.decoder_caps);
    bytes::le16_reads_bytes16(b, 10, h.feature_caps);
    bytes::le16_reads_bytes16(b, 12, h.screen_px_w);
    bytes::le16_reads_bytes16(b, 14, h.screen_px_h);
    bytes::le16_reads_bytes16(b, 16, h.screen_pt_w);
    bytes::le16_reads_bytes16(b, 18, h.screen_pt_h);
    name_reads_back(b, 21, h.device_name);
}

proof fn stream_config_length(c: StreamConfig)
    ensures
        stream_config_bytes(c).len() == STREAM_CONFIG_SIZE,
{
}

proof fn hello_ack_head_reads_back(a: HelloAckView)
    ensures
        ({
            let head = hello_ack_head(a);
            &&& head.len() == 16
            &&& head[0] == hello_status_byte(a.status)
            &&& head[1] == a.accepted_version
            &&& head.subrange(2, 6) == bytes::bytes32(a.client_nonce)
            &&& head.subrange(6, 10) == bytes::bytes32(a.session_id)
            &&& head.subrange(10, 12) == bytes::bytes16(a.heartbeat_interval_ms)
            &&& head.subrange(12, 14) == bytes::bytes16(a.report_interval_ms)
            &&& head.subrange(14, 16) == bytes::bytes16(a.liveness_timeout_ms)
        }),
{
    let head = hello_ack_head(a);
    assert(head.subrange(2, 6) =~= bytes::bytes32(a.client_nonce));
    assert(head.subrange(6, 10) =~= bytes::bytes32(a.session_id));
    assert(head.subrange(10, 12) =~= bytes::bytes16(a.heartbeat_interval_ms));
    assert(head.subrange(12, 14) =~= bytes::bytes16(a.report_interval_ms));
    assert(head.subrange(14, 16) =~= bytes::bytes16(a.liveness_timeout_ms));
}

proof fn hello_ack_reads_back(a: HelloAckView)
    requires
        (a.status == HelloStatus::Accepted) == (a.session_id != 0),
    ensures
        parse_hello_ack(hello_ack_bytes(a)) == Ok::<ControlMessageView, WireError>(
            on_wire(ControlMessageView::HelloAck(a)),
        ),
{
    let b = hello_ack_bytes(a);
    hello_ack_head_reads_back(a);
    stream_config_length(a.stream_config);
    let head = hello_ack_head(a);
    assert(b.subrange(0, 16) =~= head);
    assert(b[0] == head[0] && b[1] == head[1]);
    assert(b.subrange(2, 6) =~= head.subrange(2, 6));
    assert(b.subrange(6, 10) =~= head.subrange(6, 10));
    assert(b.subrange(10, 12) =~= head.subrange(10, 12));
    assert(b.subrange(12, 14) =~= head.subrange(12, 14));
    assert(b.subrange(14, 16) =~= head.subrange(14, 16));
    assert(b.subrange(16, 32) =~= stream_config_bytes(a.stream_config));
    assert(b.skip(32) =~= counted_name(a.host_name));
    bytes::le32_reads_bytes32(b, 2, a.client_nonce);
    bytes::le32_reads_bytes32(b, 6, a.session_id);
    bytes::le16_reads_bytes16(b, 10, a.heartbeat_interval_ms);
    bytes::le16_reads_bytes16(b, 12, a.report_interval_ms);
    bytes::le16_reads_bytes16(b, 14, a.liveness_timeout_ms);
    stream_config_reads_back(b, 16, a.stream_config);
    name_reads_back(b, 32, a.host_name);
}

proof fn receiver_report_reads_back(r: ReceiverReport)
    ensures
        receiver_report_bytes(r).len() == RECEIVER_REPORT_SIZE,
        receiver_report_of(receiver_report_bytes(r)) == r,
{
    let b = receiver_report_bytes(r);
    assert(b.subrange(0, 4) =~= bytes::bytes32(r.stream_epoch));
    assert(b.subrange(4, 8) =~= bytes::bytes32(r.highest_seq));
    assert(b.subrange(8, 12) =~= bytes::bytes32(r.frames_complete));
    assert(b.subrange(12, 16) =~= bytes::bytes32(r.frames_dropped));
    assert(b.subrange(16, 20) =~= bytes::bytes32(r.frags_received));
    assert(b.subrange(20, 24) =~= bytes::bytes32(r.frags_lost));
    assert(b.subrange(24, 28) =~= bytes::bytes32(r.jitter_us));
    assert(b.subrange(28, 30) =~= bytes::bytes16(r.decode_fps_x10));
    assert(b.subrange(32, 34) =~= bytes::bytes16(r.e2e_latency_ms_x10));
    assert(b.subrange(34, 36) =~= bytes::bytes16(r.rtt_ms_x10));
    bytes::le32_reads_bytes32(b, 0, r.stream_epoch);
    bytes::le32_reads_bytes32(b, 4, r.highest_seq);
    bytes::le32_reads_bytes32(b, 8, r.frames_complete);
    bytes::le32_reads_bytes32(b, 12, r.frames_dropped);
    bytes::le32_reads_bytes32(b, 16, r.frags_received);
    bytes::le32_reads_bytes32(b, 20, r.frags_lost);
    bytes::le32_reads_bytes32(b, 24, r.jitter_us);
    bytes::le16_reads_bytes16(b, 28, r.decode_fps_x10);
    bytes::le16_reads_bytes16(b, 32, r.e2e_latency_ms_x10);
    bytes::le16_reads_bytes16(b, 34, r.rtt_ms_x10);
}

proof fn input_event_reads_back(e: InputEvent)
    ensures
        input_event_bytes(e).len() == INPUT_EVENT_SIZE,
        input_event_of(input_event_bytes(e)) == e,
{
    let b = input_event_bytes(e);
    assert(b.subrange(4, 8) =~= bytes::bytes32(e.event_id));
    assert(b.subrange(8, 10) =~= bytes::bytes16(e.x_norm));
    assert(b.subrange(10, 12) =~= bytes::bytes16(e.y_norm));
    assert(b.subrange(12, 14) =~= bytes::bytes16(e.pressure_x1000));
    assert(b.subrange(14, 16) =~= bytes::bytes16(bytes::unsigned16(e.scroll_dx)));
    assert(b.subrange(16, 18) =~= bytes::bytes16(bytes::unsigned16(e.scroll_dy)));
    assert(b.subrange(18, 20) =~= bytes::bytes16(e.keycode));
    assert(b.subrange(22, 30) =~= bytes::bytes64(e.client_time_us));
    bytes::le32_reads_bytes32(b, 4, e.event_id);
    bytes::le16_reads_bytes16(b, 8, e.x_norm);
    bytes::le16_reads_bytes16(b, 10, e.y_norm);
    bytes::le16_reads_bytes16(b, 12, e.pressure_x1000);
    bytes::le16_reads_bytes16(b, 14, bytes::unsigned16(e.scroll_dx));
    bytes::le16_reads_bytes16(b, 16, bytes::unsigned16(e.scroll_dy));
    bytes::le16_reads_bytes16(b, 18, e.keycode);
    bytes::le64_reads_bytes64(b, 22, e.client_time_us);
}

proof fn heartbeat_reads_back(h: Heartbeat)
    ensures
        parse_body(
            PacketType::Heartbeat,
            bytes::bytes64(h.host_time_us) + stream_config_bytes(h.stream_config),
        ) == Ok::<ControlMessageView, WireError>(ControlMessageView::Heartbeat(h)),
{
    let b = bytes::bytes64(h.host_time_us) + stream_config_bytes(h.stream_config);
    stream_config_length(h.stream_config);
    assert(b.subrange(0, 8) =~= bytes::bytes64(h.host_time_us));
    assert(b.subrange(8, 24) =~= stream_config_bytes(h.stream_config));
    bytes::le64_reads_bytes64(b, 0, h.host_time_us);
    stream_config_reads_back(b, 8, h.stream_config);
}

proof fn keyframe_request_reads_back(k: KeyframeRequest)
    ensures
        parse_body(
            PacketType::KeyframeRequest,
            control_body(ControlMessageView::KeyframeRequest(k)),
        ) == Ok::<ControlMessageView, WireError>(ControlMessageView::KeyframeRequest(k)),
{
    let b = control_body(ControlMessageView::KeyframeRequest(k));
    assert(b.subrange(0, 4) =~= bytes::bytes32(k.stream_epoch));
    assert(b.subrange(4, 8) =~= bytes::bytes32(k.last_complete_seq));
    bytes::le32_reads_bytes32(b, 0, k.stream_epoch);
    bytes::le32_reads_bytes32(b, 4, k.last_complete_seq);
    assert(b[8] == keyframe_reason_byte(k.reason));
}

proof fn ping_reads_back(p: Ping)
    ensures
        parse_body(PacketType::Ping, bytes::bytes64(p.t1_us)) == Ok::<
            ControlMessageView,
            WireError,
        >(ControlMessageView::Ping(p)),
{
    let b = bytes::bytes64(p.t1_us);
    assert(b.subrange(0, 8) =~= b);
    bytes::le64_reads_bytes64(b, 0, p.t1_us);
}

proof fn pong_reads_back(p: Pong)
    ensures
        parse_body(
            PacketType::Pong,
            bytes::bytes64(p.t1_us) + bytes::bytes64(p.t2_us) + bytes::bytes64(p.t3_us),
        ) == Ok::<ControlMessageView, WireError>(ControlMessageView::Pong(p)),
{
    let b = bytes::bytes64(p.t1_us) + bytes::bytes64(p.t2_us) + bytes::bytes64(p.t3_us);
    assert(b.subrange(0, 8) =~= bytes::bytes64(p.t1_us));
    assert(b.subrange(8, 16) =~= bytes::bytes64(p.t2_us));
    assert(b.subrange(16, 24) =~= bytes::bytes64(p.t3_us));
    bytes::le64_reads_bytes64(b, 0, p.t1_us);
    bytes::le64_reads_bytes64(b, 8, p.t2_us);
    bytes::le64_reads_bytes64(b, 16, p.t3_us);
}

proof fn stream_config_message_reads_back(c: StreamConfig)
    ensures
        parse_body(PacketType::StreamConfig, stream_config_bytes(c)) == Ok::<
            ControlMessageView,
            WireError,
        >(ControlMessageView::StreamConfig(c)),
{
    let b = stream_config_bytes(c);
    stream_config_length(c);
    assert(b.subrange(0, 16) =~= b);
    stream_config_reads_back(b, 0, c);
}

proof fn body_reads_back(m: ControlMessageView)
    requires
        message_ok(m),
    ensures
        parse_body(message_type(m), control_body(m)) == Ok::<ControlMessageView, WireError>(
            on_wire(m),
        ),
{
    match m {
        ControlMessageView::Hello2(h) => hello2_reads_back(h),
        ControlMessageView::HelloAck(a) => hello_ack_reads_back(a),
        ControlMessageView::Heartbeat(h) => heartbeat_reads_back(h),
        ControlMessageView::Bye(r) => {},
        ControlMessageView::KeyframeRequest(k) => keyframe_request_reads_back(k),
        ControlMessageView::ReceiverReport(r) => receiver_report_reads_back(r),
        ControlMessageView::Ping(p) => ping_reads_back(p),
        ControlMessageView::Pong(p) => pong_reads_back(p),
        ControlMessageView::StreamConfig(c) => stream_config_message_reads_back(c),
        ControlMessageView::InputEvent(e) => input_event_reads_back(e),
    }
}

/// A framed body is found again behind its header.
proof fn frame_reads_back(t: PacketType, session_id: u32, msg_seq: u32, body: Seq<u8>)
    requires
        body.len() <= 0xFFFF,
    ensures
        v2::prefix_error(control_frame(t, session_id, msg_seq, body)) is None,
        control_frame(t, session_id, msg_seq, body).len() == CONTROL_HEADER_SIZE + body.len(),
        bytes::le16(control_frame(t, session_id, msg_seq, body), 6) == body.len(),
        control_header_of(control_frame(t, session_id, msg_seq, body)) == (ControlHeader {
            packet_type: t,
            session_id,
            msg_seq,
        }),
        control_frame(t, session_id, msg_seq, body).skip(CONTROL_HEADER_SIZE as int) == body,
{
    let d = control_frame(t, session_id, msg_seq, body);
    let p = CommonPrefix { packet_type: t, flags: 0, payload_len: body.len() as u16 };
    assert(d =~= v2::prefix_bytes(p) + d.skip(8));
    v2::prefix_round_trip(p, d.skip(8));
    v2::packet_type_from_is_inverse(t);
    assert(d.subrange(8, 12) =~= bytes::bytes32(session_id));
    assert(d.subrange(12, 16) =~= bytes::bytes32(msg_seq));
    bytes::le32_reads_bytes32(d, 8, session_id);
    bytes::le32_reads_bytes32(d, 12, msg_seq);
    assert(d.skip(CONTROL_HEADER_SIZE as int) =~= body);
}

/// Parsing an encoded message gives the message back, with the session id and
/// sequence number it was sent under; names longer than the wire allows arrive
/// cut at a character boundary.
pub proof fn control_round_trip(session_id: u32, msg_seq: u32, m: ControlMessageView)
    requires
        message_ok(m),
    ensures
        parsed(control_datagram(session_id, msg_seq, m)) == Ok::<
            (ControlHeader, ControlMessageView),
            WireError,
        >((ControlHeader { packet_type: message_type(m), session_id, msg_seq }, on_wire(m))),
{
    control_body_is_short(m);
    frame_reads_back(message_type(m), session_id, msg_seq, control_body(m));
    body_reads_back(m);
}

/// A message that breaks the protocol's rules is encoded all the same, and
/// rejected by every parser.
pub proof fn forbidden_messages_are_rejected(session_id: u32, msg_seq: u32, m: ControlMessageView)
    requires
        !message_ok(m),
    ensures
        parsed(control_datagram(session_id, msg_seq, m)) is Err,
{
    control_body_is_short(m);
    frame_reads_back(message_type(m), session_id, msg_seq, control_body(m));
    match m {
        ControlMessageView::Hello2(h) => {
            reversed_range_is_rejected(h);
        },
        ControlMessageView::HelloAck(a) => {
            misplaced_session_id_is_rejected(a);
        },
        _ => {},
    }
}

proof fn reversed_range_is_rejected(h: Hello2View)
    requires
        h.proto_min > h.proto_max,
    ensures
        parse_hello2(hello2_bytes(h)) is Err,
{
    let b = hello2_bytes(h);
    assert(b[0] == h.proto_min && b[1] == h.proto_max);
}

proof fn misplaced_session_id_is_rejected(a: HelloAckView)
    requires
        (a.status == HelloStatus::Accepted) != (a.session_id != 0),
    ensures
        parse_hello_ack(hello_ack_bytes(a)) is Err,
{
    let b = hello_ack_bytes(a);
    let head = hello_ack_head(a);
    hello_ack_head_reads_back(a);
    assert(b[0] == head[0]);
    assert(b.subrange(6, 10) =~= head.subrange(6, 10));
    bytes::le32_reads_bytes32(b, 6, a.session_id);
}

/// No proper prefix of an encoded message parses.
pub proof fn truncations_are_rejected(
    session_id: u32,
    msg_seq: u32,
    m: ControlMessageView,
    len: int,
)
    requires
        0 <= len < control_datagram(session_id, msg_seq, m).len(),
    ensures
        parsed(control_datagram(session_id, msg_seq, m).take(len)) is Err,
{
    control_body_is_short(m);
    frame_reads_back(message_type(m), session_id, msg_seq, control_body(m));
    let d = control_datagram(session_id, msg_seq, m);
    let cut = d.take(len);
    if len >= 8 {
        assert(cut[6] == d[6] && cut[7] == d[7]);
        assert(bytes::le16(cut, 6) == bytes::le16(d, 6));
    }
}

/// Bytes appended to a body, with the length field raised to cover them, are
/// ignored.
pub proof fn trailing_bytes_are_ignored(
    t: PacketType,
    session_id: u32,
    msg_seq: u32,
    body: Seq<u8>,
    extra: Seq<u8>,
)
    requires
        body.len() + extra.len() <= 0xFFFF,
        parsed(control_frame(t, session_id, msg_seq, body)) is Ok,
    ensures
        parsed(control_frame(t, session_id, msg_seq, body + extra)) == parsed(
            control_frame(t, session_id, msg_seq, body),
        ),
{
    frame_reads_back(t, session_id, msg_seq, body);
    frame_reads_back(t, session_id, msg_seq, body + extra);
    extended_body_parses_alike(t, body, extra);
}

proof fn extended_name_reads_alike(body: Seq<u8>, extra: Seq<u8>, at: int)
    requires
        0 <= at,
        name_at(body, at) is Ok,
    ensures
        name_at(body + extra, at) == name_at(body, at),
{
    let long = body + extra;
    assert(long[at] == body[at]);
    assert(long.subrange(at + 1, at + 1 + body[at]) =~= body.subrange(at + 1, at + 1 + body[at]));
}

proof fn extended_body_parses_alike(t: PacketType, body: Seq<u8>, extra: Seq<u8>)
    requires
        parse_body(t, body) is Ok,
    ensures
        parse_body(t, body + extra) == parse_body(t, body),
{
    let long = body + extra;
    assert forall|i: int| 0 <= i < body.len() implies long[i] == body[i] by {}
    match t {
        PacketType::Hello2 => {
            extended_name_reads_alike(body, extra, 21);
            assert(parse_hello2(long) == parse_hello2(body));
        },
        PacketType::HelloAck => {
            extended_name_reads_alike(body, extra, 32);
            assert(stream_config_at(long, 16) == stream_config_at(body, 16));
            assert(parse_hello_ack(long) == parse_hello_ack(body));
        },
        PacketType::Heartbeat => {
            assert(stream_config_at(long, 8) == stream_config_at(body, 8));
        },
        PacketType::StreamConfig => {
            assert(stream_config_at(long, 0) == stream_config_at(body, 0));
        },
        PacketType::ReceiverReport => {
            assert(receiver_report_of(long) == receiver_report_of(body));
        },
        PacketType::InputEvent => {
            assert(input_event_of(long) == input_event_of(body));
        },
        _ => {},
    }
}

/// A name that does not fit is cut behind the last character that fits, and no
/// earlier.
pub proof fn names_are_cut_no_more_than_needed(name: Seq<char>, cut: int)
    requires
        vstd::utf8::encode_utf8(name).len() > MAX_NAME_LEN,
        name_bytes(name).len() < cut <= MAX_NAME_LEN,
    ensures
        !vstd::utf8::is_char_boundary(vstd::utf8::encode_utf8(name), cut),
{
    let b = vstd::utf8::encode_utf8(name);
    vstd::utf8::encode_utf8_valid_utf8(name);
    boundary_below_bounds(b, MAX_NAME_LEN as int);
    no_boundary_between(b, MAX_NAME_LEN as int, cut);
}

proof fn no_boundary_between(b: Seq<u8>, end: int, cut: int)
    requires
        boundary_below(b, end) < cut <= end,
    ensures
        !vstd::utf8::is_char_boundary(b, cut),
    decreases end,
{
    if end > 0 && !vstd::utf8::is_char_boundary(b, end) && cut < end {
        no_boundary_between(b, end - 1, cut);
    }
}

/// What is encoded as a control message is routed as one: it starts with the
/// protocol's prefix for its type, and is neither media nor a version 1 hello.
pub proof fn own_messages_are_routed_as_control(session_id: u32, msg_seq: u32, m: ControlMessageView)
    ensures
        ({
            let d = control_datagram(session_id, msg_seq, m);
            &&& v2::prefix_error(d) is None
            &&& d[3] == v2::packet_type_byte(message_type(m))
            &&& d[3] >= 0x10
            &&& !v2::is_legacy_hello(d)
        }),
{
    control_body_is_short(m);
    let t = message_type(m);
    let d = control_datagram(session_id, msg_seq, m);
    frame_reads_back(t, session_id, msg_seq, control_body(m));
    if v2::is_legacy_hello(d) {
        v2::versions_are_told_apart(d);
    }
}

} // verus!
