//! What the parts of the host share: settings in force, the client session,
//! and the commands to the supervisor.

use vstd::prelude::*;

use crate::host::input::CaptureGeometry;
use crate::host::transport::session;
use crate::host::transport::session::{HostIp, PeerAddr, Session};
use crate::text::same_text;
use crate::wire::v2::control::CODEC_H264;

verus! {

pub const DEFAULT_TARGET_FPS: u32 = 60;

/// Runtime state of the managed virtual extended display.
#[derive(Debug, Clone, Copy, PartialEq, Eq, Structural)]
pub enum VddStatus {
    /// Not using the managed virtual display (mirroring or a real output).
    Inactive,
    /// Requested, but off because no client has connected: an idle machine
    /// shows no phantom monitor.
    WaitingForClient,
    /// Enabled and being captured.
    Active,
    /// Requested, but it could not be enabled or did not attach: capture fell
    /// back to the primary display.
    Failed,
}

/// Which display output is captured.
#[derive(Debug, Clone, PartialEq, Eq)]
pub enum CaptureTarget {
    /// The primary desktop output. Default.
    PrimaryAuto,
    /// The output with this device name.
    Output(String),
    /// The managed virtual extended display, enabled on demand.
    VirtualExtended,
}

/// A [`CaptureTarget`] with its name as a sequence of characters.
#[verifier::ext_equal]
pub enum Target {
    PrimaryAuto,
    Output(Seq<char>),
    VirtualExtended,
}

impl View for CaptureTarget {
    type V = Target;

    open spec fn view(&self) -> Target {
        match self {
            CaptureTarget::PrimaryAuto => Target::PrimaryAuto,
            CaptureTarget::Output(name) => Target::Output(name@),
            CaptureTarget::VirtualExtended => Target::VirtualExtended,
        }
    }
}

/// The setting that means the managed virtual display.
pub const CAPTURE_VIRTUAL_SENTINEL: &'static str = "virtual";

/// The target that a setting stands for.
pub open spec fn target_of(setting: Option<Seq<char>>) -> Target {
    match setting {
        None => Target::PrimaryAuto,
        Some(s) => if s == CAPTURE_VIRTUAL_SENTINEL@ {
            Target::VirtualExtended
        } else if s.len() > 0 {
            Target::Output(s)
        } else {
            Target::PrimaryAuto
        },
    }
}

/// The characters of an optional string.
pub open spec fn chars_of(s: Option<&str>) -> Option<Seq<char>> {
    match s {
        Some(t) => Some(t@),
        None => None,
    }
}

impl CaptureTarget {
    /// Maps the persisted setting to a target.
    pub fn from_setting(setting: Option<&str>) -> (target: CaptureTarget)
        ensures
            target@ == target_of(chars_of(setting)),
    {
        match setting {
            Some(s) => {
                if same_text(s, CAPTURE_VIRTUAL_SENTINEL) {
                    CaptureTarget::VirtualExtended
                } else if !s.is_empty() {
                    CaptureTarget::Output(s.to_owned())
                } else {
                    CaptureTarget::PrimaryAuto
                }
            },
            None => CaptureTarget::PrimaryAuto,
        }
    }

    /// A copy of this target.
    pub fn copied(&self) -> (copy: CaptureTarget)
        ensures
            copy@ == self@,
    {
        match self {
            CaptureTarget::PrimaryAuto => CaptureTarget::PrimaryAuto,
            CaptureTarget::Output(name) => CaptureTarget::Output(name.clone()),
            CaptureTarget::VirtualExtended => CaptureTarget::VirtualExtended,
        }
    }
}

/// A command to the supervisor.
#[derive(Debug, Clone, Copy, PartialEq, Eq, Structural)]
pub enum SupervisorCommand {
    /// Tear the current pipeline down and start a fresh generation.
    Restart,
    /// Stop streaming; `Start` resumes.
    Stop,
    /// Start a fresh pipeline from stopped or failed.
    Start,
    Shutdown,
}

/// The state that all parts of the host share.
pub struct SharedControl {
    pub running: bool,
    /// The user's maximum bitrate: the ceiling of adaptation.
    pub bitrate_bps: u32,
    /// What the encoder should currently produce; never above the ceiling.
    pub abr_current_bps: u32,
    pub target_fps: u32,
    pub target_addr: PeerAddr,
    /// Asks the encoder for a keyframe on its next frame.
    pub force_next_idr: bool,
    /// Encoder chosen by the user, in force from the next restart.
    pub encoder_override: Option<String>,
    /// Display to capture, in force from the next restart.
    pub capture_target: CaptureTarget,
    pub vdd_status: VddStatus,
    /// Watchdog heartbeats, in milliseconds on the process clock.
    pub hb_capture_loop_ms: u64,
    pub hb_capture_frame_ms: u64,
    pub hb_encode_frame_ms: u64,
    /// Desktop rectangle of the captured output, once there is one.
    pub capture_geometry: Option<CaptureGeometry>,
    pub hevc_enabled: bool,
    /// What the encoder is emitting right now (a wire codec value).
    pub active_codec: u8,
    /// The client session. It outlives a pipeline restart, so a restart does
    /// not force the client through a fresh handshake.
    pub session: Session,
}

impl SharedControl {
    /// The state at startup. The seed is where session ids start.
    pub fn new(listen_port: u16, initial_bitrate_bps: u32, session_id_seed: u32) -> (c:
        SharedControl)
        ensures
            !c.running && !c.force_next_idr && !c.hevc_enabled,
            c.bitrate_bps == initial_bitrate_bps,
            c.abr_current_bps == initial_bitrate_bps,
            c.target_fps == DEFAULT_TARGET_FPS,
            c.target_addr == (PeerAddr { ip: HostIp::V4(0), port: listen_port }),
            c.encoder_override is None,
            c.capture_target@ == Target::PrimaryAuto,
            c.vdd_status == VddStatus::Inactive,
            c.hb_capture_loop_ms == 0 && c.hb_capture_frame_ms == 0 && c.hb_encode_frame_ms == 0,
            c.capture_geometry is None,
            c.active_codec == CODEC_H264,
            c.session.ok(),
            c.session@ == (session::SessionView {
                active: None,
                next_session_id: if session_id_seed == 0 {
                    1
                } else {
                    session_id_seed
                },
                legacy_client_warned: false,
            }),
    {
        SharedControl {
            running: false,
            bitrate_bps: initial_bitrate_bps,
            abr_current_bps: initial_bitrate_bps,
            target_fps: DEFAULT_TARGET_FPS,
            target_addr: PeerAddr { ip: HostIp::V4(0), port: listen_port },
            force_next_idr: false,
            encoder_override: None,
            capture_target: CaptureTarget::PrimaryAuto,
            vdd_status: VddStatus::Inactive,
            hb_capture_loop_ms: 0,
            hb_capture_frame_ms: 0,
            hb_encode_frame_ms: 0,
            capture_geometry: None,
            hevc_enabled: false,
            active_codec: CODEC_H264,
            session: Session::new(session_id_seed),
        }
    }

    /// Asks all parts to stop.
    pub fn stop(&mut self)
        ensures
            *final(self) == (SharedControl { running: false, ..*old(self) }),
    {
        self.running = false;
    }

    /// Whether a client is watching. The session is the only truth: a target
    /// address on its own (a persisted one, or one left by a client that has
    /// gone) never reads as connected.
    pub fn client_connected(&self) -> (b: bool)
        ensures
            b == self.session@.active is Some,
    {
        self.session.is_active()
    }
}

// ---- laws ------------------------------------------------------------------

/// What a setting stands for: none and an empty one for the primary display, the
/// word for the managed display for that one, and every other for the display of
/// that name.
pub proof fn settings_name_their_display(name: Seq<char>)
    requires
        name.len() > 0,
        name != "virtual"@,
    ensures
        target_of(None) == Target::PrimaryAuto,
        target_of(Some(Seq::empty())) == Target::PrimaryAuto,
        target_of(Some("virtual"@)) == Target::VirtualExtended,
        target_of(Some(name)) == Target::Output(name),
{
    reveal_strlit("virtual");
}

/// A target is seen as what it is.
pub proof fn targets_are_seen(target: CaptureTarget)
    ensures
        target is PrimaryAuto <==> target@ is PrimaryAuto,
        target is VirtualExtended <==> target@ is VirtualExtended,
        target matches CaptureTarget::Output(name) ==> target@ == Target::Output(name@),
{
}

} // verus!
