//! The encode stage: which encoder runs, when it is reopened, and what becomes
//! of its frames and packets.

use vstd::prelude::*;
use vstd::string::StringExecFns;

use crate::host::control::SharedControl;
use crate::text;
use crate::text::{characters, parse_number, same_text, trim};
use crate::wire::h264;
use crate::wire::h264::{
    access_unit_is_intra_only, contains_nal_type, is_amf_encoder, normalize_h264_payload,
    H264BitstreamState, AMF_ENCODER_NAME,
};
use crate::wire::hevc;
use crate::wire::hevc::contains_keyframe;
use crate::wire::v2::control::{CAP_DECODE_HEVC, CODEC_H264, CODEC_HEVC};

verus! {

/// Capacity of the channel of encoded frames. None is ever dropped from it: a
/// lost frame corrupts the picture until the next keyframe.
pub const NAL_CHANNEL_CAPACITY: usize = 4;

/// How many packets the AMF diagnostics keep.
pub const AMF_CAPTURE_PACKET_LIMIT: u64 = 120;

/// From this packet on the diagnostics warn of a missing keyframe.
pub const AMF_IDR_WARNING_PACKET: u64 = 60;

/// An AMF encoder is told to start afresh after so many frames.
pub const AMF_FORCED_INTRA_PERIOD: u64 = 30;

/// How often an AMF encoder is asked again for a keyframe with parameter sets.
pub const AMF_STARTUP_RETRIES: u8 = 3;

/// No encoder is opened below this bitrate.
pub const MIN_BITRATE_BPS: u32 = 500_000;

/// Frames between two keyframes.
pub const GOP: u32 = 30;

/// The software encoder, which is always there to fall back to.
pub const SOFTWARE_ENCODER: &'static str = "libx264";

pub const SOFTWARE_LABEL: &'static str = "H.264 (x264)";

/// What the error of an injected fault says.
pub const INJECTED_FAULT: &'static str = "injected encoder fault (ETERNAL_FAULT_ENCODER_AFTER)";

/// An encoded access unit, ready for the transport.
#[derive(Debug)]
pub struct NALUnit {
    pub data: Vec<u8>,
    pub sequence: u64,
    /// When the frame was captured.
    pub timestamp: u64,
    pub encode_duration_us: u128,
    pub is_keyframe: bool,
}

// ---- which encoder ---------------------------------------------------------

/// How an encoder that the user chose is called.
pub open spec fn label(name: Seq<char>) -> Seq<char> {
    if name == "h264_nvenc"@ {
        "H.264 (NVENC)"@
    } else if name == "h264_amf"@ {
        "H.264 (AMF)"@
    } else if name == "h264_qsv"@ {
        "H.264 (QSV)"@
    } else if name == "libx264"@ {
        "H.264 (x264)"@
    } else {
        name
    }
}

/// How an encoder that the user chose is called. One without a label goes by
/// its name.
pub fn encoder_label(name: &str) -> (s: String)
    ensures
        s@ == label(name@),
{
    if same_text(name, "h264_nvenc") {
        "H.264 (NVENC)".to_owned()
    } else if same_text(name, "h264_amf") {
        "H.264 (AMF)".to_owned()
    } else if same_text(name, "h264_qsv") {
        "H.264 (QSV)".to_owned()
    } else if same_text(name, "libx264") {
        "H.264 (x264)".to_owned()
    } else {
        name.to_owned()
    }
}

/// An encoder and what it is called.
#[derive(Debug)]
pub struct EncoderChoice {
    pub name: String,
    pub display: String,
}

/// Chooses the encoder of a pipeline: the user's, if there is one and it
/// exists, else the detected one.
pub fn choose_encoder(
    override_name: Option<&str>,
    override_exists: bool,
    detected_name: &str,
    detected_display: &str,
) -> (c: EncoderChoice)
    ensures
        match override_name {
            Some(name) if override_exists => c.name@ == name@ && c.display@ == label(name@),
            _ => c.name@ == detected_name@ && c.display@ == detected_display@,
        },
{
    match override_name {
        Some(name) => {
            if override_exists {
                return EncoderChoice { name: name.to_owned(), display: encoder_label(name) };
            }
        },
        None => {},
    }
    EncoderChoice { name: detected_name.to_owned(), display: detected_display.to_owned() }
}

/// What the error says of an encoder that does not exist.
pub fn missing_encoder(name: &str) -> (s: String)
    ensures
        s@ == name@ + " codec not found in FFmpeg"@,
{
    let mut s = name.to_owned();
    s.append(" codec not found in FFmpeg");
    s
}

/// The HEVC encoder of the same hardware.
pub open spec fn sibling(name: Seq<char>) -> Option<Seq<char>> {
    if name == "h264_nvenc"@ {
        Some("hevc_nvenc"@)
    } else if name == "h264_amf"@ {
        Some("hevc_amf"@)
    } else if name == "h264_qsv"@ {
        Some("hevc_qsv"@)
    } else if name == "h264_videotoolbox"@ {
        Some("hevc_videotoolbox"@)
    } else if name == "libx264"@ {
        Some("libx265"@)
    } else {
        None
    }
}

/// The HEVC encoder of the same hardware, if it has one.
pub fn hevc_sibling(name: &str) -> (s: Option<&'static str>)
    ensures
        match s {
            Some(s) => sibling(name@) == Some(s@),
            None => sibling(name@) is None,
        },
{
    if same_text(name, "h264_nvenc") {
        Some("hevc_nvenc")
    } else if same_text(name, "h264_amf") {
        Some("hevc_amf")
    } else if same_text(name, "h264_qsv") {
        Some("hevc_qsv")
    } else if same_text(name, "h264_videotoolbox") {
        Some("hevc_videotoolbox")
    } else if same_text(name, "libx264") {
        Some("libx265")
    } else {
        None
    }
}

/// The private options of an encoder: low latency; for H.264 a baseline
/// profile, and for its AMF encoder a level that covers every resolution (a
/// level that is too high is harmless, one that is too low makes strict
/// decoders refuse the stream); for AMF no access unit delimiters, and
/// parameter sets with every keyframe. HEVC has no baseline profile: its
/// encoders keep the profile that they choose themselves.
pub open spec fn options_of(name: Seq<char>) -> Seq<(Seq<char>, Seq<char>)> {
    if name == "h264_nvenc"@ {
        seq![
            ("preset"@, "p1"@),
            ("tune"@, "ll"@),
            ("profile"@, "baseline"@),
            ("zerolatency"@, "1"@),
            ("rc"@, "cbr"@),
        ]
    } else if name == "h264_amf"@ {
        seq![
            ("usage"@, "lowlatency"@),
            ("latency"@, "1"@),
            ("quality"@, "speed"@),
            ("profile"@, "constrained_baseline"@),
            ("level"@, "5.1"@),
            ("coder"@, "cavlc"@),
            ("aud"@, "0"@),
            ("header_spacing"@, "1"@),
            ("rc"@, "cbr"@),
        ]
    } else if name == "h264_qsv"@ {
        seq![("preset"@, "veryfast"@), ("profile"@, "baseline"@), ("look_ahead"@, "0"@)]
    } else if name == "libx264"@ {
        seq![("preset"@, "ultrafast"@), ("tune"@, "zerolatency"@), ("profile"@, "baseline"@)]
    } else if name == "hevc_nvenc"@ {
        seq![
            ("preset"@, "p1"@),
            ("tune"@, "ll"@),
            ("zerolatency"@, "1"@),
            ("rc"@, "cbr"@),
        ]
    } else if name == "hevc_amf"@ {
        seq![
            ("usage"@, "lowlatency"@),
            ("latency"@, "1"@),
            ("quality"@, "speed"@),
            ("aud"@, "0"@),
            ("header_insertion_mode"@, "idr"@),
            ("rc"@, "cbr"@),
        ]
    } else if name == "hevc_qsv"@ {
        seq![("preset"@, "veryfast"@), ("look_ahead"@, "0"@)]
    } else if name == "libx265"@ {
        seq![("preset"@, "ultrafast"@), ("tune"@, "zerolatency"@)]
    } else if name == "hevc_videotoolbox"@ {
        Seq::empty()
    } else {
        seq![("profile"@, "baseline"@)]
    }
}

/// Options as sequences of characters.
pub open spec fn option_texts(v: Seq<(&'static str, &'static str)>) -> Seq<(Seq<char>, Seq<char>)> {
    Seq::new(v.len(), |i: int| (v[i].0@, v[i].1@))
}

/// The private options of an encoder, in the order in which they are set.
pub fn encoder_options(name: &str) -> (v: Vec<(&'static str, &'static str)>)
    ensures
        option_texts(v@) == options_of(name@),
{
    let mut v: Vec<(&'static str, &'static str)> = Vec::new();
    if same_text(name, "h264_nvenc") {
        v.push(("preset", "p1"));
        v.push(("tune", "ll"));
        v.push(("profile", "baseline"));
        v.push(("zerolatency", "1"));
        v.push(("rc", "cbr"));
    } else if same_text(name, "h264_amf") {
        v.push(("usage", "lowlatency"));
        v.push(("latency", "1"));
        v.push(("quality", "speed"));
        v.push(("profile", "constrained_baseline"));
        v.push(("level", "5.1"));
        v.push(("coder", "cavlc"));
        v.push(("aud", "0"));
        v.push(("header_spacing", "1"));
        v.push(("rc", "cbr"));
    } else if same_text(name, "h264_qsv") {
        v.push(("preset", "veryfast"));
        v.push(("profile", "baseline"));
        v.push(("look_ahead", "0"));
    } else if same_text(name, "libx264") {
        v.push(("preset", "ultrafast"));
        v.push(("tune", "zerolatency"));
        v.push(("profile", "baseline"));
    } else if same_text(name, "hevc_nvenc") {
        v.push(("preset", "p1"));
        v.push(("tune", "ll"));
        v.push(("zerolatency", "1"));
        v.push(("rc", "cbr"));
    } else if same_text(name, "hevc_amf") {
        v.push(("usage", "lowlatency"));
        v.push(("latency", "1"));
        v.push(("quality", "speed"));
        v.push(("aud", "0"));
        v.push(("header_insertion_mode", "idr"));
        v.push(("rc", "cbr"));
    } else if same_text(name, "hevc_qsv") {
        v.push(("preset", "veryfast"));
        v.push(("look_ahead", "0"));
    } else if same_text(name, "libx265") {
        v.push(("preset", "ultrafast"));
        v.push(("tune", "zerolatency"));
    } else if !same_text(name, "hevc_videotoolbox") {
        v.push(("profile", "baseline"));
    }
    assert(option_texts(v@) =~= options_of(name@));
    v
}

/// How an encoder session is set up.
#[derive(Debug, Clone, Copy, PartialEq, Eq, Structural)]
pub struct EncoderParams {
    pub width: u32,
    pub height: u32,
    pub bit_rate: u32,
    pub gop: u32,
    /// Ticks of a presentation time in a second.
    pub ticks_per_second: u32,
    /// The frame rate that rate control is told.
    pub frame_rate: Option<u32>,
}

/// The set-up of an encoder session. Presentation times are microseconds of
/// real capture time; the legacy form numbers frames, sixty to the second.
pub fn encoder_params(
    width: u32,
    height: u32,
    bitrate_bps: u32,
    target_fps: u32,
    legacy_pts: bool,
) -> (p: EncoderParams)
    ensures
        p.width == width && p.height == height && p.gop == GOP,
        p.bit_rate == (if bitrate_bps >= MIN_BITRATE_BPS {
            bitrate_bps
        } else {
            MIN_BITRATE_BPS
        }),
        legacy_pts ==> p.ticks_per_second == 60 && p.frame_rate is None,
        !legacy_pts ==> p.ticks_per_second == 1_000_000 && p.frame_rate == Some(
            if target_fps == 0 {
                1
            } else {
                target_fps
            },
        ),
{
    EncoderParams {
        width,
        height,
        bit_rate: if bitrate_bps >= MIN_BITRATE_BPS {
            bitrate_bps
        } else {
            MIN_BITRATE_BPS
        },
        gop: GOP,
        ticks_per_second: if legacy_pts {
            60
        } else {
            1_000_000
        },
        frame_rate: if legacy_pts {
            None
        } else if target_fps == 0 {
            Some(1)
        } else {
            Some(target_fps)
        },
    }
}

/// Whether a setting of the environment is switched on.
pub fn is_switched_on(setting: Option<&str>) -> (b: bool)
    ensures
        b == (setting matches Some(s) && text::trimmed(s@) == seq!['1']),
{
    match setting {
        Some(s) => {
            let chars = characters(s);
            let kept = trim(chars.as_slice());
            let b = kept.len() == 1 && kept[0] == '1';
            assert(b ==> kept@ =~= seq!['1']);
            b
        },
        None => false,
    }
}

// ---- presentation times ----------------------------------------------------

/// The presentation times of one encoder session.
#[derive(Debug, Clone, Copy, PartialEq, Eq, Structural)]
pub struct PtsClock {
    /// When the first frame of the session was captured.
    pub epoch: Option<u64>,
    pub last: i64,
    pub legacy: bool,
}

/// The presentation time of a frame, and the clock after it.
pub open spec fn pts_step(c: PtsClock, frame_number: u64, timestamp: u64) -> (PtsClock, int) {
    if c.legacy {
        (c, frame_number as int)
    } else {
        let epoch = match c.epoch {
            Some(e) => e,
            None => timestamp,
        };
        let elapsed = if timestamp >= epoch {
            (timestamp - epoch) / 1000
        } else {
            0
        };
        let pts = if elapsed > c.last {
            elapsed
        } else {
            c.last + 1
        };
        (PtsClock { epoch: Some(epoch), last: pts as i64, ..c }, pts)
    }
}

impl PtsClock {
    /// The clock of a fresh session.
    pub fn new(legacy: bool) -> (c: PtsClock)
        ensures
            c.epoch is None && c.last == -1 && c.legacy == legacy,
    {
        PtsClock { epoch: None, last: -1, legacy }
    }

    /// The presentation time of the next frame: the time since the first, and
    /// always later than the one before.
    pub fn next(&mut self, frame_number: u64, timestamp: u64) -> (pts: i64)
        requires
            old(self).last < i64::MAX,
            frame_number <= i64::MAX,
        ensures
            (*final(self), pts as int) == pts_step(*old(self), frame_number, timestamp),
    {
        if self.legacy {
            return frame_number as i64;
        }
        let epoch: u64 = match self.epoch {
            Some(e) => e,
            None => timestamp,
        };
        self.epoch = Some(epoch);
        let elapsed: i64 = (timestamp.saturating_sub(epoch) / 1000) as i64;
        let pts: i64 = if elapsed > self.last {
            elapsed
        } else {
            self.last + 1
        };
        self.last = pts;
        pts
    }
}

// ---- the loop --------------------------------------------------------------

/// What to do with a captured frame.
#[derive(Debug, Clone, Copy, PartialEq, Eq, Structural)]
pub enum Admission {
    /// A stop was asked for.
    Stop,
    /// Fail, for a test of the recovery.
    Fault,
    /// There is no picture in it.
    Skip,
    Encode,
}

/// What to do with a captured frame.
pub fn consider(running: bool, fault_after: Option<u64>, frame_number: u64, frame_len: usize) -> (a:
    Admission)
    ensures
        a == (if !running {
            Admission::Stop
        } else if fault_after matches Some(n) && frame_number >= n {
            Admission::Fault
        } else if frame_len == 0 {
            Admission::Skip
        } else {
            Admission::Encode
        }),
{
    if !running {
        return Admission::Stop;
    }
    if let Some(n) = fault_after {
        if frame_number >= n {
            return Admission::Fault;
        }
    }
    if frame_len == 0 {
        Admission::Skip
    } else {
        Admission::Encode
    }
}

/// From which frame on a test wants the encoder to fail.
pub fn fault_setting(setting: Option<&str>) -> (n: Option<u64>)
    ensures
        match n {
            Some(n) => setting matches Some(s) && text::parsed_number(
                text::trimmed(s@),
                u64::MAX as nat,
            ) == Some(n as nat),
            None => setting matches Some(s) ==> text::parsed_number(
                text::trimmed(s@),
                u64::MAX as nat,
            ) is None,
        },
{
    match setting {
        Some(s) => {
            let chars = characters(s);
            parse_number(trim(chars.as_slice()), u64::MAX)
        },
        None => None,
    }
}

/// What an encoder session is opened for.
#[derive(Debug, Clone, Copy, PartialEq, Eq, Structural)]
pub struct Goal {
    pub bitrate: u32,
    /// A wire codec value.
    pub codec: u8,
}

/// Which session the next frame needs.
#[derive(Debug, Clone, Copy, PartialEq, Eq, Structural)]
pub enum OpenPlan {
    /// The first session of the pipeline.
    Open,
    /// A session in place of the present one: an open encoder ignores a new
    /// bitrate, and keeps its codec.
    Reopen,
    Keep,
}

/// What became of an attempt to open a session.
#[derive(Debug, Clone, Copy, PartialEq, Eq, Structural)]
pub enum OpenResult {
    /// Encode with the new session.
    Ready,
    /// The software encoder takes over: open that.
    Fallback,
    /// Nothing is left to fall back to.
    Fatal,
    /// The present session stays.
    Kept,
}

/// The encode stage between two frames.
#[derive(Debug)]
pub struct Encoding {
    pub choice: EncoderChoice,
    /// What the session in place was opened for.
    pub session: Option<Goal>,
    /// What a session could not be reopened for. It is not tried again, so a
    /// failure costs one hiccup and no storm.
    pub failed: Option<Goal>,
    /// Whether the software encoder stands in for the chosen one.
    pub software: bool,
    pub frames_since_last_idr: u64,
    pub amf_startup_idr_retries: u8,
}

/// [`Encoding`] with its names as sequences of characters.
#[verifier::ext_equal]
pub struct EncodingView {
    pub name: Seq<char>,
    pub display: Seq<char>,
    pub session: Option<Goal>,
    pub failed: Option<Goal>,
    pub software: bool,
    pub frames_since_last_idr: u64,
    pub amf_startup_idr_retries: u8,
}

impl View for Encoding {
    type V = EncodingView;

    open spec fn view(&self) -> EncodingView {
        EncodingView {
            name: self.choice.name@,
            display: self.choice.display@,
            session: self.session,
            failed: self.failed,
            software: self.software,
            frames_since_last_idr: self.frames_since_last_idr,
            amf_startup_idr_retries: self.amf_startup_idr_retries,
        }
    }
}

/// Whether the stream should be HEVC: the user prefers it and the connected
/// client can decode it.
pub open spec fn hevc_wanted(c: SharedControl) -> bool {
    c.hevc_enabled && (c.session@.active matches Some(a) && a.info.decoder_caps & CAP_DECODE_HEVC
        != 0)
}

/// What the session of the next frame should be. A pipeline starts with H.264;
/// HEVC comes by reopening, on hardware that has it.
pub open spec fn goal_of(e: EncodingView, c: SharedControl) -> Goal {
    Goal {
        bitrate: if c.abr_current_bps >= MIN_BITRATE_BPS {
            c.abr_current_bps
        } else {
            MIN_BITRATE_BPS
        },
        codec: if e.session is Some && hevc_wanted(c) && sibling(e.name) is Some {
            CODEC_HEVC
        } else {
            CODEC_H264
        },
    }
}

/// Which session a frame needs.
pub open spec fn plan_of(e: EncodingView, goal: Goal) -> OpenPlan {
    match e.session {
        None => OpenPlan::Open,
        Some(s) => if s != goal && e.failed != Some(goal) {
            OpenPlan::Reopen
        } else {
            OpenPlan::Keep
        },
    }
}

/// What an attempt to open a session does.
pub open spec fn open_step(e: EncodingView, plan: OpenPlan, goal: Goal, opened: bool) -> (
    EncodingView,
    OpenResult,
) {
    match plan {
        OpenPlan::Keep => (e, OpenResult::Kept),
        OpenPlan::Open => if opened {
            (EncodingView { session: Some(goal), ..e }, OpenResult::Ready)
        } else if e.name != SOFTWARE_ENCODER@ {
            (
                EncodingView {
                    name: SOFTWARE_ENCODER@,
                    display: SOFTWARE_LABEL@,
                    software: true,
                    ..e
                },
                OpenResult::Fallback,
            )
        } else {
            (e, OpenResult::Fatal)
        },
        OpenPlan::Reopen => if opened {
            (EncodingView { session: Some(goal), failed: None, ..e }, OpenResult::Ready)
        } else {
            (EncodingView { failed: Some(goal), ..e }, OpenResult::Kept)
        },
    }
}

/// The shared state after an attempt to open a session: a fresh session
/// announces its codec, and one that replaces another starts with a keyframe.
pub open spec fn shared_after_open(
    c: SharedControl,
    plan: OpenPlan,
    goal: Goal,
    r: OpenResult,
) -> SharedControl {
    if r == OpenResult::Ready {
        SharedControl {
            active_codec: goal.codec,
            force_next_idr: c.force_next_idr || plan == OpenPlan::Reopen,
            ..c
        }
    } else {
        c
    }
}

/// Whether the next frame is to be a keyframe: always where one was asked for,
/// and for AMF after every period.
pub open spec fn intra_wanted(e: EncodingView, force: bool) -> bool {
    force || (e.name == AMF_ENCODER_NAME@ && e.frames_since_last_idr >= AMF_FORCED_INTRA_PERIOD)
}

/// An encoded packet, ready to be sent.
#[derive(Debug)]
pub struct EncodedPacket {
    pub data: Vec<u8>,
    pub is_keyframe: bool,
    /// Whether another keyframe must be asked for.
    pub force_idr: bool,
}

/// The cache of parameter sets as a packet finds it.
pub open spec fn cache_before(c: h264::SetCache, extradata: Option<Seq<u8>>) -> h264::SetCache {
    if c.sps is None || c.pps is None {
        h264::with_extradata(c, extradata)
    } else {
        c
    }
}

/// Whether a normalized H.264 access unit is a random-access point.
pub open spec fn is_sync(data: Seq<u8>, packet_is_key: bool, amf: bool) -> bool {
    packet_is_key || h264::has_type(h264::annex_b_units(data), 5) || (amf && h264::intra_only(
        h264::annex_b_units(data),
    ))
}

/// The encode stage at the start of a pipeline.
pub open spec fn at_start(name: Seq<char>, display: Seq<char>) -> EncodingView {
    EncodingView {
        name,
        display,
        session: None,
        failed: None,
        software: false,
        frames_since_last_idr: 0,
        amf_startup_idr_retries: 0,
    }
}

impl Encoding {
    /// The stage at the start of a pipeline.
    pub fn new(choice: EncoderChoice) -> (e: Encoding)
        ensures
            e@ == at_start(choice.name@, choice.display@),
    {
        Encoding {
            choice,
            session: None,
            failed: None,
            software: false,
            frames_since_last_idr: 0,
            amf_startup_idr_retries: 0,
        }
    }

    /// Starts a pipeline. Its first frame is asked to be a keyframe: a client
    /// that connects or meets a restart can start decoding only there.
    pub fn begin(choice: EncoderChoice, shared: &mut SharedControl) -> (e: Encoding)
        ensures
            e@ == at_start(choice.name@, choice.display@),
            *final(shared) == (SharedControl { force_next_idr: true, ..*old(shared) }),
    {
        shared.force_next_idr = true;
        Encoding::new(choice)
    }

    /// What the session of the next frame should be.
    pub fn goal(&self, shared: &SharedControl) -> (g: Goal)
        ensures
            g == goal_of(self@, *shared),
    {
        let bitrate: u32 = if shared.abr_current_bps >= MIN_BITRATE_BPS {
            shared.abr_current_bps
        } else {
            MIN_BITRATE_BPS
        };
        let hevc = self.session.is_some() && shared.hevc_enabled
            && shared.session.client_supports_hevc() && hevc_sibling(
            self.choice.name.as_str(),
        ).is_some();
        Goal {
            bitrate,
            codec: if hevc {
                CODEC_HEVC
            } else {
                CODEC_H264
            },
        }
    }

    /// Which session a frame needs.
    pub fn plan(&self, goal: Goal) -> (p: OpenPlan)
        ensures
            p == plan_of(self@, goal),
    {
        match self.session {
            None => OpenPlan::Open,
            Some(s) => {
                let given_up = match self.failed {
                    Some(f) => f == goal,
                    None => false,
                };
                if s != goal && !given_up {
                    OpenPlan::Reopen
                } else {
                    OpenPlan::Keep
                }
            },
        }
    }

    /// The encoder to open for a goal.
    pub fn encoder_for(&self, goal: Goal) -> (name: String)
        ensures
            name@ == (match sibling(self@.name) {
                Some(s) if goal.codec == CODEC_HEVC => s,
                _ => self@.name,
            }),
    {
        if goal.codec == CODEC_HEVC {
            match hevc_sibling(self.choice.name.as_str()) {
                Some(s) => {
                    return s.to_owned();
                },
                None => {},
            }
        }
        self.choice.name.clone()
    }

    /// Takes note of an attempt to open a session. A fresh session announces
    /// its codec, and one that replaces another starts with a keyframe.
    pub fn after_open(
        &mut self,
        shared: &mut SharedControl,
        plan: OpenPlan,
        goal: Goal,
        opened: bool,
    ) -> (r: OpenResult)
        ensures
            (final(self)@, r) == open_step(old(self)@, plan, goal, opened),
            *final(shared) == shared_after_open(*old(shared), plan, goal, r),
    {
        match plan {
            OpenPlan::Keep => OpenResult::Kept,
            OpenPlan::Open => {
                if opened {
                    self.session = Some(goal);
                    shared.active_codec = goal.codec;
                    OpenResult::Ready
                } else if !same_text(self.choice.name.as_str(), SOFTWARE_ENCODER) {
                    self.choice = EncoderChoice {
                        name: SOFTWARE_ENCODER.to_owned(),
                        display: SOFTWARE_LABEL.to_owned(),
                    };
                    self.software = true;
                    OpenResult::Fallback
                } else {
                    OpenResult::Fatal
                }
            },
            OpenPlan::Reopen => {
                if opened {
                    self.session = Some(goal);
                    self.failed = None;
                    shared.active_codec = goal.codec;
                    shared.force_next_idr = true;
                    OpenResult::Ready
                } else {
                    self.failed = Some(goal);
                    OpenResult::Kept
                }
            },
        }
    }

    /// Decides whether the next frame is to be a keyframe, and counts.
    pub fn prepare_frame(&mut self, force_next_idr: bool) -> (intra: bool)
        ensures
            intra == intra_wanted(old(self)@, force_next_idr),
            final(self)@ == (EncodingView {
                frames_since_last_idr: if intra {
                    0
                } else if old(self)@.name == AMF_ENCODER_NAME@ {
                    (old(self)@.frames_since_last_idr + 1) as u64
                } else {
                    old(self)@.frames_since_last_idr
                },
                ..old(self)@
            }),
            intra || old(self)@.name != AMF_ENCODER_NAME@ || final(self)@.frames_since_last_idr
                <= AMF_FORCED_INTRA_PERIOD,
    {
        let amf = is_amf_encoder(self.choice.name.as_str());
        let intra = force_next_idr || (amf && self.frames_since_last_idr
            >= AMF_FORCED_INTRA_PERIOD);
        if intra {
            self.frames_since_last_idr = 0;
        } else if amf {
            self.frames_since_last_idr = self.frames_since_last_idr + 1;
        }
        intra
    }

    /// Turns a packet of the encoder into an access unit for the client. An
    /// H.264 packet is normalized, with the parameter sets that a decoder
    /// needs in front of it; an HEVC packet carries them already. An AMF
    /// keyframe that still lacks them is of no use to a decoder, so another one
    /// is asked for, a few times.
    pub fn finish_packet(
        &mut self,
        state: &mut H264BitstreamState,
        extradata: Option<Vec<u8>>,
        packet: &[u8],
        packet_is_key: bool,
        codec: u8,
    ) -> (p: EncodedPacket)
        requires
            old(state).packet_count < u64::MAX,
        ensures
            codec == CODEC_HEVC ==> {
                &&& p.data@ == packet@
                &&& p.is_keyframe == (packet_is_key || exists|t: u8|
                    hevc::NAL_BLA_W_LP <= t <= hevc::NAL_CRA && #[trigger] hevc::has_unit(
                        packet@,
                        t,
                    ))
                &&& !p.force_idr
                &&& final(state)@ == old(state)@
                &&& final(self)@ == old(self)@
            },
            codec != CODEC_HEVC ==> ({
                let amf = old(self)@.name == AMF_ENCODER_NAME@;
                let cache = cache_before(
                    old(state)@,
                    match extradata {
                        Some(d) => Some(d@),
                        None => None,
                    },
                );
                let after = h264::cache_after_packet(packet@, cache);
                &&& p.data@ == h264::normalized(packet@, packet_is_key, amf, cache)
                &&& p.is_keyframe == is_sync(p.data@, packet_is_key, amf)
                &&& final(state)@ == after
                &&& p.force_idr == (p.is_keyframe && amf && (after.sps is None || after.pps is None)
                    && old(self)@.amf_startup_idr_retries < AMF_STARTUP_RETRIES)
                &&& final(self)@ == (EncodingView {
                    amf_startup_idr_retries: if p.force_idr {
                        (old(self)@.amf_startup_idr_retries + 1) as u8
                    } else {
                        old(self)@.amf_startup_idr_retries
                    },
                    ..old(self)@
                })
            }),
    {
        if codec == CODEC_HEVC {
            let key = packet_is_key || contains_keyframe(packet);
            return EncodedPacket {
                data: vstd::slice::slice_to_vec(packet),
                is_keyframe: key,
                force_idr: false,
            };
        }
        let amf = is_amf_encoder(self.choice.name.as_str());
        if state.needs_parameter_sets() {
            state.refresh_parameter_sets_from_extradata(extradata);
        }
        let data = normalize_h264_payload(packet, packet_is_key, state, self.choice.name.as_str());
        let is_keyframe = packet_is_key || contains_nal_type(data.as_slice(), 5) || (amf
            && access_unit_is_intra_only(data.as_slice()));
        let force_idr = is_keyframe && amf && state.needs_parameter_sets()
            && self.amf_startup_idr_retries < AMF_STARTUP_RETRIES;
        if force_idr {
            self.amf_startup_idr_retries = self.amf_startup_idr_retries + 1;
        }
        EncodedPacket { data, is_keyframe, force_idr }
    }
}

// ---- AMF diagnostics -------------------------------------------------------

/// Whether the packets of an encoder are recorded: only on request, and only
/// those of AMF.
pub fn wants_amf_diagnostics(encoder_name: &str, setting: Option<&str>) -> (b: bool)
    ensures
        b == (encoder_name@ == AMF_ENCODER_NAME@ && (setting matches Some(s) && text::trimmed(s@)
            == seq!['1'])),
{
    is_amf_encoder(encoder_name) && is_switched_on(setting)
}

/// What the diagnostics have seen.
#[derive(Debug, Clone, Copy, PartialEq, Eq, Structural)]
pub struct AmfBitstreamDiagnostics {
    pub total_packets: u64,
    pub captured_packets: u64,
    pub seen_random_access: bool,
    pub seen_idr: bool,
    pub warned_missing_random_access: bool,
    pub validation_complete: bool,
}

impl Default for AmfBitstreamDiagnostics {
    fn default() -> (d: AmfBitstreamDiagnostics)
        ensures
            d == (AmfBitstreamDiagnostics {
                total_packets: 0,
                captured_packets: 0,
                seen_random_access: false,
                seen_idr: false,
                warned_missing_random_access: false,
                validation_complete: false,
            }),
    {
        AmfBitstreamDiagnostics {
            total_packets: 0,
            captured_packets: 0,
            seen_random_access: false,
            seen_idr: false,
            warned_missing_random_access: false,
            validation_complete: false,
        }
    }
}

/// What to do about an observed packet.
#[derive(Debug, Clone, Copy, PartialEq, Eq, Structural)]
pub struct Observation {
    /// The first random-access point.
    pub first_random_access: bool,
    /// The first IDR.
    pub first_idr: bool,
    /// No random-access point has come for too long.
    pub warn: bool,
    /// The packet belongs into the capture.
    pub capture: bool,
    /// The capture is complete with it: close it and have it decoded.
    pub finish: bool,
}

impl AmfBitstreamDiagnostics {
    /// Observes one normalized packet.
    pub fn observe_packet(&mut self, normalized_packet: &[u8], is_keyframe: bool) -> (o:
        Observation)
        requires
            old(self).total_packets < u64::MAX,
        ensures
            ({
                let idr = h264::has_type(h264::annex_b_units(normalized_packet@), 5);
                let d = *old(self);
                &&& o.first_random_access == (is_keyframe && !d.seen_random_access)
                &&& o.first_idr == (idr && !d.seen_idr)
                &&& o.warn == (!d.seen_random_access && !is_keyframe
                    && !d.warned_missing_random_access && d.total_packets + 1
                    >= AMF_IDR_WARNING_PACKET)
                &&& o.capture == (d.captured_packets < AMF_CAPTURE_PACKET_LIMIT)
                &&& o.finish == (d.captured_packets == AMF_CAPTURE_PACKET_LIMIT - 1)
                &&& *final(self) == (AmfBitstreamDiagnostics {
                    total_packets: (d.total_packets + 1) as u64,
                    captured_packets: if o.capture {
                        (d.captured_packets + 1) as u64
                    } else {
                        d.captured_packets
                    },
                    seen_random_access: d.seen_random_access || is_keyframe,
                    seen_idr: d.seen_idr || idr,
                    warned_missing_random_access: d.warned_missing_random_access || o.warn,
                    validation_complete: d.validation_complete || o.finish,
                })
            }),
    {
        self.total_packets = self.total_packets + 1;
        let idr = contains_nal_type(normalized_packet, 5);
        let first_random_access = is_keyframe && !self.seen_random_access;
        if first_random_access {
            self.seen_random_access = true;
        }
        let first_idr = idr && !self.seen_idr;
        if first_idr {
            self.seen_idr = true;
        }
        let warn = !self.seen_random_access && !self.warned_missing_random_access
            && self.total_packets >= AMF_IDR_WARNING_PACKET;
        if warn {
            self.warned_missing_random_access = true;
        }
        let capture = self.captured_packets < AMF_CAPTURE_PACKET_LIMIT;
        let mut finish = false;
        if capture {
            self.captured_packets = self.captured_packets + 1;
            if self.captured_packets == AMF_CAPTURE_PACKET_LIMIT {
                self.validation_complete = true;
                finish = true;
            }
        }
        Observation { first_random_access, first_idr, warn, capture, finish }
    }
}

// ---- laws ------------------------------------------------------------------

/// Presentation times strictly increase, whatever the capture times do.
pub proof fn pts_increases(c: PtsClock, frame_number: u64, timestamp: u64)
    requires
        !c.legacy,
        c.last < i64::MAX,
    ensures
        pts_step(c, frame_number, timestamp).1 > c.last,
        pts_step(c, frame_number, timestamp).0.last == pts_step(c, frame_number, timestamp).1,
{
}

/// The first frame of every pipeline is a keyframe: the flag that a pipeline
/// starts with stays up however sessions are opened, and a frame that meets it
/// is a keyframe.
pub proof fn pipelines_start_with_a_keyframe(
    c: SharedControl,
    e: EncodingView,
    plan: OpenPlan,
    goal: Goal,
    opened: bool,
)
    requires
        c.force_next_idr,
    ensures
        ({
            let (after, r) = open_step(e, plan, goal, opened);
            let flag = shared_after_open(c, plan, goal, r).force_next_idr;
            flag && intra_wanted(after, flag)
        }),
{
}

/// A failure to open never ends the stream while the software encoder has not
/// been tried, and a failure to reopen never ends it.
pub proof fn only_the_last_encoder_is_fatal(e: EncodingView, plan: OpenPlan, goal: Goal, opened: bool)
    ensures
        open_step(e, plan, goal, opened).1 == OpenResult::Fatal ==> plan == OpenPlan::Open && !opened
            && e.name == SOFTWARE_ENCODER@,
        open_step(e, plan, goal, opened).1 == OpenResult::Fallback ==> open_step(
            e,
            plan,
            goal,
            opened,
        ).0.name == SOFTWARE_ENCODER@,
        plan == OpenPlan::Reopen ==> open_step(e, plan, goal, opened).0.session is Some
            || e.session is None,
{
}

/// A session that could not be reopened for a goal is not tried for it again
/// until another goal has been met; the goal that was met is kept.
pub proof fn reopening_does_not_storm(e: EncodingView, goal: Goal, opened: bool)
    requires
        plan_of(e, goal) == OpenPlan::Reopen,
    ensures
        plan_of(open_step(e, OpenPlan::Reopen, goal, opened).0, goal) == OpenPlan::Keep,
{
}

/// HEVC is only ever emitted for a client that can decode it, on the user's
/// wish.
pub proof fn hevc_needs_a_willing_client(e: EncodingView, c: SharedControl)
    ensures
        goal_of(e, c).codec == CODEC_HEVC ==> c.hevc_enabled && (c.session@.active matches Some(a)
            && a.info.decoder_caps & CAP_DECODE_HEVC != 0),
        goal_of(e, c).codec == CODEC_HEVC || goal_of(e, c).codec == CODEC_H264,
        goal_of(e, c).bitrate >= MIN_BITRATE_BPS,
{
}

/// No HEVC encoder is given a profile of H.264.
pub proof fn hevc_gets_no_profile(h264: Seq<char>)
    requires
        sibling(h264) is Some,
    ensures
        ({
            let options = options_of(sibling(h264)->0);
            forall|i: int| 0 <= i < options.len() ==> (#[trigger] options[i]).0 != "profile"@
        }),
{
    reveal_strlit("h264_nvenc");
    reveal_strlit("h264_amf");
    reveal_strlit("h264_qsv");
    reveal_strlit("libx264");
    reveal_strlit("hevc_nvenc");
    reveal_strlit("hevc_amf");
    reveal_strlit("hevc_qsv");
    reveal_strlit("libx265");
    reveal_strlit("hevc_videotoolbox");
    reveal_strlit("profile");
    reveal_strlit("preset");
    reveal_strlit("tune");
    reveal_strlit("zerolatency");
    reveal_strlit("rc");
    reveal_strlit("usage");
    reveal_strlit("latency");
    reveal_strlit("quality");
    reveal_strlit("aud");
    reveal_strlit("header_insertion_mode");
    reveal_strlit("look_ahead");
    let name = sibling(h264)->0;
    let options = options_of(name);
    assert(name != "h264_nvenc"@ && name != "h264_amf"@ && name != "h264_qsv"@) by {
        assert("h264_nvenc"@[3] == '4' && "h264_amf"@[3] == '4' && "h264_qsv"@[3] == '4');
        assert("h264_nvenc"@[0] == 'h' && "h264_amf"@[0] == 'h' && "h264_qsv"@[0] == 'h');
        assert("libx265"@[0] == 'l');
    }
    assert(name != "libx264"@) by {
        assert("libx264"@[0] == 'l' && "libx264"@[6] == '4');
        assert("libx265"@[6] == '5');
    }
    assert forall|i: int| 0 <= i < options.len() implies (#[trigger] options[i]).0 != "profile"@ by {
        let key = options[i].0;
        assert("profile"@[0] == 'p' && "profile"@.len() == 7);
        assert("preset"@.len() != 7);
        assert(key.len() != 7 || key[0] != 'p');
    }
}

/// Presentation times are capture times: the first frame of a session is at 0,
/// and every frame is at the whole microseconds since the first, unless the
/// frame before it is already there or beyond; then it comes right behind.
pub proof fn pts_follow_the_capture(c: PtsClock, frame_number: u64, timestamp: u64)
    requires
        !c.legacy,
        -1 <= c.last < i64::MAX,
        c.epoch is None ==> c.last == -1,
        c.epoch is Some ==> timestamp >= c.epoch->0,
    ensures
        ({
            let (t, pts) = pts_step(c, frame_number, timestamp);
            let since = if c.epoch is Some {
                timestamp - c.epoch->0
            } else {
                0
            };
            &&& t.epoch == Some(
                if c.epoch is Some {
                    c.epoch->0
                } else {
                    timestamp
                },
            )
            &&& c.epoch is None ==> pts == 0
            &&& since >= (c.last + 1) * 1000 ==> pts * 1000 <= since < (pts + 1) * 1000
            &&& since < (c.last + 1) * 1000 ==> pts == c.last + 1
            &&& t.last == pts && !t.legacy
        }),
{
}

/// What an encoder is opened for is what is wanted: the bitrate in force, or the
/// lowest that makes sense where that is less; and HEVC where the user prefers
/// it, the client decodes it, the hardware has an encoder for it and a session
/// is already up, else H.264.
pub proof fn goals_are_what_is_wanted(e: EncodingView, c: SharedControl)
    ensures
        ({
            let g = goal_of(e, c);
            let client = c.session@.active;
            &&& c.abr_current_bps >= MIN_BITRATE_BPS ==> g.bitrate == c.abr_current_bps
            &&& c.abr_current_bps < MIN_BITRATE_BPS ==> g.bitrate == MIN_BITRATE_BPS
            &&& g.codec == CODEC_HEVC <==> {
                &&& c.hevc_enabled
                &&& client is Some
                &&& client->0.info.decoder_caps & CAP_DECODE_HEVC != 0
                &&& e.session is Some
                &&& sibling(e.name) is Some
            }
            &&& g.codec != CODEC_HEVC ==> g.codec == CODEC_H264
        }),
{
}

/// What is wanted is what is opened. Without a session, one is opened; with one
/// for something else, a new one is, unless that has failed before; with one for
/// the same, nothing is. A session that could be opened is the one in place from
/// then on, its codec is announced, and a client that was watching the one
/// before gets a keyframe. One that could not be leaves the one before.
pub proof fn wishes_are_met(
    e: EncodingView,
    c: SharedControl,
    goal: Goal,
    opened: bool,
)
    ensures
        ({
            let plan = plan_of(e, goal);
            let (t, r) = open_step(e, plan, goal, opened);
            let d = shared_after_open(c, plan, goal, r);
            &&& e.session is None <==> plan == OpenPlan::Open
            &&& e.session == Some(goal) ==> plan == OpenPlan::Keep
            &&& e.session is Some && e.session != Some(goal) && e.failed != Some(goal) ==> plan
                == OpenPlan::Reopen
            &&& plan != OpenPlan::Keep && opened ==> {
                &&& r == OpenResult::Ready
                &&& t.session == Some(goal)
                &&& t.name == e.name && t.display == e.display && t.software == e.software
                &&& plan_of(t, goal) == OpenPlan::Keep
                &&& d.active_codec == goal.codec
                &&& plan == OpenPlan::Reopen ==> d.force_next_idr
            }
            &&& plan == OpenPlan::Keep || !opened ==> {
                &&& r != OpenResult::Ready
                &&& t.session == e.session
                &&& d == c
            }
            &&& plan == OpenPlan::Open && !opened && e.name != SOFTWARE_ENCODER@ ==> {
                &&& r == OpenResult::Fallback
                &&& t.name == SOFTWARE_ENCODER@ && t.software
            }
            &&& c.force_next_idr ==> d.force_next_idr
        }),
{
}

/// When a frame is asked to be a keyframe: whenever one is wanted; with AMF also
/// when as many frames as make a period have gone by without one; and at no
/// other time.
pub proof fn keyframes_come_when_wanted(e: EncodingView, force: bool)
    ensures
        force ==> intra_wanted(e, force),
        !force && e.name != AMF_ENCODER_NAME@ ==> !intra_wanted(e, force),
        !force && e.frames_since_last_idr < AMF_FORCED_INTRA_PERIOD ==> !intra_wanted(e, force),
        e.name == AMF_ENCODER_NAME@ && e.frames_since_last_idr >= AMF_FORCED_INTRA_PERIOD
            ==> intra_wanted(e, force),
{
}

/// Extradata fills in the parameter sets that are not known, and replaces none.
pub proof fn extradata_only_fills_in(c: h264::SetCache, d: Seq<u8>)
    ensures
        ({
            let t = cache_before(c, Some(d));
            let found = h264::extradata_sets(d);
            &&& c.sps is Some ==> t.sps == c.sps
            &&& c.pps is Some ==> t.pps == c.pps
            &&& c.sps is None ==> t.sps == (match found {
                Some((sps, _)) => Some(sps),
                None => None,
            })
            &&& c.pps is None ==> t.pps == (match found {
                Some((_, pps)) => Some(pps),
                None => None,
            })
            &&& t.packet_count == c.packet_count
            &&& cache_before(c, None) == c
        }),
{
}

/// An access unit counts as one that decoding can start at where the encoder
/// says so or an IDR is in it; of AMF, also where every slice stands on its own.
pub proof fn what_decoding_can_start_at(data: Seq<u8>, packet_is_key: bool, amf: bool)
    ensures
        ({
            let units = h264::annex_b_units(data);
            let idr = exists|i: int|
                0 <= i < units.len() && h264::is_of_type(#[trigger] units[i], 5);
            &&& packet_is_key || idr ==> is_sync(data, packet_is_key, amf)
            &&& is_sync(data, packet_is_key, amf) && !packet_is_key && !idr ==> amf
                && h264::intra_only(units)
            &&& amf && h264::intra_only(units) ==> is_sync(data, packet_is_key, amf)
        }),
{
    h264::told_by_type(h264::annex_b_units(data), 5);
}

/// The HEVC encoder of some hardware is named as its H.264 encoder is but for
/// the codec, and the software encoders are each other's counterparts. Nothing
/// else has a counterpart, so no HEVC encoder has one.
pub proof fn siblings_share_their_hardware(name: Seq<char>, hardware: Seq<char>)
    ensures
        hardware == "nvenc"@ || hardware == "amf"@ || hardware == "qsv"@ || hardware
            == "videotoolbox"@ ==> sibling("h264_"@ + hardware) == Some("hevc_"@ + hardware),
        sibling("libx264"@) == Some("libx265"@),
        sibling(name) is Some && name != "libx264"@ ==> {
            &&& name.len() > 5 && name.take(5) == "h264_"@
            &&& sibling(name) == Some("hevc_"@ + name.skip(5))
        },
        sibling("hevc_"@ + hardware) is None,
        sibling("libx265"@) is None,
{
    reveal_strlit("h264_");
    reveal_strlit("hevc_");
    reveal_strlit("nvenc");
    reveal_strlit("amf");
    reveal_strlit("qsv");
    reveal_strlit("videotoolbox");
    reveal_strlit("h264_nvenc");
    reveal_strlit("h264_amf");
    reveal_strlit("h264_qsv");
    reveal_strlit("h264_videotoolbox");
    reveal_strlit("hevc_nvenc");
    reveal_strlit("hevc_amf");
    reveal_strlit("hevc_qsv");
    reveal_strlit("hevc_videotoolbox");
    reveal_strlit("libx264");
    reveal_strlit("libx265");
    assert("h264_"@ + "nvenc"@ =~= "h264_nvenc"@ && "hevc_"@ + "nvenc"@ =~= "hevc_nvenc"@);
    assert("h264_"@ + "amf"@ =~= "h264_amf"@ && "hevc_"@ + "amf"@ =~= "hevc_amf"@);
    assert("h264_"@ + "qsv"@ =~= "h264_qsv"@ && "hevc_"@ + "qsv"@ =~= "hevc_qsv"@);
    assert("h264_"@ + "videotoolbox"@ =~= "h264_videotoolbox"@);
    assert("hevc_"@ + "videotoolbox"@ =~= "hevc_videotoolbox"@);
    assert("h264_nvenc"@.len() == 10 && "h264_amf"@.len() == 8 && "h264_qsv"@.len() == 8);
    assert("h264_amf"@[5] == 'a' && "h264_qsv"@[5] == 'q');
    assert("h264_videotoolbox"@.len() == 17 && "libx264"@.len() == 7);
    assert("h264_nvenc"@.take(5) =~= "h264_"@ && "h264_nvenc"@.skip(5) =~= "nvenc"@);
    assert("h264_amf"@.take(5) =~= "h264_"@ && "h264_amf"@.skip(5) =~= "amf"@);
    assert("h264_qsv"@.take(5) =~= "h264_"@ && "h264_qsv"@.skip(5) =~= "qsv"@);
    assert("h264_videotoolbox"@.take(5) =~= "h264_"@);
    assert("h264_videotoolbox"@.skip(5) =~= "videotoolbox"@);
    let other = "hevc_"@ + hardware;
    assert(other[1] == 'e');
    assert("h264_nvenc"@[1] == '2' && "h264_amf"@[1] == '2' && "h264_qsv"@[1] == '2');
    assert("h264_videotoolbox"@[1] == '2' && "libx264"@[1] == 'i');
    assert("libx264"@[6] == '4' && "libx265"@[6] == '5');
    assert("libx265"@.len() == 7);
}

/// A stage at the start of a pipeline has no session and no failure behind it.
/// So every encoder that the user may have is tried before the software one, a
/// session is opened before the first frame, and no keyframe is overdue.
pub proof fn stages_start_afresh(name: Seq<char>, display: Seq<char>)
    ensures
        ({
            let e = at_start(name, display);
            &&& e.name == name && e.display == display
            &&& e.session is None && e.failed is None && !e.software
            &&& e.frames_since_last_idr == 0 && e.amf_startup_idr_retries == 0
            &&& !intra_wanted(e, false)
        }),
{
}

/// Whether an encoder is given an option.
pub open spec fn is_given(name: Seq<char>, key: Seq<char>, value: Seq<char>) -> bool {
    exists|i: int|
        0 <= i < options_of(name).len() && #[trigger] options_of(name)[i] == (key, value)
}

proof fn gives(name: Seq<char>, i: int)
    requires
        0 <= i < options_of(name).len(),
    ensures
        is_given(name, options_of(name)[i].0, options_of(name)[i].1),
{
    let o = options_of(name)[i];
    assert(options_of(name)[i] == (o.0, o.1));
}

proof fn encoder_names_differ()
    ensures
        "h264_nvenc"@ != "h264_amf"@ && "h264_nvenc"@ != "h264_qsv"@ && "h264_nvenc"@
            != "libx264"@,
        "h264_amf"@ != "h264_qsv"@ && "h264_amf"@ != "libx264"@ && "h264_qsv"@ != "libx264"@,
        "hevc_nvenc"@ != "hevc_amf"@ && "hevc_nvenc"@ != "hevc_qsv"@ && "hevc_amf"@ != "hevc_qsv"@,
        forall|a: Seq<char>, b: Seq<char>|
            (a == "h264_nvenc"@ || a == "h264_amf"@ || a == "h264_qsv"@ || a == "libx264"@) && (b
                == "hevc_nvenc"@ || b == "hevc_amf"@ || b == "hevc_qsv"@ || b == "libx265"@)
                ==> #[trigger] differ(a, b),
        "libx265"@ != "hevc_nvenc"@ && "libx265"@ != "hevc_amf"@ && "libx265"@ != "hevc_qsv"@,
        "libx264"@ != "h264_videotoolbox"@,
{
    reveal_strlit("h264_videotoolbox");
    reveal_strlit("h264_nvenc");
    reveal_strlit("h264_amf");
    reveal_strlit("h264_qsv");
    reveal_strlit("libx264");
    reveal_strlit("hevc_nvenc");
    reveal_strlit("hevc_amf");
    reveal_strlit("hevc_qsv");
    reveal_strlit("libx265");
    assert("h264_nvenc"@.len() == 10 && "hevc_nvenc"@.len() == 10);
    assert("libx264"@.len() == 7 && "libx265"@.len() == 7);
    assert("h264_amf"@.len() == 8 && "h264_qsv"@.len() == 8);
    assert("hevc_amf"@.len() == 8 && "hevc_qsv"@.len() == 8);
    assert("h264_amf"@[5] == 'a' && "h264_qsv"@[5] == 'q');
    assert("hevc_amf"@[5] == 'a' && "hevc_qsv"@[5] == 'q');
    assert("h264_nvenc"@[1] == '2' && "h264_amf"@[1] == '2' && "h264_qsv"@[1] == '2');
    assert("hevc_nvenc"@[1] == 'e' && "hevc_amf"@[1] == 'e' && "hevc_qsv"@[1] == 'e');
    assert("libx264"@[6] == '4' && "libx265"@[6] == '5');
    assert("h264_videotoolbox"@.len() == 17);
}

spec fn differ(a: Seq<char>, b: Seq<char>) -> bool {
    a != b
}

/// What the H.264 and the HEVC encoder of some hardware are given alike: what
/// keeps their latency low, and a constant bitrate where it can be asked for.
/// Only the H.264 encoder is given a profile besides.
pub proof fn hardware_is_tuned_alike(h264: Seq<char>)
    requires
        h264 == "h264_nvenc"@ || h264 == "h264_amf"@ || h264 == "h264_qsv"@ || h264 == "libx264"@,
    ensures
        ({
            let hevc = sibling(h264)->0;
            &&& sibling(h264) is Some
            &&& forall|key: Seq<char>, value: Seq<char>| #[trigger]
                is_given(hevc, key, value) && key != "header_insertion_mode"@ ==> is_given(
                    h264,
                    key,
                    value,
                )
            &&& forall|key: Seq<char>, value: Seq<char>| #[trigger]
                is_given(h264, key, value) && key != "profile"@ && key != "level"@ && key
                    != "coder"@ && key != "header_spacing"@ ==> is_given(hevc, key, value)
            &&& h264 == "h264_nvenc"@ ==> {
                &&& is_given(hevc, "tune"@, "ll"@) && is_given(hevc, "zerolatency"@, "1"@)
                &&& is_given(hevc, "rc"@, "cbr"@) && is_given(hevc, "preset"@, "p1"@)
            }
            &&& h264 == "h264_amf"@ ==> {
                &&& is_given(hevc, "usage"@, "lowlatency"@) && is_given(hevc, "latency"@, "1"@)
                &&& is_given(hevc, "rc"@, "cbr"@) && is_given(hevc, "quality"@, "speed"@)
                &&& is_given(hevc, "aud"@, "0"@)
                &&& is_given(hevc, "header_insertion_mode"@, "idr"@)
                &&& is_given(h264, "header_spacing"@, "1"@)
                &&& is_given(h264, "level"@, "5.1"@) && is_given(h264, "coder"@, "cavlc"@)
            }
            &&& h264 == "h264_qsv"@ ==> {
                &&& is_given(hevc, "look_ahead"@, "0"@) && is_given(hevc, "preset"@, "veryfast"@)
            }
            &&& h264 == "libx264"@ ==> {
                &&& is_given(hevc, "tune"@, "zerolatency"@)
                &&& is_given(hevc, "preset"@, "ultrafast"@)
            }
            &&& is_given(
                h264,
                "profile"@,
                if h264 == "h264_amf"@ {
                    "constrained_baseline"@
                } else {
                    "baseline"@
                },
            )
        }),
{
    encoder_names_differ();
    let hevc = sibling(h264)->0;
    assert(differ(h264, hevc));
    assert(differ("h264_nvenc"@, hevc) && differ("h264_amf"@, hevc) && differ("h264_qsv"@, hevc)
        && differ("libx264"@, hevc));
    let a = options_of(h264);
    let b = options_of(hevc);
    if h264 == "h264_nvenc"@ {
        assert(a.len() == 5 && b.len() == 4);
        assert(b[0] == a[0] && b[1] == a[1] && b[2] == a[3] && b[3] == a[4]);
    } else if h264 == "h264_amf"@ {
        assert(a.len() == 9 && b.len() == 6);
        assert(b[0] == a[0] && b[1] == a[1] && b[2] == a[2] && b[3] == a[6] && b[5] == a[8]);
    } else if h264 == "h264_qsv"@ {
        assert(a.len() == 3 && b.len() == 2);
        assert(b[0] == a[0] && b[1] == a[2]);
    } else {
        assert(a.len() == 3 && b.len() == 2);
        assert(b[0] == a[0] && b[1] == a[1]);
    }
    assert forall|i: int| 0 <= i < a.len() implies is_given(
        h264,
        (#[trigger] a[i]).0,
        a[i].1,
    ) by {
        gives(h264, i);
    }
    assert forall|i: int| 0 <= i < b.len() implies is_given(
        hevc,
        (#[trigger] b[i]).0,
        b[i].1,
    ) by {
        gives(hevc, i);
    }
}

/// An encoder that nothing more is known of is given a baseline profile, unless
/// it is one for HEVC.
pub proof fn other_encoders_are_given_a_profile(name: Seq<char>)
    requires
        sibling(name) is None || name == "h264_videotoolbox"@,
        forall|h264: Seq<char>| #[trigger] sibling(h264) != Some(name),
    ensures
        options_of(name) == seq![("profile"@, "baseline"@)],
        options_of(sibling("h264_videotoolbox"@)->0).len() == 0,
{
    siblings_share_their_hardware("libx264"@, "nvenc"@);
    reveal_strlit("h264_videotoolbox");
    reveal_strlit("hevc_videotoolbox");
    reveal_strlit("h264_nvenc");
    reveal_strlit("h264_amf");
    reveal_strlit("h264_qsv");
    reveal_strlit("libx264");
    reveal_strlit("hevc_nvenc");
    reveal_strlit("hevc_amf");
    reveal_strlit("hevc_qsv");
    reveal_strlit("libx265");
    encoder_names_differ();
    assert("h264_videotoolbox"@.len() == 17 && "hevc_videotoolbox"@.len() == 17);
    assert("h264_nvenc"@.len() == 10 && "hevc_nvenc"@.len() == 10);
    assert("libx264"@.len() == 7 && "libx265"@.len() == 7);
    assert("h264_amf"@.len() == 8 && "h264_qsv"@.len() == 8);
    assert("hevc_amf"@.len() == 8 && "hevc_qsv"@.len() == 8);
    assert(sibling("h264_nvenc"@) == Some("hevc_nvenc"@));
    assert(sibling("h264_amf"@) == Some("hevc_amf"@));
    assert(sibling("h264_qsv"@) == Some("hevc_qsv"@));
    assert(sibling("libx264"@) == Some("libx265"@));
    assert(sibling("h264_videotoolbox"@) == Some("hevc_videotoolbox"@));
}

} // verus!
