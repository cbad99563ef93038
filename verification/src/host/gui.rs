//! What the control window decides: the settings tab, the labels, and the code
//! to scan. Drawing is left to whoever owns the window.

use vstd::prelude::*;
use vstd::slice::slice_subrange;
use vstd::string::StringExecFns;

use crate::host::capture::OutputInfo;
use crate::host::control;
use crate::host::control::{CaptureTarget, SharedControl, VddStatus, CAPTURE_VIRTUAL_SENTINEL};
use crate::host::settings::SettingsFile;
use crate::host::transport::session::PeerAddr;
use crate::text;
use crate::text::{characters, push_decimal, same_text, string_of, trim};

verus! {

pub const CAPTURE_AUTO_LABEL: &'static str = "Auto (primary)";

/// How the virtual display is called.
pub const EXTENDED_LABEL: &'static str = "Extended display (iPad)";

/// What the window says where the virtual display could not be brought up.
pub const EXTENDED_UNAVAILABLE: &'static str = "Extended display unavailable";

pub const ENCODER_AUTO_LABEL: &'static str = "Auto";

/// The target that stands for no target.
pub const NO_TARGET_TEXT: &'static str = "0.0.0.0:9876";

/// What a wrong target address is answered.
pub const TARGET_HINT: &'static str = "Enter host:port";

// ---- encoder choices -------------------------------------------------------

/// The encoders that the user can choose: labels and names. The automatic
/// choice has no name.
pub open spec fn choices() -> Seq<(Seq<char>, Seq<char>)> {
    seq![
        ("Auto"@, ""@),
        ("NVENC"@, "h264_nvenc"@),
        ("AMF"@, "h264_amf"@),
        ("QSV"@, "h264_qsv"@),
        ("x264"@, "libx264"@),
    ]
}

/// The labels of the encoders that the user can choose.
pub fn encoder_labels() -> (labels: Vec<&'static str>)
    ensures
        labels@.len() == choices().len(),
        forall|i: int| 0 <= i < labels@.len() ==> (#[trigger] labels@[i])@ == choices()[i].0,
{
    let mut labels: Vec<&'static str> = Vec::new();
    labels.push("Auto");
    labels.push("NVENC");
    labels.push("AMF");
    labels.push("QSV");
    labels.push("x264");
    labels
}

/// The encoder of a label: none for the automatic choice, or an unknown label.
pub open spec fn name_of(label: Seq<char>) -> Option<Seq<char>> {
    if label == "Auto"@ {
        None
    } else if label == "NVENC"@ {
        Some("h264_nvenc"@)
    } else if label == "AMF"@ {
        Some("h264_amf"@)
    } else if label == "QSV"@ {
        Some("h264_qsv"@)
    } else if label == "x264"@ {
        Some("libx264"@)
    } else {
        None
    }
}

/// The label of an encoder: the automatic one where it has none.
pub open spec fn label_of(name: Option<Seq<char>>) -> Seq<char> {
    match name {
        Some(n) => if n == "h264_nvenc"@ {
            "NVENC"@
        } else if n == "h264_amf"@ {
            "AMF"@
        } else if n == "h264_qsv"@ {
            "QSV"@
        } else if n == "libx264"@ {
            "x264"@
        } else {
            "Auto"@
        },
        None => "Auto"@,
    }
}

/// The characters of an optional string.
pub open spec fn chars_in(s: Option<String>) -> Option<Seq<char>> {
    match s {
        Some(t) => Some(t@),
        None => None,
    }
}

/// The encoder of a label.
pub fn encoder_name(label: &str) -> (name: Option<String>)
    ensures
        chars_in(name) == name_of(label@),
{
    if same_text(label, "Auto") {
        None
    } else if same_text(label, "NVENC") {
        Some("h264_nvenc".to_owned())
    } else if same_text(label, "AMF") {
        Some("h264_amf".to_owned())
    } else if same_text(label, "QSV") {
        Some("h264_qsv".to_owned())
    } else if same_text(label, "x264") {
        Some("libx264".to_owned())
    } else {
        None
    }
}

/// The label of an encoder.
pub fn encoder_choice(name: Option<&str>) -> (label: &'static str)
    ensures
        label@ == label_of(control::chars_of(name)),
{
    match name {
        Some(n) => {
            if same_text(n, "h264_nvenc") {
                "NVENC"
            } else if same_text(n, "h264_amf") {
                "AMF"
            } else if same_text(n, "h264_qsv") {
                "QSV"
            } else if same_text(n, "libx264") {
                "x264"
            } else {
                "Auto"
            }
        },
        None => "Auto",
    }
}

// ---- labels ----------------------------------------------------------------

/// What follows the last backslash; everything where there is none.
pub open spec fn short_name(name: Seq<char>) -> Seq<char>
    decreases name.len(),
{
    if name.len() == 0 || name.last() == '\\' {
        Seq::empty()
    } else {
        short_name(name.drop_last()).push(name.last())
    }
}

/// A signed number in decimal.
pub open spec fn signed_decimal(n: int) -> Seq<char> {
    if n < 0 {
        seq!['-'] + text::decimal((-n) as nat)
    } else {
        text::decimal(n as nat)
    }
}

/// The label of an output in the display picker.
pub open spec fn output_label(o: OutputInfo) -> Seq<char> {
    short_name(o.device_name@) + " · "@ + text::decimal(o.width as nat) + "×"@ + text::decimal(
        o.height as nat,
    ) + " · +"@ + signed_decimal(o.left as int) + ","@ + signed_decimal(o.top as int) + (if o.is_primary {
        " · primary"@
    } else {
        Seq::empty()
    })
}

fn push_signed(s: &mut String, n: i32)
    ensures
        final(s)@ == old(s)@ + signed_decimal(n as int),
{
    if n < 0 {
        s.push('-');
        push_decimal(s, (-(n as i64)) as u64);
        assert(s@ =~= old(s)@ + signed_decimal(n as int));
    } else {
        push_decimal(s, n as u64);
    }
}

fn shortened(name: &[char]) -> (s: String)
    ensures
        s@ == short_name(name@),
{
    let mut start: usize = name.len();
    assert(name@.len() == name.len());
    assert(name@.take(start as int) =~= name@);
    assert(name@.skip(start as int) =~= Seq::empty());
    while start > 0 && name[start - 1] != '\\'
        invariant
            start <= name@.len(),
            short_name(name@) == short_name(name@.take(start as int)) + name@.skip(start as int),
        decreases start,
    {
        assert(name@.take(start as int).drop_last() =~= name@.take(start - 1));
        assert(short_name(name@.take(start - 1)).push(name@[start - 1]) + name@.skip(start as int)
            =~= short_name(name@.take(start - 1)) + name@.skip(start - 1));
        start -= 1;
    }
    let rest = slice_subrange(name, start, name.len());
    assert(rest@ =~= name@.skip(start as int));
    assert(short_name(name@.take(start as int)) =~= Seq::empty());
    assert(short_name(name@) =~= rest@);
    string_of(rest)
}

/// The label of an output in the display picker: its short name, its size, its
/// place on the desktop, and whether it is the primary one.
pub fn format_output_label(o: &OutputInfo) -> (s: String)
    ensures
        s@ == output_label(*o),
{
    let chars = characters(o.device_name.as_str());
    let mut s = shortened(chars.as_slice());
    s.append(" · ");
    push_decimal(&mut s, o.width as u64);
    s.append("×");
    push_decimal(&mut s, o.height as u64);
    s.append(" · +");
    push_signed(&mut s, o.left);
    s.append(",");
    push_signed(&mut s, o.top);
    if o.is_primary {
        s.append(" · primary");
    } else {
        assert(s@ =~= s@ + Seq::<char>::empty());
    }
    s
}

/// The place of the first output with a name.
pub open spec fn output_named(outputs: Seq<OutputInfo>, name: Seq<char>, from: int) -> Option<int>
    decreases outputs.len() - from,
{
    if from < 0 || from >= outputs.len() {
        None
    } else if outputs[from].device_name@ == name {
        Some(from)
    } else {
        output_named(outputs, name, from + 1)
    }
}

/// What the display picker shows.
pub open spec fn display_text(outputs: Seq<OutputInfo>, chosen: Seq<char>) -> Seq<char> {
    if chosen.len() == 0 {
        CAPTURE_AUTO_LABEL@
    } else if chosen == CAPTURE_VIRTUAL_SENTINEL@ {
        EXTENDED_LABEL@
    } else {
        match output_named(outputs, chosen, 0) {
            Some(i) => output_label(outputs[i]),
            None => chosen + " (not connected)"@,
        }
    }
}

/// What the display picker shows for the chosen display.
pub fn selected_display(outputs: &[OutputInfo], chosen: &str) -> (s: String)
    ensures
        s@ == display_text(outputs@, chosen@),
{
    if chosen.is_empty() {
        return CAPTURE_AUTO_LABEL.to_owned();
    }
    if same_text(chosen, CAPTURE_VIRTUAL_SENTINEL) {
        return EXTENDED_LABEL.to_owned();
    }
    let mut i: usize = 0;
    while i < outputs.len()
        invariant
            i <= outputs@.len(),
            chosen@.len() > 0,
            chosen@ != CAPTURE_VIRTUAL_SENTINEL@,
            output_named(outputs@, chosen@, i as int) == output_named(outputs@, chosen@, 0),
        decreases outputs@.len() - i,
    {
        if same_text(outputs[i].device_name.as_str(), chosen) {
            return format_output_label(&outputs[i]);
        }
        i += 1;
    }
    let mut s = chosen.to_owned();
    s.append(" (not connected)");
    s
}

/// What the window warns of, given how the virtual display fares: that it was
/// wanted and could not be brought up, so that the primary display is mirrored.
pub fn display_warning(status: VddStatus) -> (text: Option<&'static str>)
    ensures
        match text {
            Some(t) => status == VddStatus::Failed && t@ == EXTENDED_UNAVAILABLE@,
            None => status != VddStatus::Failed,
        },
{
    match status {
        VddStatus::Failed => Some(EXTENDED_UNAVAILABLE),
        _ => None,
    }
}

/// A value, or what stands for none.
pub fn value_or_unknown(value: &str) -> (s: &str)
    ensures
        s@ == (if value@.len() == 0 {
            "Unknown"@
        } else {
            value@
        }),
{
    if value.is_empty() {
        "Unknown"
    } else {
        value
    }
}

/// A time in whole minutes and seconds.
pub fn format_uptime(uptime_ns: u64) -> (s: String)
    ensures
        s@ == text::decimal((uptime_ns / 60_000_000_000) as nat) + "m "@ + text::decimal(
            (uptime_ns / 1_000_000_000 % 60) as nat,
        ) + "s"@,
{
    let mut s = String::new();
    push_decimal(&mut s, uptime_ns / 60_000_000_000);
    assert(s@ =~= text::decimal((uptime_ns / 60_000_000_000) as nat));
    s.append("m ");
    push_decimal(&mut s, uptime_ns / 1_000_000_000 % 60);
    s.append("s");
    s
}

/// How an amount of bytes is shown: divided, to so many decimal places, with
/// this unit behind it.
#[derive(Debug, Clone, Copy, PartialEq, Eq, Structural)]
pub enum ByteUnit {
    Bytes,
    Kilobytes,
    Megabytes,
    Gigabytes,
}

/// The unit in which an amount of bytes is shown.
pub fn byte_unit(bytes: u64) -> (unit: ByteUnit)
    ensures
        unit == (if bytes > 1_000_000_000 {
            ByteUnit::Gigabytes
        } else if bytes > 1_000_000 {
            ByteUnit::Megabytes
        } else if bytes > 1_000 {
            ByteUnit::Kilobytes
        } else {
            ByteUnit::Bytes
        }),
{
    if bytes > 1_000_000_000 {
        ByteUnit::Gigabytes
    } else if bytes > 1_000_000 {
        ByteUnit::Megabytes
    } else if bytes > 1_000 {
        ByteUnit::Kilobytes
    } else {
        ByteUnit::Bytes
    }
}

/// Whether a target is worth showing.
pub open spec fn shows_target(target: Seq<char>) -> bool {
    target.len() > 0 && target != NO_TARGET_TEXT@
}

/// Whether a target is worth showing.
pub fn has_target(target_addr: &str) -> (b: bool)
    ensures
        b == shows_target(target_addr@),
{
    !target_addr.is_empty() && !same_text(target_addr, NO_TARGET_TEXT)
}

/// The second line of the status: the target, or what is waited for.
pub fn status_detail(running: bool, target_addr: &str) -> (s: Option<String>)
    ensures
        chars_in(s) == (if shows_target(target_addr@) {
            Some("→ "@ + target_addr@)
        } else if running {
            Some("waiting for iPad"@)
        } else {
            None
        }),
{
    if has_target(target_addr) {
        let mut s = "→ ".to_owned();
        s.append(target_addr);
        Some(s)
    } else if running {
        Some("waiting for iPad".to_owned())
    } else {
        None
    }
}

/// How the host is named to the user: its address and port, or what stands for
/// an address that is not known.
pub fn listen_text(ip: Option<&str>, port: u16) -> (s: String)
    ensures
        s@ == (match ip {
            Some(a) => a@,
            None => "unknown"@,
        }) + ":"@ + text::decimal(port as nat),
{
    let mut s = match ip {
        Some(a) => a.to_owned(),
        None => "unknown".to_owned(),
    };
    s.append(":");
    push_decimal(&mut s, port as u64);
    s
}

// ---- the settings tab ------------------------------------------------------

/// The settings tab.
#[derive(Debug)]
pub struct SettingsPanel {
    pub bitrate_bps: u32,
    pub fps_target: u32,
    pub target_ip: String,
    pub target_error: Option<String>,
    pub start_on_boot: bool,
    /// Whether HEVC is preferred for clients that can decode it.
    pub prefer_hevc: bool,
    /// The label of the chosen encoder.
    pub encoder_choice: String,
    /// The name of the chosen display; empty means the primary one.
    pub capture_display: String,
}

/// The frame rate of a setting: only 30 and 60 are taken over.
pub open spec fn fps_of(setting: u32, running: u32) -> u32 {
    if setting == 30 || setting == 60 {
        setting
    } else {
        running
    }
}

impl SettingsPanel {
    /// Opens the tab with what was saved, and puts it into force. A target
    /// that was saved but does not parse is shown and not used. The system
    /// knows best whether the host starts on boot.
    pub fn open(
        saved: &SettingsFile,
        saved_target: Option<PeerAddr>,
        shared: &mut SharedControl,
        current_target: &str,
        starts_on_boot: bool,
    ) -> (p: SettingsPanel)
        ensures
            p.bitrate_bps == (if saved.bitrate_bps > 0 {
                saved.bitrate_bps
            } else {
                old(shared).bitrate_bps
            }),
            p.fps_target == fps_of(saved.target_fps, old(shared).target_fps),
            p.target_ip@ == (match saved.target_ip {
                Some(ip) => ip@,
                None => if old(shared).target_addr.ip_is_unspecified() || old(
                    shared,
                ).target_addr.port == 0 {
                    Seq::empty()
                } else {
                    current_target@
                },
            }),
            p.target_error is None,
            p.start_on_boot == starts_on_boot,
            p.prefer_hevc == saved.prefer_hevc,
            p.encoder_choice@ == label_of(chars_in(saved.encoder_override)),
            p.capture_display@ == (match saved.capture_display {
                Some(d) => d@,
                None => Seq::empty(),
            }),
            final(shared).capture_target@ == control::target_of(chars_in(saved.capture_display)),
            chars_in(final(shared).encoder_override) == (match saved.encoder_override {
                Some(name) => Some(name@),
                None => chars_in(old(shared).encoder_override),
            }),
            *final(shared) == (SharedControl {
                bitrate_bps: p.bitrate_bps,
                target_fps: p.fps_target,
                target_addr: match (saved.target_ip, saved_target) {
                    (Some(_), Some(addr)) => addr,
                    _ => old(shared).target_addr,
                },
                encoder_override: final(shared).encoder_override,
                capture_target: final(shared).capture_target,
                hevc_enabled: saved.prefer_hevc,
                ..*old(shared)
            }),
    {
        shared.hevc_enabled = saved.prefer_hevc;
        let bitrate_bps: u32 = if saved.bitrate_bps > 0 {
            saved.bitrate_bps
        } else {
            shared.bitrate_bps
        };
        shared.bitrate_bps = bitrate_bps;
        let fps_target: u32 = if saved.target_fps == 30 || saved.target_fps == 60 {
            saved.target_fps
        } else {
            shared.target_fps
        };
        shared.target_fps = fps_target;
        let target_ip = match &saved.target_ip {
            Some(ip) => {
                if let Some(addr) = saved_target {
                    shared.target_addr = addr;
                }
                ip.clone()
            },
            None => {
                if shared.target_addr.is_reachable() {
                    current_target.to_owned()
                } else {
                    String::new()
                }
            },
        };
        let encoder_choice = match &saved.encoder_override {
            Some(name) => {
                shared.encoder_override = Some(name.clone());
                encoder_choice(Some(name.as_str())).to_owned()
            },
            None => ENCODER_AUTO_LABEL.to_owned(),
        };
        let capture_display = match &saved.capture_display {
            Some(d) => {
                shared.capture_target = CaptureTarget::from_setting(Some(d.as_str()));
                d.clone()
            },
            None => {
                shared.capture_target = CaptureTarget::PrimaryAuto;
                String::new()
            },
        };
        SettingsPanel {
            bitrate_bps,
            fps_target,
            target_ip,
            target_error: None,
            start_on_boot: starts_on_boot,
            prefer_hevc: saved.prefer_hevc,
            encoder_choice,
            capture_display,
        }
    }

    /// What is to be saved of the tab.
    pub fn saved(&self) -> (file: SettingsFile)
        ensures
            file.bitrate_bps == self.bitrate_bps,
            file.target_fps == self.fps_target,
            chars_in(file.target_ip) == (if text::trimmed(self.target_ip@).len() == 0 {
                None
            } else {
                Some(text::trimmed(self.target_ip@))
            }),
            chars_in(file.encoder_override) == name_of(self.encoder_choice@),
            chars_in(file.capture_display) == (if self.capture_display@.len() == 0 {
                None
            } else {
                Some(self.capture_display@)
            }),
            file.start_on_boot == self.start_on_boot,
            file.prefer_hevc == self.prefer_hevc,
    {
        let chars = characters(self.target_ip.as_str());
        let kept = trim(chars.as_slice());
        SettingsFile {
            bitrate_bps: self.bitrate_bps,
            target_fps: self.fps_target,
            target_ip: if kept.len() == 0 {
                None
            } else {
                Some(string_of(kept))
            },
            encoder_override: encoder_name(self.encoder_choice.as_str()),
            capture_display: if self.capture_display.as_str().is_empty() {
                None
            } else {
                Some(self.capture_display.clone())
            },
            start_on_boot: self.start_on_boot,
            prefer_hevc: self.prefer_hevc,
        }
    }

    /// The user moved the bitrate.
    pub fn set_bitrate(&mut self, shared: &mut SharedControl, bitrate_bps: u32)
        ensures
            *final(self) == (SettingsPanel { bitrate_bps, ..*old(self) }),
            *final(shared) == (SharedControl { bitrate_bps, ..*old(shared) }),
    {
        self.bitrate_bps = bitrate_bps;
        shared.bitrate_bps = bitrate_bps;
    }

    /// The user chose a frame rate. Returns whether that changed anything.
    pub fn set_fps(&mut self, shared: &mut SharedControl, fps: u32) -> (changed: bool)
        ensures
            changed == (fps != old(self).fps_target),
            *final(self) == (SettingsPanel { fps_target: fps, ..*old(self) }),
            *final(shared) == (if changed {
                SharedControl { target_fps: fps, ..*old(shared) }
            } else {
                *old(shared)
            }),
    {
        if fps == self.fps_target {
            return false;
        }
        self.fps_target = fps;
        shared.target_fps = fps;
        true
    }

    /// The user switched the preference for HEVC, in force from the next frame.
    /// Returns whether that changed anything.
    pub fn set_prefer_hevc(&mut self, shared: &mut SharedControl, wanted: bool) -> (changed: bool)
        ensures
            changed == (wanted != old(self).prefer_hevc),
            *final(self) == (SettingsPanel { prefer_hevc: wanted, ..*old(self) }),
            *final(shared) == (if changed {
                SharedControl { hevc_enabled: wanted, ..*old(shared) }
            } else {
                *old(shared)
            }),
    {
        if wanted == self.prefer_hevc {
            return false;
        }
        self.prefer_hevc = wanted;
        shared.hevc_enabled = wanted;
        true
    }

    /// The user entered a target; `parsed` is what it means as an address.
    /// Returns whether it was taken.
    pub fn apply_target(&mut self, shared: &mut SharedControl, parsed: Option<PeerAddr>) -> (taken:
        bool)
        ensures
            taken == parsed is Some,
            chars_in(final(self).target_error) == (if taken {
                None
            } else {
                Some(TARGET_HINT@)
            }),
            *final(self) == (SettingsPanel {
                target_error: final(self).target_error,
                ..*old(self)
            }),
            *final(shared) == (match parsed {
                Some(addr) => SharedControl { target_addr: addr, ..*old(shared) },
                None => *old(shared),
            }),
    {
        match parsed {
            Some(addr) => {
                shared.target_addr = addr;
                self.target_error = None;
                true
            },
            None => {
                self.target_error = Some(TARGET_HINT.to_owned());
                false
            },
        }
    }

    /// A target that was learned from a client is shown where the user has
    /// entered none.
    pub fn adopt_target(&mut self, target_addr: &str)
        ensures
            final(self).target_ip@ == (if old(self).target_ip@.len() == 0 && shows_target(
                target_addr@,
            ) {
                target_addr@
            } else {
                old(self).target_ip@
            }),
            *final(self) == (SettingsPanel { target_ip: final(self).target_ip, ..*old(self) }),
    {
        if self.target_ip.as_str().is_empty() && has_target(target_addr) {
            self.target_ip = target_addr.to_owned();
        }
    }

    /// The user chose an encoder, in force from the next restart. Returns
    /// whether that changed anything.
    pub fn choose_encoder(&mut self, shared: &mut SharedControl, label: &str) -> (changed: bool)
        ensures
            changed == (label@ != old(self).encoder_choice@),
            final(self).encoder_choice@ == label@,
            *final(self) == (SettingsPanel {
                encoder_choice: final(self).encoder_choice,
                ..*old(self)
            }),
            changed ==> chars_in(final(shared).encoder_override) == name_of(label@),
            *final(shared) == (SharedControl {
                encoder_override: if changed {
                    final(shared).encoder_override
                } else {
                    old(shared).encoder_override
                },
                ..*old(shared)
            }),
    {
        if same_text(label, self.encoder_choice.as_str()) {
            return false;
        }
        self.encoder_choice = label.to_owned();
        shared.encoder_override = encoder_name(label);
        true
    }

    /// The user chose a display, in force from the next restart. Returns
    /// whether that changed anything.
    pub fn choose_display(&mut self, shared: &mut SharedControl, name: &str) -> (changed: bool)
        ensures
            changed == (name@ != old(self).capture_display@),
            final(self).capture_display@ == name@,
            *final(self) == (SettingsPanel {
                capture_display: final(self).capture_display,
                ..*old(self)
            }),
            changed ==> final(shared).capture_target@ == control::target_of(Some(name@)),
            *final(shared) == (SharedControl {
                capture_target: if changed {
                    final(shared).capture_target
                } else {
                    old(shared).capture_target
                },
                ..*old(shared)
            }),
    {
        if same_text(name, self.capture_display.as_str()) {
            return false;
        }
        self.capture_display = name.to_owned();
        shared.capture_target = CaptureTarget::from_setting(Some(name));
        true
    }

    /// The user switched starting on boot, and the system answered. Returns
    /// whether the switch holds.
    pub fn set_start_on_boot(&mut self, wanted: bool, answer: Result<(), String>) -> (done: bool)
        ensures
            done == answer is Ok,
            *final(self) == (match answer {
                Ok(_) => SettingsPanel {
                    start_on_boot: wanted,
                    target_error: None,
                    ..*old(self)
                },
                Err(e) => SettingsPanel { target_error: Some(e), ..*old(self) },
            }),
    {
        match answer {
            Ok(_) => {
                self.start_on_boot = wanted;
                self.target_error = None;
                true
            },
            Err(e) => {
                self.target_error = Some(e);
                false
            },
        }
    }
}

// ---- the code to scan ------------------------------------------------------

/// The address that a client is given to connect to.
pub fn connect_url(listen_addr: &str, target_addr: &str) -> (url: String)
    ensures
        url@ == "eternaldisplay://"@ + (if listen_addr@.len() == 0 {
            target_addr@
        } else {
            listen_addr@
        }),
{
    let mut url = "eternaldisplay://".to_owned();
    if listen_addr.is_empty() {
        url.append(target_addr);
    } else {
        url.append(listen_addr);
    }
    url
}

/// The longest text that is handed to the encoder of codes.
pub const MAX_QR_DATA: usize = 0x1000_0000;

/// The QR code of some bytes: its width, and its modules row by row, dark ones
/// true; none where the bytes are too many for a code.
pub uninterp spec fn qr_code(data: Seq<u8>) -> Option<(usize, Seq<bool>)>;

/// A QR code with its modules as a sequence.
pub open spec fn modules_of(code: Option<(usize, Vec<bool>)>) -> Option<(usize, Seq<bool>)> {
    match code {
        Some((width, modules)) => Some((width, modules@)),
        None => None,
    }
}

/// `qrcode::QrCode::new` with its `width` and `to_colors`: the code of some
/// bytes at the default level of error correction. The code is a square of
/// modules, at most 177 on a side; which of them are dark is left to the name.
#[verifier::external_body]
fn encode_qr(data: &[u8]) -> (code: Option<(usize, Vec<bool>)>)
    requires
        data@.len() <= MAX_QR_DATA,
    ensures
        modules_of(code) == qr_code(data@),
        code matches Some((width, modules)) ==> modules@.len() == width * width && width <= 177,
{
    let code = qrcode::QrCode::new(data).ok()?;
    let modules = code.to_colors().into_iter().map(|c| match c {
        qrcode::Color::Dark => true,
        qrcode::Color::Light => false,
    });
    Some((code.width(), modules.collect()))
}

/// A code, ready to be drawn.
#[derive(Debug)]
pub struct QrMatrix {
    pub width: usize,
    pub modules: Vec<bool>,
}

impl QrMatrix {
    pub open spec fn ok(&self) -> bool {
        self.modules@.len() == self.width * self.width
    }

    /// Whether the module in column `x` of row `y` is dark.
    pub fn is_dark(&self, x: usize, y: usize) -> (b: bool)
        requires
            self.ok(),
            x < self.width,
            y < self.width,
        ensures
            b == self.modules@[y * self.width + x],
    {
        assert(self.modules@.len() == self.modules.len());
        assert(0 <= y * self.width && y * self.width + x < self.width * self.width)
            by (nonlinear_arith)
            requires
                0 <= x < self.width,
                0 <= y < self.width,
        ;
        self.modules[y * self.width + x]
    }
}

/// The code that is shown, kept until another text is to be shown.
#[derive(Debug)]
pub struct QrPanel {
    pub shown: Option<(String, QrMatrix)>,
}

/// The code of a text; none where the text is too long for one.
pub open spec fn code_of(url: Seq<char>) -> Option<(usize, Seq<bool>)> {
    let data = vstd::utf8::encode_utf8(url);
    if data.len() > MAX_QR_DATA {
        None
    } else {
        qr_code(data)
    }
}

/// Whether a panel shows the code of a text, or nothing where it has none.
pub open spec fn shows(p: QrPanel, url: Seq<char>) -> bool {
    match p.shown {
        Some((text, matrix)) => text@ == url && code_of(url) == Some(
            (matrix.width, matrix.modules@),
        ) && matrix.ok(),
        None => code_of(url) is None,
    }
}

impl QrPanel {
    /// A panel that shows nothing yet.
    pub fn new() -> (p: QrPanel)
        ensures
            p.shown is None,
    {
        QrPanel { shown: None }
    }

    /// Takes on the code of a text.
    pub fn set(&mut self, url: &str, code: Option<(usize, Vec<bool>)>)
        ensures
            match code {
                Some((width, modules)) => final(self).shown matches Some((text, matrix)) && text@
                    == url@ && matrix == (QrMatrix { width, modules }),
                None => final(self).shown is None,
            },
    {
        self.shown = match code {
            Some((width, modules)) => Some((url.to_owned(), QrMatrix { width, modules })),
            None => None,
        };
    }

    /// Makes sure that the panel shows the code of a text. A code that it
    /// shows already is not computed again.
    pub fn show(&mut self, url: &str)
        ensures
            match old(self).shown {
                Some((text, _)) if text@ == url@ => *final(self) == *old(self),
                _ => shows(*final(self), url@),
            },
    {
        if let Some((text, _matrix)) = &self.shown {
            if same_text(text.as_str(), url) {
                return;
            }
        }
        let data = url.as_bytes();
        let code = if data.len() > MAX_QR_DATA {
            None
        } else {
            encode_qr(data)
        };
        self.set(url, code);
    }
}

/// A panel that was right about its text stays right: either the text is the
/// same, and so is the code, or the code is that of the new text.
pub proof fn panels_stay_right(before: QrPanel, after: QrPanel, url: Seq<char>)
    requires
        before.shown matches Some((text, _)) ==> shows(before, text@),
        match before.shown {
            Some((text, _)) if text@ == url => after == before,
            _ => shows(after, url),
        },
    ensures
        shows(after, url),
{
}

/// Choosing an encoder by its label and saving it gives the label back.
pub proof fn encoder_choices_survive(i: int)
    requires
        0 <= i < choices().len(),
    ensures
        label_of(name_of(choices()[i].0)) == choices()[i].0,
{
    reveal_strlit("Auto");
    reveal_strlit("NVENC");
    reveal_strlit("AMF");
    reveal_strlit("QSV");
    reveal_strlit("x264");
    reveal_strlit("h264_nvenc");
    reveal_strlit("h264_amf");
    reveal_strlit("h264_qsv");
    reveal_strlit("libx264");
    assert("Auto"@[0] != "NVENC"@[0] && "Auto"@.len() != "AMF"@.len() && "Auto"@.len()
        != "QSV"@.len() && "Auto"@[0] != "x264"@[0]);
    assert("NVENC"@.len() != "AMF"@.len() && "NVENC"@.len() != "QSV"@.len() && "NVENC"@.len()
        != "x264"@.len());
    assert("AMF"@[0] != "QSV"@[0] && "AMF"@.len() != "x264"@.len() && "QSV"@.len()
        != "x264"@.len());
    assert("h264_nvenc"@.len() != "h264_amf"@.len() && "h264_nvenc"@.len() != "h264_qsv"@.len()
        && "h264_nvenc"@.len() != "libx264"@.len());
    assert("h264_amf"@[5] != "h264_qsv"@[5] && "h264_amf"@.len() != "libx264"@.len()
        && "h264_qsv"@.len() != "libx264"@.len());
}

/// The short name of an output is what stands behind the last backslash of its
/// name, or all of it.
pub proof fn short_names_follow_the_last_backslash(front: Seq<char>, short: Seq<char>)
    requires
        !short.contains('\\'),
    ensures
        short_name(short) == short,
        short_name(front + seq!['\\'] + short) == short,
    decreases short.len(),
{
    let all = front + seq!['\\'] + short;
    if short.len() == 0 {
        assert(all.last() == '\\');
        assert(short_name(short) =~= short);
        assert(short_name(all) =~= short);
    } else {
        let w = short.drop_last();
        assert(short.contains(short.last()));
        assert(!w.contains('\\')) by {
            if w.contains('\\') {
                let k = choose|k: int| 0 <= k < w.len() && w[k] == '\\';
                assert(short[k] == '\\');
            }
        }
        short_names_follow_the_last_backslash(front, w);
        assert(all.drop_last() =~= front + seq!['\\'] + w);
        assert(all.last() == short.last());
        assert(w.push(short.last()) =~= short);
    }
}

/// The picker shows the chosen display: the automatic choice where none is
/// chosen, the virtual display by its own label, a connected one by the label of
/// the first that has its name, and any other by its name with a remark.
pub proof fn pickers_show_the_choice(outputs: Seq<OutputInfo>, chosen: Seq<char>, k: int)
    requires
        chosen.len() > 0,
        chosen != CAPTURE_VIRTUAL_SENTINEL@,
    ensures
        0 <= k < outputs.len() && outputs[k].device_name@ == chosen && (forall|j: int|
            0 <= j < k ==> (#[trigger] outputs[j]).device_name@ != chosen) ==> display_text(
            outputs,
            chosen,
        ) == output_label(outputs[k]),
        (forall|j: int| 0 <= j < outputs.len() ==> (#[trigger] outputs[j]).device_name@ != chosen)
            ==> display_text(outputs, chosen) == chosen + " (not connected)"@,
        display_text(outputs, Seq::empty()) == CAPTURE_AUTO_LABEL@,
{
    if 0 <= k < outputs.len() && outputs[k].device_name@ == chosen && (forall|j: int|
        0 <= j < k ==> (#[trigger] outputs[j]).device_name@ != chosen) {
        named_output_is_found(outputs, chosen, 0, k);
    }
    if forall|j: int| 0 <= j < outputs.len() ==> (#[trigger] outputs[j]).device_name@ != chosen {
        no_output_is_found(outputs, chosen, 0);
    }
}

proof fn named_output_is_found(outputs: Seq<OutputInfo>, name: Seq<char>, from: int, k: int)
    requires
        0 <= from <= k < outputs.len(),
        outputs[k].device_name@ == name,
        forall|j: int| from <= j < k ==> (#[trigger] outputs[j]).device_name@ != name,
    ensures
        output_named(outputs, name, from) == Some(k),
    decreases k - from,
{
    if from < k {
        named_output_is_found(outputs, name, from + 1, k);
    }
}

proof fn no_output_is_found(outputs: Seq<OutputInfo>, name: Seq<char>, from: int)
    requires
        0 <= from,
        forall|j: int| from <= j < outputs.len() ==> (#[trigger] outputs[j]).device_name@ != name,
    ensures
        output_named(outputs, name, from) is None,
    decreases outputs.len() - from,
{
    if from < outputs.len() {
        no_output_is_found(outputs, name, from + 1);
    }
}

/// Of the frame rates that may be saved, 30 and 60 are taken over; with any
/// other the one in force stays.
pub proof fn saved_frame_rates(setting: u32, running: u32)
    ensures
        fps_of(30, running) == 30 && fps_of(60, running) == 60,
        setting != 30 && setting != 60 ==> fps_of(setting, running) == running,
{
}

/// A target is shown unless it is empty or the one that stands for none.
pub proof fn what_targets_are_shown(target: Seq<char>)
    ensures
        shows_target(target) <==> target.len() > 0 && target != "0.0.0.0:9876"@,
{
}

} // verus!
