//! What the program reads from its surroundings when it starts.

use vstd::prelude::*;

use crate::host::capture;
use crate::host::capture::desktop;
use crate::host::capture::desktop::capture_label;
use crate::host::capture::OutputInfo;
use crate::host::control::SharedControl;
use crate::host::encoder::is_switched_on;
use crate::text;
use crate::text::{characters, parse_number, string_of, trim};

verus! {

pub const DEFAULT_PORT: u16 = 9876;

pub const DEFAULT_BITRATE_BPS: u32 = 15_000_000;

/// The port to listen on: the argument, if it is a port.
pub fn listen_port(argument: Option<&str>) -> (port: u16)
    ensures
        port == (match argument {
            Some(s) => match text::parsed_number(s@, u16::MAX as nat) {
                Some(n) => n,
                None => DEFAULT_PORT as nat,
            },
            None => DEFAULT_PORT as nat,
        }),
{
    match argument {
        Some(s) => {
            let chars = characters(s);
            match parse_number(chars.as_slice(), u16::MAX as u64) {
                Some(n) => n as u16,
                None => DEFAULT_PORT,
            }
        },
        None => DEFAULT_PORT,
    }
}

/// The encoder that the environment asks for: whatever is not blank.
pub open spec fn forced_encoder(setting: Option<Seq<char>>) -> Option<Seq<char>> {
    match setting {
        Some(s) => if text::trimmed(s).len() > 0 {
            Some(text::trimmed(s))
        } else {
            None
        },
        None => None,
    }
}

/// The frame rate that the environment asks for: a number above zero.
pub open spec fn forced_fps(setting: Option<Seq<char>>) -> Option<nat> {
    match setting {
        Some(s) => match text::parsed_number(text::trimmed(s), u32::MAX as nat) {
            Some(n) => if n > 0 {
                Some(n)
            } else {
                None
            },
            None => None,
        },
        None => None,
    }
}

/// The switch that the environment sets to one or zero.
pub open spec fn forced_switch(setting: Option<Seq<char>>) -> Option<bool> {
    match setting {
        Some(s) => if text::trimmed(s) == seq!['1'] {
            Some(true)
        } else if text::trimmed(s) == seq!['0'] {
            Some(false)
        } else {
            None
        },
        None => None,
    }
}

fn switch_of(setting: Option<&str>) -> (b: Option<bool>)
    ensures
        b == forced_switch(crate::host::control::chars_of(setting)),
{
    match setting {
        Some(s) => {
            let chars = characters(s);
            let kept = trim(chars.as_slice());
            let one = kept.len() == 1 && kept[0] == '1';
            let zero = kept.len() == 1 && kept[0] == '0';
            proof {
                assert(one ==> kept@ =~= seq!['1']);
                assert(zero ==> kept@ =~= seq!['0']);
                assert(kept@ == seq!['1'] ==> kept@[0] == '1');
                assert(kept@ == seq!['0'] ==> kept@[0] == '0');
            }
            if one {
                Some(true)
            } else if zero {
                Some(false)
            } else {
                None
            }
        },
        None => None,
    }
}

/// Puts the wishes of the environment into force before the first pipeline
/// runs: an encoder, a frame rate, and whether HEVC is preferred.
pub fn apply_environment(
    shared: &mut SharedControl,
    encoder: Option<&str>,
    fps: Option<&str>,
    hevc: Option<&str>,
)
    ensures
        match forced_encoder(crate::host::control::chars_of(encoder)) {
            Some(name) => final(shared).encoder_override matches Some(s) && s@ == name,
            None => final(shared).encoder_override == old(shared).encoder_override,
        },
        *final(shared) == (SharedControl {
            encoder_override: final(shared).encoder_override,
            target_fps: match forced_fps(crate::host::control::chars_of(fps)) {
                Some(n) => n as u32,
                None => old(shared).target_fps,
            },
            hevc_enabled: match forced_switch(crate::host::control::chars_of(hevc)) {
                Some(b) => b,
                None => old(shared).hevc_enabled,
            },
            ..*old(shared)
        }),
{
    if let Some(s) = encoder {
        let chars = characters(s);
        let kept = trim(chars.as_slice());
        if kept.len() > 0 {
            shared.encoder_override = Some(string_of(kept));
        }
    }
    if let Some(s) = fps {
        let chars = characters(s);
        if let Some(n) = parse_number(trim(chars.as_slice()), u32::MAX as u64) {
            if n > 0 {
                shared.target_fps = n as u32;
            }
        }
    }
    if let Some(b) = switch_of(hevc) {
        shared.hevc_enabled = b;
    }
}

/// Whether the bitrate adapts: unless the environment says no.
pub fn abr_enabled(setting: Option<&str>) -> (b: bool)
    ensures
        b == (forced_switch(crate::host::control::chars_of(setting)) != Some(false)),
{
    match switch_of(setting) {
        Some(b) => b,
        None => true,
    }
}

/// Whether the host runs without its window.
pub fn is_headless(setting: Option<&str>) -> (b: bool)
    ensures
        b == (setting matches Some(s) && text::trimmed(s@) == seq!['1']),
{
    is_switched_on(setting)
}

/// What the start banner says is captured: the primary output, else the first.
pub fn capture_summary(outputs: &[OutputInfo]) -> (s: String)
    ensures
        s@ == (if outputs@.len() == 0 {
            "unknown"@
        } else {
            desktop::label_of(outputs@[capture::primary_index(outputs@)])
        }),
{
    match capture::resolve_target(outputs, &crate::host::control::CaptureTarget::PrimaryAuto) {
        Some(i) => capture_label(&outputs[i]),
        None => "unknown".to_owned(),
    }
}

// ---- laws ------------------------------------------------------------------

/// What the environment asks for is understood with or without white space
/// around it: an encoder by its name, a frame rate above zero by its digits, and
/// a switch by a one or a zero.
pub proof fn wishes_are_understood(a: Seq<char>, name: Seq<char>, n: nat, b: Seq<char>)
    requires
        text::is_blank(a),
        text::is_blank(b),
        name.len() > 0,
        !text::is_white(name[0]),
        !text::is_white(name.last()),
    ensures
        forced_encoder(Some(a + name + b)) == Some(name),
        forced_encoder(Some(a)) is None && forced_encoder(None) is None,
        0 < n <= u32::MAX ==> forced_fps(Some(a + text::decimal(n) + b)) == Some(n),
        n == 0 || n > u32::MAX ==> forced_fps(Some(a + text::decimal(n) + b)) is None,
        forced_switch(Some(a + seq!['1'] + b)) == Some(true),
        forced_switch(Some(a + seq!['0'] + b)) == Some(false),
        forced_switch(None) is None,
        name.len() > 1 ==> forced_switch(Some(a + name + b)) is None,
{
    text::padding_is_trimmed(a, name, b);
    text::padding_is_trimmed(a, Seq::empty(), Seq::empty());
    assert(a + Seq::<char>::empty() + Seq::<char>::empty() =~= a);
    text::padding_is_trimmed(a, seq!['1'], b);
    text::padding_is_trimmed(a, seq!['0'], b);
    assert(seq!['1'][0] != seq!['0'][0]);
    text::digits_are_not_white(n);
    let d = text::decimal(n);
    assert(!text::is_white(d[0]) && !text::is_white(d[d.len() - 1]));
    text::padding_is_trimmed(a, d, b);
    if n <= u32::MAX {
        text::decimals_read_back(n, u32::MAX as nat);
    }
    text::what_a_number_is(n, u32::MAX as nat, d, 0);
}

} // verus!
