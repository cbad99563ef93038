//! The capture stage: which output is captured, at what pace, and when the
//! managed virtual display comes and goes.

use vstd::prelude::*;

use crate::host::control;
use crate::host::control::{CaptureTarget, Target, VddStatus};
use crate::text;
use crate::text::{characters, parse_number, same_text, trim};

pub mod cursor;
pub mod desktop;
pub mod pixels;
pub mod synthetic;

verus! {

/// Where the display is static it delivers no frames. If a client is connected
/// and nothing was sent for this long (nanoseconds), the last frame is sent
/// again, so that a pending keyframe goes out.
pub const IDLE_KEEPALIVE: u64 = 750_000_000;

/// How long to wait for the virtual display to attach, in seconds.
pub const VDD_ATTACH_TIMEOUT_DEFAULT_SECS: u64 = 10;

/// Nanoseconds that one frame may take at a frame rate, in whole microseconds.
pub open spec fn frame_budget(target_fps: u32) -> int {
    (1_000_000int / (if target_fps == 0 {
        1int
    } else {
        target_fps as int
    })) * 1000
}

/// Nanoseconds that one frame may take at a frame rate.
pub fn frame_budget_for(target_fps: u32) -> (ns: u64)
    ensures
        ns == frame_budget(target_fps),
        ns <= 1_000_000_000,
{
    let fps: u64 = if target_fps == 0 {
        1
    } else {
        target_fps as u64
    };
    let us: u64 = 1_000_000 / fps;
    assert(us <= 1_000_000) by (nonlinear_arith)
        requires
            us == 1_000_000u64 / fps,
            fps >= 1,
    ;
    us * 1000
}

/// One captured frame, on its way to the encoder.
#[derive(Debug, Clone)]
pub struct RawFrame {
    pub frame_number: u64,
    pub timestamp: u64,
    pub data: Vec<u8>,
    pub width: u32,
    pub height: u32,
}

/// A display output that can be captured.
#[derive(Debug, Clone)]
pub struct OutputInfo {
    pub adapter_index: u32,
    pub output_index: u32,
    pub device_name: String,
    pub width: u32,
    pub height: u32,
    pub left: i32,
    pub top: i32,
    pub is_primary: bool,
    pub adapter_name: String,
}

/// The first output that stands at or behind `from` and is the primary one.
pub open spec fn first_primary(outputs: Seq<OutputInfo>, from: int) -> Option<int>
    decreases outputs.len() - from,
{
    if from < 0 || from >= outputs.len() {
        None
    } else if outputs[from].is_primary {
        Some(from)
    } else {
        first_primary(outputs, from + 1)
    }
}

/// The first output that stands at or behind `from` and has this name.
pub open spec fn first_named(outputs: Seq<OutputInfo>, name: Seq<char>, from: int) -> Option<int>
    decreases outputs.len() - from,
{
    if from < 0 || from >= outputs.len() {
        None
    } else if outputs[from].device_name@ == name {
        Some(from)
    } else {
        first_named(outputs, name, from + 1)
    }
}

/// The primary output; the first one if none is primary.
pub open spec fn primary_index(outputs: Seq<OutputInfo>) -> int {
    match first_primary(outputs, 0) {
        Some(i) => i,
        None => 0,
    }
}

/// The output that a target stands for: the named one, or the primary one
/// where no name is given or none matches. Nothing only if there are no
/// outputs.
pub open spec fn resolved_target(outputs: Seq<OutputInfo>, target: Target) -> Option<int> {
    if outputs.len() == 0 {
        None
    } else {
        match target {
            Target::Output(name) => match first_named(outputs, name, 0) {
                Some(i) => Some(i),
                None => Some(primary_index(outputs)),
            },
            _ => Some(primary_index(outputs)),
        }
    }
}

fn find_primary(outputs: &[OutputInfo]) -> (r: Option<usize>)
    ensures
        match r {
            Some(i) => first_primary(outputs@, 0) == Some(i as int) && i < outputs@.len(),
            None => first_primary(outputs@, 0) is None,
        },
{
    let mut i: usize = 0;
    while i < outputs.len()
        invariant
            i <= outputs@.len(),
            first_primary(outputs@, i as int) == first_primary(outputs@, 0),
        decreases outputs@.len() - i,
    {
        if outputs[i].is_primary {
            return Some(i);
        }
        i += 1;
    }
    None
}

fn find_named(outputs: &[OutputInfo], name: &str) -> (r: Option<usize>)
    ensures
        match r {
            Some(i) => first_named(outputs@, name@, 0) == Some(i as int) && i < outputs@.len(),
            None => first_named(outputs@, name@, 0) is None,
        },
{
    let mut i: usize = 0;
    while i < outputs.len()
        invariant
            i <= outputs@.len(),
            first_named(outputs@, name@, i as int) == first_named(outputs@, name@, 0),
        decreases outputs@.len() - i,
    {
        if same_text(outputs[i].device_name.as_str(), name) {
            return Some(i);
        }
        i += 1;
    }
    None
}

/// Resolves which output (index into `outputs`) to capture for `target`.
pub fn resolve_target(outputs: &[OutputInfo], target: &CaptureTarget) -> (r: Option<usize>)
    ensures
        match r {
            Some(i) => resolved_target(outputs@, target@) == Some(i as int) && i < outputs@.len(),
            None => resolved_target(outputs@, target@) is None,
        },
{
    if outputs.len() == 0 {
        return None;
    }
    let primary: usize = match find_primary(outputs) {
        Some(i) => i,
        None => 0,
    };
    match target {
        CaptureTarget::Output(name) => match find_named(outputs, name.as_str()) {
            Some(i) => Some(i),
            None => Some(primary),
        },
        CaptureTarget::PrimaryAuto | CaptureTarget::VirtualExtended => Some(primary),
    }
}

/// Whether a name is in a list.
pub open spec fn is_listed(names: Seq<String>, name: Seq<char>) -> bool {
    exists|i: int| 0 <= i < names.len() && (#[trigger] names[i])@ == name
}

/// Whether an output is new, and not the primary one: only such a one can be
/// the virtual display that was just enabled.
pub open spec fn is_new_virtual(before: Seq<String>, output: OutputInfo) -> bool {
    !output.is_primary && !is_listed(before, output.device_name@)
}

fn listed(names: &[String], name: &str) -> (b: bool)
    ensures
        b == is_listed(names@, name@),
{
    let mut i: usize = 0;
    while i < names.len()
        invariant
            i <= names@.len(),
            forall|k: int| 0 <= k < i ==> (#[trigger] names@[k])@ != name@,
        decreases names@.len() - i,
    {
        if same_text(names[i].as_str(), name) {
            return true;
        }
        i += 1;
    }
    false
}

/// Chooses the freshly attached virtual output: the first that is not primary
/// and was not there before the driver was enabled. A real second monitor that
/// was there is never taken for it.
pub fn pick_new_virtual_output<'a>(before: &[String], now: &'a [OutputInfo]) -> (r: Option<
    &'a OutputInfo,
>)
    ensures
        match r {
            Some(o) => exists|i: int|
                0 <= i < now@.len() && #[trigger] now@[i] == *o && is_new_virtual(before@, now@[i])
                    && forall|k: int| 0 <= k < i ==> !is_new_virtual(before@, #[trigger] now@[k]),
            None => forall|k: int|
                0 <= k < now@.len() ==> !is_new_virtual(before@, #[trigger] now@[k]),
        },
{
    let mut i: usize = 0;
    while i < now.len()
        invariant
            i <= now@.len(),
            forall|k: int| 0 <= k < i ==> !is_new_virtual(before@, #[trigger] now@[k]),
        decreases now@.len() - i,
    {
        if !now[i].is_primary && !listed(before, now[i].device_name.as_str()) {
            assert(is_new_virtual(before@, now@[i as int]));
            return Some(&now[i]);
        }
        i += 1;
    }
    None
}

/// The number of seconds that a setting asks for; the default where it asks
/// for none.
pub open spec fn attach_timeout(setting: Option<Seq<char>>) -> int {
    match setting {
        None => VDD_ATTACH_TIMEOUT_DEFAULT_SECS as int,
        Some(s) => match text::parsed_number(text::trimmed(s), u64::MAX as nat) {
            Some(secs) => if secs > 0 {
                secs as int
            } else {
                VDD_ATTACH_TIMEOUT_DEFAULT_SECS as int
            },
            None => VDD_ATTACH_TIMEOUT_DEFAULT_SECS as int,
        },
    }
}

/// How many seconds to wait for the virtual display to attach, given the value
/// of the setting for machines whose driver loads slowly.
pub fn vdd_attach_timeout(setting: Option<&str>) -> (secs: u64)
    ensures
        secs == attach_timeout(control::chars_of(setting)),
{
    match setting {
        Some(s) => {
            let chars = characters(s);
            match parse_number(trim(chars.as_slice()), u64::MAX) {
                Some(secs) => if secs > 0 {
                    secs
                } else {
                    VDD_ATTACH_TIMEOUT_DEFAULT_SECS
                },
                None => VDD_ATTACH_TIMEOUT_DEFAULT_SECS,
            }
        },
        None => VDD_ATTACH_TIMEOUT_DEFAULT_SECS,
    }
}

// ---- the managed virtual display -------------------------------------------

/// The next step in bringing the virtual display in line with the target.
#[derive(Debug)]
pub enum VddStep {
    /// Ask the driver to enable the display, and report whether it did.
    Enable,
    /// Look at the outputs, and report them.
    Poll,
    /// Done: disable the driver if told so, take on the status, and capture
    /// the target.
    Done { disable: bool, status: VddStatus, target: CaptureTarget },
}

/// A [`VddStep`] with its target as a model.
#[verifier::ext_equal]
pub enum VddStepView {
    Enable,
    Poll,
    Done { disable: bool, status: VddStatus, target: Target },
}

impl View for VddStep {
    type V = VddStepView;

    open spec fn view(&self) -> VddStepView {
        match self {
            VddStep::Enable => VddStepView::Enable,
            VddStep::Poll => VddStepView::Poll,
            VddStep::Done { disable, status, target } => VddStepView::Done {
                disable: *disable,
                status: *status,
                target: target@,
            },
        }
    }
}

/// How reconciliation starts. The driver is enabled only for a client that is
/// connected; in every other situation it is turned off, so that no phantom
/// monitor lingers.
pub open spec fn reconcile_start(target: Target, client_connected: bool) -> VddStepView {
    if target != Target::VirtualExtended {
        VddStepView::Done { disable: true, status: VddStatus::Inactive, target }
    } else if !client_connected {
        VddStepView::Done {
            disable: true,
            status: VddStatus::WaitingForClient,
            target: Target::PrimaryAuto,
        }
    } else {
        VddStepView::Enable
    }
}

/// Starts to bring the virtual display in line with the target.
pub fn begin_reconcile(target: &CaptureTarget, client_connected: bool) -> (step: VddStep)
    ensures
        step@ == reconcile_start(target@, client_connected),
{
    match target {
        CaptureTarget::VirtualExtended => {
            if !client_connected {
                VddStep::Done {
                    disable: true,
                    status: VddStatus::WaitingForClient,
                    target: CaptureTarget::PrimaryAuto,
                }
            } else {
                VddStep::Enable
            }
        },
        other => VddStep::Done {
            disable: true,
            status: VddStatus::Inactive,
            target: other.copied(),
        },
    }
}

/// Goes on once the driver was asked: without it the primary display is
/// captured, with it the new output is looked for.
pub fn after_enable(enabled: bool) -> (step: VddStep)
    ensures
        step@ == (if enabled {
            VddStepView::Poll
        } else {
            VddStepView::Done {
                disable: false,
                status: VddStatus::Failed,
                target: Target::PrimaryAuto,
            }
        }),
{
    if enabled {
        VddStep::Poll
    } else {
        VddStep::Done {
            disable: false,
            status: VddStatus::Failed,
            target: CaptureTarget::PrimaryAuto,
        }
    }
}

/// Whether to look at the outputs once more, after waiting so long: until the
/// time is over.
pub fn before_poll(waited_ns: u64, timeout_secs: u64) -> (step: VddStep)
    ensures
        step@ == (if waited_ns < timeout_secs * 1_000_000_000 {
            VddStepView::Poll
        } else {
            given_up()
        }),
{
    if (waited_ns as u128) < timeout_secs as u128 * 1_000_000_000 {
        VddStep::Poll
    } else {
        after_timeout()
    }
}

/// Goes on once the outputs were looked at: the new output is captured.
pub fn after_poll(before: &[String], now: &[OutputInfo]) -> (step: VddStep)
    ensures
        match step@ {
            VddStepView::Done { disable, status, target } => !disable && status
                == VddStatus::Active && exists|i: int|
                0 <= i < now@.len() && is_new_virtual(before@, #[trigger] now@[i]) && target
                    == Target::Output(now@[i].device_name@) && forall|k: int|
                    0 <= k < i ==> !is_new_virtual(before@, #[trigger] now@[k]),
            VddStepView::Poll => forall|k: int|
                0 <= k < now@.len() ==> !is_new_virtual(before@, #[trigger] now@[k]),
            VddStepView::Enable => false,
        },
{
    match pick_new_virtual_output(before, now) {
        Some(chosen) => VddStep::Done {
            disable: false,
            status: VddStatus::Active,
            target: CaptureTarget::Output(chosen.device_name.clone()),
        },
        None => VddStep::Poll,
    }
}

/// The end of reconciliation where no new output came.
pub open spec fn given_up() -> VddStepView {
    VddStepView::Done {
        disable: true,
        status: VddStatus::Failed,
        target: Target::PrimaryAuto,
    }
}

/// Gives up once the time is over: the driver, which is on without an output,
/// is turned off again, and the primary display is captured.
pub fn after_timeout() -> (step: VddStep)
    ensures
        step@ == given_up(),
{
    VddStep::Done {
        disable: true,
        status: VddStatus::Failed,
        target: CaptureTarget::PrimaryAuto,
    }
}

// ---- laws ------------------------------------------------------------------

proof fn first_primary_is_primary(outputs: Seq<OutputInfo>, from: int)
    requires
        0 <= from,
    ensures
        match first_primary(outputs, from) {
            Some(i) => from <= i < outputs.len() && outputs[i].is_primary,
            None => forall|k: int|
                from <= k < outputs.len() ==> !(#[trigger] outputs[k]).is_primary,
        },
    decreases outputs.len() - from,
{
    if from < outputs.len() && !outputs[from].is_primary {
        first_primary_is_primary(outputs, from + 1);
    }
}

proof fn first_named_is_named(outputs: Seq<OutputInfo>, name: Seq<char>, from: int)
    requires
        0 <= from,
    ensures
        match first_named(outputs, name, from) {
            Some(i) => from <= i < outputs.len() && outputs[i].device_name@ == name,
            None => forall|k: int|
                from <= k < outputs.len() ==> (#[trigger] outputs[k]).device_name@ != name,
        },
    decreases outputs.len() - from,
{
    if from < outputs.len() && outputs[from].device_name@ != name {
        first_named_is_named(outputs, name, from + 1);
    }
}

/// There is always something to capture while there is an output: an output
/// that is asked for by name is taken if it is there, and otherwise the primary
/// one is, if there is a primary one.
pub proof fn capture_always_finds_an_output(outputs: Seq<OutputInfo>, target: Target)
    requires
        outputs.len() > 0,
    ensures
        resolved_target(outputs, target) matches Some(i) && 0 <= i < outputs.len(),
        target matches Target::Output(name) && (exists|k: int|
            0 <= k < outputs.len() && (#[trigger] outputs[k]).device_name@ == name)
            ==> outputs[resolved_target(outputs, target)->0].device_name@ == target->0,
        !(target matches Target::Output(name) && (exists|k: int|
            0 <= k < outputs.len() && (#[trigger] outputs[k]).device_name@ == name)) && (exists|
            k: int,
        |
            0 <= k < outputs.len() && (#[trigger] outputs[k]).is_primary)
            ==> outputs[resolved_target(outputs, target)->0].is_primary,
{
    first_primary_is_primary(outputs, 0);
    match target {
        Target::Output(name) => first_named_is_named(outputs, name, 0),
        _ => {},
    }
}

/// The driver is only ever enabled for the virtual display and a connected
/// client; otherwise reconciliation ends at once with the driver off.
pub proof fn no_phantom_monitor(target: Target, client_connected: bool)
    ensures
        reconcile_start(target, client_connected) == VddStepView::Enable <==> target
            == Target::VirtualExtended && client_connected,
        reconcile_start(target, client_connected) != VddStepView::Enable ==> (
        reconcile_start(target, client_connected) matches VddStepView::Done { disable, .. }
            && disable),
{
}

/// What is captured at once. Any target but the virtual display is captured as
/// it is asked for, without one. The virtual display is not brought up before
/// there is a viewer: until then the primary display is captured and the host
/// waits. Where it cannot be brought up, the primary display is captured too.
pub proof fn captures_start_at_once(target: Target, client_connected: bool)
    ensures
        target != Target::VirtualExtended ==> reconcile_start(target, client_connected) == (
        VddStepView::Done { disable: true, status: VddStatus::Inactive, target }),
        target == Target::VirtualExtended && !client_connected ==> reconcile_start(
            target,
            client_connected,
        ) == (VddStepView::Done {
            disable: true,
            status: VddStatus::WaitingForClient,
            target: Target::PrimaryAuto,
        }),
        given_up() == (VddStepView::Done {
            disable: true,
            status: VddStatus::Failed,
            target: Target::PrimaryAuto,
        }),
{
}

/// Of several outputs that fit, the first is captured.
pub proof fn the_first_fitting_output_is_captured(outputs: Seq<OutputInfo>, target: Target, k: int)
    requires
        0 <= k < outputs.len(),
        match target {
            Target::Output(name) => outputs[k].device_name@ == name,
            _ => outputs[k].is_primary,
        },
        forall|j: int|
            0 <= j < k ==> match target {
                Target::Output(name) => (#[trigger] outputs[j]).device_name@ != name,
                _ => !outputs[j].is_primary,
            },
    ensures
        resolved_target(outputs, target) == Some(k),
{
    match target {
        Target::Output(name) => named_at(outputs, name, 0, k),
        _ => primary_at(outputs, 0, k),
    }
}

proof fn named_at(outputs: Seq<OutputInfo>, name: Seq<char>, from: int, k: int)
    requires
        0 <= from <= k < outputs.len(),
        outputs[k].device_name@ == name,
        forall|j: int| from <= j < k ==> (#[trigger] outputs[j]).device_name@ != name,
    ensures
        first_named(outputs, name, from) == Some(k),
    decreases k - from,
{
    if from < k {
        named_at(outputs, name, from + 1, k);
    }
}

proof fn primary_at(outputs: Seq<OutputInfo>, from: int, k: int)
    requires
        0 <= from <= k < outputs.len(),
        outputs[k].is_primary,
        forall|j: int| from <= j < k ==> !(#[trigger] outputs[j]).is_primary,
    ensures
        first_primary(outputs, from) == Some(k),
    decreases k - from,
{
    if from < k {
        primary_at(outputs, from + 1, k);
    }
}

/// An output is taken for the virtual display that was just enabled if and only
/// if it is not the primary one and no output had its name before.
pub proof fn only_new_outputs_are_virtual(before: Seq<String>, output: OutputInfo)
    ensures
        is_new_virtual(before, output) <==> !output.is_primary && forall|i: int|
            0 <= i < before.len() ==> (#[trigger] before[i])@ != output.device_name@,
{
}

/// As many frames as the frame rate asks for fit into a second, and no fewer
/// microseconds than that leaves.
pub proof fn frames_fit_into_a_second(target_fps: u32)
    requires
        0 < target_fps <= 1_000_000,
    ensures
        target_fps * frame_budget(target_fps) <= 1_000_000_000,
        target_fps * (frame_budget(target_fps) + 1000) > 1_000_000_000,
        frame_budget(0) == 1_000_000_000,
{
    let f = target_fps as int;
    let us = 1_000_000int / f;
    vstd::arithmetic::div_mod::lemma_fundamental_div_mod(1_000_000, f);
    vstd::arithmetic::div_mod::lemma_mod_bound(1_000_000, f);
    assert(f * (us * 1000) == 1000 * (f * us)) by (nonlinear_arith);
    assert(f * (us * 1000 + 1000) == 1000 * (f * us) + 1000 * f) by (nonlinear_arith);
}

/// The time to wait for the virtual display is what is asked for in whole
/// seconds, if that is a number above zero, and the default otherwise.
pub proof fn timeouts_are_understood(a: Seq<char>, n: nat, b: Seq<char>)
    requires
        text::is_blank(a),
        text::is_blank(b),
    ensures
        0 < n <= u64::MAX ==> attach_timeout(Some(a + text::decimal(n) + b)) == n,
        n == 0 || n > u64::MAX ==> attach_timeout(Some(a + text::decimal(n) + b)) == 10,
        attach_timeout(None) == 10,
{
    let d = text::decimal(n);
    text::digits_are_not_white(n);
    assert(!text::is_white(d[0]) && !text::is_white(d[d.len() - 1]));
    text::padding_is_trimmed(a, d, b);
    if n <= u64::MAX {
        text::decimals_read_back(n, u64::MAX as nat);
    }
    text::what_a_number_is(n, u64::MAX as nat, d, 0);
}

} // verus!
