//! Supervision of the pipeline across restarts: failed and wedged generations
//! restart with backoff, and a storm of restarts ends in an explicit failed
//! state. The machine is driven by messages and by the time handed to it;
//! whoever owns the threads carries out the effects.

use vstd::prelude::*;
use vstd::string::StringExecFns;

use crate::host::control::{SharedControl, SupervisorCommand};
use crate::text;
use crate::text::push_decimal;

verus! {

/// A part of the pipeline.
#[derive(Debug, Clone, Copy, PartialEq, Eq, Structural)]
pub enum Stage {
    Capture,
    Encoder,
    Transport,
}

impl Stage {
    pub open spec fn label(self) -> Seq<char> {
        match self {
            Stage::Capture => "Capture"@,
            Stage::Encoder => "Encoder"@,
            Stage::Transport => "Transport"@,
        }
    }

    /// The name of the stage.
    pub fn name(self) -> (s: &'static str)
        ensures
            s@ == self.label(),
    {
        match self {
            Stage::Capture => "Capture",
            Stage::Encoder => "Encoder",
            Stage::Transport => "Transport",
        }
    }
}

/// How a stage ended.
#[derive(Debug, Clone, PartialEq, Eq)]
pub enum StageOutcome {
    /// A clean exit: a stop was asked for, or a channel closed.
    Completed,
    /// The stage died while the pipeline was supposed to run.
    Failed(String),
}

/// A message to the supervisor.
#[derive(Debug)]
pub enum SupMsg {
    Command(SupervisorCommand),
    /// A stage of some generation ended.
    Health { generation: u64, stage: Stage, outcome: StageOutcome },
}

/// Reports of the stages of one generation.
#[derive(Debug, Clone, Copy, PartialEq, Eq, Structural)]
pub struct HealthReporter {
    pub generation: u64,
}

impl HealthReporter {
    /// The message that a stage has ended.
    pub fn stage_exited(&self, stage: Stage, outcome: StageOutcome) -> (message: SupMsg)
        ensures
            message == (SupMsg::Health { generation: self.generation, stage, outcome }),
    {
        SupMsg::Health { generation: self.generation, stage, outcome }
    }
}

/// First wait before an automatic restart, in nanoseconds.
pub const BACKOFF_BASE: u64 = 500_000_000;

/// Longest wait before an automatic restart.
pub const BACKOFF_MAX: u64 = 30_000_000_000;

/// Automatic restarts are counted over this time.
pub const STORM_WINDOW: u64 = 60_000_000_000;

/// That many automatic restarts inside the window are tolerated.
pub const STORM_LIMIT: usize = 6;

/// A generation that has run this long gets its failure budget back.
pub const HEALTHY_STRETCH: u64 = 60_000_000_000;

#[derive(Debug, Clone, PartialEq, Eq)]
pub enum SupervisorState {
    Running { generation: u64 },
    /// Waiting before the next automatic restart.
    BackingOff { until: u64, attempt: u32 },
    /// Too many automatic restarts in the window: a manual start is needed.
    Failed { reason: String },
    Stopped,
    ShutDown,
}

/// A [`SupervisorState`] with its text as a sequence of characters.
#[verifier::ext_equal]
pub enum StateView {
    Running { generation: u64 },
    BackingOff { until: u64, attempt: u32 },
    Failed { reason: Seq<char> },
    Stopped,
    ShutDown,
}

impl View for SupervisorState {
    type V = StateView;

    open spec fn view(&self) -> StateView {
        match self {
            SupervisorState::Running { generation } => StateView::Running {
                generation: *generation,
            },
            SupervisorState::BackingOff { until, attempt } => StateView::BackingOff {
                until: *until,
                attempt: *attempt,
            },
            SupervisorState::Failed { reason } => StateView::Failed { reason: reason@ },
            SupervisorState::Stopped => StateView::Stopped,
            SupervisorState::ShutDown => StateView::ShutDown,
        }
    }
}

/// What must be done after an event.
#[derive(Debug, Clone, Copy, PartialEq, Eq, Structural)]
pub enum Effect {
    Nothing,
    /// Join the current pipeline and spawn a fresh generation.
    Restart,
    /// Join the current pipeline; do not respawn.
    StopPipeline,
    /// Spawn a fresh generation.
    Start,
    /// Join, and leave the supervisor loop.
    Shutdown,
}

/// The decision core.
pub struct Machine {
    pub state: SupervisorState,
    restarts: Vec<u64>,
    attempt: u32,
}

/// What a [`Machine`] knows: its state, when it restarted automatically, and
/// how many automatic restarts came in a row.
#[verifier::ext_equal]
pub struct MachineView {
    pub state: StateView,
    pub restarts: Seq<u64>,
    pub attempt: u32,
}

/// The time between two readings of the clock, zero where they are reversed.
pub open spec fn since(now: u64, at: u64) -> int {
    if now >= at {
        now - at
    } else {
        0
    }
}

/// The restarts that the window still holds.
pub open spec fn recent(restarts: Seq<u64>, now: u64) -> Seq<u64> {
    restarts.filter(|at: u64| since(now, at) < STORM_WINDOW)
}

/// The wait before the `attempt`-th automatic restart in a row: it doubles
/// from the first to the longest.
pub open spec fn backoff(attempt: nat) -> int {
    let steps: nat = if attempt <= 1 {
        0
    } else if attempt <= 7 {
        (attempt - 1) as nat
    } else {
        6
    };
    let wait = BACKOFF_BASE * vstd::arithmetic::power2::pow2(steps);
    if wait <= BACKOFF_MAX {
        wait
    } else {
        BACKOFF_MAX as int
    }
}

/// Why the supervisor gave up.
pub open spec fn storm_reason(stage: Stage, restarts: nat, reason: Seq<char>) -> Seq<char> {
    stage.label() + " failed repeatedly ("@ + text::decimal(restarts) + " restarts in 60s): "@
        + reason
}

/// The machine at startup.
pub open spec fn started(generation: u64) -> MachineView {
    MachineView {
        state: StateView::Running { generation },
        restarts: Seq::empty(),
        attempt: 0,
    }
}

/// What a command does.
pub open spec fn commanded(m: MachineView, command: SupervisorCommand) -> (MachineView, Effect) {
    let fresh = MachineView { restarts: Seq::empty(), attempt: 0, ..m };
    match command {
        SupervisorCommand::Restart => if m.state is ShutDown {
            (m, Effect::Nothing)
        } else {
            (fresh, Effect::Restart)
        },
        SupervisorCommand::Stop => if m.state is Running || m.state is BackingOff {
            (MachineView { state: StateView::Stopped, ..m }, Effect::StopPipeline)
        } else {
            (m, Effect::Nothing)
        },
        SupervisorCommand::Start => if m.state is Stopped || m.state is Failed {
            (fresh, Effect::Start)
        } else {
            (m, Effect::Nothing)
        },
        SupervisorCommand::Shutdown => (
            MachineView { state: StateView::ShutDown, ..m },
            Effect::Shutdown,
        ),
    }
}

/// What a failure of the live generation does: a restart after a backoff, or,
/// in a storm, giving up.
pub open spec fn failed(m: MachineView, stage: Stage, reason: Seq<char>, now: u64) -> MachineView {
    let kept = recent(m.restarts, now);
    if kept.len() >= STORM_LIMIT {
        MachineView {
            state: StateView::Failed { reason: storm_reason(stage, kept.len(), reason) },
            restarts: kept,
            attempt: m.attempt,
        }
    } else {
        let attempt = (m.attempt + 1) as u32;
        MachineView {
            state: StateView::BackingOff {
                until: (now + backoff(attempt as nat)) as u64,
                attempt,
            },
            restarts: kept.push(now),
            attempt,
        }
    }
}

/// What the end of a stage does.
pub open spec fn stage_ended(
    m: MachineView,
    generation: u64,
    stage: Stage,
    outcome: StageOutcome,
    now: u64,
) -> (MachineView, Effect) {
    match outcome {
        StageOutcome::Failed(reason) if m.state == (StateView::Running { generation }) => (
            failed(m, stage, reason@, now),
            Effect::StopPipeline,
        ),
        _ => (m, Effect::Nothing),
    }
}

/// What a wedged pipeline does.
pub open spec fn wedged(m: MachineView, reason: Seq<char>, now: u64) -> (MachineView, Effect) {
    if m.state is Running {
        (failed(m, Stage::Capture, reason, now), Effect::StopPipeline)
    } else {
        (m, Effect::Nothing)
    }
}

/// Whether a tick starts the next generation.
pub open spec fn ticked(m: MachineView, now: u64) -> Effect {
    match m.state {
        StateView::BackingOff { until, .. } if now >= until => Effect::Start,
        _ => Effect::Nothing,
    }
}

impl MachineView {
    /// Never more automatic restarts on record than a storm takes.
    pub open spec fn ok(self) -> bool {
        self.restarts.len() <= STORM_LIMIT
    }

    /// Whether the clock and the count of attempts can take one more restart.
    pub open spec fn has_room(self, now: u64) -> bool {
        &&& self.attempt < u32::MAX
        &&& now + BACKOFF_MAX <= u64::MAX
    }
}

impl Machine {
    pub closed spec fn view(&self) -> MachineView {
        MachineView { state: self.state@, restarts: self.restarts@, attempt: self.attempt }
    }

    /// A machine whose pipeline runs.
    pub fn new(initial_generation: u64) -> (m: Machine)
        ensures
            m@ == started(initial_generation),
            m@.ok(),
    {
        Machine {
            state: SupervisorState::Running { generation: initial_generation },
            restarts: Vec::new(),
            attempt: 0,
        }
    }

    /// How many automatic restarts came in a row.
    pub fn attempt(&self) -> (n: u32)
        ensures
            n == self@.attempt,
    {
        self.attempt
    }

    /// Takes a command. A restart or a start resets the failure budget.
    pub fn on_command(&mut self, command: &SupervisorCommand) -> (effect: Effect)
        ensures
            (final(self)@, effect) == commanded(old(self)@, *command),
            old(self)@.ok() ==> final(self)@.ok(),
    {
        match command {
            SupervisorCommand::Restart => match self.state {
                SupervisorState::ShutDown => Effect::Nothing,
                _ => {
                    self.attempt = 0;
                    self.restarts = Vec::new();
                    Effect::Restart
                },
            },
            SupervisorCommand::Stop => match self.state {
                SupervisorState::Running { .. } | SupervisorState::BackingOff { .. } => {
                    self.state = SupervisorState::Stopped;
                    Effect::StopPipeline
                },
                _ => Effect::Nothing,
            },
            SupervisorCommand::Start => match self.state {
                SupervisorState::Stopped | SupervisorState::Failed { .. } => {
                    self.attempt = 0;
                    self.restarts = Vec::new();
                    Effect::Start
                },
                _ => Effect::Nothing,
            },
            SupervisorCommand::Shutdown => {
                self.state = SupervisorState::ShutDown;
                Effect::Shutdown
            },
        }
    }

    /// A stage ended. Only a failure of the live generation counts: reports of
    /// earlier generations are ignored.
    pub fn on_stage_exit(
        &mut self,
        generation: u64,
        stage: Stage,
        outcome: &StageOutcome,
        now: u64,
    ) -> (effect: Effect)
        requires
            old(self)@.ok(),
            old(self)@.has_room(now),
        ensures
            (final(self)@, effect) == stage_ended(old(self)@, generation, stage, *outcome, now),
            final(self)@.ok(),
    {
        match self.state {
            SupervisorState::Running { generation: live_generation } => {
                if generation != live_generation {
                    return Effect::Nothing;
                }
            },
            _ => {
                return Effect::Nothing;
            },
        }
        match outcome {
            StageOutcome::Completed => Effect::Nothing,
            StageOutcome::Failed(reason) => self.auto_restart(stage, reason.as_str(), now),
        }
    }

    /// A watchdog found the live pipeline wedged.
    pub fn on_wedged(&mut self, reason: &str, now: u64) -> (effect: Effect)
        requires
            old(self)@.ok(),
            old(self)@.has_room(now),
        ensures
            (final(self)@, effect) == wedged(old(self)@, reason@, now),
            final(self)@.ok(),
    {
        match self.state {
            SupervisorState::Running { .. } => self.auto_restart(Stage::Capture, reason, now),
            _ => Effect::Nothing,
        }
    }

    fn auto_restart(&mut self, stage: Stage, reason: &str, now: u64) -> (effect: Effect)
        requires
            old(self)@.ok(),
            old(self)@.has_room(now),
        ensures
            effect == Effect::StopPipeline,
            final(self)@ == failed(old(self)@, stage, reason@, now),
            final(self)@.ok(),
    {
        self.restarts = still_recent(&self.restarts, now);
        if self.restarts.len() >= STORM_LIMIT {
            let mut message = stage.name().to_owned();
            message.append(" failed repeatedly (");
            push_decimal(&mut message, self.restarts.len() as u64);
            message.append(" restarts in 60s): ");
            message.append(reason);
            proof {
                kept_are_fewer(old(self)@.restarts, now);
            }
            self.state = SupervisorState::Failed { reason: message };
            return Effect::StopPipeline;
        }
        self.restarts.push(now);
        self.attempt = self.attempt + 1;
        let wait = backoff_of(self.attempt);
        self.state = SupervisorState::BackingOff { until: now + wait, attempt: self.attempt };
        Effect::StopPipeline
    }

    /// Called while time passes: says when a backoff is over.
    pub fn on_tick(&mut self, now: u64) -> (effect: Effect)
        ensures
            effect == ticked(old(self)@, now),
            final(self)@ == old(self)@,
    {
        match self.state {
            SupervisorState::BackingOff { until, .. } => {
                if now >= until {
                    Effect::Start
                } else {
                    Effect::Nothing
                }
            },
            _ => Effect::Nothing,
        }
    }

    /// A fresh generation runs.
    pub fn note_started(&mut self, generation: u64)
        ensures
            final(self)@ == (MachineView {
                state: StateView::Running { generation },
                ..old(self)@
            }),
    {
        self.state = SupervisorState::Running { generation };
    }

    /// The pipeline ran well for a while: the next backoff starts small again.
    pub fn note_healthy(&mut self)
        ensures
            final(self)@ == (MachineView { attempt: 0, ..old(self)@ }),
    {
        self.attempt = 0;
    }
}

proof fn kept_are_fewer(restarts: Seq<u64>, now: u64)
    ensures
        recent(restarts, now).len() <= restarts.len(),
{
    restarts.lemma_filter_len(|at: u64| since(now, at) < STORM_WINDOW);
}

/// The restarts that the window still holds.
fn still_recent(restarts: &Vec<u64>, now: u64) -> (kept: Vec<u64>)
    ensures
        kept@ == recent(restarts@, now),
{
    let ghost inside = |at: u64| since(now, at) < STORM_WINDOW;
    let mut kept: Vec<u64> = Vec::new();
    let mut i: usize = 0;
    assert(restarts@.take(0).filter(inside) =~= Seq::<u64>::empty()) by {
        reveal(Seq::filter);
    }
    while i < restarts.len()
        invariant
            i <= restarts@.len(),
            inside == (|at: u64| since(now, at) < STORM_WINDOW),
            kept@ == restarts@.take(i as int).filter(inside),
        decreases restarts@.len() - i,
    {
        let at: u64 = restarts[i];
        proof {
            reveal(Seq::filter);
            assert(restarts@.take(i + 1).drop_last() =~= restarts@.take(i as int));
        }
        if now.saturating_sub(at) < STORM_WINDOW {
            kept.push(at);
        }
        i += 1;
    }
    assert(restarts@.take(i as int) =~= restarts@);
    kept
}

/// The wait before an automatic restart.
fn backoff_of(attempt: u32) -> (wait: u64)
    requires
        attempt > 0,
    ensures
        wait == backoff(attempt as nat),
        wait <= BACKOFF_MAX,
{
    let steps: u64 = if attempt <= 7 {
        (attempt - 1) as u64
    } else {
        6
    };
    proof {
        vstd::arithmetic::power2::lemma2_to64();
        vstd::bits::lemma_u64_shl_is_mul(BACKOFF_BASE, steps);
    }
    let wait: u64 = BACKOFF_BASE << steps;
    if wait <= BACKOFF_MAX {
        wait
    } else {
        BACKOFF_MAX
    }
}

/// How long nothing may happen before the pipeline counts as wedged, in
/// milliseconds: an iteration of the capture loop, a captured frame while a
/// client watches, an encoded frame.
pub const CAPTURE_SILENCE_MS: u64 = 3_000;

pub const FRAME_SILENCE_MS: u64 = 5_000;

pub const ENCODER_SILENCE_MS: u64 = 3_000;

/// What the watchdog reads: the time, the last heartbeats (zero before the
/// first), and whether a client watches.
pub struct Heartbeats {
    pub now_ms: u64,
    pub loop_ms: u64,
    pub frame_ms: u64,
    pub encode_ms: u64,
    pub client: bool,
}

/// Why the running pipeline counts as wedged, if it does. The capture loop
/// stamps every iteration, idle ones too; with a client the idle keepalive
/// makes a frame come well inside the limit; and an encoder is only blamed
/// where frames went in and none came out.
pub open spec fn wedge(h: Heartbeats) -> Option<Seq<char>> {
    if h.loop_ms > 0 && since(h.now_ms, h.loop_ms) > CAPTURE_SILENCE_MS {
        Some("capture loop silent for "@ + text::decimal((h.now_ms - h.loop_ms) as nat) + "ms"@)
    } else if h.client && h.frame_ms > 0 && since(h.now_ms, h.frame_ms) > FRAME_SILENCE_MS {
        Some(
            "no captured frame for "@ + text::decimal((h.now_ms - h.frame_ms) as nat)
                + "ms with a client connected"@,
        )
    } else if h.frame_ms > 0 && h.encode_ms > 0 && since(h.frame_ms, h.encode_ms)
        > ENCODER_SILENCE_MS && since(h.now_ms, h.encode_ms) > ENCODER_SILENCE_MS {
        Some(
            "encoder silent for "@ + text::decimal((h.now_ms - h.encode_ms) as nat)
                + "ms while capture advances"@,
        )
    } else {
        None
    }
}

/// The heartbeats of a host at `now_ms` on the process clock.
pub open spec fn heartbeats(shared: SharedControl, now_ms: u64) -> Heartbeats {
    Heartbeats {
        now_ms,
        loop_ms: shared.hb_capture_loop_ms,
        frame_ms: shared.hb_capture_frame_ms,
        encode_ms: shared.hb_encode_frame_ms,
        client: shared.session@.active is Some,
    }
}

fn silence(head: &str, ms: u64, tail: &str) -> (s: String)
    ensures
        s@ == head@ + text::decimal(ms as nat) + tail@,
{
    let mut s = head.to_owned();
    push_decimal(&mut s, ms);
    s.append(tail);
    s
}

/// The watchdog rules. They speak of a running pipeline only.
pub fn wedge_reason(shared: &SharedControl, machine: &Machine, now_ms: u64) -> (reason: Option<
    String,
>)
    ensures
        match reason {
            Some(s) => machine@.state is Running && wedge(heartbeats(*shared, now_ms)) == Some(s@),
            None => machine@.state is Running ==> wedge(heartbeats(*shared, now_ms)) is None,
        },
{
    match machine.state {
        SupervisorState::Running { .. } => {},
        _ => {
            return None;
        },
    }
    let loop_ms: u64 = shared.hb_capture_loop_ms;
    let frame_ms: u64 = shared.hb_capture_frame_ms;
    let encode_ms: u64 = shared.hb_encode_frame_ms;
    if loop_ms > 0 && now_ms.saturating_sub(loop_ms) > CAPTURE_SILENCE_MS {
        return Some(silence("capture loop silent for ", now_ms - loop_ms, "ms"));
    }
    if shared.client_connected() && frame_ms > 0 && now_ms.saturating_sub(frame_ms)
        > FRAME_SILENCE_MS {
        return Some(
            silence("no captured frame for ", now_ms - frame_ms, "ms with a client connected"),
        );
    }
    if frame_ms > 0 && encode_ms > 0 && frame_ms.saturating_sub(encode_ms) > ENCODER_SILENCE_MS
        && now_ms.saturating_sub(encode_ms) > ENCODER_SILENCE_MS {
        return Some(
            silence("encoder silent for ", now_ms - encode_ms, "ms while capture advances"),
        );
    }
    None
}

/// The supervisor between two messages: the machine, the generation that was
/// spawned last, and since when it has been healthy.
pub struct Supervisor {
    pub machine: Machine,
    pub generation: u64,
    pub healthy_since: u64,
}

/// The machine once a healthy stretch has been noted.
pub open spec fn rested(m: MachineView, healthy_since: u64, now: u64) -> MachineView {
    if m.state is Running && since(now, healthy_since) > HEALTHY_STRETCH {
        MachineView { attempt: 0, ..m }
    } else {
        m
    }
}

/// What one round of the supervisor does with a message, or, where none came
/// in time, with the tick and the watchdog.
pub open spec fn round(
    m: MachineView,
    message: Option<SupMsg>,
    beats: Heartbeats,
    now: u64,
) -> (MachineView, Effect) {
    match message {
        Some(SupMsg::Command(command)) => commanded(m, command),
        Some(SupMsg::Health { generation, stage, outcome }) => stage_ended(
            m,
            generation,
            stage,
            outcome,
            now,
        ),
        None => if ticked(m, now) != Effect::Nothing {
            (m, ticked(m, now))
        } else {
            match wedge(beats) {
                Some(reason) => wedged(m, reason, now),
                None => (m, Effect::Nothing),
            }
        },
    }
}

impl Supervisor {
    /// A supervisor about to spawn the generation after `last_generation`.
    pub fn new(last_generation: u64, now: u64) -> (s: Supervisor)
        requires
            last_generation < u64::MAX,
        ensures
            s.generation == last_generation + 1,
            s.machine@ == started(s.generation),
            s.machine@.ok(),
            s.healthy_since == now,
    {
        let generation: u64 = last_generation + 1;
        Supervisor { machine: Machine::new(generation), generation, healthy_since: now }
    }

    /// One round: a message, or none within the poll interval.
    pub fn step(
        &mut self,
        message: &Option<SupMsg>,
        shared: &SharedControl,
        now: u64,
        now_ms: u64,
    ) -> (effect: Effect)
        requires
            old(self).machine@.ok(),
            old(self).machine@.has_room(now),
        ensures
            (final(self).machine@, effect) == round(
                rested(old(self).machine@, old(self).healthy_since, now),
                *message,
                heartbeats(*shared, now_ms),
                now,
            ),
            final(self).machine@.ok(),
            final(self).generation == old(self).generation,
            final(self).healthy_since == (if old(self).machine@.state is Running && since(
                now,
                old(self).healthy_since,
            ) > HEALTHY_STRETCH {
                now
            } else {
                old(self).healthy_since
            }),
    {
        let running = match self.machine.state {
            SupervisorState::Running { .. } => true,
            _ => false,
        };
        if running && now.saturating_sub(self.healthy_since) > HEALTHY_STRETCH {
            self.machine.note_healthy();
            self.healthy_since = now;
        }
        match message {
            Some(SupMsg::Command(command)) => self.machine.on_command(command),
            Some(SupMsg::Health { generation, stage, outcome }) => self.machine.on_stage_exit(
                *generation,
                *stage,
                outcome,
                now,
            ),
            None => {
                let ticked = self.machine.on_tick(now);
                if ticked != Effect::Nothing {
                    ticked
                } else {
                    match wedge_reason(shared, &self.machine, now_ms) {
                        Some(reason) => self.machine.on_wedged(reason.as_str(), now),
                        None => Effect::Nothing,
                    }
                }
            },
        }
    }

    /// The next generation is about to be spawned.
    pub fn next_generation(&mut self, now: u64) -> (generation: u64)
        requires
            old(self).generation < u64::MAX,
        ensures
            generation == old(self).generation + 1,
            final(self).generation == generation,
            final(self).healthy_since == now,
            final(self).machine@ == (MachineView {
                state: StateView::Running { generation },
                ..old(self).machine@
            }),
    {
        self.generation = self.generation + 1;
        self.machine.note_started(self.generation);
        self.healthy_since = now;
        self.generation
    }
}

/// Every wait lies between the first and the longest, and never shrinks while
/// failures go on.
pub proof fn backoff_is_bounded(a: nat, b: nat)
    requires
        a <= b,
    ensures
        BACKOFF_BASE <= backoff(a) <= backoff(b) <= BACKOFF_MAX,
        backoff(1) == BACKOFF_BASE,
        b > 6 ==> backoff(b) == BACKOFF_MAX,
{
    vstd::arithmetic::power2::lemma2_to64();
}

/// A report of another generation than the live one changes nothing.
pub proof fn stale_reports_are_ignored(
    m: MachineView,
    generation: u64,
    stage: Stage,
    outcome: StageOutcome,
    now: u64,
)
    requires
        m.state != (StateView::Running { generation }),
    ensures
        stage_ended(m, generation, stage, outcome, now) == (m, Effect::Nothing),
{
}

/// A failure restarts the pipeline if and only if the window holds fewer than
/// the tolerated number of restarts; else the supervisor gives up. So no
/// window ever holds more automatic restarts than the limit.
pub proof fn storms_end_in_failure(m: MachineView, stage: Stage, reason: Seq<char>, now: u64)
    requires
        m.ok(),
        m.has_room(now),
    ensures
        failed(m, stage, reason, now).ok(),
        failed(m, stage, reason, now).state is Failed <==> recent(m.restarts, now).len()
            >= STORM_LIMIT,
        failed(m, stage, reason, now).state is BackingOff <==> recent(m.restarts, now).len()
            < STORM_LIMIT,
        recent(failed(m, stage, reason, now).restarts, now).len() <= STORM_LIMIT,
{
    kept_are_fewer(m.restarts, now);
    kept_are_fewer(failed(m, stage, reason, now).restarts, now);
}

/// A call of a method of a [`Machine`].
pub enum Call {
    Command(SupervisorCommand),
    StageExit { generation: u64, stage: Stage, outcome: StageOutcome, now: u64 },
    Wedged { reason: Seq<char>, now: u64 },
    Tick { now: u64 },
    Started { generation: u64 },
    Healthy,
}

/// What a call leaves.
pub open spec fn called(m: MachineView, call: Call) -> MachineView {
    match call {
        Call::Command(command) => commanded(m, command).0,
        Call::StageExit { generation, stage, outcome, now } => stage_ended(
            m,
            generation,
            stage,
            outcome,
            now,
        ).0,
        Call::Wedged { reason, now } => wedged(m, reason, now).0,
        Call::Tick { .. } => m,
        Call::Started { generation } => MachineView { state: StateView::Running { generation }, ..m },
        Call::Healthy => MachineView { attempt: 0, ..m },
    }
}

/// The time at which a call is made, where it is told one.
pub open spec fn time_of(call: Call) -> Option<u64> {
    match call {
        Call::StageExit { now, .. } => Some(now),
        Call::Wedged { now, .. } => Some(now),
        Call::Tick { now } => Some(now),
        _ => None,
    }
}

/// Whether no call is told an earlier time than a call before it.
pub open spec fn in_order(calls: Seq<Call>) -> bool {
    forall|i: int, j: int|
        #![trigger calls[i], calls[j]]
        0 <= i <= j < calls.len() && time_of(calls[i]) is Some && time_of(calls[j]) is Some
            ==> time_of(calls[i])->0 <= time_of(calls[j])->0
}

/// A machine that began with a generation, after some calls.
pub open spec fn machine_after(generation: u64, calls: Seq<Call>) -> MachineView
    decreases calls.len(),
{
    if calls.len() == 0 {
        started(generation)
    } else {
        called(machine_after(generation, calls.drop_last()), calls.last())
    }
}

/// Whether a call is a restart or a start by command that takes effect.
pub open spec fn starts_over(m: MachineView, call: Call) -> bool {
    call matches Call::Command(command) && (command is Restart || command is Start) && commanded(
        m,
        command,
    ).1 != Effect::Nothing
}

/// Whether a call makes a running machine back off.
pub open spec fn enters_backoff(m: MachineView, call: Call) -> bool {
    m.state is Running && called(m, call).state is BackingOff
}

/// When the backoffs began that were entered since the last restart or start by
/// command, or since the beginning.
pub open spec fn backoffs_since_start(generation: u64, calls: Seq<Call>) -> Seq<u64>
    decreases calls.len(),
{
    if calls.len() == 0 {
        Seq::empty()
    } else {
        let m = machine_after(generation, calls.drop_last());
        let before = backoffs_since_start(generation, calls.drop_last());
        if starts_over(m, calls.last()) {
            Seq::empty()
        } else if enters_backoff(m, calls.last()) {
            before.push(time_of(calls.last())->0)
        } else {
            before
        }
    }
}

/// How many of these backoffs were entered since the pipeline was last found
/// healthy.
pub open spec fn backoffs_since_healthy(generation: u64, calls: Seq<Call>) -> nat
    decreases calls.len(),
{
    if calls.len() == 0 {
        0
    } else {
        let m = machine_after(generation, calls.drop_last());
        let before = backoffs_since_healthy(generation, calls.drop_last());
        if starts_over(m, calls.last()) || calls.last() is Healthy {
            0
        } else if enters_backoff(m, calls.last()) {
            before + 1
        } else {
            before
        }
    }
}

/// What the window holds at a later time, it held at an earlier one.
proof fn windows_shrink(restarts: Seq<u64>, now: u64, later: u64)
    requires
        now <= later,
    ensures
        recent(recent(restarts, now), later) == recent(restarts, later),
    decreases restarts.len(),
{
    reveal(Seq::filter);
    if restarts.len() > 0 {
        windows_shrink(restarts.drop_last(), now, later);
        let before = recent(restarts.drop_last(), now);
        if since(now, restarts.last()) < STORM_WINDOW {
            assert(before.push(restarts.last()).drop_last() =~= before);
        }
    }
}

proof fn window_of_one_more(restarts: Seq<u64>, at: u64, now: u64)
    ensures
        recent(restarts.push(at), now) == (if since(now, at) < STORM_WINDOW {
            recent(restarts, now).push(at)
        } else {
            recent(restarts, now)
        }),
{
    reveal(Seq::filter);
    assert(restarts.push(at).drop_last() =~= restarts);
}

/// A machine remembers what its history says.
proof fn machine_knows_its_history(generation: u64, calls: Seq<Call>, now: u64)
    requires
        in_order(calls),
        calls.len() < u32::MAX,
        forall|i: int|
            0 <= i < calls.len() ==> (time_of(#[trigger] calls[i]) matches Some(at) ==> at <= now),
    ensures
        recent(machine_after(generation, calls).restarts, now) == recent(
            backoffs_since_start(generation, calls),
            now,
        ),
        machine_after(generation, calls).attempt == backoffs_since_healthy(generation, calls),
        backoffs_since_healthy(generation, calls) <= calls.len(),
    decreases calls.len(),
{
    if calls.len() > 0 {
        let rest = calls.drop_last();
        let call = calls.last();
        let m = machine_after(generation, rest);
        assert forall|i: int| 0 <= i < rest.len() implies (time_of(#[trigger] rest[i]) matches Some(
            at,
        ) ==> at <= now) by {
            assert(rest[i] == calls[i]);
        }
        assert forall|i: int, j: int|
            #![trigger rest[i], rest[j]]
            0 <= i <= j < rest.len() && time_of(rest[i]) is Some && time_of(rest[j]) is Some
            implies time_of(rest[i])->0 <= time_of(rest[j])->0 by {
            assert(rest[i] == calls[i] && rest[j] == calls[j]);
        }
        machine_knows_its_history(generation, rest, now);
        if let Some(at) = time_of(call) {
            assert(calls[calls.len() - 1] == call);
            assert forall|i: int| 0 <= i < rest.len() implies (time_of(
                #[trigger] rest[i],
            ) matches Some(a) ==> a <= at) by {
                assert(rest[i] == calls[i]);
            }
            let kept = recent(m.restarts, at);
            windows_shrink(m.restarts, at, now);
            window_of_one_more(kept, at, now);
            window_of_one_more(backoffs_since_start(generation, rest), at, now);
        }
    }
}

/// What the end of a stage does, told by the history of the machine alone. A
/// report that is not of the live generation, or of a stage that completed,
/// does nothing. A failure stops the pipeline. If the backoffs of the last
/// minute, since the last restart or start by command, are as many as are
/// tolerated, the machine gives up. Else it backs off: by the base, doubled for
/// every backoff since the pipeline was last healthy, up to the longest.
pub proof fn failures_follow_the_history(
    initial: u64,
    calls: Seq<Call>,
    generation: u64,
    stage: Stage,
    outcome: StageOutcome,
    now: u64,
)
    requires
        in_order(calls.push(Call::StageExit { generation, stage, outcome, now })),
        calls.len() < u32::MAX,
        now + BACKOFF_MAX <= u64::MAX,
    ensures
        ({
            let m = machine_after(initial, calls);
            let (t, effect) = stage_ended(m, generation, stage, outcome, now);
            let storm = recent(backoffs_since_start(initial, calls), now).len();
            let k = backoffs_since_healthy(initial, calls) + 1;
            if m.state != (StateView::Running { generation }) || outcome is Completed {
                t == m && effect == Effect::Nothing
            } else {
                &&& effect == Effect::StopPipeline
                &&& storm >= STORM_LIMIT ==> t.state == (StateView::Failed {
                    reason: storm_reason(stage, storm, outcome->Failed_0@),
                })
                &&& storm < STORM_LIMIT ==> t.state == (StateView::BackingOff {
                    until: (now + backoff(k)) as u64,
                    attempt: k as u32,
                })
                &&& k <= u32::MAX && now + backoff(k) <= u64::MAX
            }
        }),
{
    let all = calls.push(Call::StageExit { generation, stage, outcome, now });
    assert forall|i: int| 0 <= i < calls.len() implies (time_of(#[trigger] calls[i]) matches Some(
        at,
    ) ==> at <= now) by {
        assert(all[i] == calls[i]);
        assert(time_of(all[calls.len() as int]) == Some(now));
    }
    assert forall|i: int, j: int|
        #![trigger calls[i], calls[j]]
        0 <= i <= j < calls.len() && time_of(calls[i]) is Some && time_of(calls[j]) is Some
        implies time_of(calls[i])->0 <= time_of(calls[j])->0 by {
        assert(all[i] == calls[i] && all[j] == calls[j]);
    }
    machine_knows_its_history(initial, calls, now);
    let k = backoffs_since_healthy(initial, calls) + 1;
    backoff_is_bounded(k, k);
}

/// Once failed, only a start, a restart or a shutdown by command is acted on:
/// time, reports, the watchdog and a stop change nothing.
pub proof fn failure_waits_for_a_command(
    m: MachineView,
    message: Option<SupMsg>,
    beats: Heartbeats,
    now: u64,
)
    requires
        m.state is Failed,
    ensures
        round(m, message, beats, now) != (m, Effect::Nothing) ==> {
            ||| message == Some(SupMsg::Command(SupervisorCommand::Start))
            ||| message == Some(SupMsg::Command(SupervisorCommand::Restart))
            ||| message == Some(SupMsg::Command(SupervisorCommand::Shutdown))
        },
        commanded(m, SupervisorCommand::Start).1 == Effect::Start,
        commanded(m, SupervisorCommand::Start).0.restarts.len() == 0,
{
}

/// A backoff runs its full length: until then a tick starts nothing, and from
/// then on the first tick does.
pub proof fn backoff_runs_its_length(
    m: MachineView,
    stage: Stage,
    reason: Seq<char>,
    now: u64,
    later: u64,
)
    requires
        m.ok(),
        m.has_room(now),
        recent(m.restarts, now).len() < STORM_LIMIT,
    ensures
        ticked(failed(m, stage, reason, now), later) == (if later >= now + backoff(
            (m.attempt + 1) as nat,
        ) {
            Effect::Start
        } else {
            Effect::Nothing
        }),
{
    backoff_is_bounded((m.attempt + 1) as nat, (m.attempt + 1) as nat);
}

/// After a shutdown nothing starts a pipeline any more.
pub proof fn shutdown_is_final(
    m: MachineView,
    message: Option<SupMsg>,
    beats: Heartbeats,
    now: u64,
)
    requires
        m.state is ShutDown,
    ensures
        round(m, message, beats, now).0 == m,
        round(m, message, beats, now).1 == Effect::Nothing || round(m, message, beats, now).1
            == Effect::Shutdown,
{
}

/// A stopped pipeline is not blamed for winding down: no report restarts it,
/// and a start brings it back.
pub proof fn stopping_is_no_failure(
    m: MachineView,
    generation: u64,
    stage: Stage,
    outcome: StageOutcome,
    now: u64,
)
    requires
        m.state is Running || m.state is BackingOff,
    ensures
        commanded(m, SupervisorCommand::Stop).1 == Effect::StopPipeline,
        ({
            let stopped = commanded(m, SupervisorCommand::Stop).0;
            &&& stage_ended(stopped, generation, stage, outcome, now) == (stopped, Effect::Nothing)
            &&& commanded(stopped, SupervisorCommand::Start).1 == Effect::Start
        }),
{
}

/// The first wait is the base, and every further one is twice the one before,
/// up to the longest.
pub proof fn waits_double(attempt: nat)
    requires
        attempt >= 1,
    ensures
        backoff(1) == BACKOFF_BASE,
        2 * backoff(attempt) <= BACKOFF_MAX ==> backoff(attempt + 1) == 2 * backoff(attempt),
        2 * backoff(attempt) > BACKOFF_MAX ==> backoff(attempt + 1) == BACKOFF_MAX,
{
    vstd::arithmetic::power2::lemma2_to64();
}

/// What the commands do. A restart is carried out at any time before a shutdown,
/// and a start where nothing runs or is about to; both forget the failures
/// before. A stop is carried out where something runs or is about to. A shutdown
/// always is. A command that is not carried out changes nothing.
pub proof fn commands_do_what_they_say(m: MachineView, command: SupervisorCommand)
    ensures
        ({
            let (t, effect) = commanded(m, command);
            &&& command is Restart ==> effect == (if m.state is ShutDown {
                Effect::Nothing
            } else {
                Effect::Restart
            })
            &&& command is Start ==> effect == (if m.state is Stopped || m.state is Failed {
                Effect::Start
            } else {
                Effect::Nothing
            })
            &&& command is Stop ==> effect == (if m.state is Running || m.state is BackingOff {
                Effect::StopPipeline
            } else {
                Effect::Nothing
            })
            &&& command is Shutdown ==> effect == Effect::Shutdown && t.state is ShutDown
            &&& effect == Effect::Nothing ==> t == m
            &&& effect == Effect::StopPipeline ==> t.state is Stopped && t.restarts == m.restarts
                && t.attempt == m.attempt
            &&& effect == Effect::Restart || effect == Effect::Start ==> t.state == m.state
                && t.restarts.len() == 0 && t.attempt == 0
        }),
{
}

/// When a running pipeline counts as wedged: where the capture loop has not
/// turned for its limit; where a client watches and no frame was captured for
/// its limit; or where frames were captured for its limit after the last that
/// was encoded, and that is as long ago. What has not happened once yet is not
/// held against anyone.
pub proof fn what_counts_as_wedged(h: Heartbeats)
    ensures
        wedge(h) is Some <==> {
            ||| h.loop_ms > 0 && h.now_ms > h.loop_ms + CAPTURE_SILENCE_MS
            ||| h.client && h.frame_ms > 0 && h.now_ms > h.frame_ms + FRAME_SILENCE_MS
            ||| h.frame_ms > 0 && h.encode_ms > 0 && h.frame_ms > h.encode_ms + ENCODER_SILENCE_MS
                && h.now_ms > h.encode_ms + ENCODER_SILENCE_MS
        },
{
}

/// A round without a message: a backoff that is over starts the next generation,
/// a wedged pipeline is stopped and counts as one that failed, and otherwise
/// nothing happens. Only a pipeline that runs can be wedged.
pub proof fn quiet_rounds_watch(m: MachineView, beats: Heartbeats, now: u64)
    requires
        m.ok(),
        m.has_room(now),
    ensures
        ({
            let (t, effect) = round(m, None, beats, now);
            let over = m.state is BackingOff && now >= m.state->until;
            let stuck = m.state is Running && wedge(beats) is Some;
            &&& effect == (if over {
                Effect::Start
            } else if stuck {
                Effect::StopPipeline
            } else {
                Effect::Nothing
            })
            &&& !stuck ==> t == m
            &&& stuck ==> t.state is BackingOff || t.state is Failed
            &&& stuck && m.restarts.len() < STORM_LIMIT ==> t.state is BackingOff && t.attempt
                == m.attempt + 1
        }),
{
    kept_are_fewer(m.restarts, now);
}

/// A pipeline that has run for the healthy stretch gets its short waits back;
/// until then, and while nothing runs, nothing is forgotten.
pub proof fn health_is_earned(m: MachineView, healthy_since: u64, now: u64)
    ensures
        ({
            let t = rested(m, healthy_since, now);
            &&& t.state == m.state && t.restarts == m.restarts
            &&& m.state is Running && now > healthy_since + HEALTHY_STRETCH ==> t.attempt == 0
            &&& m.state !is Running || now <= healthy_since + HEALTHY_STRETCH ==> t.attempt
                == m.attempt
        }),
{
}

/// The watchdog looks at the three heartbeats of the host, and at whether a
/// client is connected.
pub proof fn watchdogs_look_at_the_heartbeats(shared: SharedControl, now_ms: u64)
    ensures
        ({
            let h = heartbeats(shared, now_ms);
            &&& h.now_ms == now_ms
            &&& h.loop_ms == shared.hb_capture_loop_ms
            &&& h.frame_ms == shared.hb_capture_frame_ms
            &&& h.encode_ms == shared.hb_encode_frame_ms
            &&& h.client <==> shared.session@.active is Some
        }),
{
}

} // verus!
