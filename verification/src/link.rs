//! The radio task: what it does next, given what the radio module, the buttons and the
//! clock answered.
//!
//! After the module has been set up, the task goes round one cycle for ever: measure the
//! noise, pick the angles to command, read the power buttons, pause, send a command,
//! listen for the report, judge it.
use vstd::prelude::*;

use crate::angle::{AzAngle, ElAngle};
use crate::buffers::{packet_bytes, CommandPacket};
use crate::checksum::crc8_lte;
use crate::context::{report_is_taken_over, AppContext};
use crate::easycom::{answered, RequestView};
use crate::protocol::{
    checked, command_bytes, command_says_what_was_asked, old_report_is_refused,
    packet_is_judged_by_its_bytes, response_is_taken_over, Error, Protocol, Response,
};
use crate::relays::Relays;
use crate::wire::be16;

verus! {

/// High byte of the controller's own radio address.
pub const MODULE_ADDRESS_H: u8 = 78;

/// Low byte of the controller's own radio address.
pub const MODULE_ADDRESS_L: u8 = 6;

/// High byte of the rotator's radio address.
pub const SLAVE_ADDRESS_H: u8 = 44;

/// Low byte of the rotator's radio address.
pub const SLAVE_ADDRESS_L: u8 = 79;

/// How often the radio module is set up before the task gives up.
pub const INIT_ATTEMPTS: u32 = 10;

/// How often one noise reading is tried.
pub const NOISE_ATTEMPTS: u8 = 3;

/// Pause before a command, in milliseconds.
pub const PAUSE_MS: u64 = 2000;

/// How long the task listens for one packet, in milliseconds.
pub const RX_WAIT_MS: u64 = 7000;

/// Packets shorter than this are passed over while listening.
pub const MIN_PACKET: usize = 3;

/// What the task waits for.
#[derive(Clone, Copy, Debug, PartialEq, Eq, Structural)]
pub enum Phase {
    /// The module to raise its ready line after power-up.
    AuxWait,
    /// The outcome of a setup attempt; attempts count from one.
    Init { attempt: u32 },
    /// Nothing: the module could not be set up.
    Halted,
    /// The module to enter its working mode.
    SetMode,
    /// A noise reading.
    Noise,
    /// The state of the power buttons.
    Buttons,
    /// The end of the pause before a command.
    Pause,
    /// The command to be sent.
    Sending,
    /// A packet.
    Listening,
    /// A judgement on the angles and relays of a response.
    Judging { response: Response },
}

/// How one wait for a packet ended.
#[derive(Clone, Copy, Debug, PartialEq, Eq, Structural)]
pub enum Reception {
    /// The time ran out.
    Timeout,
    /// The module reported a fault.
    Failed,
    /// A packet stands in the receive buffer.
    Packet,
}

/// What happened outside.
#[derive(Clone, Copy, Debug, PartialEq, Eq, Structural)]
pub enum Event {
    /// The module raised its ready line.
    AuxReady,
    /// A setup attempt ended.
    InitResult { ok: bool },
    /// The module is in its working mode.
    ModeSet,
    /// The noise level, or nothing if it could not be read.
    NoiseRead { level: Option<u8> },
    /// The levels of the two button inputs; a low input asks for power.
    Buttons { ptz_high: bool, lna_high: bool },
    /// The pause is over.
    PauseOver,
    /// The command was handed to the module, with or without success.
    SendResult { ok: bool },
    /// A wait for a packet ended.
    Received { reception: Reception },
    /// Whether the angles of the response are ones that the rotator can take, and what
    /// its relay byte stands for.
    Judged { az_ok: bool, el_ok: bool, relays: Option<Relays> },
}

/// What is to be done outside.
#[derive(Clone, Copy, Debug, PartialEq, Eq, Structural)]
pub enum Action {
    /// Wait until the module is ready.
    AwaitAux,
    /// Set the module up under this address.
    InitModule { address_h: u8, address_l: u8 },
    /// Stop for good.
    Halt,
    /// Put the module into its working mode.
    SetMode,
    /// Read the noise level, trying this often.
    ReadNoise { attempts: u8 },
    /// Read the power buttons.
    ReadButtons,
    /// Wait.
    Pause { millis: u64 },
    /// Send the command to this address.
    Send { address_h: u8, address_l: u8 },
    /// Wait for a packet.
    Listen { millis: u64 },
    /// Judge the angles and relays of this response.
    Judge { response: Response },
    /// Nothing new: go on with what was asked for last.
    Nothing,
}

/// The result of one step.
#[derive(Clone, Copy, Debug, PartialEq, Eq, Structural)]
pub struct Outcome {
    /// What is to be done next.
    pub action: Action,
    /// Whether the display shows something that has changed.
    pub redraw: bool,
    /// Why the received packet was refused, if one was.
    pub refused: Option<Error>,
}

/// An outcome with nothing to show and nothing refused.
pub open spec fn plain(action: Action) -> Outcome {
    Outcome { action, redraw: false, refused: None }
}

/// The task as its contracts see it.
pub struct TaskView {
    /// What it waits for.
    pub phase: Phase,
    /// The number of the last command.
    pub seq: u32,
    /// The azimuth to command.
    pub az: AzAngle,
    /// The elevation to command.
    pub el: ElAngle,
    /// The relays to command.
    pub pwr: Relays,
}

impl TaskView {
    /// No more setup attempts were made than are allowed.
    pub open spec fn wf(self) -> bool {
        match self.phase {
            Phase::Init { attempt } => 1 <= attempt <= INIT_ATTEMPTS,
            _ => true,
        }
    }

    /// The task with another phase.
    pub open spec fn at(self, phase: Phase) -> TaskView {
        TaskView { phase, ..self }
    }
}

/// The start of the next cycle.
pub open spec fn measure() -> Action {
    Action::ReadNoise { attempts: NOISE_ATTEMPTS }
}

/// One step of the task when listening ends: the receive buffer is checked as it stands.
pub open spec fn heard(t: TaskView, ctx: AppContext, rcv: Seq<u8>) -> (
    TaskView,
    AppContext,
    Outcome,
) {
    match checked(t.seq, rcv) {
        Ok(response) => (
            t.at(Phase::Judging { response }),
            ctx,
            plain(Action::Judge { response }),
        ),
        Err(e) => (
            t.at(Phase::Noise),
            ctx,
            Outcome { action: measure(), redraw: false, refused: Some(e) },
        ),
    }
}

/// One step of the task: from what it waits for, the shared state, the receive buffer
/// and an event, to the task, the shared state and the outcome after it. An event that
/// the task does not wait for changes nothing.
pub open spec fn stepped(t: TaskView, ctx: AppContext, rcv: Seq<u8>, event: Event) -> (
    TaskView,
    AppContext,
    Outcome,
) {
    match (t.phase, event) {
        (Phase::AuxWait, Event::AuxReady) => (
            t.at(Phase::Init { attempt: 1 }),
            ctx,
            plain(
                Action::InitModule { address_h: MODULE_ADDRESS_H, address_l: MODULE_ADDRESS_L },
            ),
        ),
        (Phase::Init { attempt }, Event::InitResult { ok }) => if ok {
            (t.at(Phase::SetMode), ctx, plain(Action::SetMode))
        } else if attempt >= INIT_ATTEMPTS {
            (t.at(Phase::Halted), ctx, plain(Action::Halt))
        } else {
            (
                t.at(Phase::Init { attempt: (attempt + 1) as u32 }),
                ctx,
                plain(
                    Action::InitModule {
                        address_h: MODULE_ADDRESS_H,
                        address_l: MODULE_ADDRESS_L,
                    },
                ),
            )
        },
        (Phase::SetMode, Event::ModeSet) => (t.at(Phase::Noise), ctx, plain(measure())),
        (Phase::Noise, Event::NoiseRead { level }) => (
            TaskView {
                phase: Phase::Buttons,
                seq: t.seq,
                az: ctx.commanded_az(),
                el: ctx.commanded_el(),
                pwr: ctx.power_control,
            },
            match level {
                Some(level) => AppContext { noise_m: level, ..ctx },
                None => ctx,
            },
            Outcome { action: Action::ReadButtons, redraw: level is Some, refused: None },
        ),
        (Phase::Buttons, Event::Buttons { ptz_high, lna_high }) => (
            TaskView {
                phase: Phase::Pause,
                pwr: Relays { ptz: !ptz_high, lna: !lna_high },
                ..t
            },
            ctx,
            plain(Action::Pause { millis: PAUSE_MS }),
        ),
        (Phase::Pause, Event::PauseOver) => (
            TaskView { phase: Phase::Sending, seq: (t.seq + 1) as u32, ..t },
            AppContext { seq: (t.seq + 1) as u32, ..ctx },
            plain(Action::Send { address_h: SLAVE_ADDRESS_H, address_l: SLAVE_ADDRESS_L }),
        ),
        (Phase::Sending, Event::SendResult { ok }) => (
            t.at(Phase::Listening),
            ctx,
            plain(Action::Listen { millis: RX_WAIT_MS }),
        ),
        (Phase::Listening, Event::Received { reception }) => if reception == Reception::Packet
            && rcv.len() < MIN_PACKET {
            (t, ctx, plain(Action::Listen { millis: RX_WAIT_MS }))
        } else {
            heard(t, ctx, rcv)
        },
        (Phase::Judging { response }, Event::Judged { az_ok, el_ok, relays }) => match response.accepted(
            az_ok,
            el_ok,
            relays,
        ) {
            Ok(report) => (
                t.at(Phase::Noise),
                ctx.reported(report),
                Outcome { action: measure(), redraw: true, refused: None },
            ),
            Err(e) => (
                t.at(Phase::Noise),
                ctx,
                Outcome { action: measure(), redraw: false, refused: Some(e) },
            ),
        },
        _ => (t, ctx, plain(Action::Nothing)),
    }
}

proof fn lemma_step_keeps_wf(t: TaskView, ctx: AppContext, rcv: Seq<u8>, event: Event)
    requires
        t.wf(),
    ensures
        stepped(t, ctx, rcv, event).0.wf(),
{
}

/// The radio task.
pub struct E220Task {
    phase: Phase,
    protocol: Protocol,
    az_cmd: AzAngle,
    el_cmd: ElAngle,
    pwr: Relays,
}

impl E220Task {
    /// The task as its contracts see it.
    pub closed spec fn view(&self) -> TaskView {
        TaskView {
            phase: self.phase,
            seq: self.protocol@,
            az: self.az_cmd,
            el: self.el_cmd,
            pwr: self.pwr,
        }
    }

    /// The task at power-up; packets are numbered from `seq` on. The first thing to do
    /// is to wait until the module is ready.
    pub fn new(seq: u32) -> (r: (E220Task, Action))
        ensures
            r.0@ == (TaskView {
                phase: Phase::AuxWait,
                seq,
                az: AzAngle { centi: 0 },
                el: ElAngle { centi: 0 },
                pwr: Relays { ptz: false, lna: false },
            }),
            r.0@.wf(),
            r.1 == Action::AwaitAux,
    {
        (
            E220Task {
                phase: Phase::AuxWait,
                protocol: Protocol::new(seq),
                az_cmd: AzAngle { centi: 0 },
                el_cmd: ElAngle { centi: 0 },
                pwr: Relays::new(),
            },
            Action::AwaitAux,
        )
    }

    /// The relays that the next command asks for.
    pub fn relays(&self) -> (r: Relays)
        ensures
            r == self@.pwr,
    {
        self.pwr
    }

    /// The packet number of the last command.
    pub fn seq(&self) -> (r: u32)
        ensures
            r == self@.seq,
    {
        self.protocol.get_seq()
    }

    /// The command to send, with the byte `rly` that stands for the relays.
    pub fn command(&mut self, rly: u8) -> (r: Result<CommandPacket, Error>)
        ensures
            r is Ok,
            packet_bytes(r->Ok_0) == command_bytes(
                old(self)@.seq,
                old(self)@.az,
                old(self)@.el,
                rly,
            ),
            final(self)@ == old(self)@,
    {
        let az: AzAngle = self.az_cmd;
        let el: ElAngle = self.el_cmd;
        self.protocol.make_command(&az, &el, rly)
    }

    /// Ends a wait for a packet on the contents of the receive buffer.
    fn judge_or_refuse(&mut self, rcv_buf: &[u8]) -> (outcome: Outcome)
        ensures
            forall|ctx: AppContext|
                (final(self)@, ctx, outcome) == #[trigger] heard(old(self)@, ctx, rcv_buf@),
    {
        match self.protocol.check_response(rcv_buf) {
            Ok(response) => {
                self.phase = Phase::Judging { response };
                Outcome { action: Action::Judge { response }, redraw: false, refused: None }
            },
            Err(e) => {
                self.phase = Phase::Noise;
                Outcome {
                    action: Action::ReadNoise { attempts: NOISE_ATTEMPTS },
                    redraw: false,
                    refused: Some(e),
                }
            },
        }
    }

    /// Takes one event, with the contents of the radio module's receive buffer, and says
    /// what is to be done next.
    pub fn step(&mut self, ctx: &mut AppContext, rcv_buf: &[u8], event: Event) -> (outcome: Outcome)
        requires
            old(self)@.wf(),
            old(self)@.phase == Phase::Pause && event == Event::PauseOver ==> old(self)@.seq
                < u32::MAX,
        ensures
            (final(self)@, *final(ctx), outcome) == stepped(
                old(self)@,
                *old(ctx),
                rcv_buf@,
                event,
            ),
            final(self)@.wf(),
    {
        proof {
            lemma_step_keeps_wf(self@, *ctx, rcv_buf@, event);
        }
        let nothing = Outcome { action: Action::Nothing, redraw: false, refused: None };
        match (self.phase, event) {
            (Phase::AuxWait, Event::AuxReady) => {
                self.phase = Phase::Init { attempt: 1 };
                Outcome {
                    action: Action::InitModule {
                        address_h: MODULE_ADDRESS_H,
                        address_l: MODULE_ADDRESS_L,
                    },
                    ..nothing
                }
            },
            (Phase::Init { attempt }, Event::InitResult { ok }) => {
                if ok {
                    self.phase = Phase::SetMode;
                    return Outcome { action: Action::SetMode, ..nothing };
                }
                let init_count: u32 = attempt + 1;
                if init_count > INIT_ATTEMPTS {
                    self.phase = Phase::Halted;
                    return Outcome { action: Action::Halt, ..nothing };
                }
                self.phase = Phase::Init { attempt: init_count };
                Outcome {
                    action: Action::InitModule {
                        address_h: MODULE_ADDRESS_H,
                        address_l: MODULE_ADDRESS_L,
                    },
                    ..nothing
                }
            },
            (Phase::SetMode, Event::ModeSet) => {
                self.phase = Phase::Noise;
                Outcome { action: Action::ReadNoise { attempts: NOISE_ATTEMPTS }, ..nothing }
            },
            (Phase::Noise, Event::NoiseRead { level }) => {
                let mut redraw: bool = false;
                if let Some(rssi) = level {
                    ctx.noise_m = rssi;
                    redraw = true;
                }
                let (az, el) = ctx.commanded();
                self.az_cmd = az;
                self.el_cmd = el;
                self.pwr = ctx.power_control;
                self.phase = Phase::Buttons;
                Outcome { action: Action::ReadButtons, redraw, refused: None }
            },
            (Phase::Buttons, Event::Buttons { ptz_high, lna_high }) => {
                if ptz_high {
                    self.pwr.ptz_off();
                } else {
                    self.pwr.ptz_on();
                }
                if lna_high {
                    self.pwr.lna_off();
                } else {
                    self.pwr.lna_on();
                }
                self.phase = Phase::Pause;
                Outcome { action: Action::Pause { millis: PAUSE_MS }, ..nothing }
            },
            (Phase::Pause, Event::PauseOver) => {
                self.protocol.next_seq();
                ctx.seq = self.protocol.get_seq();
                self.phase = Phase::Sending;
                Outcome {
                    action: Action::Send { address_h: SLAVE_ADDRESS_H, address_l: SLAVE_ADDRESS_L },
                    ..nothing
                }
            },
            (Phase::Sending, Event::SendResult { .. }) => {
                self.phase = Phase::Listening;
                Outcome { action: Action::Listen { millis: RX_WAIT_MS }, ..nothing }
            },
            (Phase::Listening, Event::Received { reception }) => {
                match reception {
                    Reception::Packet => {
                        if rcv_buf.len() < MIN_PACKET {
                            Outcome { action: Action::Listen { millis: RX_WAIT_MS }, ..nothing }
                        } else {
                            self.judge_or_refuse(rcv_buf)
                        }
                    },
                    Reception::Timeout | Reception::Failed => self.judge_or_refuse(rcv_buf),
                }
            },
            (Phase::Judging { response }, Event::Judged { az_ok, el_ok, relays }) => {
                self.phase = Phase::Noise;
                let action = Action::ReadNoise { attempts: NOISE_ATTEMPTS };
                match response.accept(az_ok, el_ok, relays) {
                    Ok(report) => {
                        ctx.apply(&report);
                        Outcome { action, redraw: true, refused: None }
                    },
                    Err(e) => Outcome { action, redraw: false, refused: Some(e) },
                }
            },
            _ => nothing,
        }
    }
}

/// The task after `n` setup attempts in a row have failed.
pub open spec fn after_failures(t: TaskView, ctx: AppContext, rcv: Seq<u8>, n: nat) -> TaskView
    decreases n,
{
    if n == 0 {
        t
    } else {
        stepped(
            after_failures(t, ctx, rcv, (n - 1) as nat),
            ctx,
            rcv,
            Event::InitResult { ok: false },
        ).0
    }
}

/// The module is set up at most ten times: each failure but the tenth leads to one more
/// attempt, and the tenth stops the task.
pub proof fn setup_is_tried_ten_times(t: TaskView, ctx: AppContext, rcv: Seq<u8>, n: nat)
    requires
        t.phase == (Phase::Init { attempt: 1 }),
    ensures
        n < INIT_ATTEMPTS ==> after_failures(t, ctx, rcv, n) == t.at(
            Phase::Init { attempt: (n + 1) as u32 },
        ),
        n >= INIT_ATTEMPTS ==> after_failures(t, ctx, rcv, n) == t.at(Phase::Halted),
    decreases n,
{
    if n > 0 {
        setup_is_tried_ten_times(t, ctx, rcv, (n - 1) as nat);
    }
}

/// A task that has stopped does nothing any more.
pub proof fn halted_for_good(t: TaskView, ctx: AppContext, rcv: Seq<u8>, event: Event)
    requires
        t.phase == Phase::Halted,
    ensures
        stepped(t, ctx, rcv, event) == (t, ctx, plain(Action::Nothing)),
{
}

/// An event out of turn leaves the task and the shared state alone.
pub proof fn event_out_of_turn_changes_nothing(
    t: TaskView,
    ctx: AppContext,
    rcv: Seq<u8>,
    event: Event,
)
    requires
        stepped(t, ctx, rcv, event).2.action == Action::Nothing,
    ensures
        stepped(t, ctx, rcv, event).0 == t,
        stepped(t, ctx, rcv, event).1 == ctx,
{
}

/// Packet numbers only ever grow, by one for each command, and the number of the command
/// is the one that the shared state shows.
pub proof fn numbers_grow_by_one(t: TaskView, ctx: AppContext, rcv: Seq<u8>, event: Event)
    requires
        t.seq < u32::MAX,
    ensures
        ({
            let (t1, ctx1, outcome) = stepped(t, ctx, rcv, event);
            if outcome.action is Send {
                t1.seq == t.seq + 1 && ctx1.seq == t1.seq
            } else {
                t1.seq == t.seq && ctx1.seq == ctx.seq
            }
        }),
{
}

/// A refused packet leaves the shared state alone and starts the next cycle.
pub proof fn refused_packet_changes_nothing(
    t: TaskView,
    ctx: AppContext,
    rcv: Seq<u8>,
    event: Event,
)
    requires
        stepped(t, ctx, rcv, event).2.refused is Some,
    ensures
        stepped(t, ctx, rcv, event).0 == t.at(Phase::Noise),
        stepped(t, ctx, rcv, event).1 == ctx,
        stepped(t, ctx, rcv, event).2.action == measure(),
        !stepped(t, ctx, rcv, event).2.redraw,
{
}

/// A packet that answered an earlier command is refused however the wait for a packet ended,
/// also where it only stands in the receive buffer from before, and what is shown stays.
pub proof fn report_of_an_earlier_cycle_is_refused(
    t: TaskView,
    ctx: AppContext,
    rcv: Seq<u8>,
    earlier: u32,
    reception: Reception,
)
    requires
        t.phase == Phase::Listening,
        earlier < t.seq,
        checked(earlier, rcv) is Ok,
    ensures
        stepped(t, ctx, rcv, Event::Received { reception }) == (
            t.at(Phase::Noise),
            ctx,
            Outcome { action: measure(), redraw: false, refused: Some(Error::Number) },
        ),
{
    old_report_is_refused(earlier, t.seq, rcv);
}

/// The reported angles, levels and relays change only when a response is accepted, and
/// then to what the response carries.
pub proof fn only_accepted_reports_are_shown(
    t: TaskView,
    ctx: AppContext,
    rcv: Seq<u8>,
    event: Event,
)
    ensures
        ({
            let ctx1 = stepped(t, ctx, rcv, event).1;
            ||| {
                &&& t.phase matches Phase::Judging { response }
                &&& event matches Event::Judged { az_ok, el_ok, relays }
                &&& response.accepted(az_ok, el_ok, relays) matches Ok(report)
                &&& ctx1 == ctx.reported(report)
            }
            ||| {
                &&& ctx1.current_az == ctx.current_az
                &&& ctx1.current_el == ctx.current_el
                &&& ctx1.signal_s == ctx.signal_s
                &&& ctx1.noise_s == ctx.noise_s
                &&& ctx1.signal_m == ctx.signal_m
                &&& ctx1.power_control == ctx.power_control
            }
        }),
{
}

/// What the operator asked for, the task leaves alone: the targets, the potentiometers
/// and the manual switch.
pub proof fn operator_settings_are_kept(
    t: TaskView,
    ctx: AppContext,
    rcv: Seq<u8>,
    event: Event,
)
    ensures
        ({
            let ctx1 = stepped(t, ctx, rcv, event).1;
            &&& ctx1.target_az == ctx.target_az
            &&& ctx1.target_el == ctx.target_el
            &&& ctx1.az_pot == ctx.az_pot
            &&& ctx1.el_pot == ctx.el_pot
            &&& ctx1.manual == ctx.manual
        }),
{
}

/// Elevations stay between the horizon and the zenith: where those of the task and of the
/// shared state do, no step changes that.
pub proof fn elevations_stay_in_range(t: TaskView, ctx: AppContext, rcv: Seq<u8>, event: Event)
    requires
        t.el.wf(),
        ctx.wf(),
    ensures
        stepped(t, ctx, rcv, event).0.el.wf(),
        stepped(t, ctx, rcv, event).1.wf(),
{
}

/// Over one cycle the command carries the next number, the angles that were in force when
/// the noise had been measured, and the relays that the buttons ask for, whatever the
/// shared state became in between.
pub proof fn cycle_sends_what_was_asked(
    t: TaskView,
    ctx0: AppContext,
    ctx1: AppContext,
    ctx2: AppContext,
    rcv: Seq<u8>,
    level: Option<u8>,
    ptz_high: bool,
    lna_high: bool,
)
    requires
        t.phase == Phase::Noise,
        t.seq < u32::MAX,
    ensures
        ({
            let t1 = stepped(t, ctx0, rcv, Event::NoiseRead { level }).0;
            let t2 = stepped(t1, ctx1, rcv, Event::Buttons { ptz_high, lna_high }).0;
            let (t3, _, outcome) = stepped(t2, ctx2, rcv, Event::PauseOver);
            &&& outcome.action == Action::Send {
                address_h: SLAVE_ADDRESS_H,
                address_l: SLAVE_ADDRESS_L,
            }
            &&& t3.seq == t.seq + 1
            &&& t3.az == ctx0.commanded_az()
            &&& t3.el == ctx0.commanded_el()
            &&& t3.pwr == Relays { ptz: !ptz_high, lna: !lna_high }
        }),
{
}

/// An azimuth that is set on the command port under automatic control stands in the
/// azimuth field of the next command, and an elevation in the field behind it, counted
/// from the zenith.
pub proof fn new_target_is_sent(
    t: TaskView,
    ctx: AppContext,
    text: Seq<u8>,
    az: AzAngle,
    el: ElAngle,
    rcv: Seq<u8>,
    level: Option<u8>,
    ptz_high: bool,
    lna_high: bool,
    rly: u8,
)
    requires
        t.phase == Phase::Noise,
        t.seq < u32::MAX,
        !ctx.manual,
    ensures
        ({
            let ctx0 = answered(ctx, RequestView::SetAz(text), Some(az), None).0;
            let ctx1 = answered(ctx0, RequestView::SetEl(text), None, Some(el)).0;
            let (t1, ctx2, _) = stepped(t, ctx1, rcv, Event::NoiseRead { level });
            let (t2, ctx3, _) = stepped(t1, ctx2, rcv, Event::Buttons { ptz_high, lna_high });
            let t3 = stepped(t2, ctx3, rcv, Event::PauseOver).0;
            let command = command_bytes(t3.seq, t3.az, t3.el, rly);
            &&& command.subrange(5, 7) == be16(az.centi)
            &&& command.subrange(7, 9) == be16(el.from_zenith_spec())
        }),
{
    let command = command_bytes((t.seq + 1) as u32, az, el, rly);
    assert(command.subrange(5, 7) =~= be16(az.centi));
    assert(command.subrange(7, 9) =~= be16(el.from_zenith_spec()));
}

/// While listening, a packet too short to carry anything is passed over; any other end of
/// the wait ends the listening.
pub proof fn short_packets_are_passed_over(
    t: TaskView,
    ctx: AppContext,
    rcv: Seq<u8>,
    reception: Reception,
)
    requires
        t.phase == Phase::Listening,
    ensures
        ({
            let t1 = stepped(t, ctx, rcv, Event::Received { reception }).0;
            t1.phase == Phase::Listening <==> reception == Reception::Packet && rcv.len()
                < MIN_PACKET
        }),
{
}

/// However listening and judging turn out, the task comes round to the next cycle: the
/// end of listening leads to a judgement or straight to the next noise reading, and a
/// judgement leads to the next noise reading.
pub proof fn cycle_comes_round(t: TaskView, ctx: AppContext, rcv: Seq<u8>, event: Event)
    ensures
        ({
            let (t1, _, outcome) = stepped(t, ctx, rcv, event);
            &&& t.phase == Phase::Listening && event is Received && t1.phase != Phase::Listening
                ==> t1.phase is Judging || (t1.phase == Phase::Noise && outcome.action == measure())
            &&& t.phase is Judging && event is Judged ==> t1.phase == Phase::Noise
                && outcome.action == measure()
        }),
{
}

/// Setting up, step by step: once the module is ready it is set up under the address 78, 6;
/// after a success it is put into its working mode; after a failure the setup is tried
/// again under the same address, until the tenth failure stops the task. In its working
/// mode the first thing is a noise reading, tried three times. The shared state plays no
/// part in this, and neither do the packet number, the angles and the relays.
pub proof fn setup_goes_step_by_step(
    t: TaskView,
    ctx: AppContext,
    rcv: Seq<u8>,
    attempt: u32,
)
    requires
        1 <= attempt <= 10,
    ensures
        t.phase == Phase::AuxWait ==> stepped(t, ctx, rcv, Event::AuxReady) == (
            TaskView { phase: Phase::Init { attempt: 1 }, ..t },
            ctx,
            plain(Action::InitModule { address_h: 78, address_l: 6 }),
        ),
        t.phase == (Phase::Init { attempt }) ==> {
            &&& stepped(t, ctx, rcv, Event::InitResult { ok: true }) == (
                TaskView { phase: Phase::SetMode, ..t },
                ctx,
                plain(Action::SetMode),
            )
            &&& attempt < 10 ==> stepped(t, ctx, rcv, Event::InitResult { ok: false }) == (
                TaskView { phase: Phase::Init { attempt: (attempt + 1) as u32 }, ..t },
                ctx,
                plain(Action::InitModule { address_h: 78, address_l: 6 }),
            )
            &&& attempt == 10 ==> stepped(t, ctx, rcv, Event::InitResult { ok: false }) == (
                TaskView { phase: Phase::Halted, ..t },
                ctx,
                plain(Action::Halt),
            )
        },
        t.phase == Phase::SetMode ==> stepped(t, ctx, rcv, Event::ModeSet) == (
            TaskView { phase: Phase::Noise, ..t },
            ctx,
            plain(Action::ReadNoise { attempts: 3 }),
        ),
{
}

/// A step that only goes on asks for nothing to be drawn and refuses nothing.
pub proof fn plain_outcome_is_silent(action: Action)
    ensures
        plain(action).action == action,
        !plain(action).redraw,
        plain(action).refused is None,
{
}

/// A noise level that was read is shown and changes nothing else; one that was not read
/// changes nothing. Either way the angles and relays in force are taken down: in manual
/// control those of the potentiometers, otherwise the targets.
pub proof fn noise_reading_is_shown_and_the_angles_are_picked(
    t: TaskView,
    ctx: AppContext,
    rcv: Seq<u8>,
    level: Option<u8>,
)
    requires
        t.phase == Phase::Noise,
    ensures
        ({
            let (t1, ctx1, outcome) = stepped(t, ctx, rcv, Event::NoiseRead { level });
            &&& level matches Some(v) ==> ctx1 == (AppContext { noise_m: v, ..ctx })
            &&& level is None ==> ctx1 == ctx
            &&& outcome.redraw <==> level is Some
            &&& outcome.refused is None
            &&& outcome.action == Action::ReadButtons
            &&& t1.phase == Phase::Buttons
            &&& t1.seq == t.seq
            &&& ctx.manual ==> t1.az == ctx.az_pot && t1.el == ctx.el_pot
            &&& !ctx.manual ==> t1.az == ctx.target_az && t1.el == ctx.target_el
            &&& t1.pwr == ctx.power_control
        }),
{
}

/// From the buttons to listening: a low input asks for the power of its own relay and a high
/// one for none; then come two seconds of pause, a command under the next number to the
/// address 44, 79, and seven seconds of listening, whether or not the command could be sent.
/// The angles stay as they were picked, and of the shared state only the number changes.
pub proof fn command_follows_the_buttons(
    t: TaskView,
    ctx: AppContext,
    rcv: Seq<u8>,
    ptz_high: bool,
    lna_high: bool,
    ok: bool,
)
    requires
        t.seq < u32::MAX,
    ensures
        t.phase == Phase::Buttons ==> ({
            let (t1, ctx1, outcome) = stepped(t, ctx, rcv, Event::Buttons { ptz_high, lna_high });
            &&& t1.pwr.ptz <==> !ptz_high
            &&& t1.pwr.lna <==> !lna_high
            &&& (t1.phase, t1.seq, t1.az, t1.el) == (Phase::Pause, t.seq, t.az, t.el)
            &&& ctx1 == ctx
            &&& outcome == plain(Action::Pause { millis: 2000 })
        }),
        t.phase == Phase::Pause ==> ({
            let (t1, ctx1, outcome) = stepped(t, ctx, rcv, Event::PauseOver);
            &&& t1.seq == t.seq + 1
            &&& (t1.phase, t1.az, t1.el, t1.pwr) == (Phase::Sending, t.az, t.el, t.pwr)
            &&& ctx1 == (AppContext { seq: t1.seq, ..ctx })
            &&& outcome == plain(Action::Send { address_h: 44, address_l: 79 })
        }),
        t.phase == Phase::Sending ==> stepped(t, ctx, rcv, Event::SendResult { ok }) == (
            TaskView { phase: Phase::Listening, ..t },
            ctx,
            plain(Action::Listen { millis: 7000 }),
        ),
{
}

/// Whether a step is due: each phase waits for one kind of event, and the last for none.
/// Any other event changes nothing and asks for nothing; the one that is waited for always
/// asks for something.
pub proof fn each_phase_waits_for_its_event(
    t: TaskView,
    ctx: AppContext,
    rcv: Seq<u8>,
    event: Event,
)
    ensures
        ({
            let due = {
                ||| t.phase is AuxWait && event is AuxReady
                ||| t.phase is Init && event is InitResult
                ||| t.phase is SetMode && event is ModeSet
                ||| t.phase is Noise && event is NoiseRead
                ||| t.phase is Buttons && event is Buttons
                ||| t.phase is Pause && event is PauseOver
                ||| t.phase is Sending && event is SendResult
                ||| t.phase is Listening && event is Received
                ||| t.phase is Judging && event is Judged
            };
            &&& !due ==> stepped(t, ctx, rcv, event) == (t, ctx, plain(Action::Nothing))
            &&& due ==> stepped(t, ctx, rcv, event).2.action != Action::Nothing
        }),
{
}

/// While listening, a packet of fewer than three bytes is passed over for seven more
/// seconds. Anything else, also a timeout or a fault, ends on the bytes of the receive
/// buffer: a report under the number of the command, with the marker and its checksum, goes
/// on to be judged, by the fields that stand in it; all else is refused, for the first thing
/// that is wrong. What is shown does not change yet.
pub proof fn packet_is_judged_or_refused(
    t: TaskView,
    ctx: AppContext,
    rcv: Seq<u8>,
    reception: Reception,
)
    requires
        t.phase == Phase::Listening,
    ensures
        ({
            let (t1, ctx1, outcome) = stepped(t, ctx, rcv, Event::Received { reception });
            let short = reception == Reception::Packet && rcv.len() < 3;
            let length = rcv.len() == 14;
            let marker = rcv[0] == 0xFF;
            let crc = rcv[12] == crc8_lte(rcv.take(12));
            let number = ((rcv[1] * 256 + rcv[2]) * 256 + rcv[3]) * 256 + rcv[4] == t.seq;
            &&& ctx1 == ctx
            &&& !outcome.redraw
            &&& (t1.seq, t1.az, t1.el, t1.pwr) == (t.seq, t.az, t.el, t.pwr)
            &&& short ==> t1.phase == Phase::Listening && outcome == plain(
                Action::Listen { millis: 7000 },
            )
            &&& !short && length && marker && crc && number ==> {
                &&& outcome.refused is None
                &&& outcome.action matches Action::Judge { response }
                &&& t1.phase == (Phase::Judging { response })
                &&& response.az == rcv[5] * 256 + rcv[6]
                &&& response.el == rcv[7] * 256 + rcv[8]
                &&& response.signal == rcv[9]
                &&& response.noise == rcv[10]
                &&& response.relays == rcv[11]
                &&& response.rssi == rcv[13]
            }
            &&& !short && !(length && marker && crc && number) ==> {
                &&& t1.phase == Phase::Noise
                &&& outcome.action == Action::ReadNoise { attempts: 3 }
                &&& outcome.refused == Some(
                    if !length {
                        Error::Length
                    } else if !marker {
                        Error::Marker
                    } else if !crc {
                        Error::Crc
                    } else {
                        Error::Number
                    },
                )
            }
        }),
{
    packet_is_judged_by_its_bytes(t.seq, rcv);
}

/// What is shown after a report, by the bytes that were received: the azimuth and the
/// elevation in whole degrees, less than a degree below the fields, the elevation being what
/// its field leaves of 90 degrees; the two levels at the rotator, the level of the report
/// itself, and the relays. It does not matter what the shared state became while the report
/// was judged; all else in it is left alone, and the display is drawn again.
pub proof fn accepted_report_is_shown(
    t: TaskView,
    ctx: AppContext,
    rcv: Seq<u8>,
    reception: Reception,
    ctx1: AppContext,
    rcv1: Seq<u8>,
    relays: Relays,
)
    requires
        t.phase == Phase::Listening,
        rcv.len() == 14,
        rcv[0] == 0xFF,
        rcv[12] == crc8_lte(rcv.take(12)),
        ((rcv[1] * 256 + rcv[2]) * 256 + rcv[3]) * 256 + rcv[4] == t.seq,
        rcv[7] * 256 + rcv[8] <= 9000,
    ensures
        ({
            let t1 = stepped(t, ctx, rcv, Event::Received { reception }).0;
            let event = Event::Judged { az_ok: true, el_ok: true, relays: Some(relays) };
            let (t2, shown, outcome) = stepped(t1, ctx1, rcv1, event);
            let az_field = rcv[5] * 256 + rcv[6];
            let el_field = rcv[7] * 256 + rcv[8];
            &&& shown.current_az.centi % 100 == 0
            &&& shown.current_az.centi <= az_field < shown.current_az.centi + 100
            &&& shown.current_el.centi % 100 == 0
            &&& shown.current_el.centi <= 9000 - el_field < shown.current_el.centi + 100
            &&& shown.signal_s == rcv[9]
            &&& shown.noise_s == rcv[10]
            &&& shown.signal_m == rcv[13]
            &&& shown.power_control == relays
            &&& shown.target_az == ctx1.target_az
            &&& shown.target_el == ctx1.target_el
            &&& shown.az_pot == ctx1.az_pot
            &&& shown.el_pot == ctx1.el_pot
            &&& shown.manual == ctx1.manual
            &&& shown.seq == ctx1.seq
            &&& shown.noise_m == ctx1.noise_m
            &&& t2 == (TaskView { phase: Phase::Noise, ..t })
            &&& outcome.redraw
            &&& outcome.refused is None
            &&& outcome.action == Action::ReadNoise { attempts: 3 }
        }),
{
    packet_is_judged_by_its_bytes(t.seq, rcv);
    let response = checked(t.seq, rcv)->Ok_0;
    response_is_taken_over(response, true, true, Some(relays));
    report_is_taken_over(ctx1, response.accepted(true, true, Some(relays))->Ok_0);
}

/// A response at fault is refused for the first of azimuth, elevation field, elevation and
/// relay byte that is, and then nothing is shown and the next cycle starts. One without a
/// fault is not refused.
pub proof fn faulty_response_is_refused(
    t: TaskView,
    ctx: AppContext,
    rcv: Seq<u8>,
    response: Response,
    az_ok: bool,
    el_ok: bool,
    relays: Option<Relays>,
)
    requires
        t.phase == (Phase::Judging { response }),
    ensures
        ({
            let (t1, ctx1, outcome) = stepped(t, ctx, rcv, Event::Judged { az_ok, el_ok, relays });
            let good = az_ok && response.el <= 9000 && el_ok && relays is Some;
            &&& t1 == (TaskView { phase: Phase::Noise, ..t })
            &&& outcome.action == Action::ReadNoise { attempts: 3 }
            &&& outcome.redraw <==> good
            &&& outcome.refused is None <==> good
            &&& !good ==> ctx1 == ctx && outcome.refused == Some(
                if !az_ok {
                    Error::Azimuth
                } else if response.el > 9000 {
                    Error::ElevationField
                } else if !el_ok {
                    Error::Elevation
                } else {
                    Error::Relays
                },
            )
        }),
{
    response_is_taken_over(response, az_ok, el_ok, relays);
}

/// The bytes that go on the air in one cycle, from the state that held when the noise had
/// been measured: the next number, the angles of whoever is in charge, and the relay byte
/// that stands for what the buttons ask for. What happens to the shared state after that
/// does not matter.
pub proof fn command_on_the_air(
    t: TaskView,
    ctx0: AppContext,
    ctx1: AppContext,
    ctx2: AppContext,
    rcv: Seq<u8>,
    level: Option<u8>,
    ptz_high: bool,
    lna_high: bool,
    rly: u8,
)
    requires
        t.phase == Phase::Noise,
        t.seq < u32::MAX,
    ensures
        ({
            let t1 = stepped(t, ctx0, rcv, Event::NoiseRead { level }).0;
            let t2 = stepped(t1, ctx1, rcv, Event::Buttons { ptz_high, lna_high }).0;
            let t3 = stepped(t2, ctx2, rcv, Event::PauseOver).0;
            let cmd = command_bytes(t3.seq, t3.az, t3.el, rly);
            let az = if ctx0.manual {
                ctx0.az_pot
            } else {
                ctx0.target_az
            };
            let el = if ctx0.manual {
                ctx0.el_pot
            } else {
                ctx0.target_el
            };
            &&& cmd.len() == 11
            &&& cmd[0] == 0xFF
            &&& ((cmd[1] * 256 + cmd[2]) * 256 + cmd[3]) * 256 + cmd[4] == t.seq + 1
            &&& cmd[5] * 256 + cmd[6] == az.centi
            &&& el.centi <= 9000 ==> cmd[7] * 256 + cmd[8] + el.centi == 9000
            &&& cmd[9] == rly
            &&& t3.pwr.ptz <==> !ptz_high
            &&& t3.pwr.lna <==> !lna_high
        }),
{
    noise_reading_is_shown_and_the_angles_are_picked(t, ctx0, rcv, level);
    let t1 = stepped(t, ctx0, rcv, Event::NoiseRead { level }).0;
    command_follows_the_buttons(t1, ctx1, rcv, ptz_high, lna_high, true);
    let t2 = stepped(t1, ctx1, rcv, Event::Buttons { ptz_high, lna_high }).0;
    command_follows_the_buttons(t2, ctx2, rcv, ptz_high, lna_high, true);
    let t3 = stepped(t2, ctx2, rcv, Event::PauseOver).0;
    command_says_what_was_asked(t3.seq, t3.az, t3.el, rly);
}

} // verus!
