//! The state that the controller's tasks share.
use vstd::prelude::*;

use crate::angle::{AzAngle, ElAngle};
use crate::relays::Relays;

verus! {

/// The azimuth asked for at power-up, before any command has come: 100 degrees.
pub const START_AZ: u16 = 10000;

/// The elevation asked for at power-up, before any command has come: 45 degrees.
pub const START_EL: u16 = 4500;

/// What a rotator reported and the controller accepted.
#[derive(Clone, Copy, Debug, PartialEq, Eq, Structural)]
pub struct Report {
    /// Azimuth, in whole degrees.
    pub az: AzAngle,
    /// Elevation, in whole degrees.
    pub el: ElAngle,
    /// Signal level at the rotator, as the radio module gives it.
    pub signal_s: u8,
    /// Noise level at the rotator, as the radio module gives it.
    pub noise_s: u8,
    /// Signal level of the report itself at the controller.
    pub signal_m: u8,
    /// The relays as the rotator has set them.
    pub relays: Relays,
}

/// The state that the radio, the command port, the potentiometers and the display share.
#[derive(Clone, Copy, Debug, PartialEq, Eq, Structural)]
pub struct AppContext {
    /// Azimuth asked for over the command port.
    pub target_az: AzAngle,
    /// Elevation asked for over the command port.
    pub target_el: ElAngle,
    /// Azimuth last reported by the rotator.
    pub current_az: AzAngle,
    /// Elevation last reported by the rotator.
    pub current_el: ElAngle,
    /// Number of the last command sent.
    pub seq: u32,
    /// Noise level at the controller.
    pub noise_m: u8,
    /// Signal level of the last report at the controller.
    pub signal_m: u8,
    /// Noise level at the rotator.
    pub noise_s: u8,
    /// Signal level at the rotator.
    pub signal_s: u8,
    /// The relays as last reported.
    pub power_control: Relays,
    /// Azimuth set on the potentiometer.
    pub az_pot: AzAngle,
    /// Elevation set on the potentiometer.
    pub el_pot: ElAngle,
    /// Whether the potentiometers are in charge.
    pub manual: bool,
}

impl AppContext {
    /// All elevations lie between the horizon and the zenith.
    pub open spec fn wf(self) -> bool {
        self.target_el.wf() && self.el_pot.wf() && self.current_el.wf()
    }

    /// The state before anything has happened: everything zero or off.
    pub open spec fn blank() -> AppContext {
        AppContext {
            target_az: AzAngle { centi: 0 },
            target_el: ElAngle { centi: 0 },
            current_az: AzAngle { centi: 0 },
            current_el: ElAngle { centi: 0 },
            seq: 0,
            noise_m: 0,
            signal_m: 0,
            noise_s: 0,
            signal_s: 0,
            power_control: Relays { ptz: false, lna: false },
            az_pot: AzAngle { centi: 0 },
            el_pot: ElAngle { centi: 0 },
            manual: false,
        }
    }

    /// The state before anything has happened.
    pub fn new() -> (r: AppContext)
        ensures
            r == AppContext::blank(),
            r.wf(),
    {
        AppContext {
            target_az: AzAngle { centi: 0 },
            target_el: ElAngle { centi: 0 },
            current_az: AzAngle { centi: 0 },
            current_el: ElAngle { centi: 0 },
            seq: 0,
            noise_m: 0,
            signal_m: 0,
            noise_s: 0,
            signal_s: 0,
            power_control: Relays::new(),
            az_pot: AzAngle { centi: 0 },
            el_pot: ElAngle { centi: 0 },
            manual: false,
        }
    }

    /// Sets the angles that the controller asks for until a command comes.
    pub fn set_start_targets(&mut self)
        ensures
            *final(self) == (AppContext {
                target_az: AzAngle { centi: START_AZ },
                target_el: ElAngle { centi: START_EL },
                ..*old(self)
            }),
            final(self).target_az.centi == 10000 && final(self).target_el.centi == 4500,
            old(self).wf() ==> final(self).wf(),
    {
        self.target_az = AzAngle { centi: START_AZ };
        self.target_el = ElAngle { centi: START_EL };
    }

    /// Takes the position of the two potentiometers.
    pub fn set_pots(&mut self, az: AzAngle, el: ElAngle)
        ensures
            *final(self) == (AppContext { az_pot: az, el_pot: el, ..*old(self) }),
            old(self).wf() && el.wf() ==> final(self).wf(),
    {
        self.az_pot = az;
        self.el_pot = el;
    }

    /// The azimuth to command: the potentiometer's in manual control, else the target.
    pub open spec fn commanded_az(self) -> AzAngle {
        if self.manual {
            self.az_pot
        } else {
            self.target_az
        }
    }

    /// The elevation to command: the potentiometer's in manual control, else the target.
    pub open spec fn commanded_el(self) -> ElAngle {
        if self.manual {
            self.el_pot
        } else {
            self.target_el
        }
    }

    /// The angles to command.
    pub fn commanded(&self) -> (r: (AzAngle, ElAngle))
        ensures
            r == (self.commanded_az(), self.commanded_el()),
            self.wf() ==> r.1.wf(),
    {
        if self.manual {
            (self.az_pot, self.el_pot)
        } else {
            (self.target_az, self.target_el)
        }
    }

    /// The state once a report has been taken over: the angles, levels and relays that
    /// it carries, and nothing else.
    pub open spec fn reported(self, report: Report) -> AppContext {
        AppContext {
            current_az: report.az,
            current_el: report.el,
            signal_s: report.signal_s,
            noise_s: report.noise_s,
            signal_m: report.signal_m,
            power_control: report.relays,
            ..self
        }
    }

    /// Takes over a report.
    pub fn apply(&mut self, report: &Report)
        ensures
            *final(self) == old(self).reported(*report),
            old(self).wf() && report.el.wf() ==> final(self).wf(),
    {
        self.current_az = report.az;
        self.current_el = report.el;
        self.signal_s = report.signal_s;
        self.noise_s = report.noise_s;
        self.signal_m = report.signal_m;
        self.power_control = report.relays;
    }
}

/// Who decides on the angles: in manual control the potentiometers, whatever the targets
/// are, and otherwise the targets, whatever the potentiometers are.
pub proof fn switch_decides_on_the_angles(ctx: AppContext)
    ensures
        ctx.manual ==> ctx.commanded_az() == ctx.az_pot && ctx.commanded_el() == ctx.el_pot,
        !ctx.manual ==> ctx.commanded_az() == ctx.target_az && ctx.commanded_el()
            == ctx.target_el,
{
}

/// A report changes the reported angles, the levels that it carries and the relays, each to
/// what the report says, and leaves all that was asked for as it was.
pub proof fn report_is_taken_over(ctx: AppContext, report: Report)
    ensures
        ({
            let after = ctx.reported(report);
            &&& after.current_az == report.az
            &&& after.current_el == report.el
            &&& after.signal_s == report.signal_s
            &&& after.noise_s == report.noise_s
            &&& after.signal_m == report.signal_m
            &&& after.power_control == report.relays
            &&& after.target_az == ctx.target_az
            &&& after.target_el == ctx.target_el
            &&& after.az_pot == ctx.az_pot
            &&& after.el_pot == ctx.el_pot
            &&& after.manual == ctx.manual
            &&& after.seq == ctx.seq
            &&& after.noise_m == ctx.noise_m
        }),
{
}

} // verus!
