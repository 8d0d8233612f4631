//! Manual control: the switch that hands the angles to the potentiometers, and the
//! averaging of the converter's samples.
use vstd::prelude::*;

use crate::context::AppContext;

verus! {

/// Samples in one block of the converter; azimuth and elevation take turns.
pub const BLOCK: usize = 512;

/// What the sum of one channel is divided by: the samples of a channel in one block, and
/// one for the average so far.
pub const DIVIDER: u32 = 257;

/// The sum of the elevation samples among the first `n` of a block: those at the even
/// positions.
pub open spec fn el_sum(block: Seq<u16>, n: nat) -> nat
    decreases n,
{
    if n == 0 {
        0
    } else if (n - 1) % 2 == 0 {
        el_sum(block, (n - 1) as nat) + block[n - 1] as nat
    } else {
        el_sum(block, (n - 1) as nat)
    }
}

/// The sum of the azimuth samples among the first `n` of a block: those at the odd
/// positions.
pub open spec fn az_sum(block: Seq<u16>, n: nat) -> nat
    decreases n,
{
    if n == 0 {
        0
    } else if (n - 1) % 2 == 1 {
        az_sum(block, (n - 1) as nat) + block[n - 1] as nat
    } else {
        az_sum(block, (n - 1) as nat)
    }
}

/// The averages of the two channels, and the switch as it was last seen.
#[derive(Clone, Copy, Debug, PartialEq, Eq, Structural)]
pub struct Potentiometers {
    /// Average of the azimuth channel.
    pub az_adc: u32,
    /// Average of the elevation channel.
    pub el_adc: u32,
    /// Average of the azimuth channel that needs no update.
    pub last_az_adc: u32,
    /// Average of the elevation channel that needs no update.
    pub last_el_adc: u32,
    /// The switch as it was last seen.
    pub last_manual: bool,
}

impl Potentiometers {
    /// Averages are no larger than samples.
    pub open spec fn wf(self) -> bool {
        self.az_adc <= u16::MAX && self.el_adc <= u16::MAX
    }

    /// Nothing sampled yet, automatic control.
    pub fn new() -> (r: Potentiometers)
        ensures
            r == (Potentiometers {
                az_adc: 0,
                el_adc: 0,
                last_az_adc: 0,
                last_el_adc: 0,
                last_manual: false,
            }),
            r.wf(),
    {
        Potentiometers {
            az_adc: 0,
            el_adc: 0,
            last_az_adc: 0,
            last_el_adc: 0,
            last_manual: false,
        }
    }

    /// Looks at the switch; a high input puts the potentiometers in charge. Says whether
    /// control has changed hands.
    pub fn switch(&mut self, ctx: &mut AppContext, high: bool) -> (redraw: bool)
        ensures
            redraw == (high != old(self).last_manual),
            *final(self) == (Potentiometers { last_manual: high, ..*old(self) }),
            *final(ctx) == (if redraw {
                AppContext { manual: high, ..*old(ctx) }
            } else {
                *old(ctx)
            }),
            old(self).last_manual == old(ctx).manual ==> final(ctx).manual == high,
            old(ctx).wf() ==> final(ctx).wf(),
    {
        if high {
            if !self.last_manual {
                ctx.manual = true;
                self.last_manual = true;
                return true;
            }
        } else {
            if self.last_manual {
                ctx.manual = false;
                self.last_manual = false;
                return true;
            }
        }
        false
    }

    /// The averages once a block has been taken in: each is the mean of the channel's
    /// samples and the average so far, rounded down.
    pub open spec fn averaged(self, block: Seq<u16>) -> Potentiometers {
        Potentiometers {
            az_adc: ((self.az_adc + az_sum(block, BLOCK as nat)) / DIVIDER as int) as u32,
            el_adc: ((self.el_adc + el_sum(block, BLOCK as nat)) / DIVIDER as int) as u32,
            ..self
        }
    }

    /// Takes in one block of samples. Says whether the position of the potentiometers is
    /// to be updated from the averages.
    pub fn average(&mut self, block: &[u16; 512]) -> (update: bool)
        requires
            old(self).wf(),
        ensures
            *final(self) == old(self).averaged(block@),
            final(self).wf(),
            update == final(self).moved(),
    {
        let mut az_adc: u32 = self.az_adc;
        let mut el_adc: u32 = self.el_adc;
        let mut sample_count: u32 = 1;
        let mut i: usize = 0;
        while i < BLOCK
            invariant
                self.wf(),
                *self == *old(self),
                i <= BLOCK,
                sample_count == i + 1,
                az_adc == self.az_adc + az_sum(block@, i as nat),
                el_adc == self.el_adc + el_sum(block@, i as nat),
                az_sum(block@, i as nat) <= (i / 2) * 65535,
                el_sum(block@, i as nat) <= ((i + 1) / 2) * 65535,
            decreases BLOCK - i,
        {
            let sample: u16 = block[i];
            if sample_count % 2 == 0 {
                az_adc = az_adc + sample as u32;
            } else {
                el_adc = el_adc + sample as u32;
            }
            sample_count = sample_count + 1;
            i = i + 1;
        }
        let divider: u32 = sample_count / 2 + 1;
        self.az_adc = az_adc / divider;
        self.el_adc = el_adc / divider;
        self.az_adc != self.last_az_adc || self.el_adc != self.last_el_adc
    }
}

/// What to do after a read of the converter.
#[derive(Clone, Copy, Debug, PartialEq, Eq, Structural)]
pub enum AdcAction {
    /// Start the converter again: samples were lost.
    Restart,
    /// Update the position of the potentiometers from the averages.
    Update,
    /// Leave the position as it is.
    Keep,
}

impl Potentiometers {
    /// Whether the averages differ from those that need no update.
    pub open spec fn moved(self) -> bool {
        self.az_adc != self.last_az_adc || self.el_adc != self.last_el_adc
    }

    /// The averages and what to do once a read has ended, with a block of samples or with
    /// a fault. A fault leaves the averages alone.
    pub open spec fn taken(self, read: Option<&[u16; 512]>) -> (Potentiometers, AdcAction) {
        match read {
            Some(block) => {
                let p = self.averaged(block@);
                (p, if p.moved() {
                    AdcAction::Update
                } else {
                    AdcAction::Keep
                })
            },
            None => (self, AdcAction::Restart),
        }
    }

    /// Takes the outcome of one read of the converter: a block of samples, or a fault.
    pub fn take(&mut self, read: Option<&[u16; 512]>) -> (act: AdcAction)
        requires
            old(self).wf(),
        ensures
            (*final(self), act) == old(self).taken(read),
            final(self).wf(),
    {
        match read {
            Some(block) => {
                if self.average(block) {
                    AdcAction::Update
                } else {
                    AdcAction::Keep
                }
            },
            None => AdcAction::Restart,
        }
    }
}

/// The samples of a block lie within bounds of their channel.
pub open spec fn within(block: Seq<u16>, az: (u16, u16), el: (u16, u16)) -> bool {
    forall|i: int|
        0 <= i < block.len() ==> if i % 2 == 1 {
            az.0 <= #[trigger] block[i] <= az.1
        } else {
            el.0 <= block[i] <= el.1
        }
}

proof fn lemma_sums_bounded(block: Seq<u16>, az: (u16, u16), el: (u16, u16), n: nat)
    requires
        n <= block.len(),
        within(block, az, el),
    ensures
        (n / 2) * az.0 <= az_sum(block, n) <= (n / 2) * az.1,
        ((n + 1) / 2) * el.0 <= el_sum(block, n) <= ((n + 1) / 2) * el.1,
    decreases n,
{
    if n == 0 {
        assert(0 * az.0 == 0 && 0 * az.1 == 0 && 0 * el.0 == 0 && 0 * el.1 == 0);
    } else {
        let m = (n - 1) as nat;
        lemma_sums_bounded(block, az, el, m);
        let sample = block[m as int];
        if m % 2 == 1 {
            let k = m / 2;
            assert(n / 2 == k + 1 && (n + 1) / 2 == (m + 1) / 2);
            assert((k + 1) * az.0 == k * az.0 + az.0) by (nonlinear_arith);
            assert((k + 1) * az.1 == k * az.1 + az.1) by (nonlinear_arith);
        } else {
            let k = (m + 1) / 2;
            assert((n + 1) / 2 == k + 1 && n / 2 == m / 2);
            assert((k + 1) * el.0 == k * el.0 + el.0) by (nonlinear_arith);
            assert((k + 1) * el.1 == k * el.1 + el.1) by (nonlinear_arith);
        }
    }
}

/// Averages stay within the range of what went into them: if a channel's samples and its
/// average so far lie between two bounds, so does its new average.
pub proof fn averages_stay_in_range(
    p: Potentiometers,
    block: Seq<u16>,
    az: (u16, u16),
    el: (u16, u16),
)
    requires
        block.len() == BLOCK,
        within(block, az, el),
        az.0 <= p.az_adc <= az.1,
        el.0 <= p.el_adc <= el.1,
    ensures
        az.0 <= p.averaged(block).az_adc <= az.1,
        el.0 <= p.averaged(block).el_adc <= el.1,
{
    lemma_sums_bounded(block, az, el, BLOCK as nat);
    assert((BLOCK as nat + 1) / 2 == 256);
    assert(257 * az.0 <= p.az_adc + az_sum(block, BLOCK as nat) <= 257 * az.1);
    assert(257 * el.0 <= p.el_adc + el_sum(block, BLOCK as nat) <= 257 * el.1);
}

/// A position that is held stays: where the averages have reached the samples, a further
/// block of the same samples leaves them there.
pub proof fn held_position_stays(p: Potentiometers, block: Seq<u16>, az: u16, el: u16)
    requires
        block.len() == BLOCK,
        within(block, (az, az), (el, el)),
        p.az_adc == az,
        p.el_adc == el,
    ensures
        p.averaged(block) == p,
{
    averages_stay_in_range(p, block, (az, az), (el, el));
}

proof fn lemma_equal_samples(block: Seq<u16>, s: u16, n: nat)
    requires
        n <= block.len(),
    ensures
        (forall|i: int| 0 <= i < block.len() && i % 2 == 1 ==> #[trigger] block[i] == s)
            ==> az_sum(block, n) == (n / 2) * s,
        (forall|i: int| 0 <= i < block.len() && i % 2 == 0 ==> #[trigger] block[i] == s)
            ==> el_sum(block, n) == ((n + 1) / 2) * s,
    decreases n,
{
    if n == 0 {
        assert(0 * s == 0);
    } else {
        let m = (n - 1) as nat;
        lemma_equal_samples(block, s, m);
        if m % 2 == 1 {
            let k = m / 2;
            assert(n / 2 == k + 1 && (n + 1) / 2 == (m + 1) / 2);
            assert((k + 1) * s == k * s + s) by (nonlinear_arith);
            assert(block[m as int] == block[n - 1]);
        } else {
            let k = (m + 1) / 2;
            assert((n + 1) / 2 == k + 1 && n / 2 == m / 2);
            assert((k + 1) * s == k * s + s) by (nonlinear_arith);
            assert(block[m as int] == block[n - 1]);
        }
    }
}

/// The azimuth follows its samples, up and down: where all of them are `s`, the new average
/// is the old one and 256 times `s`, divided by 257 and rounded down. So an average above
/// the samples comes down towards them, one below them comes up or stays just below, and
/// none passes them. What the other channel holds does not matter.
pub proof fn azimuth_follows_its_samples(p: Potentiometers, block: Seq<u16>, s: u16)
    requires
        p.wf(),
        block.len() == 512,
        forall|i: int| 0 <= i < 512 && i % 2 == 1 ==> #[trigger] block[i] == s,
    ensures
        ({
            let new = p.averaged(block).az_adc;
            &&& 257 * new <= p.az_adc + 256 * s < 257 * (new + 1)
            &&& p.az_adc > s ==> s <= new < p.az_adc
            &&& p.az_adc == s ==> new == s
            &&& p.az_adc < s ==> p.az_adc <= new < s
            &&& p.az_adc + 1 < s ==> p.az_adc < new
        }),
{
    lemma_equal_samples(block, s, 512);
    assert(az_sum(block, 512) == 256 * s);
}

/// The elevation follows its samples in the same way.
pub proof fn elevation_follows_its_samples(p: Potentiometers, block: Seq<u16>, s: u16)
    requires
        p.wf(),
        block.len() == 512,
        forall|i: int| 0 <= i < 512 && i % 2 == 0 ==> #[trigger] block[i] == s,
    ensures
        ({
            let new = p.averaged(block).el_adc;
            &&& 257 * new <= p.el_adc + 256 * s < 257 * (new + 1)
            &&& p.el_adc > s ==> s <= new < p.el_adc
            &&& p.el_adc == s ==> new == s
            &&& p.el_adc < s ==> p.el_adc <= new < s
            &&& p.el_adc + 1 < s ==> p.el_adc < new
        }),
{
    lemma_equal_samples(block, s, 512);
    assert(el_sum(block, 512) == 256 * s);
}

proof fn lemma_sums_after_a_change(block: Seq<u16>, at: int, v: u16, n: nat)
    requires
        n <= block.len(),
        0 <= at < block.len(),
    ensures
        az_sum(block.update(at, v), n) - az_sum(block, n) == (if at < n && at % 2 == 1 {
            v - block[at]
        } else {
            0
        }),
        el_sum(block.update(at, v), n) - el_sum(block, n) == (if at < n && at % 2 == 0 {
            v - block[at]
        } else {
            0
        }),
    decreases n,
{
    if n > 0 {
        lemma_sums_after_a_change(block, at, v, (n - 1) as nat);
    }
}

/// Every sample counts, once and in its own channel: one that is changed by `k` times 257
/// moves the average of its channel by `k`, and the other channel not at all. Samples at odd
/// places are the azimuth's, those at even places the elevation's.
pub proof fn every_sample_counts_once(
    p: Potentiometers,
    block: Seq<u16>,
    at: int,
    v: u16,
    k: int,
)
    requires
        p.wf(),
        block.len() == 512,
        0 <= at < 512,
        v - block[at] == 257 * k,
    ensures
        ({
            let before = p.averaged(block);
            let after = p.averaged(block.update(at, v));
            &&& after.az_adc - before.az_adc == (if at % 2 == 1 {
                k
            } else {
                0
            })
            &&& after.el_adc - before.el_adc == (if at % 2 == 0 {
                k
            } else {
                0
            })
        }),
{
    lemma_sums_after_a_change(block, at, v, 512);
    lemma_sums_bounded(block, (0, u16::MAX), (0, u16::MAX), 512);
    lemma_sums_bounded(block.update(at, v), (0, u16::MAX), (0, u16::MAX), 512);
    let changed = block.update(at, v);
    let (a, b) = (p.az_adc + az_sum(block, 512), p.az_adc + az_sum(changed, 512));
    let (c, d) = (p.el_adc + el_sum(block, 512), p.el_adc + el_sum(changed, 512));
    assert(0 <= a / 257 <= u32::MAX && 0 <= b / 257 <= u32::MAX);
    assert(0 <= c / 257 <= u32::MAX && 0 <= d / 257 <= u32::MAX);
}

/// More in a sample never gives less in an average: where a block holds at each place at
/// least what another holds, so do the averages.
pub proof fn averages_grow_with_the_samples(p: Potentiometers, low: Seq<u16>, high: Seq<u16>)
    requires
        p.wf(),
        low.len() == 512,
        high.len() == 512,
        forall|i: int| 0 <= i < 512 ==> low[i] <= #[trigger] high[i],
    ensures
        p.averaged(low).az_adc <= p.averaged(high).az_adc,
        p.averaged(low).el_adc <= p.averaged(high).el_adc,
{
    lemma_sums_grow(low, high, 512);
    lemma_sums_bounded(low, (0, u16::MAX), (0, u16::MAX), 512);
    lemma_sums_bounded(high, (0, u16::MAX), (0, u16::MAX), 512);
}

proof fn lemma_sums_grow(low: Seq<u16>, high: Seq<u16>, n: nat)
    requires
        n <= low.len(),
        n <= high.len(),
        forall|i: int| 0 <= i < n ==> low[i] <= #[trigger] high[i],
    ensures
        az_sum(low, n) <= az_sum(high, n),
        el_sum(low, n) <= el_sum(high, n),
    decreases n,
{
    if n > 0 {
        lemma_sums_grow(low, high, (n - 1) as nat);
        assert(low[n - 1] <= high[n - 1]);
    }
}

/// A block changes the averages only, and asks for an update exactly where an average
/// differs from the one that needs none. A failed read changes nothing and asks for a
/// restart.
pub proof fn read_is_answered(p: Potentiometers, read: Option<&[u16; 512]>)
    ensures
        ({
            let (after, act) = p.taken(read);
            &&& after.last_az_adc == p.last_az_adc
            &&& after.last_el_adc == p.last_el_adc
            &&& after.last_manual == p.last_manual
            &&& read is None ==> after == p && act == AdcAction::Restart
            &&& read matches Some(block) ==> {
                &&& after.az_adc == p.averaged(block@).az_adc
                &&& after.el_adc == p.averaged(block@).el_adc
                &&& act == AdcAction::Update <==> after.az_adc != p.last_az_adc || after.el_adc
                    != p.last_el_adc
                &&& act == AdcAction::Keep <==> after.az_adc == p.last_az_adc && after.el_adc
                    == p.last_el_adc
            }
        }),
{
}

/// The sums of a block take each sample once: changing the one at `at` changes the sum of
/// its channel by as much, and the other sum not at all. A block of zeros sums to zero.
pub proof fn sums_move_with_their_samples(block: Seq<u16>, at: int, v: u16)
    requires
        block.len() == 512,
        0 <= at < 512,
    ensures
        at % 2 == 1 ==> {
            &&& az_sum(block.update(at, v), 512) - az_sum(block, 512) == v - block[at]
            &&& el_sum(block.update(at, v), 512) == el_sum(block, 512)
        },
        at % 2 == 0 ==> {
            &&& el_sum(block.update(at, v), 512) - el_sum(block, 512) == v - block[at]
            &&& az_sum(block.update(at, v), 512) == az_sum(block, 512)
        },
        (forall|i: int| 0 <= i < 512 ==> #[trigger] block[i] == 0) ==> az_sum(block, 512) == 0
            && el_sum(block, 512) == 0,
{
    lemma_sums_after_a_change(block, at, v, 512);
    lemma_equal_samples(block, 0, 512);
}

/// An average is the mean of its 256 samples and of the average so far, rounded down.
pub proof fn average_is_the_mean(p: Potentiometers, block: Seq<u16>)
    requires
        p.wf(),
        block.len() == 512,
    ensures
        ({
            let new = p.averaged(block);
            &&& 257 * new.az_adc <= p.az_adc + az_sum(block, 512) < 257 * (new.az_adc + 1)
            &&& 257 * new.el_adc <= p.el_adc + el_sum(block, 512) < 257 * (new.el_adc + 1)
        }),
{
    lemma_sums_bounded(block, (0, u16::MAX), (0, u16::MAX), 512);
}

} // verus!
