//! The engine's decisions that are not arithmetic: which sample rates it
//! accepts, which bands are in the signal, what a band's sections become
//! when its design changes, and when the sections are redesigned while a
//! setting travels.

use vstd::prelude::*;
use crate::ieee::{
    double_is_finite, double_is_finite_bits, double_is_zero, double_negative, single_is_zero,
    DOUBLE_SIGN, SINGLE_SIGN,
};

verus! {

/// How many samples pass between redesigns while a value is travelling.
/// Eight at 48 kHz is a sixth of a millisecond: the coefficients step far
/// more finely than the ear can follow, at an eighth of the cost of every
/// sample.
pub const DESIGN_INTERVAL: u32 = 8;

/// Minimum-phase sections, no lookahead: nothing is held back.
pub const LATENCY: usize = 0;

/// A sample rate is a positive, finite number.
pub open spec fn is_sample_rate(rate: u64) -> bool {
    double_is_finite(rate) && !double_negative(rate) && !double_is_zero(rate)
}

/// Whether the engine can run at `rate`, a double-precision bit pattern.
pub fn accepts_sample_rate(rate: u64) -> (accepted: bool)
    ensures
        accepted == is_sample_rate(rate),
{
    double_is_finite_bits(rate) && rate < DOUBLE_SIGN && rate % DOUBLE_SIGN != 0
}

/// A band whose gain is exactly zero is switched off rather than designed
/// at unity; any other gain, a NaN among them, keeps it in the signal.
pub fn band_engaged(gain: u32) -> (engaged: bool)
    ensures
        engaged == !single_is_zero(gain),
{
    gain % SINGLE_SIGN != 0
}

/// What becomes of a band's sections when it is designed again.
#[derive(Clone, Copy, PartialEq, Eq, Debug)]
pub enum BandUpdate {
    /// The band is in the signal: run the new design.
    Design,
    /// The band is in the signal but its design is not finite: run a wire.
    Wire,
    /// The band has just left the signal: clear its memory, so switching it
    /// back on starts from silence, and leave a wire.
    Release,
    /// The band was out of the signal and stays out.
    Rest,
}

pub open spec fn band_update_for(engaged: bool, was_engaged: bool, finite: bool) -> BandUpdate {
    if engaged {
        if finite {
            BandUpdate::Design
        } else {
            BandUpdate::Wire
        }
    } else if was_engaged {
        BandUpdate::Release
    } else {
        BandUpdate::Rest
    }
}

pub fn band_update(engaged: bool, was_engaged: bool, finite: bool) -> (update: BandUpdate)
    ensures
        update == band_update_for(engaged, was_engaged, finite),
        engaged && finite ==> update == BandUpdate::Design,
        engaged && !finite ==> update == BandUpdate::Wire,
        !engaged && was_engaged ==> update == BandUpdate::Release,
        !engaged && !was_engaged ==> update == BandUpdate::Rest,
{
    if engaged {
        if finite {
            BandUpdate::Design
        } else {
            BandUpdate::Wire
        }
    } else if was_engaged {
        BandUpdate::Release
    } else {
        BandUpdate::Rest
    }
}

/// A band in the signal follows its knob: every redesign of an engaged band
/// with a finite design runs that design, whether or not the band was
/// already in the signal, and an engaged band whose design is not finite
/// runs a wire. Only a band out of the signal is never designed: it is
/// released on the redesign that takes it out and rests after that.
pub proof fn lemma_engaged_bands_follow_their_designs(engaged: bool, was_engaged: bool, finite: bool)
    ensures
        engaged && finite ==> band_update_for(engaged, was_engaged, finite) == BandUpdate::Design,
        engaged && !finite ==> band_update_for(engaged, was_engaged, finite) == BandUpdate::Wire,
        (band_update_for(engaged, was_engaged, finite) == BandUpdate::Design) == (engaged && finite),
        !engaged && was_engaged ==> band_update_for(engaged, was_engaged, finite)
            == BandUpdate::Release,
        !engaged && !was_engaged ==> band_update_for(engaged, was_engaged, finite)
            == BandUpdate::Rest,
        band_update_for(engaged, true, finite) == band_update_for(engaged, false, finite) <==> engaged,
{
}

/// The samples left before the next redesign, always between one and
/// [`DESIGN_INTERVAL`].
pub open spec fn is_countdown(until: u32) -> bool {
    1 <= until <= DESIGN_INTERVAL
}

/// One sample of travel: the countdown steps down, and the sections are
/// redesigned when it runs out or when the last travelling value has
/// arrived, after which the countdown starts again.
pub open spec fn design_step_for(until: u32, still_moving: bool) -> (bool, u32) {
    if !still_moving || until == 1 {
        (true, DESIGN_INTERVAL)
    } else {
        (false, (until - 1) as u32)
    }
}

/// See [`design_step_for`]: returns whether to redesign now, and the new
/// countdown.
pub fn design_step(until: u32, still_moving: bool) -> (step: (bool, u32))
    requires
        is_countdown(until),
    ensures
        step == design_step_for(until, still_moving),
        is_countdown(step.1),
{
    let remaining = until - 1;
    if !still_moving || remaining == 0 {
        (true, DESIGN_INTERVAL)
    } else {
        (false, remaining)
    }
}

/// The countdown after `n` samples of uninterrupted travel from `until`.
pub open spec fn countdown_after(until: u32, n: nat) -> u32
    decreases n,
{
    if n == 0 {
        until
    } else {
        design_step_for(countdown_after(until, (n - 1) as nat), true).1
    }
}

/// While anything is still moving, a travel that starts a fresh countdown
/// redesigns on every [`DESIGN_INTERVAL`]th sample and on no other.
pub proof fn lemma_redesign_every_interval(n: nat)
    ensures
        is_countdown(countdown_after(DESIGN_INTERVAL, n)),
        countdown_after(DESIGN_INTERVAL, n) == DESIGN_INTERVAL - (n % DESIGN_INTERVAL as nat),
        design_step_for(countdown_after(DESIGN_INTERVAL, n), true).0 == ((n + 1) % DESIGN_INTERVAL as nat
            == 0),
    decreases n,
{
    if n > 0 {
        lemma_redesign_every_interval((n - 1) as nat);
    }
}

} // verus!
