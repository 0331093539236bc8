//! Tunable physics coefficients.
//!
//! Exactly one `Settings` value parameterizes a world; it is held by the
//! simulation itself and passed into every system, so the "at most one
//! settings record" rule holds by construction rather than by a runtime
//! check.

use vstd::prelude::*;
use crate::fx::{in_range, SCALE};

verus! {

/// All tunable physics coefficients, in fixed point (thousandths).
///
/// Valid ranges: every field lies in the representable range; all
/// coefficients except `gravity` are nonnegative, and
/// `collision_energy_loss` is a fraction in `[0, SCALE]`.
#[derive(Clone, Copy, Debug, PartialEq, Eq, Structural)]
pub struct Settings {
    /// Vertical acceleration, thousandths of a meter per second per second
    /// (negative is downward).
    pub gravity: i64,
    /// Thousandths of a radian per second per second added per control input.
    pub rotational_acceleration: i64,
    /// Fraction of angular velocity shed per second, thousandths.
    pub rotational_drag_coefficient: i64,
    /// Fraction of velocity shed per second, thousandths.
    pub drag_coefficient: i64,
    /// Thrust acceleration, thousandths of a meter per second per second.
    pub boost_power: i64,
    /// How hard the craft steers upright while boosting: the rotational
    /// correction is this coefficient times the rotation error.
    pub auto_up_power: i64,
    /// Fraction of speed lost on each collision, thousandths, in
    /// `[0, SCALE]` (`0` = perfectly elastic, `SCALE` = all speed lost).
    pub collision_energy_loss: i64,
}

impl Settings {
    /// Every coefficient is inside its documented range.
    pub open spec fn valid(self) -> bool {
        &&& in_range(self.gravity as int)
        &&& 0 <= self.rotational_acceleration && in_range(self.rotational_acceleration as int)
        &&& 0 <= self.rotational_drag_coefficient && in_range(
            self.rotational_drag_coefficient as int)
        &&& 0 <= self.drag_coefficient && in_range(self.drag_coefficient as int)
        &&& 0 <= self.boost_power && in_range(self.boost_power as int)
        &&& 0 <= self.auto_up_power && in_range(self.auto_up_power as int)
        &&& 0 <= self.collision_energy_loss <= SCALE
    }

    /// Build a settings record, rejecting any out-of-range coefficient.
    pub fn new(
        gravity: i64,
        rotational_acceleration: i64,
        rotational_drag_coefficient: i64,
        drag_coefficient: i64,
        boost_power: i64,
        auto_up_power: i64,
        collision_energy_loss: i64,
    ) -> (r: Option<Settings>)
        ensures
            r matches Some(s) ==> s == (Settings {
                gravity,
                rotational_acceleration,
                rotational_drag_coefficient,
                drag_coefficient,
                boost_power,
                auto_up_power,
                collision_energy_loss,
            }) && s.valid(),
            r is None <==> !(Settings {
                gravity,
                rotational_acceleration,
                rotational_drag_coefficient,
                drag_coefficient,
                boost_power,
                auto_up_power,
                collision_energy_loss,
            }).valid(),
    {
        let s = Settings {
            gravity,
            rotational_acceleration,
            rotational_drag_coefficient,
            drag_coefficient,
            boost_power,
            auto_up_power,
            collision_energy_loss,
        };
        if gravity >= -0x10000000 && gravity <= 0x10000000
            && rotational_acceleration >= 0 && rotational_acceleration <= 0x10000000
            && rotational_drag_coefficient >= 0 && rotational_drag_coefficient <= 0x10000000
            && drag_coefficient >= 0 && drag_coefficient <= 0x10000000
            && boost_power >= 0 && boost_power <= 0x10000000
            && auto_up_power >= 0 && auto_up_power <= 0x10000000
            && collision_energy_loss >= 0 && collision_energy_loss <= SCALE
        {
            Some(s)
        } else {
            None
        }
    }
}

impl Default for Settings {
    /// The documented defaults: gravity `-9.8`, rotational acceleration
    /// `10`, rotational drag `1.5`, drag `0.05`, boost `30`, auto-up `2`,
    /// collision energy loss `0.1` (all in whole units).
    fn default() -> (r: Settings)
        ensures
            r == default_settings(),
            r.valid(),
    {
        Settings {
            gravity: -9800,
            rotational_acceleration: 10000,
            rotational_drag_coefficient: 1500,
            drag_coefficient: 50,
            boost_power: 30000,
            auto_up_power: 2000,
            collision_energy_loss: 100,
        }
    }
}

/// The default coefficients as a spec value.
pub open spec fn default_settings() -> Settings {
    Settings {
        gravity: -9800i64,
        rotational_acceleration: 10000,
        rotational_drag_coefficient: 1500,
        drag_coefficient: 50,
        boost_power: 30000,
        auto_up_power: 2000,
        collision_energy_loss: 100,
    }
}

/// Energy loss on collision is a fraction: every valid settings record
/// keeps `collision_energy_loss` between zero and one (`SCALE` in fixed
/// point).
pub proof fn lemma_energy_loss_bounded(s: Settings)
    requires
        s.valid(),
    ensures
        0 <= s.collision_energy_loss <= SCALE,
{
}

} // verus!
