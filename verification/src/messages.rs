//! How validation errors read to the user.

use vstd::prelude::*;
use crate::config::ValidationError;
use crate::text::{decimal, push_decimal, push_signed_decimal, signed_decimal};

verus! {

pub open spec fn validation_text(e: ValidationError) -> Seq<char> {
    match e {
        ValidationError::TickZero => "daemon.tick_seconds must be >= 1"@,
        ValidationError::CurveTooFewPoints(c) => "curve `"@ + c@ + "`: needs at least 2 points"@,
        ValidationError::CurveUnsorted { curve, index } => "curve `"@ + curve@
            + "`: temps must be strictly increasing (point "@ + decimal(index as nat) + ")"@,
        ValidationError::PwmOutOfRange { curve, index, pwm } => "curve `"@ + curve@ + "`: pwm "@ + decimal(pwm as nat)
            + " out of range 0-255 (point "@ + decimal(index as nat) + ")"@,
        ValidationError::CurveUnknownSensor { curve, sensor } => "curve `"@ + curve@ + "`: unknown sensor `"@ + sensor@
            + "`"@,
        ValidationError::BadHysteresis { curve, field, max } => "curve `"@ + curve@ + "`: "@ + field@
            + " must be a finite value in 0-"@ + decimal(max as nat),
        ValidationError::EmptyMix { curve } => "curve `"@ + curve@ + "`: mix needs at least one member curve"@,
        ValidationError::MixUnknownCurve { curve, member } => "curve `"@ + curve@ + "`: unknown member curve `"@
            + member@ + "`"@,
        ValidationError::DuplicateMixMember { curve, member } => "curve `"@ + curve@ + "`: member `"@ + member@
            + "` appears more than once"@,
        ValidationError::MixCycle { curve } => "curve `"@ + curve@
            + "`: mix curves must not reference themselves (directly or through other mixes)"@,
        ValidationError::FlatPwmOutOfRange { curve, pwm } => "curve `"@ + curve@ + "`: flat pwm "@ + decimal(
            pwm as nat,
        ) + " out of range 0-255"@,
        ValidationError::TriggerPwmOutOfRange { curve, field, pwm } => "curve `"@ + curve@ + "`: "@ + field@ + " pwm "@
            + decimal(pwm as nat) + " out of range 0-255"@,
        ValidationError::TriggerThresholdsUnordered { curve } => "curve `"@ + curve@
            + "`: idle_temp must be a finite value strictly below load_temp"@,
        ValidationError::UnknownCurve { channel, curve } => "channel `"@ + channel@ + "`: unknown curve `"@ + curve@
            + "`"@,
        ValidationError::TriggerOnPumpChannel { channel, curve } => "channel `"@ + channel@ + "`: curve `"@ + curve@
            + "` reaches a trigger curve \u{2014} triggers are a step function and are forbidden on the pump channel (steady control only)"@,
        ValidationError::OffsetOutOfRange { channel, offset } => "channel `"@ + channel@ + "`: offset_pwm "@
            + signed_decimal(offset as int) + " out of range -255..=255"@,
        ValidationError::MinPwmBelowFloor { channel, min_pwm, floor } => "channel `"@ + channel@ + "`: min_pwm "@
            + decimal(min_pwm as nat) + " is below the stall floor "@ + decimal(floor as nat),
        ValidationError::MinPwmBelowPumpFloor { channel, min_pwm, floor } => "channel `"@ + channel@ + "`: min_pwm "@
            + decimal(min_pwm as nat) + " is below the pump floor "@ + decimal(floor as nat)
            + " (the AIO pump rides this header inline and must never slow past it)"@,
        ValidationError::ZeroStep { channel } => "channel `"@ + channel@
            + "`: max_step_up and max_step_down must be >= 1"@,
        ValidationError::ZeroSmoothing { channel } => "channel `"@ + channel@ + "`: smoothing_seconds must be >= 1"@,
        ValidationError::BadChannelName { channel } => "channel `"@ + channel@
            + "`: name must be canonical pwmN with no leading zeros (matching the hwmon pwm file)"@,
    }
}

impl ValidationError {
    /// The error as the user reads it.
    pub fn message(&self) -> (m: String)
        ensures
            m@ == validation_text(*self),
    {
        let mut m = String::new();
        match self {
            ValidationError::TickZero => {
                m.append("daemon.tick_seconds must be >= 1");
            },
            ValidationError::CurveTooFewPoints(c) => {
                m.append("curve `");
                m.append(c.as_str());
                m.append("`: needs at least 2 points");
            },
            ValidationError::CurveUnsorted { curve, index } => {
                m.append("curve `");
                m.append(curve.as_str());
                m.append("`: temps must be strictly increasing (point ");
                push_decimal(&mut m, *index as u64);
                m.append(")");
            },
            ValidationError::PwmOutOfRange { curve, index, pwm } => {
                m.append("curve `");
                m.append(curve.as_str());
                m.append("`: pwm ");
                push_decimal(&mut m, *pwm as u64);
                m.append(" out of range 0-255 (point ");
                push_decimal(&mut m, *index as u64);
                m.append(")");
            },
            ValidationError::CurveUnknownSensor { curve, sensor } => {
                m.append("curve `");
                m.append(curve.as_str());
                m.append("`: unknown sensor `");
                m.append(sensor.as_str());
                m.append("`");
            },
            ValidationError::BadHysteresis { curve, field, max } => {
                m.append("curve `");
                m.append(curve.as_str());
                m.append("`: ");
                m.append(field);
                m.append(" must be a finite value in 0-");
                push_decimal(&mut m, *max as u64);
            },
            ValidationError::EmptyMix { curve } => {
                m.append("curve `");
                m.append(curve.as_str());
                m.append("`: mix needs at least one member curve");
            },
            ValidationError::MixUnknownCurve { curve, member } => {
                m.append("curve `");
                m.append(curve.as_str());
                m.append("`: unknown member curve `");
                m.append(member.as_str());
                m.append("`");
            },
            ValidationError::DuplicateMixMember { curve, member } => {
                m.append("curve `");
                m.append(curve.as_str());
                m.append("`: member `");
                m.append(member.as_str());
                m.append("` appears more than once");
            },
            ValidationError::MixCycle { curve } => {
                m.append("curve `");
                m.append(curve.as_str());
                m.append("`: mix curves must not reference themselves (directly or through other mixes)");
            },
            ValidationError::FlatPwmOutOfRange { curve, pwm } => {
                m.append("curve `");
                m.append(curve.as_str());
                m.append("`: flat pwm ");
                push_decimal(&mut m, *pwm as u64);
                m.append(" out of range 0-255");
            },
            ValidationError::TriggerPwmOutOfRange { curve, field, pwm } => {
                m.append("curve `");
                m.append(curve.as_str());
                m.append("`: ");
                m.append(field);
                m.append(" pwm ");
                push_decimal(&mut m, *pwm as u64);
                m.append(" out of range 0-255");
            },
            ValidationError::TriggerThresholdsUnordered { curve } => {
                m.append("curve `");
                m.append(curve.as_str());
                m.append("`: idle_temp must be a finite value strictly below load_temp");
            },
            ValidationError::UnknownCurve { channel, curve } => {
                m.append("channel `");
                m.append(channel.as_str());
                m.append("`: unknown curve `");
                m.append(curve.as_str());
                m.append("`");
            },
            ValidationError::TriggerOnPumpChannel { channel, curve } => {
                m.append("channel `");
                m.append(channel.as_str());
                m.append("`: curve `");
                m.append(curve.as_str());
                m.append(
                    "` reaches a trigger curve \u{2014} triggers are a step function and are forbidden on the pump channel (steady control only)",
                );
            },
            ValidationError::OffsetOutOfRange { channel, offset } => {
                m.append("channel `");
                m.append(channel.as_str());
                m.append("`: offset_pwm ");
                push_signed_decimal(&mut m, *offset as i64);
                m.append(" out of range -255..=255");
            },
            ValidationError::MinPwmBelowFloor { channel, min_pwm, floor } => {
                m.append("channel `");
                m.append(channel.as_str());
                m.append("`: min_pwm ");
                push_decimal(&mut m, *min_pwm as u64);
                m.append(" is below the stall floor ");
                push_decimal(&mut m, *floor as u64);
            },
            ValidationError::MinPwmBelowPumpFloor { channel, min_pwm, floor } => {
                m.append("channel `");
                m.append(channel.as_str());
                m.append("`: min_pwm ");
                push_decimal(&mut m, *min_pwm as u64);
                m.append(" is below the pump floor ");
                push_decimal(&mut m, *floor as u64);
                m.append(" (the AIO pump rides this header inline and must never slow past it)");
            },
            ValidationError::ZeroStep { channel } => {
                m.append("channel `");
                m.append(channel.as_str());
                m.append("`: max_step_up and max_step_down must be >= 1");
            },
            ValidationError::ZeroSmoothing { channel } => {
                m.append("channel `");
                m.append(channel.as_str());
                m.append("`: smoothing_seconds must be >= 1");
            },
            ValidationError::BadChannelName { channel } => {
                m.append("channel `");
                m.append(channel.as_str());
                m.append("`: name must be canonical pwmN with no leading zeros (matching the hwmon pwm file)");
            },
        }
        m
    }
}

} // verus!
