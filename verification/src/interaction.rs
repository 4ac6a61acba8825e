//! What a slider does with the input of one frame: where the pointer drags
//! the value, how far the keys move it, and what is reported afterwards.
//!
//! Positions on the rail are binary32 numbers and every sum and product of
//! them rounds, so they stay with the caller; what arrives here is what was
//! pressed and the values that the caller has found.

use vstd::prelude::*;
use crate::float::Float;
use crate::mapping::normalized_from_value;
use crate::mapping::normalized_step;
use crate::mapping::value_from_normalized;
use crate::mapping::value_step;
use crate::mapping::value_step_fits;
use crate::mapping::NormalizedStep;
use crate::mapping::ValueRange;
use crate::mapping::ValueStep;
use crate::slider::Slider;
use crate::slider::SliderClamping;
use crate::slider::SliderOrientation;

verus! {

/// How a value is picked for a position on the rail.
#[derive(Clone, Copy, Debug, PartialEq, Eq, Hash, Structural)]
pub enum Aim {
    /// The roundest value within the aim radius around the position.
    Smart,
    /// The value at the position itself.
    Exact,
}

/// How the keys move the value.
#[derive(Clone, Copy, Debug, PartialEq, Eq)]
pub enum KeyRule {
    /// By the step of the slider, once for each press.
    Stride(Float),
    /// By one point on the rail for each press, to a value picked as `Aim`
    /// says. A smart aim looks within 0.49 points of the new position, which
    /// keeps the previous value out of reach.
    Position(Aim),
}

/// The move that the keys of one frame ask for.
#[derive(Clone, Copy, Debug, PartialEq, Eq)]
pub struct KeyMove {
    /// Presses that raise the value minus presses that lower it; never 0.
    pub presses: i128,
    pub rule: KeyRule,
    /// The number of decimals that the value is rounded to when it is
    /// written, if any: the move must then change the value by a little more
    /// than one unit of the last decimal, or rounding would undo it.
    pub least_change: Option<usize>,
}

/// The keys of a keyboard that move along an axis.
#[derive(Clone, Copy, Debug, PartialEq, Eq, Hash, Structural)]
pub enum ArrowKey {
    Left,
    Right,
    Up,
    Down,
}

/// What the accessibility tree is told of a slider.
#[derive(Clone, Copy, Debug, PartialEq, Eq)]
pub struct Accessibility {
    pub min: Float,
    pub max: Float,
    pub step: Option<Float>,
    /// Whether the value can still be raised.
    pub increment: bool,
    /// Whether the value can still be lowered.
    pub decrement: bool,
}

/// Where the speed of dragging the number comes from.
#[derive(Clone, Copy, Debug, PartialEq, Eq)]
pub enum DragSpeed {
    /// This many values per point.
    Fixed(Float),
    /// As many values per point as the slider itself covers around the
    /// current value.
    Gradient,
}

/// The difference between presses up and presses down.
pub open spec fn net_presses(increment: usize, decrement: usize) -> int {
    increment - decrement
}

/// Whether the value differs from the one before, as numbers do: a NaN
/// differs from everything, itself included, and the two zeros do not differ.
pub open spec fn spec_value_changed(old_value: Float, new_value: Float) -> bool {
    !old_value.spec_equals(new_value)
}

#[verifier::when_used_as_spec(spec_value_changed)]
pub fn value_changed(old_value: Float, new_value: Float) -> (r: bool)
    ensures
        r == spec_value_changed(old_value, new_value),
{
    !old_value.equals(new_value)
}

/// Whether `chosen` lies in the closed interval between `low` and `high`,
/// whichever of the two is the larger. This is what is asked of the value
/// that a smart aim picks between two values.
pub open spec fn spec_lies_between(chosen: Float, low: Float, high: Float) -> bool {
    (low.spec_le(chosen) && chosen.spec_le(high)) || (high.spec_le(chosen) && chosen.spec_le(low))
}

#[verifier::when_used_as_spec(spec_lies_between)]
pub fn lies_between(chosen: Float, low: Float, high: Float) -> (r: bool)
    ensures
        r == spec_lies_between(chosen, low, high),
{
    (low.le(chosen) && chosen.le(high)) || (high.le(chosen) && chosen.le(low))
}

/// The candidate after the least change is enforced: a candidate above the
/// previous value is at least `raised`, one below it at most `lowered`, and
/// one that does not differ from it stays.
///
/// `raised` and `lowered` are the previous value plus and minus a little more
/// than one unit of the last decimal kept.
pub open spec fn with_least_change(
    previous: Float,
    candidate: Float,
    raised: Float,
    lowered: Float,
) -> Float {
    if previous.spec_lt(candidate) {
        candidate.spec_max(raised)
    } else if candidate.spec_lt(previous) {
        candidate.spec_min(lowered)
    } else {
        candidate
    }
}

/// Computes [`with_least_change`].
pub fn enforce_least_change(previous: Float, candidate: Float, raised: Float, lowered: Float) -> (r:
    Float)
    ensures
        r == with_least_change(previous, candidate, raised, lowered),
        previous.spec_lt(candidate) && !raised.spec_is_nan() ==> raised.spec_le(r),
        candidate.spec_lt(previous) && !lowered.spec_is_nan() ==> r.spec_le(lowered),
{
    if previous.lt(candidate) {
        candidate.max(raised)
    } else if candidate.lt(previous) {
        candidate.min(lowered)
    } else {
        candidate
    }
}

/// Whether the arrow keys changed anything: presses up and right raise the
/// number, presses down and left lower it.
pub fn any_arrow_change(up: usize, right: usize, down: usize, left: usize) -> (r: bool)
    ensures
        r == (up + right != down + left),
{
    let raised: u128 = up as u128 + right as u128;
    let lowered: u128 = down as u128 + left as u128;
    raised != lowered
}

impl Slider {
    /// How a pointer on the rail picks the value.
    pub open spec fn spec_pointer_aim(&self) -> Aim {
        if self.smart_aim {
            Aim::Smart
        } else {
            Aim::Exact
        }
    }

    #[verifier::when_used_as_spec(spec_pointer_aim)]
    pub fn pointer_aim(&self) -> (r: Aim)
        ensures
            r == self.spec_pointer_aim(),
    {
        if self.smart_aim {
            Aim::Smart
        } else {
            Aim::Exact
        }
    }

    /// The keys that lower and raise the value: left and right on a
    /// horizontal slider, up and down on a vertical one, where up lowers.
    pub fn step_keys(&self) -> (r: (ArrowKey, ArrowKey))
        ensures
            self.orientation == SliderOrientation::Horizontal ==> r == (
                ArrowKey::Left,
                ArrowKey::Right,
            ),
            self.orientation == SliderOrientation::Vertical ==> r == (ArrowKey::Up, ArrowKey::Down),
    {
        match self.orientation {
            SliderOrientation::Horizontal => (ArrowKey::Left, ArrowKey::Right),
            SliderOrientation::Vertical => (ArrowKey::Up, ArrowKey::Down),
        }
    }

    /// The coordinate of a point that runs along the slider. The two
    /// coordinates are binary32 numbers, passed through as their bits.
    pub fn pointer_position(&self, x: u32, y: u32) -> (r: u32)
        ensures
            self.orientation == SliderOrientation::Horizontal ==> r == x,
            self.orientation == SliderOrientation::Vertical ==> r == y,
    {
        match self.orientation {
            SliderOrientation::Horizontal => x,
            SliderOrientation::Vertical => y,
        }
    }

    /// The move that `increment` presses up and `decrement` presses down ask
    /// for: none where they cancel out; else by the step where the slider has
    /// one, and along the rail where it has none.
    pub open spec fn key_move(self, increment: usize, decrement: usize) -> Option<KeyMove> {
        if increment == decrement {
            None
        } else {
            Some(
                KeyMove {
                    presses: net_presses(increment, decrement) as i128,
                    rule: match self.step {
                        Some(stride) => KeyRule::Stride(stride),
                        None => KeyRule::Position(self.spec_pointer_aim()),
                    },
                    least_change: self.max_decimals,
                },
            )
        }
    }

    /// What the input of one frame does to the value: a pointer held on the
    /// slider picks a value by `Aim`, and the presses of the frame, all
    /// taken together, make one move. The pointer comes first.
    pub fn frame_moves(&self, pointer: bool, increment: usize, decrement: usize) -> (r: (
        Option<Aim>,
        Option<KeyMove>,
    ))
        ensures
            r.0 == if pointer {
                Some(self.spec_pointer_aim())
            } else {
                None
            },
            r.1 == self.key_move(increment, decrement),
            r.1 matches Some(key_move) ==> key_move.presses == increment - decrement,
    {
        let aim = if pointer {
            Some(self.pointer_aim())
        } else {
            None
        };
        let keys = if increment == decrement {
            None
        } else {
            let presses: i128 = increment as i128 - decrement as i128;
            let rule = match self.step {
                Some(stride) => KeyRule::Stride(stride),
                None => KeyRule::Position(self.pointer_aim()),
            };
            Some(KeyMove { presses, rule, least_change: self.max_decimals })
        };
        (aim, keys)
    }

    /// Starts mapping a position between 0 and 1 on the rail to a value.
    pub fn value_from_position(&self, normalized: Float) -> (r: ValueStep)
        requires
            self.range.fits(self.spec),
        ensures
            r == value_step(normalized, self.range, false, self.spec),
            value_step_fits(r, self.spec),
    {
        value_from_normalized(normalized, self.range, &self.spec)
    }

    /// Starts mapping a value to its position between 0 and 1 on the rail.
    pub fn position_from_value(&self, value: Float) -> (r: NormalizedStep)
        requires
            self.range.fits(self.spec),
        ensures
            r == normalized_step(value, self.range, self.spec),
    {
        normalized_from_value(value, self.range, &self.spec)
    }

    /// Whether the slider writes the value back as soon as it is shown, so
    /// that a value outside the range does not survive.
    pub fn writes_back_when_shown(&self) -> (r: bool)
        ensures
            r == (self.clamping == SliderClamping::Always),
    {
        match self.clamping {
            SliderClamping::Always => true,
            _ => false,
        }
    }

    /// The range that a value has to stay in to be raised or lowered: that
    /// of the slider, or everything where the slider never clamps.
    pub open spec fn clamp_range(self) -> ValueRange {
        if self.clamping == SliderClamping::Never {
            ValueRange { start: Float::spec_neg_infinity(), end: Float::spec_infinity() }
        } else {
            self.range
        }
    }

    /// What the accessibility tree is told while the slider shows `value`:
    /// the two ends of the range, the step, and whether the value is below
    /// the end and above the start of the range it is held in.
    pub fn accessibility(&self, value: Float) -> (r: Accessibility)
        ensures
            r == (Accessibility {
                min: self.range.start,
                max: self.range.end,
                step: self.step,
                increment: value.spec_lt(self.clamp_range().end),
                decrement: self.clamp_range().start.spec_lt(value),
            }),
    {
        let clamp_range = match self.clamping {
            SliderClamping::Never => ValueRange {
                start: Float::neg_infinity(),
                end: Float::infinity(),
            },
            _ => self.range,
        };
        Accessibility {
            min: self.range.start,
            max: self.range.end,
            step: self.step,
            increment: value.lt(clamp_range.end),
            decrement: clamp_range.start.lt(value),
        }
    }

    /// The speed of dragging the number: the step where there is one and the
    /// arrow keys are what moves the number, else the speed that was set,
    /// else the gradient of the slider.
    pub fn drag_speed(&self, any_change: bool) -> (r: DragSpeed)
        ensures
            r == match (self.step, self.drag_value_speed) {
                (Some(stride), _) if any_change => DragSpeed::Fixed(stride),
                (_, Some(speed)) => DragSpeed::Fixed(speed),
                (_, None) => DragSpeed::Gradient,
            },
    {
        match self.step {
            Some(stride) if any_change => DragSpeed::Fixed(stride),
            _ => match self.drag_value_speed {
                Some(speed) => DragSpeed::Fixed(speed),
                None => DragSpeed::Gradient,
            },
        }
    }

    /// The range that the dragged number is held in and whether a value
    /// already outside is brought in; none where the slider never clamps.
    pub fn drag_range(&self) -> (r: Option<(ValueRange, bool)>)
        ensures
            self.clamping == SliderClamping::Never ==> r.is_none(),
            self.clamping == SliderClamping::Edits ==> r == Some((self.range, false)),
            self.clamping == SliderClamping::Always ==> r == Some((self.range, true)),
    {
        match self.clamping {
            SliderClamping::Never => None,
            SliderClamping::Edits => Some((self.range, false)),
            SliderClamping::Always => Some((self.range, true)),
        }
    }
}

} // verus!
