//! The mapping between a value in a range and a position between 0 and 1.
//!
//! Both directions are decided here and computed elsewhere. A mapping runs as
//! a short exchange: the library answers with [`ValueStep::Done`] when the result
//! follows from comparisons alone, and otherwise with [`ValueStep::Ask`], which
//! names one piece of rounding arithmetic and holds what is left to do. The
//! caller performs the arithmetic and hands the result to `resume`.

use vstd::prelude::*;
use crate::float::Float;

verus! {

/// The scale of a slider.
#[derive(Clone, Copy, Debug, PartialEq, Eq)]
pub struct SliderSpec {
    pub logarithmic: bool,
    /// On a logarithmic scale that starts at zero, the smallest positive value
    /// of interest.
    pub smallest_positive: Float,
    /// On a logarithmic scale that ends at infinity, the largest finite value
    /// of interest.
    pub largest_finite: Float,
}

/// An inclusive range of values. It may be descending (`start > end`) or
/// empty (`start == end`), and either end may be infinite or NaN.
#[derive(Clone, Copy, Debug, PartialEq, Eq)]
pub struct ValueRange {
    pub start: Float,
    pub end: Float,
}

/// One end of the exponent interval of a logarithmic scale.
#[derive(Clone, Copy, Debug, PartialEq, Eq)]
pub enum LogBound {
    /// The exponent itself.
    Exponent(Float),
    /// The base-10 logarithm of the number.
    Log10(Float),
    /// The base-10 logarithm of the first number, minus the second.
    Log10Minus(Float, Float),
    /// The base-10 logarithm of the first number, plus the second.
    Log10Plus(Float, Float),
}

/// How many orders of magnitude one side of zero spans.
#[derive(Clone, Copy, Debug, PartialEq, Eq)]
pub enum Magnitude {
    /// The span itself.
    Fixed(Float),
    /// The absolute value of the base-10 logarithm of the number.
    AbsLog10(Float),
}

/// The two spans on either side of zero, from which the position of zero on a
/// logarithmic scale follows as `below / (below + above)`.
#[derive(Clone, Copy, Debug, PartialEq, Eq)]
pub struct CutoffTerms {
    pub below: Magnitude,
    pub above: Magnitude,
}

/// A piece of arithmetic for the caller to perform in binary64.
#[derive(Clone, Copy, Debug, PartialEq, Eq)]
pub enum Request {
    /// `1 - x`
    Complement { x: Float },
    /// `below / (below + above)`
    ZeroCutoff { terms: CutoffTerms },
    /// `x` carried linearly from `from_start..=from_end` to `to_start..=to_end`
    Remap { x: Float, from_start: Float, from_end: Float, to_start: Float, to_end: Float },
    /// `x` carried linearly from `from_start..=from_end` to `0..=1` and held there
    RemapClamp { x: Float, from_start: Float, from_end: Float },
    /// the point `t` of the way from `start` to `end`
    Lerp { start: Float, end: Float, t: Float },
    /// 10 to the power of the point `t` of the way from `lo` to `hi`
    Exp10Lerp { lo: LogBound, hi: LogBound, t: Float },
    /// the base-10 logarithm of `x`, carried linearly from `lo..=hi` to
    /// `0..=1` and held there
    Log10RemapClamp { x: Float, lo: LogBound, hi: LogBound },
    /// the multiple of `stride` nearest to `x`, counted from `origin`:
    /// `origin + round((x - origin) / stride) * stride`
    Quantize { x: Float, origin: Float, stride: Float },
    /// `x` rounded to `decimals` places after the decimal point
    RoundToDecimals { x: Float, decimals: usize },
}


/// On an infinitely large logarithmic range, the scale spans this many orders
/// of magnitude.
pub open spec fn spec_inf_range_magnitude() -> Float {
    Float::spec_ten()
}

#[verifier::when_used_as_spec(spec_inf_range_magnitude)]
pub fn inf_range_magnitude() -> (r: Float)
    ensures
        r == spec_inf_range_magnitude(),
{
    Float::ten()
}

impl ValueRange {
    /// Neither end is infinite. A range with a NaN end counts as bounded: it
    /// maps everything to NaN on any scale.
    pub open spec fn spec_is_bounded(self) -> bool {
        !self.start.spec_is_infinite() && !self.end.spec_is_infinite()
    }

    #[verifier::when_used_as_spec(spec_is_bounded)]
    pub fn is_bounded(self) -> (r: bool)
        ensures
            r == self.spec_is_bounded(),
    {
        !self.start.is_infinite() && !self.end.is_infinite()
    }

    /// The same ends in the other order.
    pub open spec fn swapped(self) -> ValueRange {
        ValueRange { start: self.end, end: self.start }
    }

    /// A linear scale needs a bounded range; a logarithmic one takes any.
    pub open spec fn spec_fits(self, spec: SliderSpec) -> bool {
        spec.logarithmic || self.spec_is_bounded()
    }

    #[verifier::when_used_as_spec(spec_fits)]
    pub fn fits(self, spec: SliderSpec) -> (r: bool)
        ensures
            r == self.spec_fits(spec),
    {
        spec.logarithmic || self.is_bounded()
    }
}

/// The exponent interval of a logarithmic scale over the non-negative range
/// from `min` to `max`.
///
/// A zero at the lower end stands for `smallest_positive`, or for ten orders
/// of magnitude below `max` where `max` is not above `smallest_positive`. An
/// infinity at the upper end stands for `largest_finite`, or for ten orders of
/// magnitude above `min` where `min` is not below `largest_finite`. From zero
/// to infinity the interval ends at the exponent 10.
pub open spec fn log_interval(min: Float, max: Float, spec: SliderSpec) -> (LogBound, LogBound) {
    if min.spec_equals(Float::spec_zero()) && max.spec_equals(Float::spec_infinity()) {
        (LogBound::Log10(spec.smallest_positive), LogBound::Exponent(spec_inf_range_magnitude()))
    } else if min.spec_equals(Float::spec_zero()) {
        if spec.smallest_positive.spec_lt(max) {
            (LogBound::Log10(spec.smallest_positive), LogBound::Log10(max))
        } else {
            (LogBound::Log10Minus(max, spec_inf_range_magnitude()), LogBound::Log10(max))
        }
    } else if max.spec_equals(Float::spec_infinity()) {
        if min.spec_lt(spec.largest_finite) {
            (LogBound::Log10(min), LogBound::Log10(spec.largest_finite))
        } else {
            (LogBound::Log10(min), LogBound::Log10Plus(min, spec_inf_range_magnitude()))
        }
    } else {
        (LogBound::Log10(min), LogBound::Log10(max))
    }
}

/// Computes [`log_interval`].
pub fn range_log10(min: Float, max: Float, spec: &SliderSpec) -> (r: (LogBound, LogBound))
    requires
        spec.logarithmic,
        min.spec_le(max),
    ensures
        r == log_interval(min, max, *spec),
{
    if min.equals(Float::zero()) && max.equals(Float::infinity()) {
        (LogBound::Log10(spec.smallest_positive), LogBound::Exponent(inf_range_magnitude()))
    } else if min.equals(Float::zero()) {
        if spec.smallest_positive.lt(max) {
            (LogBound::Log10(spec.smallest_positive), LogBound::Log10(max))
        } else {
            (LogBound::Log10Minus(max, inf_range_magnitude()), LogBound::Log10(max))
        }
    } else if max.equals(Float::infinity()) {
        if min.lt(spec.largest_finite) {
            (LogBound::Log10(min), LogBound::Log10(spec.largest_finite))
        } else {
            (LogBound::Log10(min), LogBound::Log10Plus(min, inf_range_magnitude()))
        }
    } else {
        (LogBound::Log10(min), LogBound::Log10(max))
    }
}

/// The span of one side of a range that crosses zero: ten orders of magnitude
/// where the end is infinite, else the size of its logarithm.
pub open spec fn side_magnitude(end: Float) -> Magnitude {
    if end.spec_is_infinite() {
        Magnitude::Fixed(spec_inf_range_magnitude())
    } else {
        Magnitude::AbsLog10(end.spec_abs())
    }
}

/// The terms of the position of zero on a logarithmic scale from `min` to `max`.
pub open spec fn cutoff_terms(min: Float, max: Float) -> CutoffTerms {
    CutoffTerms { below: side_magnitude(min), above: side_magnitude(max) }
}

/// Computes [`cutoff_terms`] for a range that has zero strictly inside.
pub fn logarithmic_zero_cutoff(min: Float, max: Float) -> (r: CutoffTerms)
    requires
        min.spec_lt(Float::spec_zero()),
        Float::spec_zero().spec_lt(max),
    ensures
        r == cutoff_terms(min, max),
{
    let below = if min.equals(Float::neg_infinity()) {
        Magnitude::Fixed(inf_range_magnitude())
    } else {
        Magnitude::AbsLog10(min.abs())
    };
    let above = if max.equals(Float::infinity()) {
        Magnitude::Fixed(inf_range_magnitude())
    } else {
        Magnitude::AbsLog10(max.abs())
    };
    CutoffTerms { below, above }
}

// ----------------------------------------------------------------------------
// From a position to a value.

/// What a mapping from a position to a value still has to do once the caller
/// has answered.
#[derive(Clone, Copy, Debug, PartialEq, Eq)]
pub enum ValuePending {
    /// The answer is a position on `range`; the value found there is negated
    /// if `negate`.
    Position { range: ValueRange, negate: bool },
    /// The answer is the position of zero on `range`, which has zero strictly
    /// inside; `normalized` is the position to map.
    Cutoff { normalized: Float, range: ValueRange, negate: bool },
    /// The answer is the value, up to its sign.
    Value { negate: bool },
}

/// Where a mapping to a value stands: finished, or waiting for the caller.
#[derive(Clone, Copy, Debug, PartialEq, Eq)]
pub enum ValueStep {
    Done(Float),
    Ask(Request, ValuePending),
}

/// The step of a position `normalized` on an ascending range that is neither
/// empty nor NaN.
pub open spec fn ascending_value_step(
    normalized: Float,
    range: ValueRange,
    negate: bool,
    spec: SliderSpec,
) -> ValueStep {
    let min = range.start;
    let max = range.end;
    if normalized.spec_le(Float::spec_zero()) {
        ValueStep::Done(min.spec_neg_if(negate))
    } else if Float::spec_one().spec_le(normalized) {
        ValueStep::Done(max.spec_neg_if(negate))
    } else if spec.logarithmic {
        if max.spec_le(Float::spec_zero()) {
            // A range with nothing positive is the mirror image of one with
            // nothing negative, walked from its far end.
            ValueStep::Ask(
                Request::Complement { x: normalized },
                ValuePending::Position {
                    range: ValueRange { start: max.spec_neg(), end: min.spec_neg() },
                    negate: !negate,
                },
            )
        } else if Float::spec_zero().spec_le(min) {
            let (lo, hi) = log_interval(min, max, spec);
            ValueStep::Ask(
                Request::Exp10Lerp { lo, hi, t: normalized },
                ValuePending::Value { negate },
            )
        } else {
            ValueStep::Ask(
                Request::ZeroCutoff { terms: cutoff_terms(min, max) },
                ValuePending::Cutoff { normalized, range, negate },
            )
        }
    } else {
        ValueStep::Ask(
            Request::Lerp {
                start: min,
                end: max,
                t: normalized.spec_clamp(Float::spec_zero(), Float::spec_one()),
            },
            ValuePending::Value { negate },
        )
    }
}

/// The first step of mapping the position `normalized` to a value of `range`,
/// negated if `negate`.
///
/// A NaN end gives NaN and an empty range gives its one value. A descending
/// range is walked from its other end: the caller is asked for the complement
/// of the position, which is then taken on the ascending range. On an
/// ascending range a position at or below 0 gives the start and one at or
/// above 1 the end; what lies between is interpolated, linearly or in the
/// exponent, with a range across zero divided at the position of zero.
pub open spec fn value_step(
    normalized: Float,
    range: ValueRange,
    negate: bool,
    spec: SliderSpec,
) -> ValueStep {
    if range.start.spec_is_nan() || range.end.spec_is_nan() {
        ValueStep::Done(Float::spec_nan().spec_neg_if(negate))
    } else if range.start.spec_equals(range.end) {
        ValueStep::Done(range.start.spec_neg_if(negate))
    } else if range.end.spec_lt(range.start) {
        ValueStep::Ask(
            Request::Complement { x: normalized },
            ValuePending::Position { range: range.swapped(), negate },
        )
    } else {
        ascending_value_step(normalized, range, negate, spec)
    }
}

impl ValuePending {
    /// A pending range of a linear scale is bounded, and a range to divide at
    /// zero has zero strictly inside.
    pub open spec fn spec_fits(self, spec: SliderSpec) -> bool {
        match self {
            ValuePending::Position { range, negate } => range.fits(spec),
            ValuePending::Cutoff { normalized, range, negate } => {
                &&& spec.logarithmic
                &&& range.start.spec_lt(Float::spec_zero())
                &&& Float::spec_zero().spec_lt(range.end)
            },
            ValuePending::Value { negate } => true,
        }
    }

    #[verifier::when_used_as_spec(spec_fits)]
    pub fn fits(self, spec: SliderSpec) -> (r: bool)
        ensures
            r == self.spec_fits(spec),
    {
        match self {
            ValuePending::Position { range, negate } => range.fits(spec),
            ValuePending::Cutoff { normalized, range, negate } => {
                spec.logarithmic && range.start.lt(Float::zero()) && Float::zero().lt(range.end)
            },
            ValuePending::Value { negate } => true,
        }
    }

    /// The step that follows the caller's `answer`.
    ///
    /// With the position of zero in hand, a position below it is carried to
    /// the negative part of the range and any other to the positive part.
    pub open spec fn resumed(self, answer: Float, spec: SliderSpec) -> ValueStep {
        match self {
            ValuePending::Position { range, negate } => value_step(answer, range, negate, spec),
            ValuePending::Cutoff { normalized, range, negate } => {
                if normalized.spec_lt(answer) {
                    ValueStep::Ask(
                        Request::Remap {
                            x: normalized,
                            from_start: Float::spec_zero(),
                            from_end: answer,
                            to_start: Float::spec_zero(),
                            to_end: Float::spec_one(),
                        },
                        ValuePending::Position {
                            range: ValueRange { start: range.start, end: Float::spec_zero() },
                            negate,
                        },
                    )
                } else {
                    ValueStep::Ask(
                        Request::Remap {
                            x: normalized,
                            from_start: answer,
                            from_end: Float::spec_one(),
                            to_start: Float::spec_zero(),
                            to_end: Float::spec_one(),
                        },
                        ValuePending::Position {
                            range: ValueRange { start: Float::spec_zero(), end: range.end },
                            negate,
                        },
                    )
                }
            },
            ValuePending::Value { negate } => ValueStep::Done(answer.spec_neg_if(negate)),
        }
    }

    /// Takes the caller's answer and says what follows.
    pub fn resume(self, answer: Float, spec: &SliderSpec) -> (r: ValueStep)
        requires
            self.fits(*spec),
        ensures
            r == self.resumed(answer, *spec),
            value_step_fits(r, *spec),
    {
        match self {
            ValuePending::Position { range, negate } => value_task(answer, range, negate, spec),
            ValuePending::Cutoff { normalized, range, negate } => {
                if normalized.lt(answer) {
                    ValueStep::Ask(
                        Request::Remap {
                            x: normalized,
                            from_start: Float::zero(),
                            from_end: answer,
                            to_start: Float::zero(),
                            to_end: Float::one(),
                        },
                        ValuePending::Position {
                            range: ValueRange { start: range.start, end: Float::zero() },
                            negate,
                        },
                    )
                } else {
                    ValueStep::Ask(
                        Request::Remap {
                            x: normalized,
                            from_start: answer,
                            from_end: Float::one(),
                            to_start: Float::zero(),
                            to_end: Float::one(),
                        },
                        ValuePending::Position {
                            range: ValueRange { start: Float::zero(), end: range.end },
                            negate,
                        },
                    )
                }
            },
            ValuePending::Value { negate } => ValueStep::Done(answer.neg_if(negate)),
        }
    }
}

/// Whatever a step leaves pending fits the scale.
pub open spec fn value_step_fits(step: ValueStep, spec: SliderSpec) -> bool {
    match step {
        ValueStep::Done(value) => true,
        ValueStep::Ask(request, pending) => pending.fits(spec),
    }
}

/// Computes [`value_step`].
fn value_task(normalized: Float, range: ValueRange, negate: bool, spec: &SliderSpec) -> (r: ValueStep)
    requires
        range.fits(*spec),
    ensures
        r == value_step(normalized, range, negate, *spec),
        value_step_fits(r, *spec),
{
    let min = range.start;
    let max = range.end;
    if min.is_nan() || max.is_nan() {
        ValueStep::Done(Float::nan().neg_if(negate))
    } else if min.equals(max) {
        ValueStep::Done(min.neg_if(negate))
    } else if max.lt(min) {
        ValueStep::Ask(
            Request::Complement { x: normalized },
            ValuePending::Position { range: ValueRange { start: max, end: min }, negate },
        )
    } else if normalized.le(Float::zero()) {
        ValueStep::Done(min.neg_if(negate))
    } else if Float::one().le(normalized) {
        ValueStep::Done(max.neg_if(negate))
    } else if spec.logarithmic {
        if max.le(Float::zero()) {
            ValueStep::Ask(
                Request::Complement { x: normalized },
                ValuePending::Position {
                    range: ValueRange { start: max.neg(), end: min.neg() },
                    negate: !negate,
                },
            )
        } else if Float::zero().le(min) {
            let (lo, hi) = range_log10(min, max, spec);
            ValueStep::Ask(
                Request::Exp10Lerp { lo, hi, t: normalized },
                ValuePending::Value { negate },
            )
        } else {
            let terms = logarithmic_zero_cutoff(min, max);
            ValueStep::Ask(
                Request::ZeroCutoff { terms },
                ValuePending::Cutoff { normalized, range, negate },
            )
        }
    } else {
        let t = normalized.clamp(Float::zero(), Float::one());
        ValueStep::Ask(Request::Lerp { start: min, end: max, t }, ValuePending::Value { negate })
    }
}

/// Starts mapping the position `normalized` to a value of `range`.
///
/// On a linear scale the range must be bounded.
pub fn value_from_normalized(normalized: Float, range: ValueRange, spec: &SliderSpec) -> (r: ValueStep)
    requires
        range.fits(*spec),
    ensures
        r == value_step(normalized, range, false, *spec),
        value_step_fits(r, *spec),
{
    value_task(normalized, range, false, spec)
}

// ----------------------------------------------------------------------------
// From a value to a position.

/// In which part of a range across zero a position lies.
#[derive(Clone, Copy, Debug, PartialEq, Eq)]
pub enum Part {
    /// The position is one on the whole range.
    Whole,
    /// The position is one on the part below zero, which ends at the
    /// position of zero given by the terms.
    Below(CutoffTerms),
    /// The position is one on the part above zero, which starts at the
    /// position of zero given by the terms.
    Above(CutoffTerms),
}

/// What is still to be applied to a position, in this order: the complement
/// if `mirror`, the placement in a part of the range, the complement if
/// `invert`.
#[derive(Clone, Copy, Debug, PartialEq, Eq)]
pub struct After {
    pub mirror: bool,
    pub part: Part,
    pub invert: bool,
}

/// What a mapping from a value to a position still has to do once the caller
/// has answered.
#[derive(Clone, Copy, Debug, PartialEq, Eq)]
pub enum NormalizedPending {
    /// The answer is a position, to which `after` is still to be applied.
    Position { after: After },
    /// The answer is the position of zero; `position` is to be placed above
    /// it if `above`, else below it, and complemented if `invert`.
    Cutoff { position: Float, above: bool, invert: bool },
}

/// Where a mapping to a position stands: finished, or waiting for the caller.
#[derive(Clone, Copy, Debug, PartialEq, Eq)]
pub enum NormalizedStep {
    Done(Float),
    Ask(Request, NormalizedPending),
}

/// The step that applies the first thing listed in `after` to `position`, or
/// finishes with `position` where nothing is listed.
pub open spec fn unwound(position: Float, after: After) -> NormalizedStep {
    if after.mirror {
        NormalizedStep::Ask(
            Request::Complement { x: position },
            NormalizedPending::Position {
                after: After { mirror: false, part: after.part, invert: after.invert },
            },
        )
    } else {
        match after.part {
            Part::Below(terms) => NormalizedStep::Ask(
                Request::ZeroCutoff { terms },
                NormalizedPending::Cutoff { position, above: false, invert: after.invert },
            ),
            Part::Above(terms) => NormalizedStep::Ask(
                Request::ZeroCutoff { terms },
                NormalizedPending::Cutoff { position, above: true, invert: after.invert },
            ),
            Part::Whole => if after.invert {
                NormalizedStep::Ask(
                    Request::Complement { x: position },
                    NormalizedPending::Position {
                        after: After { mirror: false, part: Part::Whole, invert: false },
                    },
                )
            } else {
                NormalizedStep::Done(position)
            },
        }
    }
}

/// The step of a value on a logarithmic scale over the non-negative range
/// from `min` to `max`, with `after` still to be applied to its position.
pub open spec fn positive_normalized_step(
    value: Float,
    min: Float,
    max: Float,
    after: After,
    spec: SliderSpec,
) -> NormalizedStep {
    if value.spec_le(min) {
        unwound(Float::spec_zero(), after)
    } else if max.spec_le(value) {
        unwound(Float::spec_one(), after)
    } else {
        let (lo, hi) = log_interval(min, max, spec);
        NormalizedStep::Ask(
            Request::Log10RemapClamp { x: value, lo, hi },
            NormalizedPending::Position { after },
        )
    }
}

/// The step of a value on an ascending range that is neither empty nor NaN;
/// the position found is complemented at the end if `invert`.
pub open spec fn ascending_normalized_step(
    value: Float,
    range: ValueRange,
    invert: bool,
    spec: SliderSpec,
) -> NormalizedStep {
    let min = range.start;
    let max = range.end;
    let whole = After { mirror: false, part: Part::Whole, invert };
    if value.spec_le(min) {
        unwound(Float::spec_zero(), whole)
    } else if max.spec_le(value) {
        unwound(Float::spec_one(), whole)
    } else if spec.logarithmic {
        if max.spec_le(Float::spec_zero()) {
            // The mirror image of a range with nothing positive, walked from
            // its far end.
            positive_normalized_step(
                value.spec_neg(),
                max.spec_neg(),
                min.spec_neg(),
                After { mirror: true, part: Part::Whole, invert },
                spec,
            )
        } else if Float::spec_zero().spec_le(min) {
            positive_normalized_step(value, min, max, whole, spec)
        } else if value.spec_lt(Float::spec_zero()) {
            positive_normalized_step(
                value.spec_neg(),
                Float::spec_zero().spec_neg(),
                min.spec_neg(),
                After { mirror: true, part: Part::Below(cutoff_terms(min, max)), invert },
                spec,
            )
        } else {
            positive_normalized_step(
                value,
                Float::spec_zero(),
                max,
                After { mirror: false, part: Part::Above(cutoff_terms(min, max)), invert },
                spec,
            )
        }
    } else {
        NormalizedStep::Ask(
            Request::RemapClamp { x: value, from_start: min, from_end: max },
            NormalizedPending::Position { after: whole },
        )
    }
}

/// The first step of mapping `value` to its position on `range`.
///
/// A NaN end gives NaN and an empty range gives one half. A descending range
/// gives the complement of the position on the ascending one. On an ascending
/// range a value at or below the start lies at 0 and one at or above the end
/// at 1; the position of what lies between is found linearly or in the
/// exponent, and on a range across zero it is placed below or above the
/// position of zero.
pub open spec fn normalized_step(value: Float, range: ValueRange, spec: SliderSpec) -> NormalizedStep {
    if range.start.spec_is_nan() || range.end.spec_is_nan() {
        NormalizedStep::Done(Float::spec_nan())
    } else if range.start.spec_equals(range.end) {
        NormalizedStep::Done(Float::spec_half())
    } else if range.end.spec_lt(range.start) {
        ascending_normalized_step(value, range.swapped(), true, spec)
    } else {
        ascending_normalized_step(value, range, false, spec)
    }
}

/// Computes [`unwound`].
fn unwind(position: Float, after: After) -> (r: NormalizedStep)
    ensures
        r == unwound(position, after),
{
    if after.mirror {
        NormalizedStep::Ask(
            Request::Complement { x: position },
            NormalizedPending::Position {
                after: After { mirror: false, part: after.part, invert: after.invert },
            },
        )
    } else {
        match after.part {
            Part::Below(terms) => NormalizedStep::Ask(
                Request::ZeroCutoff { terms },
                NormalizedPending::Cutoff { position, above: false, invert: after.invert },
            ),
            Part::Above(terms) => NormalizedStep::Ask(
                Request::ZeroCutoff { terms },
                NormalizedPending::Cutoff { position, above: true, invert: after.invert },
            ),
            Part::Whole => if after.invert {
                NormalizedStep::Ask(
                    Request::Complement { x: position },
                    NormalizedPending::Position {
                        after: After { mirror: false, part: Part::Whole, invert: false },
                    },
                )
            } else {
                NormalizedStep::Done(position)
            },
        }
    }
}

/// Computes [`positive_normalized_step`].
fn positive_normalized_task(
    value: Float,
    min: Float,
    max: Float,
    after: After,
    spec: &SliderSpec,
) -> (r: NormalizedStep)
    requires
        spec.logarithmic,
        min.spec_le(max),
    ensures
        r == positive_normalized_step(value, min, max, after, *spec),
{
    if value.le(min) {
        unwind(Float::zero(), after)
    } else if max.le(value) {
        unwind(Float::one(), after)
    } else {
        let (lo, hi) = range_log10(min, max, spec);
        NormalizedStep::Ask(
            Request::Log10RemapClamp { x: value, lo, hi },
            NormalizedPending::Position { after },
        )
    }
}

/// Computes [`ascending_normalized_step`].
fn ascending_normalized_task(value: Float, range: ValueRange, invert: bool, spec: &SliderSpec) -> (r:
    NormalizedStep)
    requires
        range.start.spec_lt(range.end),
    ensures
        r == ascending_normalized_step(value, range, invert, *spec),
{
    let min = range.start;
    let max = range.end;
    let whole = After { mirror: false, part: Part::Whole, invert };
    if value.le(min) {
        unwind(Float::zero(), whole)
    } else if max.le(value) {
        unwind(Float::one(), whole)
    } else if spec.logarithmic {
        if max.le(Float::zero()) {
            positive_normalized_task(
                value.neg(),
                max.neg(),
                min.neg(),
                After { mirror: true, part: Part::Whole, invert },
                spec,
            )
        } else if Float::zero().le(min) {
            positive_normalized_task(value, min, max, whole, spec)
        } else {
            let terms = logarithmic_zero_cutoff(min, max);
            if value.lt(Float::zero()) {
                positive_normalized_task(
                    value.neg(),
                    Float::zero().neg(),
                    min.neg(),
                    After { mirror: true, part: Part::Below(terms), invert },
                    spec,
                )
            } else {
                positive_normalized_task(
                    value,
                    Float::zero(),
                    max,
                    After { mirror: false, part: Part::Above(terms), invert },
                    spec,
                )
            }
        }
    } else {
        NormalizedStep::Ask(
            Request::RemapClamp { x: value, from_start: min, from_end: max },
            NormalizedPending::Position { after: whole },
        )
    }
}

/// Starts mapping `value` to its position on `range`.
///
/// On a linear scale the range must be bounded.
pub fn normalized_from_value(value: Float, range: ValueRange, spec: &SliderSpec) -> (r: NormalizedStep)
    requires
        range.fits(*spec),
    ensures
        r == normalized_step(value, range, *spec),
{
    if range.start.is_nan() || range.end.is_nan() {
        NormalizedStep::Done(Float::nan())
    } else if range.start.equals(range.end) {
        NormalizedStep::Done(Float::half())
    } else if range.end.lt(range.start) {
        ascending_normalized_task(
            value,
            ValueRange { start: range.end, end: range.start },
            true,
            spec,
        )
    } else {
        ascending_normalized_task(value, range, false, spec)
    }
}

impl NormalizedPending {
    /// The step that follows the caller's `answer`.
    pub open spec fn resumed(self, answer: Float) -> NormalizedStep {
        match self {
            NormalizedPending::Position { after } => unwound(answer, after),
            NormalizedPending::Cutoff { position, above, invert } => NormalizedStep::Ask(
                Request::Remap {
                    x: position,
                    from_start: Float::spec_zero(),
                    from_end: Float::spec_one(),
                    to_start: if above {
                        answer
                    } else {
                        Float::spec_zero()
                    },
                    to_end: if above {
                        Float::spec_one()
                    } else {
                        answer
                    },
                },
                NormalizedPending::Position {
                    after: After { mirror: false, part: Part::Whole, invert },
                },
            ),
        }
    }

    /// Takes the caller's answer and says what follows.
    pub fn resume(self, answer: Float) -> (r: NormalizedStep)
        ensures
            r == self.resumed(answer),
    {
        match self {
            NormalizedPending::Position { after } => unwind(answer, after),
            NormalizedPending::Cutoff { position, above, invert } => {
                let (to_start, to_end) = if above {
                    (answer, Float::one())
                } else {
                    (Float::zero(), answer)
                };
                NormalizedStep::Ask(
                    Request::Remap {
                        x: position,
                        from_start: Float::zero(),
                        from_end: Float::one(),
                        to_start,
                        to_end,
                    },
                    NormalizedPending::Position {
                        after: After { mirror: false, part: Part::Whole, invert },
                    },
                )
            },
        }
    }
}

// ----------------------------------------------------------------------------
// What holds of every mapping.

/// On a range without a NaN end, a position at or below 0 maps to the start
/// of the range and a position at or above 1 to its end.
///
/// On an ascending range this is decided at once, and an empty range has only
/// its start. On a descending
/// range the caller is first asked for the complement of the position, and
/// the claim holds of every answer on the same side of the unit interval as
/// the true complement: at or above 1 for a position at or below 0, at or
/// below 0 for a position at or above 1.
pub proof fn lemma_value_at_boundary(normalized: Float, range: ValueRange, spec: SliderSpec)
    requires
        !range.start.spec_is_nan(),
        !range.end.spec_is_nan(),
    ensures
        !range.end.spec_lt(range.start) && normalized.spec_le(Float::spec_zero()) ==> value_step(
            normalized,
            range,
            false,
            spec,
        ) == ValueStep::Done(range.start),
        range.start.spec_lt(range.end) && Float::spec_one().spec_le(normalized) ==> value_step(
            normalized,
            range,
            false,
            spec,
        ) == ValueStep::Done(range.end),
        range.end.spec_lt(range.start) ==> value_step(normalized, range, false, spec) == ValueStep::Ask(
            Request::Complement { x: normalized },
            ValuePending::Position { range: range.swapped(), negate: false },
        ),
        forall|answer: Float|
            range.end.spec_lt(range.start) && Float::spec_one().spec_le(answer)
                ==> #[trigger] (ValuePending::Position {
                range: range.swapped(),
                negate: false,
            }).resumed(answer, spec) == ValueStep::Done(range.start),
        forall|answer: Float|
            range.end.spec_lt(range.start) && answer.spec_le(Float::spec_zero())
                ==> #[trigger] (ValuePending::Position {
                range: range.swapped(),
                negate: false,
            }).resumed(answer, spec) == ValueStep::Done(range.end),
{
    assert(Float::spec_zero().key() == 0);
    assert(Float::spec_one().key() > 0);
}

/// On an ascending range, a value at or below the start lies at position 0
/// and a value at or above the end at position 1.
///
/// On a descending range the same two positions are found on the ascending
/// range and the caller is asked for their complements: a value at or above
/// the start lies at the complement of 1, a value at or below the end at the
/// complement of 0.
pub proof fn lemma_normalized_at_boundary(value: Float, range: ValueRange, spec: SliderSpec)
    ensures
        range.start.spec_lt(range.end) && value.spec_le(range.start) ==> normalized_step(
            value,
            range,
            spec,
        ) == NormalizedStep::Done(Float::spec_zero()),
        range.start.spec_lt(range.end) && range.end.spec_le(value) ==> normalized_step(
            value,
            range,
            spec,
        ) == NormalizedStep::Done(Float::spec_one()),
        range.end.spec_lt(range.start) && range.start.spec_le(value) ==> normalized_step(
            value,
            range,
            spec,
        ) == NormalizedStep::Ask(
            Request::Complement { x: Float::spec_one() },
            NormalizedPending::Position {
                after: After { mirror: false, part: Part::Whole, invert: false },
            },
        ),
        range.end.spec_lt(range.start) && value.spec_le(range.end) ==> normalized_step(
            value,
            range,
            spec,
        ) == NormalizedStep::Ask(
            Request::Complement { x: Float::spec_zero() },
            NormalizedPending::Position {
                after: After { mirror: false, part: Part::Whole, invert: false },
            },
        ),
        forall|answer: Float|
            #[trigger] (NormalizedPending::Position {
                after: After { mirror: false, part: Part::Whole, invert: false },
            }).resumed(answer) == NormalizedStep::Done(answer),
{
}

/// On an empty range every value lies at one half and every position maps to
/// the one value of the range.
pub proof fn lemma_empty_range(x: Float, range: ValueRange, spec: SliderSpec)
    requires
        range.start.spec_equals(range.end),
    ensures
        normalized_step(x, range, spec) == NormalizedStep::Done(Float::spec_half()),
        value_step(x, range, false, spec) == ValueStep::Done(range.start),
{
}

/// A descending range is the ascending one walked from its other end: a
/// position maps to what its complement maps to on the ascending range.
///
/// The caller is asked for the complement, and whatever the answer, the
/// mapping goes on as one of the answer on the ascending range.
pub proof fn lemma_inversion_symmetry(normalized: Float, range: ValueRange, spec: SliderSpec)
    requires
        range.start.spec_lt(range.end),
    ensures
        value_step(normalized, range.swapped(), false, spec) == ValueStep::Ask(
            Request::Complement { x: normalized },
            ValuePending::Position { range, negate: false },
        ),
        forall|answer: Float|
            #[trigger] (ValuePending::Position { range, negate: false }).resumed(answer, spec)
                == value_step(answer, range, false, spec),
{
}

/// On a logarithmic scale, a range with nothing positive is the mirror image
/// of the range of the negated ends: strictly inside it, a position maps to
/// the negated value that the same position has on the mirror image.
pub proof fn lemma_mirror_symmetry(
    normalized: Float,
    range: ValueRange,
    negate: bool,
    spec: SliderSpec,
)
    requires
        spec.logarithmic,
        range.start.spec_lt(range.end),
        range.end.spec_le(Float::spec_zero()),
        !normalized.spec_le(Float::spec_zero()),
        !Float::spec_one().spec_le(normalized),
    ensures
        value_step(normalized, range, negate, spec) == value_step(
            normalized,
            ValueRange { start: range.start.spec_neg(), end: range.end.spec_neg() },
            !negate,
            spec,
        ),
{
}

/// An upper bound on the requests that a mapping to a value can still make on
/// `range`, whatever the position and the answers.
pub open spec fn value_asks_on(range: ValueRange, spec: SliderSpec) -> nat {
    if range.start.spec_is_nan() || range.end.spec_is_nan() || range.start.spec_equals(range.end) {
        0
    } else if range.end.spec_lt(range.start) {
        1 + value_asks_on_ascending(range.swapped(), spec)
    } else {
        value_asks_on_ascending(range, spec)
    }
}

/// The same bound for an ascending range.
pub open spec fn value_asks_on_ascending(range: ValueRange, spec: SliderSpec) -> nat {
    if !spec.logarithmic {
        1
    } else if range.end.spec_le(Float::spec_zero()) {
        2
    } else if Float::spec_zero().spec_le(range.start) {
        1
    } else {
        4
    }
}

/// An upper bound on the requests still to come after an answer.
pub open spec fn value_asks_after(pending: ValuePending, spec: SliderSpec) -> nat {
    match pending {
        ValuePending::Position { range, negate } => value_asks_on(range, spec),
        ValuePending::Cutoff { normalized, range, negate } => 3,
        ValuePending::Value { negate } => 0,
    }
}

/// An upper bound on the requests from a step on, the one it holds included.
pub open spec fn value_asks_from(step: ValueStep, spec: SliderSpec) -> nat {
    match step {
        ValueStep::Done(value) => 0,
        ValueStep::Ask(request, pending) => 1 + value_asks_after(pending, spec),
    }
}

/// A mapping to a value ends: it makes at most five requests, and each answer
/// brings it nearer to its end.
pub proof fn lemma_value_mapping_ends(
    normalized: Float,
    range: ValueRange,
    pending: ValuePending,
    answer: Float,
    spec: SliderSpec,
)
    requires
        pending.fits(spec),
    ensures
        value_asks_from(value_step(normalized, range, false, spec), spec) <= 5,
        value_asks_from(pending.resumed(answer, spec), spec) <= value_asks_after(pending, spec),
{
    assert(Float::spec_zero().key() == 0);
    assert(Float::spec_zero().spec_neg().key() == 0);
    match pending {
        ValuePending::Position { range: r, negate } => {
            lemma_value_asks_on(answer, r, negate, spec);
        },
        ValuePending::Cutoff { normalized: n, range: r, negate } => {},
        ValuePending::Value { negate } => {},
    }
    lemma_value_asks_on(normalized, range, false, spec);
}

/// The first step on a range makes no more requests than the range allows.
proof fn lemma_value_asks_on(normalized: Float, range: ValueRange, negate: bool, spec: SliderSpec)
    ensures
        value_asks_from(value_step(normalized, range, negate, spec), spec) <= value_asks_on(
            range,
            spec,
        ),
        value_asks_on(range, spec) <= 5,
{
    assert(Float::spec_zero().key() == 0);
}

/// How many requests applying `after` to a position takes.
pub open spec fn normalized_asks_for(after: After) -> nat {
    let mirror: nat = if after.mirror {
        1
    } else {
        0
    };
    let part: nat = if after.part is Whole {
        0
    } else {
        2
    };
    let invert: nat = if after.invert {
        1
    } else {
        0
    };
    mirror + part + invert
}

/// How many requests are still to come after an answer.
pub open spec fn normalized_asks_after(pending: NormalizedPending) -> nat {
    match pending {
        NormalizedPending::Position { after } => normalized_asks_for(after),
        NormalizedPending::Cutoff { position, above, invert } => if invert {
            2
        } else {
            1
        },
    }
}

/// How many requests are made from a step on, the one it holds included.
pub open spec fn normalized_asks_from(step: NormalizedStep) -> nat {
    match step {
        NormalizedStep::Done(position) => 0,
        NormalizedStep::Ask(request, pending) => 1 + normalized_asks_after(pending),
    }
}

/// A mapping to a position ends: it makes at most five requests, and after
/// each answer exactly as many as were still to come.
pub proof fn lemma_normalized_mapping_ends(
    value: Float,
    range: ValueRange,
    pending: NormalizedPending,
    answer: Float,
    spec: SliderSpec,
)
    ensures
        normalized_asks_from(normalized_step(value, range, spec)) <= 5,
        normalized_asks_from(pending.resumed(answer)) == normalized_asks_after(pending),
{
}

// ----------------------------------------------------------------------------
// What is asked can be computed.

impl SliderSpec {
    /// Both stand-ins of a logarithmic scale are above zero.
    pub open spec fn wf(self) -> bool {
        &&& Float::spec_zero().spec_lt(self.smallest_positive)
        &&& Float::spec_zero().spec_lt(self.largest_finite)
    }
}

impl LogBound {
    /// No logarithm is taken of zero or of a negative number.
    pub open spec fn is_sound(self) -> bool {
        match self {
            LogBound::Exponent(e) => true,
            LogBound::Log10(x) => Float::spec_zero().spec_lt(x),
            LogBound::Log10Minus(x, m) => Float::spec_zero().spec_lt(x),
            LogBound::Log10Plus(x, m) => Float::spec_zero().spec_lt(x),
        }
    }
}

impl Magnitude {
    /// No logarithm is taken of zero or of a negative number.
    pub open spec fn is_sound(self) -> bool {
        match self {
            Magnitude::Fixed(x) => true,
            Magnitude::AbsLog10(x) => Float::spec_zero().spec_lt(x),
        }
    }
}

impl Part {
    pub open spec fn is_sound(self) -> bool {
        match self {
            Part::Whole => true,
            Part::Below(terms) => terms.below.is_sound() && terms.above.is_sound(),
            Part::Above(terms) => terms.below.is_sound() && terms.above.is_sound(),
        }
    }
}

impl Request {
    /// Every logarithm that the request takes is one of a number above zero,
    /// or of a NaN that the caller passed in as the value to map.
    pub open spec fn is_sound(self) -> bool {
        match self {
            Request::ZeroCutoff { terms } => terms.below.is_sound() && terms.above.is_sound(),
            Request::Exp10Lerp { lo, hi, t } => lo.is_sound() && hi.is_sound(),
            Request::Log10RemapClamp { x, lo, hi } => {
                &&& lo.is_sound()
                &&& hi.is_sound()
                &&& (x.spec_is_nan() || Float::spec_zero().spec_lt(x))
            },
            _ => true,
        }
    }
}

impl ValueStep {
    pub open spec fn is_sound(self) -> bool {
        match self {
            ValueStep::Done(value) => true,
            ValueStep::Ask(request, pending) => request.is_sound(),
        }
    }
}

impl NormalizedPending {
    pub open spec fn is_sound(self) -> bool {
        match self {
            NormalizedPending::Position { after } => after.part.is_sound(),
            NormalizedPending::Cutoff { position, above, invert } => true,
        }
    }
}

impl NormalizedStep {
    pub open spec fn is_sound(self) -> bool {
        match self {
            NormalizedStep::Done(position) => true,
            NormalizedStep::Ask(request, pending) => request.is_sound() && pending.is_sound(),
        }
    }
}

/// With both stand-ins of the scale above zero, a mapping to a value never
/// asks for the logarithm of zero or of a negative number, neither at its
/// start nor after any answer.
pub proof fn lemma_value_requests_are_sound(
    normalized: Float,
    range: ValueRange,
    pending: ValuePending,
    answer: Float,
    spec: SliderSpec,
)
    requires
        spec.wf(),
        pending.fits(spec),
    ensures
        value_step(normalized, range, false, spec).is_sound(),
        pending.resumed(answer, spec).is_sound(),
{
    assert(Float::spec_zero().key() == 0);
    assert(Float::spec_zero().spec_neg().key() == 0);
    lemma_value_step_is_sound(normalized, range, false, spec);
    match pending {
        ValuePending::Position { range: r, negate } => {
            lemma_value_step_is_sound(answer, r, negate, spec);
        },
        ValuePending::Cutoff { normalized: n, range: r, negate } => {},
        ValuePending::Value { negate } => {},
    }
}

proof fn lemma_value_step_is_sound(
    normalized: Float,
    range: ValueRange,
    negate: bool,
    spec: SliderSpec,
)
    requires
        spec.wf(),
    ensures
        value_step(normalized, range, negate, spec).is_sound(),
{
    assert(Float::spec_zero().key() == 0);
}

/// With both stand-ins of the scale above zero, a mapping to a position
/// never asks for the logarithm of zero or of a negative number, neither at
/// its start nor after any answer.
pub proof fn lemma_normalized_requests_are_sound(
    value: Float,
    range: ValueRange,
    pending: NormalizedPending,
    answer: Float,
    spec: SliderSpec,
)
    requires
        spec.wf(),
        pending.is_sound(),
    ensures
        normalized_step(value, range, spec).is_sound(),
        pending.resumed(answer).is_sound(),
{
    assert(Float::spec_zero().key() == 0);
    assert(Float::spec_zero().spec_neg().key() == 0);
}

/// Where zero divides a range, the part that a position is carried from is
/// never empty: with a position and a position of zero that are not NaN,
/// the request that follows the position of zero maps from a range whose two
/// ends differ.
pub proof fn lemma_parts_are_not_empty(
    normalized: Float,
    range: ValueRange,
    negate: bool,
    cutoff: Float,
    spec: SliderSpec,
)
    requires
        !normalized.spec_is_nan(),
        !cutoff.spec_is_nan(),
        !normalized.spec_le(Float::spec_zero()),
        !Float::spec_one().spec_le(normalized),
    ensures
        (ValuePending::Cutoff { normalized, range, negate }).resumed(cutoff, spec) matches ValueStep::Ask(
            Request::Remap { x, from_start, from_end, to_start, to_end },
            _,
        ) && !from_start.spec_equals(from_end),
{
    assert(Float::spec_zero().key() == 0);
}

} // verus!
