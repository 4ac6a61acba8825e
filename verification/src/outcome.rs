//! What a mapping comes to.
//!
//! A mapping is an exchange of requests and answers. With the answers of the
//! caller written down as a function from requests to numbers, the exchange
//! has one outcome, and what holds of the mapping as a whole can be said of
//! that outcome.

use vstd::prelude::*;
use crate::float::Float;
use crate::mapping::lemma_normalized_mapping_ends;
use crate::mapping::lemma_value_mapping_ends;
use crate::mapping::normalized_asks_from;
use crate::mapping::normalized_step;
use crate::mapping::value_asks_from;
use crate::mapping::value_step;
use crate::mapping::value_step_fits;
use crate::mapping::NormalizedStep;
use crate::mapping::Request;
use crate::mapping::SliderSpec;
use crate::mapping::ValuePending;
use crate::mapping::ValueRange;
use crate::mapping::ValueStep;

verus! {

/// What a mapping to a value comes to from `step` on, where the caller
/// answers each request as `answers` says and is asked at most `patience`
/// times. An exchange that would take longer comes to NaN.
pub open spec fn value_after(
    step: ValueStep,
    spec: SliderSpec,
    answers: spec_fn(Request) -> Float,
    patience: nat,
) -> Float
    decreases patience,
{
    match step {
        ValueStep::Done(value) => value,
        ValueStep::Ask(request, pending) => if patience == 0 {
            Float::spec_nan()
        } else {
            value_after(
                pending.resumed(answers(request), spec),
                spec,
                answers,
                (patience - 1) as nat,
            )
        },
    }
}

/// The value at the position `normalized` of `range`, where the caller
/// answers each request as `answers` says.
pub open spec fn mapped_value(
    normalized: Float,
    range: ValueRange,
    spec: SliderSpec,
    answers: spec_fn(Request) -> Float,
) -> Float {
    value_after(value_step(normalized, range, false, spec), spec, answers, 5)
}

/// What a mapping to a position comes to from `step` on, where the caller
/// answers each request as `answers` says and is asked at most `patience`
/// times.
pub open spec fn position_after(
    step: NormalizedStep,
    answers: spec_fn(Request) -> Float,
    patience: nat,
) -> Float
    decreases patience,
{
    match step {
        NormalizedStep::Done(position) => position,
        NormalizedStep::Ask(request, pending) => if patience == 0 {
            Float::spec_nan()
        } else {
            position_after(pending.resumed(answers(request)), answers, (patience - 1) as nat)
        },
    }
}

/// The position of `value` on `range`, where the caller answers each request
/// as `answers` says.
pub open spec fn mapped_position(
    value: Float,
    range: ValueRange,
    spec: SliderSpec,
    answers: spec_fn(Request) -> Float,
) -> Float {
    position_after(normalized_step(value, range, spec), answers, 5)
}

/// Whatever is left pending after an answer fits the scale again.
pub proof fn lemma_resumed_fits(pending: ValuePending, answer: Float, spec: SliderSpec)
    requires
        pending.fits(spec),
    ensures
        value_step_fits(pending.resumed(answer, spec), spec),
{
    assert(Float::spec_zero().key() == 0);
}

/// More patience than a mapping to a value needs changes nothing.
pub proof fn lemma_value_patience(
    step: ValueStep,
    spec: SliderSpec,
    answers: spec_fn(Request) -> Float,
    enough: nat,
    more: nat,
)
    requires
        value_step_fits(step, spec),
        value_asks_from(step, spec) <= enough <= more,
    ensures
        value_after(step, spec, answers, enough) == value_after(step, spec, answers, more),
    decreases enough,
{
    match step {
        ValueStep::Done(value) => {},
        ValueStep::Ask(request, pending) => {
            let next = pending.resumed(answers(request), spec);
            lemma_value_mapping_ends(
                Float::spec_zero(),
                ValueRange { start: Float::spec_zero(), end: Float::spec_zero() },
                pending,
                answers(request),
                spec,
            );
            lemma_resumed_fits(pending, answers(request), spec);
            lemma_value_patience(next, spec, answers, (enough - 1) as nat, (more - 1) as nat);
        },
    }
}

/// More patience than a mapping to a position needs changes nothing.
pub proof fn lemma_position_patience(
    step: NormalizedStep,
    answers: spec_fn(Request) -> Float,
    enough: nat,
    more: nat,
)
    requires
        normalized_asks_from(step) <= enough <= more,
    ensures
        position_after(step, answers, enough) == position_after(step, answers, more),
    decreases enough,
{
    match step {
        NormalizedStep::Done(position) => {},
        NormalizedStep::Ask(request, pending) => {
            let next = pending.resumed(answers(request));
            lemma_normalized_mapping_ends(
                Float::spec_zero(),
                ValueRange { start: Float::spec_zero(), end: Float::spec_zero() },
                pending,
                answers(request),
                SliderSpec {
                    logarithmic: false,
                    smallest_positive: Float::spec_one(),
                    largest_finite: Float::spec_one(),
                },
            );
            lemma_position_patience(next, answers, (enough - 1) as nat, (more - 1) as nat);
        },
    }
}

/// A position at or below 0 maps to the start of the range and a position at
/// or above 1 to its end, on every range whose ends are numbers.
///
/// On a descending range the mapping goes by the complement of the position
/// as the caller computes it. All that is asked of that complement is that
/// it lies on the right side: at or above 1 for a position at or below 0, at
/// or below 0 for a position at or above 1.
pub proof fn lemma_mapped_value_at_boundary(
    normalized: Float,
    range: ValueRange,
    spec: SliderSpec,
    answers: spec_fn(Request) -> Float,
)
    requires
        !range.start.spec_is_nan(),
        !range.end.spec_is_nan(),
        normalized.spec_le(Float::spec_zero()) ==> Float::spec_one().spec_le(
            answers(Request::Complement { x: normalized }),
        ),
        Float::spec_one().spec_le(normalized) ==> answers(
            Request::Complement { x: normalized },
        ).spec_le(Float::spec_zero()),
    ensures
        normalized.spec_le(Float::spec_zero()) ==> mapped_value(normalized, range, spec, answers)
            == range.start,
        Float::spec_one().spec_le(normalized) && !range.start.spec_equals(range.end)
            ==> mapped_value(normalized, range, spec, answers) == range.end,
        Float::spec_one().spec_le(normalized) && range.start.spec_equals(range.end)
            ==> mapped_value(normalized, range, spec, answers) == range.start,
{
    assert(Float::spec_zero().key() == 0);
    assert(Float::spec_one().key() > 0);
    let complement = answers(Request::Complement { x: normalized });
    if range.end.spec_lt(range.start) {
        let ascending = value_step(complement, range.swapped(), false, spec);
        assert(mapped_value(normalized, range, spec, answers) == value_after(
            ascending,
            spec,
            answers,
            4,
        ));
    }
}

/// On an ascending range, a value at or below the start lies at position 0
/// and a value at or above the end at position 1.
pub proof fn lemma_mapped_position_at_boundary(
    value: Float,
    range: ValueRange,
    spec: SliderSpec,
    answers: spec_fn(Request) -> Float,
)
    requires
        range.start.spec_lt(range.end),
    ensures
        value.spec_le(range.start) ==> mapped_position(value, range, spec, answers)
            == Float::spec_zero(),
        range.end.spec_le(value) ==> mapped_position(value, range, spec, answers)
            == Float::spec_one(),
{
}

/// On a descending range the two ends change places: a value at or above the
/// start lies at the complement of 1, and a value at or below the end at the
/// complement of 0, as the caller computes them.
pub proof fn lemma_mapped_position_at_far_boundary(
    value: Float,
    range: ValueRange,
    spec: SliderSpec,
    answers: spec_fn(Request) -> Float,
)
    requires
        range.end.spec_lt(range.start),
    ensures
        range.start.spec_le(value) ==> mapped_position(value, range, spec, answers) == answers(
            Request::Complement { x: Float::spec_one() },
        ),
        value.spec_le(range.end) ==> mapped_position(value, range, spec, answers) == answers(
            Request::Complement { x: Float::spec_zero() },
        ),
{
    let one = NormalizedStep::Ask(
        Request::Complement { x: Float::spec_one() },
        crate::mapping::NormalizedPending::Position {
            after: crate::mapping::After {
                mirror: false,
                part: crate::mapping::Part::Whole,
                invert: false,
            },
        },
    );
    let zero = NormalizedStep::Ask(
        Request::Complement { x: Float::spec_zero() },
        crate::mapping::NormalizedPending::Position {
            after: crate::mapping::After {
                mirror: false,
                part: crate::mapping::Part::Whole,
                invert: false,
            },
        },
    );
    if range.start.spec_le(value) {
        assert(normalized_step(value, range, spec) == one);
        assert(position_after(one, answers, 5) == position_after(
            NormalizedStep::Done(answers(Request::Complement { x: Float::spec_one() })),
            answers,
            4,
        ));
    }
    if value.spec_le(range.end) {
        assert(normalized_step(value, range, spec) == zero);
        assert(position_after(zero, answers, 5) == position_after(
            NormalizedStep::Done(answers(Request::Complement { x: Float::spec_zero() })),
            answers,
            4,
        ));
    }
}

/// On an empty range every value lies at one half, and every position maps
/// to the one value of the range.
pub proof fn lemma_mapped_on_empty_range(
    x: Float,
    range: ValueRange,
    spec: SliderSpec,
    answers: spec_fn(Request) -> Float,
)
    requires
        range.start.spec_equals(range.end),
    ensures
        mapped_position(x, range, spec, answers) == Float::spec_half(),
        mapped_value(x, range, spec, answers) == range.start,
{
}

/// A position maps on a descending range to what its complement maps to on
/// the ascending range, the complement being the caller's.
pub proof fn lemma_mapped_inversion_symmetry(
    normalized: Float,
    range: ValueRange,
    spec: SliderSpec,
    answers: spec_fn(Request) -> Float,
)
    requires
        range.start.spec_lt(range.end),
        range.fits(spec),
    ensures
        mapped_value(normalized, range.swapped(), spec, answers) == mapped_value(
            answers(Request::Complement { x: normalized }),
            range,
            spec,
            answers,
        ),
{
    let complement = answers(Request::Complement { x: normalized });
    let ascending = value_step(complement, range, false, spec);
    assert(mapped_value(normalized, range.swapped(), spec, answers) == value_after(
        ascending,
        spec,
        answers,
        4,
    ));
    lemma_value_mapping_ends(
        complement,
        range,
        ValuePending::Position { range, negate: false },
        complement,
        spec,
    );
    lemma_resumed_fits(ValuePending::Position { range, negate: false }, complement, spec);
    assert(Float::spec_zero().key() == 0);
    assert(value_asks_from(ascending, spec) <= 4);
    lemma_value_patience(ascending, spec, answers, 4, 5);
}

} // verus!
