use slider_core::float::Float;
use slider_core::interaction::lies_between;
use slider_core::mapping::logarithmic_zero_cutoff;
use slider_core::mapping::normalized_from_value;
use slider_core::mapping::range_log10;
use slider_core::mapping::value_from_normalized;
use slider_core::mapping::CutoffTerms;
use slider_core::mapping::LogBound;
use slider_core::mapping::Magnitude;
use slider_core::mapping::NormalizedPending;
use slider_core::mapping::NormalizedStep;
use slider_core::mapping::Request;
use slider_core::mapping::SliderSpec;
use slider_core::mapping::ValuePending;
use slider_core::mapping::ValueRange;
use slider_core::mapping::ValueStep;

fn flt(x: f64) -> Float {
    Float::from_bits(x.to_bits())
}

fn num(x: Float) -> f64 {
    f64::from_bits(x.to_bits())
}

fn range(start: f64, end: f64) -> ValueRange {
    ValueRange { start: flt(start), end: flt(end) }
}

fn linear() -> SliderSpec {
    SliderSpec { logarithmic: false, smallest_positive: flt(1e-6), largest_finite: flt(f64::INFINITY) }
}

fn logarithmic() -> SliderSpec {
    SliderSpec { logarithmic: true, smallest_positive: flt(1e-6), largest_finite: flt(f64::INFINITY) }
}

fn log_bound(bound: LogBound) -> f64 {
    match bound {
        LogBound::Exponent(e) => num(e),
        LogBound::Log10(x) => num(x).log10(),
        LogBound::Log10Minus(x, m) => num(x).log10() - num(m),
        LogBound::Log10Plus(x, m) => num(x).log10() + num(m),
    }
}

fn magnitude(m: Magnitude) -> f64 {
    match m {
        Magnitude::Fixed(x) => num(x),
        Magnitude::AbsLog10(x) => num(x).log10().abs(),
    }
}

fn cutoff(terms: CutoffTerms) -> f64 {
    let below = magnitude(terms.below);
    let above = magnitude(terms.above);
    below / (below + above)
}

fn evaluate(request: Request) -> Float {
    flt(match request {
        Request::Complement { x } => 1.0 - num(x),
        Request::ZeroCutoff { terms } => cutoff(terms),
        Request::Remap { x, from_start, from_end, to_start, to_end } => emath::remap(
            num(x),
            num(from_start)..=num(from_end),
            num(to_start)..=num(to_end),
        ),
        Request::RemapClamp { x, from_start, from_end } => {
            emath::remap_clamp(num(x), num(from_start)..=num(from_end), 0.0..=1.0)
        }
        Request::Lerp { start, end, t } => emath::lerp(num(start)..=num(end), num(t)),
        Request::Exp10Lerp { lo, hi, t } => {
            10.0_f64.powf(emath::lerp(log_bound(lo)..=log_bound(hi), num(t)))
        }
        Request::Log10RemapClamp { x, lo, hi } => {
            emath::remap_clamp(num(x).log10(), log_bound(lo)..=log_bound(hi), 0.0..=1.0)
        }
        Request::Quantize { x, origin, stride } => {
            num(origin) + ((num(x) - num(origin)) / num(stride)).round() * num(stride)
        }
        Request::RoundToDecimals { x, decimals } => emath::round_to_decimals(num(x), decimals),
    })
}

/// Runs a mapping to a value to its end and counts the requests on the way.
fn to_value_counted(normalized: f64, range: ValueRange, spec: &SliderSpec) -> (f64, usize) {
    let mut step = value_from_normalized(flt(normalized), range, spec);
    let mut asked = 0;
    loop {
        match step {
            ValueStep::Done(value) => return (num(value), asked),
            ValueStep::Ask(request, pending) => {
                asked += 1;
                step = pending.resume(evaluate(request), spec);
            }
        }
    }
}

fn to_value(normalized: f64, range: ValueRange, spec: &SliderSpec) -> f64 {
    to_value_counted(normalized, range, spec).0
}

fn to_normalized_counted(value: f64, range: ValueRange, spec: &SliderSpec) -> (f64, usize) {
    let mut step = normalized_from_value(flt(value), range, spec);
    let mut asked = 0;
    loop {
        match step {
            NormalizedStep::Done(position) => return (num(position), asked),
            NormalizedStep::Ask(request, pending) => {
                asked += 1;
                step = pending.resume(evaluate(request));
            }
        }
    }
}

fn to_normalized(value: f64, range: ValueRange, spec: &SliderSpec) -> f64 {
    to_normalized_counted(value, range, spec).0
}

fn close(a: f64, b: f64, tolerance: f64) -> bool {
    (a - b).abs() <= tolerance
}

// ----------------------------------------------------------------------------

#[test]
fn positions_outside_the_unit_interval_map_to_the_ends() {
    for spec in [linear(), logarithmic()] {
        for (start, end) in [(2.0, 7.0), (-3.0, 4.0), (-9.0, -1.0), (0.0, 1.0)] {
            assert_eq!(to_value(0.0, range(start, end), &spec), start);
            assert_eq!(to_value(-0.0, range(start, end), &spec), start);
            assert_eq!(to_value(-12.5, range(start, end), &spec), start);
            assert_eq!(to_value(f64::NEG_INFINITY, range(start, end), &spec), start);
            assert_eq!(to_value(1.0, range(start, end), &spec), end);
            assert_eq!(to_value(3.25, range(start, end), &spec), end);
            assert_eq!(to_value(f64::INFINITY, range(start, end), &spec), end);
            // The same on the descending range.
            assert_eq!(to_value(0.0, range(end, start), &spec), end);
            assert_eq!(to_value(-12.5, range(end, start), &spec), end);
            assert_eq!(to_value(1.0, range(end, start), &spec), start);
            assert_eq!(to_value(3.25, range(end, start), &spec), start);
        }
    }
}

#[test]
fn a_position_at_the_boundary_is_decided_without_a_request() {
    let step = value_from_normalized(flt(-1.0), range(2.0, 7.0), &linear());
    assert_eq!(step, ValueStep::Done(flt(2.0)));
    let step = value_from_normalized(flt(1.0), range(2.0, 7.0), &logarithmic());
    assert_eq!(step, ValueStep::Done(flt(7.0)));
    let step = normalized_from_value(flt(1.5), range(2.0, 7.0), &linear());
    assert_eq!(step, NormalizedStep::Done(flt(0.0)));
    let step = normalized_from_value(flt(7.0), range(2.0, 7.0), &logarithmic());
    assert_eq!(step, NormalizedStep::Done(flt(1.0)));
}

#[test]
fn values_outside_an_ascending_range_lie_at_the_ends() {
    for spec in [linear(), logarithmic()] {
        for (start, end) in [(2.0, 7.0), (-3.0, 4.0), (-9.0, -1.0)] {
            assert_eq!(to_normalized(start, range(start, end), &spec), 0.0);
            assert_eq!(to_normalized(start - 1.0, range(start, end), &spec), 0.0);
            assert_eq!(to_normalized(f64::NEG_INFINITY, range(start, end), &spec), 0.0);
            assert_eq!(to_normalized(end, range(start, end), &spec), 1.0);
            assert_eq!(to_normalized(end + 1.0, range(start, end), &spec), 1.0);
            assert_eq!(to_normalized(f64::INFINITY, range(start, end), &spec), 1.0);
        }
    }
}

#[test]
fn values_outside_a_descending_range_lie_at_the_far_ends() {
    // From 10 down to 0, twelve lies before the start of the rail.
    assert_eq!(to_normalized(12.0, range(10.0, 0.0), &linear()), 0.0);
    assert_eq!(to_normalized(10.0, range(10.0, 0.0), &linear()), 0.0);
    assert_eq!(to_normalized(0.0, range(10.0, 0.0), &linear()), 1.0);
    assert_eq!(to_normalized(-3.0, range(10.0, 0.0), &linear()), 1.0);
    assert_eq!(to_normalized(2.5, range(10.0, 0.0), &linear()), 0.75);
    let step = normalized_from_value(flt(12.0), range(10.0, 0.0), &linear());
    match step {
        NormalizedStep::Ask(request, _) => {
            assert_eq!(request, Request::Complement { x: flt(1.0) })
        }
        NormalizedStep::Done(_) => panic!("a descending range asks for the complement"),
    }
}

#[test]
fn an_empty_range_has_one_value_and_shows_it_in_the_middle() {
    for spec in [linear(), logarithmic()] {
        for v in [-1.0e9, -1.0, 0.0, 0.3, 5.0, 77.0, f64::INFINITY, f64::NAN] {
            assert_eq!(to_normalized(v, range(5.0, 5.0), &spec), 0.5);
            assert_eq!(to_value(v, range(5.0, 5.0), &spec), 5.0);
            assert_eq!(
                normalized_from_value(flt(v), range(5.0, 5.0), &spec),
                NormalizedStep::Done(flt(0.5))
            );
            assert_eq!(
                value_from_normalized(flt(v), range(5.0, 5.0), &spec),
                ValueStep::Done(flt(5.0))
            );
        }
    }
    // The two zeros are one number: the range from one to the other is empty,
    // and its value is its start.
    let step = value_from_normalized(flt(0.3), range(0.0, -0.0), &linear());
    assert_eq!(step, ValueStep::Done(flt(0.0)));
    let step = value_from_normalized(flt(0.3), range(-0.0, 0.0), &linear());
    assert_eq!(step, ValueStep::Done(flt(-0.0)));
}

#[test]
fn a_nan_end_gives_nan() {
    for spec in [linear(), logarithmic()] {
        assert!(to_value(0.5, range(f64::NAN, 1.0), &spec).is_nan());
        assert!(to_value(0.5, range(0.0, f64::NAN), &spec).is_nan());
        assert!(to_value(-1.0, range(f64::NAN, f64::NAN), &spec).is_nan());
        assert!(to_normalized(0.5, range(f64::NAN, 1.0), &spec).is_nan());
        assert!(to_normalized(0.5, range(0.0, f64::NAN), &spec).is_nan());
        assert_eq!(
            value_from_normalized(flt(0.5), range(0.0, f64::NAN), &spec),
            ValueStep::Done(Float::nan())
        );
    }
}

#[test]
fn a_descending_range_is_the_ascending_one_from_its_other_end() {
    for spec in [linear(), logarithmic()] {
        for (min, max) in [(0.0, 10.0), (-10.0, 100.0), (1.0, 1000.0), (-8.0, -2.0)] {
            for n in [-0.5, 0.0, 0.125, 0.25, 0.5, 0.8, 1.0, 1.5] {
                assert_eq!(
                    to_value(n, range(max, min), &spec),
                    to_value(1.0 - n, range(min, max), &spec)
                );
            }
        }
    }
    assert_eq!(to_value(0.25, range(10.0, 0.0), &linear()), 7.5);
    // The first step asks for the complement and leaves the ascending range.
    let step = value_from_normalized(flt(0.25), range(10.0, 0.0), &linear());
    assert_eq!(
        step,
        ValueStep::Ask(
            Request::Complement { x: flt(0.25) },
            ValuePending::Position { range: range(0.0, 10.0), negate: false }
        )
    );
    let pending = ValuePending::Position { range: range(0.0, 10.0), negate: false };
    assert_eq!(
        pending.resume(flt(0.75), &linear()),
        value_from_normalized(flt(0.75), range(0.0, 10.0), &linear())
    );
}

#[test]
fn a_linear_round_trip_comes_back_to_the_position() {
    for (min, max) in [(0.0, 100.0), (-5.0, 5.0), (3.0, 3.5), (100.0, 0.0), (-1e6, 1e9)] {
        let mut n = 0.0;
        while n <= 1.0 {
            let value = to_value(n, range(min, max), &linear());
            let back = to_normalized(value, range(min, max), &linear());
            assert!(close(back, n, 1e-9), "{n} came back as {back} on {min}..={max}");
            n += 1.0 / 64.0;
        }
    }
}

#[test]
fn a_logarithmic_round_trip_comes_back_to_the_position() {
    for (min, max) in [(1.0, 1000.0), (0.0, 100.0), (-100.0, -0.01), (-10.0, 100.0)] {
        let mut n = 0.0;
        while n <= 1.0 {
            let value = to_value(n, range(min, max), &logarithmic());
            let back = to_normalized(value, range(min, max), &logarithmic());
            assert!(close(back, n, 1e-9), "{n} came back as {back} on {min}..={max}");
            n += 1.0 / 64.0;
        }
    }
}

#[test]
fn zero_lies_where_the_orders_of_magnitude_divide() {
    // One order of magnitude below zero, two above.
    let terms = logarithmic_zero_cutoff(flt(-10.0), flt(100.0));
    assert_eq!(
        terms,
        CutoffTerms {
            below: Magnitude::AbsLog10(flt(10.0)),
            above: Magnitude::AbsLog10(flt(100.0))
        }
    );
    assert_eq!(cutoff(terms), 1.0 / 3.0);
    assert_eq!(to_value(1.0 / 3.0, range(-10.0, 100.0), &logarithmic()), 0.0);
    assert!(close(to_normalized(0.0, range(-10.0, 100.0), &logarithmic()), 1.0 / 3.0, 1e-12));
    // Two orders of magnitude below zero and none above: zero lies at the end.
    let terms = logarithmic_zero_cutoff(flt(-100.0), flt(1.0));
    assert_eq!(cutoff(terms), 1.0);
    // An infinite end counts for ten orders of magnitude.
    let terms = logarithmic_zero_cutoff(flt(f64::NEG_INFINITY), flt(f64::INFINITY));
    assert_eq!(
        terms,
        CutoffTerms { below: Magnitude::Fixed(flt(10.0)), above: Magnitude::Fixed(flt(10.0)) }
    );
    assert_eq!(cutoff(terms), 0.5);
}

#[test]
fn a_range_across_zero_maps_each_side_to_its_sign() {
    let spec = logarithmic();
    let r = range(-10.0, 100.0);
    assert!(to_value(0.2, r, &spec) < 0.0);
    assert!(to_value(0.5, r, &spec) > 0.0);
    assert!(to_normalized(-1.0, r, &spec) < 1.0 / 3.0);
    assert!(to_normalized(1.0, r, &spec) > 1.0 / 3.0);
    // The first request on a range across zero is the position of zero.
    match value_from_normalized(flt(0.2), r, &spec) {
        ValueStep::Ask(Request::ZeroCutoff { .. }, ValuePending::Cutoff { .. }) => {}
        other => panic!("unexpected step {other:?}"),
    }
}

#[test]
fn the_exponent_interval_stands_in_for_zero_and_infinity() {
    let spec = SliderSpec {
        logarithmic: true,
        smallest_positive: flt(1e-3),
        largest_finite: flt(1e6),
    };
    let ten = flt(10.0);
    assert_eq!(
        range_log10(flt(0.0), flt(f64::INFINITY), &spec),
        (LogBound::Log10(flt(1e-3)), LogBound::Exponent(ten))
    );
    assert_eq!(
        range_log10(flt(-0.0), flt(f64::INFINITY), &spec),
        (LogBound::Log10(flt(1e-3)), LogBound::Exponent(ten))
    );
    assert_eq!(
        range_log10(flt(0.0), flt(50.0), &spec),
        (LogBound::Log10(flt(1e-3)), LogBound::Log10(flt(50.0)))
    );
    assert_eq!(
        range_log10(flt(0.0), flt(1e-4), &spec),
        (LogBound::Log10Minus(flt(1e-4), ten), LogBound::Log10(flt(1e-4)))
    );
    assert_eq!(
        range_log10(flt(0.0), flt(1e-3), &spec),
        (LogBound::Log10Minus(flt(1e-3), ten), LogBound::Log10(flt(1e-3)))
    );
    assert_eq!(
        range_log10(flt(2.0), flt(f64::INFINITY), &spec),
        (LogBound::Log10(flt(2.0)), LogBound::Log10(flt(1e6)))
    );
    assert_eq!(
        range_log10(flt(1e7), flt(f64::INFINITY), &spec),
        (LogBound::Log10(flt(1e7)), LogBound::Log10Plus(flt(1e7), ten))
    );
    assert_eq!(
        range_log10(flt(2.0), flt(50.0), &spec),
        (LogBound::Log10(flt(2.0)), LogBound::Log10(flt(50.0)))
    );
}

#[test]
fn a_logarithmic_scale_from_zero_to_infinity() {
    let spec = logarithmic();
    let r = range(0.0, f64::INFINITY);
    assert_eq!(to_value(0.0, r, &spec), 0.0);
    // The end of the range is the value at the end of the rail.
    assert_eq!(to_value(1.0, r, &spec), f64::INFINITY);
    // Just before the end the scale has reached ten to the power of ten.
    let nearly = to_value(1.0 - 1e-12, r, &spec);
    assert!(nearly.is_finite());
    assert!(close(nearly / 1e10, 1.0, 1e-6));
    // Halfway between the exponents -6 and 10 lies the exponent 2.
    assert!(close(to_value(0.5, r, &spec), 100.0, 1e-9));
    assert_eq!(
        value_from_normalized(flt(0.5), r, &spec),
        ValueStep::Ask(
            Request::Exp10Lerp {
                lo: LogBound::Log10(flt(1e-6)),
                hi: LogBound::Exponent(flt(10.0)),
                t: flt(0.5)
            },
            ValuePending::Value { negate: false }
        )
    );
}

#[test]
fn a_logarithmic_scale_between_powers_of_ten() {
    let spec = logarithmic();
    assert!(close(to_value(0.5, range(1.0, 100.0), &spec), 10.0, 1e-12));
    assert!(close(to_value(0.25, range(1.0, 10000.0), &spec), 10.0, 1e-12));
    assert!(close(to_normalized(10.0, range(1.0, 100.0), &spec), 0.5, 1e-12));
    // A range with nothing positive mirrors the positive one.
    assert!(close(to_value(0.5, range(-100.0, -1.0), &spec), -10.0, 1e-12));
    assert!(close(to_value(0.25, range(-10000.0, -1.0), &spec), -1000.0, 1e-9));
    assert!(close(to_normalized(-10.0, range(-100.0, -1.0), &spec), 0.5, 1e-12));
    assert!(close(to_normalized(-1000.0, range(-10000.0, -1.0), &spec), 0.25, 1e-12));
}

#[test]
fn a_linear_scale_interpolates() {
    assert_eq!(to_value(0.5, range(0.0, 100.0), &linear()), 50.0);
    assert_eq!(to_value(0.25, range(-4.0, 4.0), &linear()), -2.0);
    assert_eq!(to_normalized(50.0, range(0.0, 100.0), &linear()), 0.5);
    assert_eq!(to_normalized(-2.0, range(-4.0, 4.0), &linear()), 0.25);
    assert_eq!(
        value_from_normalized(flt(0.5), range(0.0, 100.0), &linear()),
        ValueStep::Ask(
            Request::Lerp { start: flt(0.0), end: flt(100.0), t: flt(0.5) },
            ValuePending::Value { negate: false }
        )
    );
    assert_eq!(
        normalized_from_value(flt(50.0), range(0.0, 100.0), &linear()),
        NormalizedStep::Ask(
            Request::RemapClamp { x: flt(50.0), from_start: flt(0.0), from_end: flt(100.0) },
            NormalizedPending::Position {
                after: slider_core::mapping::After {
                    mirror: false,
                    part: slider_core::mapping::Part::Whole,
                    invert: false
                }
            }
        )
    );
}

#[test]
fn a_nan_position_stays_nan() {
    assert!(to_value(f64::NAN, range(0.0, 100.0), &linear()).is_nan());
    assert!(to_value(f64::NAN, range(1.0, 100.0), &logarithmic()).is_nan());
    assert!(to_normalized(f64::NAN, range(0.0, 100.0), &linear()).is_nan());
}

#[test]
fn a_mapping_makes_at_most_five_requests() {
    let specs = [linear(), logarithmic()];
    let ends = [-1e3, -10.0, -1.0, -0.0, 0.0, 1e-9, 1.0, 10.0, 1e3];
    let points = [-1.0, 0.0, 1e-300, 0.1, 1.0 / 3.0, 0.5, 0.9, 1.0, 2.0];
    let mut most_to_value = 0;
    let mut most_to_normalized = 0;
    for spec in specs {
        for start in ends {
            for end in ends {
                for n in points {
                    let (_, asked) = to_value_counted(n, range(start, end), &spec);
                    most_to_value = most_to_value.max(asked);
                    let value = start + (end - start) * n;
                    let (_, asked) = to_normalized_counted(value, range(start, end), &spec);
                    most_to_normalized = most_to_normalized.max(asked);
                }
            }
        }
    }
    assert_eq!(most_to_value, 5);
    assert!(most_to_normalized <= 5);
    // A descending range across zero, on its negative side, takes all five.
    let (_, asked) = to_value_counted(0.9, range(10.0, -10.0), &logarithmic());
    assert_eq!(asked, 5);
    let (_, asked) = to_normalized_counted(-5.0, range(10.0, -10.0), &logarithmic());
    assert_eq!(asked, 5);
}

#[test]
fn snapping_stays_inside_the_interval() {
    // A fixed sequence of pseudo-random bit patterns.
    let mut state: u64 = 0x9e37_79b9_7f4a_7c15;
    let mut checked = 0;
    for _ in 0..20_000 {
        state = state.wrapping_mul(6364136223846793005).wrapping_add(1442695040888963407);
        let a = (state >> 11) as f64 / (1u64 << 53) as f64;
        state = state.wrapping_mul(6364136223846793005).wrapping_add(1442695040888963407);
        let b = (state >> 11) as f64 / (1u64 << 53) as f64;
        state = state.wrapping_mul(6364136223846793005).wrapping_add(1442695040888963407);
        let scale = 10.0_f64.powi(((state >> 40) % 13) as i32 - 6);
        let lo = (a - 0.5) * scale;
        let hi = lo + b * scale * 0.01;
        for (x, y) in [(lo, hi), (hi, lo)] {
            let best = flt(emath::smart_aim::best_in_range_f64(x, y));
            assert!(lies_between(best, flt(x), flt(y)), "{x} {y} gave {}", num(best));
            checked += 1;
        }
    }
    assert_eq!(checked, 40_000);
}

#[test]
fn lying_between_does_not_depend_on_the_order_of_the_ends() {
    assert!(lies_between(flt(0.5), flt(0.0), flt(1.0)));
    assert!(lies_between(flt(0.5), flt(1.0), flt(0.0)));
    assert!(lies_between(flt(0.0), flt(0.0), flt(1.0)));
    assert!(lies_between(flt(1.0), flt(0.0), flt(1.0)));
    assert!(lies_between(flt(-0.0), flt(0.0), flt(1.0)));
    assert!(!lies_between(flt(1.5), flt(0.0), flt(1.0)));
    assert!(!lies_between(flt(-0.5), flt(1.0), flt(0.0)));
    assert!(!lies_between(Float::nan(), flt(0.0), flt(1.0)));
    assert!(!lies_between(flt(0.5), Float::nan(), flt(1.0)));
    for chosen in [-2.0, -1.0, 0.0, 0.5, 1.0, 3.0, f64::NAN] {
        for low in [-1.0, 0.0, 1.0, f64::INFINITY, f64::NAN] {
            for high in [-1.0, 0.0, 1.0, f64::NEG_INFINITY] {
                let expected = low.min(high) <= chosen && chosen <= low.max(high);
                let both = !low.is_nan() && !high.is_nan();
                assert_eq!(lies_between(flt(chosen), flt(low), flt(high)), both && expected);
            }
        }
    }
}

// ----------------------------------------------------------------------------
// The same mappings computed in one go, to hold the exchange against.

const INF_RANGE_MAGNITUDE: f64 = 10.0;

fn direct_range_log10(min: f64, max: f64, spec: &SliderSpec) -> (f64, f64) {
    let smallest_positive = num(spec.smallest_positive);
    let largest_finite = num(spec.largest_finite);
    if min == 0.0 && max == f64::INFINITY {
        (smallest_positive.log10(), INF_RANGE_MAGNITUDE)
    } else if min == 0.0 {
        if smallest_positive < max {
            (smallest_positive.log10(), max.log10())
        } else {
            (max.log10() - INF_RANGE_MAGNITUDE, max.log10())
        }
    } else if max == f64::INFINITY {
        if min < largest_finite {
            (min.log10(), largest_finite.log10())
        } else {
            (min.log10(), min.log10() + INF_RANGE_MAGNITUDE)
        }
    } else {
        (min.log10(), max.log10())
    }
}

fn direct_zero_cutoff(min: f64, max: f64) -> f64 {
    let min_magnitude =
        if min == -f64::INFINITY { INF_RANGE_MAGNITUDE } else { min.abs().log10().abs() };
    let max_magnitude = if max == f64::INFINITY { INF_RANGE_MAGNITUDE } else { max.log10().abs() };
    min_magnitude / (min_magnitude + max_magnitude)
}

fn direct_value(normalized: f64, min: f64, max: f64, spec: &SliderSpec) -> f64 {
    if min.is_nan() || max.is_nan() {
        f64::NAN
    } else if min == max {
        min
    } else if min > max {
        direct_value(1.0 - normalized, max, min, spec)
    } else if normalized <= 0.0 {
        min
    } else if normalized >= 1.0 {
        max
    } else if spec.logarithmic {
        if max <= 0.0 {
            -direct_value(normalized, -min, -max, spec)
        } else if 0.0 <= min {
            let (min_log, max_log) = direct_range_log10(min, max, spec);
            let log = emath::lerp(min_log..=max_log, normalized);
            10.0_f64.powf(log)
        } else {
            let zero_cutoff = direct_zero_cutoff(min, max);
            if normalized < zero_cutoff {
                direct_value(emath::remap(normalized, 0.0..=zero_cutoff, 0.0..=1.0), min, 0.0, spec)
            } else {
                direct_value(emath::remap(normalized, zero_cutoff..=1.0, 0.0..=1.0), 0.0, max, spec)
            }
        }
    } else {
        emath::lerp(min..=max, normalized.clamp(0.0, 1.0))
    }
}

fn direct_normalized(value: f64, min: f64, max: f64, spec: &SliderSpec) -> f64 {
    if min.is_nan() || max.is_nan() {
        f64::NAN
    } else if min == max {
        0.5
    } else if min > max {
        1.0 - direct_normalized(value, max, min, spec)
    } else if value <= min {
        0.0
    } else if value >= max {
        1.0
    } else if spec.logarithmic {
        if max <= 0.0 {
            direct_normalized(-value, -min, -max, spec)
        } else if 0.0 <= min {
            let (min_log, max_log) = direct_range_log10(min, max, spec);
            emath::remap_clamp(value.log10(), min_log..=max_log, 0.0..=1.0)
        } else {
            let zero_cutoff = direct_zero_cutoff(min, max);
            if value < 0.0 {
                emath::remap(direct_normalized(value, min, 0.0, spec), 0.0..=1.0, 0.0..=zero_cutoff)
            } else {
                emath::remap(direct_normalized(value, 0.0, max, spec), 0.0..=1.0, zero_cutoff..=1.0)
            }
        }
    } else {
        emath::remap_clamp(value, min..=max, 0.0..=1.0)
    }
}

fn same(a: f64, b: f64) -> bool {
    (a.is_nan() && b.is_nan()) || a.to_bits() == b.to_bits()
}

fn scales() -> Vec<SliderSpec> {
    vec![
        linear(),
        logarithmic(),
        SliderSpec { logarithmic: true, smallest_positive: flt(1.0), largest_finite: flt(1e4) },
        SliderSpec { logarithmic: true, smallest_positive: flt(1e-3), largest_finite: flt(0.5) },
    ]
}

#[test]
fn the_exchange_to_a_value_agrees_with_the_direct_computation() {
    let ends = [
        f64::NEG_INFINITY, -1e6, -100.0, -10.0, -2.5, -1e-9, -0.0, 0.0, 1e-9, 0.5, 7.0, 100.0,
        3e5, f64::INFINITY, f64::NAN,
    ];
    let positions = [
        f64::NEG_INFINITY, -1.0, -0.0, 0.0, 1e-300, 1e-17, 0.01, 0.1, 0.25, 1.0 / 3.0, 0.5, 2.0 / 3.0,
        0.9, 1.0 - 1e-16, 1.0, 1.5, f64::INFINITY,
    ];
    let mut compared = 0;
    for spec in scales() {
        for min in ends {
            for max in ends {
                if !spec.logarithmic && (min.is_infinite() || max.is_infinite()) {
                    continue;
                }
                // Ends that are as far above zero as below it leave no part to map from.
                if spec.logarithmic && min.min(max) < 0.0 && max.max(min) > 0.0 {
                    let cutoff = direct_zero_cutoff(min.min(max), max.max(min));
                    if !(cutoff > 0.0 && cutoff < 1.0) {
                        continue;
                    }
                }
                for n in positions {
                    let direct = direct_value(n, min, max, &spec);
                    let exchanged = to_value(n, range(min, max), &spec);
                    assert!(
                        same(direct, exchanged),
                        "{n} on {min}..={max}: {direct} directly, {exchanged} by exchange"
                    );
                    compared += 1;
                }
            }
        }
    }
    assert!(compared > 10_000);
}

#[test]
fn the_exchange_to_a_position_agrees_with_the_direct_computation() {
    let ends = [
        f64::NEG_INFINITY, -1e6, -100.0, -10.0, -2.5, -1e-9, -0.0, 0.0, 1e-9, 0.5, 7.0, 100.0,
        3e5, f64::INFINITY, f64::NAN,
    ];
    let values = [
        f64::NEG_INFINITY, -1e7, -100.0, -31.0, -10.0, -1.0, -1e-5, -0.0, 0.0, 1e-12, 1e-5, 0.5,
        1.0, 3.0, 99.0, 100.0, 1e5, 1e9, f64::INFINITY, f64::NAN,
    ];
    let mut compared = 0;
    for spec in scales() {
        for min in ends {
            for max in ends {
                if !spec.logarithmic && (min.is_infinite() || max.is_infinite()) {
                    continue;
                }
                for v in values {
                    let direct = direct_normalized(v, min, max, &spec);
                    let exchanged = to_normalized(v, range(min, max), &spec);
                    assert!(
                        same(direct, exchanged),
                        "{v} on {min}..={max}: {direct} directly, {exchanged} by exchange"
                    );
                    compared += 1;
                }
            }
        }
    }
    assert!(compared > 10_000);
}
