//! The configuration of a slider and the pipeline that every edit of its
//! value passes through.

use vstd::prelude::*;
use crate::float::Float;
use crate::float::MILLIONTH_BITS;
use crate::mapping::Request;
use crate::mapping::SliderSpec;
use crate::mapping::ValueRange;
use crate::radix::Radix;
use crate::radix::RadixFormat;

verus! {

/// Whether a slider runs left to right or top to bottom.
#[derive(Clone, Copy, Debug, PartialEq, Eq, Hash, Structural)]
pub enum SliderOrientation {
    Horizontal,
    Vertical,
}

/// When the value of a slider is held inside its range.
#[derive(Clone, Copy, Debug, PartialEq, Eq, Hash, Structural)]
pub enum SliderClamping {
    /// Never: a value typed in or dragged next to the slider may leave the
    /// range. The handle of the slider still stays on the rail.
    Never,
    /// New values cannot leave the range; a value that is outside already
    /// stays as it is until it is edited.
    Edits,
    /// Always, the value that is already there included.
    Always,
}

impl Default for SliderClamping {
    fn default() -> (r: SliderClamping)
        ensures
            r == SliderClamping::Always,
    {
        SliderClamping::Always
    }
}

/// `x` held inside `range` in the total order of bit patterns, with the ends
/// of a descending range taken the other way round: the lower end where `x`
/// is not above it, the upper end where `x` is not below it, else `x`.
///
/// The total order tells the two zeros apart, so a range that starts at
/// positive zero keeps negative zero out.
pub open spec fn clamped_to_range(x: Float, range: ValueRange) -> Float {
    let descending = range.end.total_key() < range.start.total_key();
    let lo = if descending {
        range.end
    } else {
        range.start
    };
    let hi = if descending {
        range.start
    } else {
        range.end
    };
    if x.total_key() <= lo.total_key() {
        lo
    } else if hi.total_key() <= x.total_key() {
        hi
    } else {
        x
    }
}

/// Computes [`clamped_to_range`]. The result lies between the two ends of the
/// range, and it is `x` itself where `x` does. Between ends that are numbers
/// the result is a number too, whatever `x` is, and lies between them as
/// numbers do.
pub fn clamp_value_to_range(x: Float, range: ValueRange) -> (r: Float)
    ensures
        r == clamped_to_range(x, range),
        range.start.total_key() <= r.total_key() <= range.end.total_key()
            || range.end.total_key() <= r.total_key() <= range.start.total_key(),
        range.start.total_key() <= x.total_key() <= range.end.total_key()
            || range.end.total_key() <= x.total_key() <= range.start.total_key() ==> r == x,
        clamped_to_range(r, range) == r,
        !range.start.spec_is_nan() && !range.end.spec_is_nan() ==> (range.start.spec_le(r)
            && r.spec_le(range.end)) || (range.end.spec_le(r) && r.spec_le(range.start)),
{
    let (lo, hi) = if range.end.total_lt(range.start) {
        (range.end, range.start)
    } else {
        (range.start, range.end)
    };
    if !lo.total_lt(x) {
        proof {
            lemma_total_key_identifies(x, lo);
        }
        lo
    } else if !x.total_lt(hi) {
        proof {
            lemma_total_key_identifies(x, hi);
        }
        hi
    } else {
        x
    }
}

/// Two bit patterns at the same place of the total order are the same.
pub proof fn lemma_total_key_identifies(a: Float, b: Float)
    ensures
        a.total_key() == b.total_key() ==> a == b,
{
}

/// The shape of the handle of a slider.
#[derive(Clone, Copy, Debug, PartialEq, Eq, Hash, Structural)]
pub enum HandleShape {
    Circle,
    /// A rectangle; `aspect_ratio` holds the bits of a binary32 number, the
    /// width of the rectangle over its height.
    Rect { aspect_ratio: u32 },
}

/// How the value of a slider is written out and read back as text.
#[derive(Clone, Copy, Debug, PartialEq, Eq)]
pub enum NumberFormat {
    /// In decimal, with the number of decimals that the slider asks for.
    Decimal,
    /// As an integer in base 2, 8 or 16.
    Radix(RadixFormat),
}

/// A slider: a range of values, a scale, and the rules for editing the value.
///
/// The value itself belongs to the caller, who reads it and writes it; the
/// slider only says what to write.
#[derive(Clone, Debug)]
pub struct Slider {
    pub range: ValueRange,
    pub spec: SliderSpec,
    pub clamping: SliderClamping,
    pub smart_aim: bool,
    pub show_value: bool,
    pub orientation: SliderOrientation,
    pub prefix: String,
    pub suffix: String,
    pub text: String,
    /// The color of the text as four bytes: red, green, blue, alpha.
    pub text_color: Option<[u8; 4]>,
    /// The smallest change of the value, if there is one.
    pub step: Option<Float>,
    pub drag_value_speed: Option<Float>,
    pub min_decimals: usize,
    pub max_decimals: Option<usize>,
    pub number_format: NumberFormat,
    pub trailing_fill: Option<bool>,
    pub handle_shape: Option<HandleShape>,
    pub update_while_editing: bool,
}

/// Where writing a value stands: finished with the value to write, or
/// waiting for the caller.
#[derive(Clone, Copy, Debug, PartialEq, Eq)]
pub enum WriteStep {
    Done(Float),
    Ask(Request, WritePending),
}

/// What writing a value still has to do once the caller has answered.
#[derive(Clone, Copy, Debug, PartialEq, Eq)]
pub enum WritePending {
    /// The answer is the value on its step; it is still to be rounded if
    /// `max_decimals` says to how many places.
    Quantized { max_decimals: Option<usize> },
    /// The answer is the rounded value.
    Rounded,
}

/// The step that rounds `value` to `max_decimals` places, or finishes with
/// `value` where there is no such limit.
pub open spec fn rounding_step(value: Float, max_decimals: Option<usize>) -> WriteStep {
    match max_decimals {
        Some(decimals) => WriteStep::Ask(
            Request::RoundToDecimals { x: value, decimals },
            WritePending::Rounded,
        ),
        None => WriteStep::Done(value),
    }
}

fn round_step(value: Float, max_decimals: Option<usize>) -> (r: WriteStep)
    ensures
        r == rounding_step(value, max_decimals),
{
    match max_decimals {
        Some(decimals) => WriteStep::Ask(
            Request::RoundToDecimals { x: value, decimals },
            WritePending::Rounded,
        ),
        None => WriteStep::Done(value),
    }
}

impl WritePending {
    /// The step that follows the caller's `answer`.
    pub open spec fn resumed(self, answer: Float) -> WriteStep {
        match self {
            WritePending::Quantized { max_decimals } => rounding_step(answer, max_decimals),
            WritePending::Rounded => WriteStep::Done(answer),
        }
    }

    /// Takes the caller's answer and says what follows.
    pub fn resume(self, answer: Float) -> (r: WriteStep)
        ensures
            r == self.resumed(answer),
    {
        match self {
            WritePending::Quantized { max_decimals } => round_step(answer, max_decimals),
            WritePending::Rounded => WriteStep::Done(answer),
        }
    }
}

impl Slider {
    /// What a slider over `range` is before anything is configured: linear,
    /// horizontal, always clamped, with smart aim, showing its value. A slider
    /// for whole numbers (`integral`) keeps no decimals, moves in steps of one
    /// and has one as its smallest positive value; any other has no step, no
    /// limit on decimals and a millionth as its smallest positive value.
    pub open spec fn is_fresh(self, range: ValueRange, integral: bool) -> bool {
        &&& self.range == range
        &&& self.spec == SliderSpec {
            logarithmic: false,
            smallest_positive: if integral {
                Float::spec_one()
            } else {
                Float { bits: MILLIONTH_BITS }
            },
            largest_finite: Float::spec_infinity(),
        }
        &&& self.clamping == SliderClamping::Always
        &&& self.smart_aim
        &&& self.show_value
        &&& self.orientation == SliderOrientation::Horizontal
        &&& self.prefix@ == Seq::<char>::empty()
        &&& self.suffix@ == Seq::<char>::empty()
        &&& self.text@ == Seq::<char>::empty()
        &&& self.text_color == None::<[u8; 4]>
        &&& self.step == if integral {
            Some(Float::spec_one())
        } else {
            None
        }
        &&& self.drag_value_speed == None::<Float>
        &&& self.min_decimals == 0
        &&& self.max_decimals == if integral {
            Some(0usize)
        } else {
            None
        }
        &&& self.number_format == NumberFormat::Decimal
        &&& self.trailing_fill == None::<bool>
        &&& self.handle_shape == None::<HandleShape>
        &&& self.update_while_editing
    }

    /// What [`Slider::integer`] makes of a slider.
    pub open spec fn as_integer(self) -> Slider {
        Slider {
            min_decimals: 0,
            max_decimals: Some(0usize),
            spec: SliderSpec { smallest_positive: Float::spec_one(), ..self.spec },
            step: Some(Float::spec_one()),
            ..self
        }
    }

    /// A slider over `range` for a value that the caller reads and writes.
    pub fn from_get_set(range: ValueRange) -> (r: Slider)
        ensures
            r.is_fresh(range, false),
    {
        Slider {
            range,
            spec: SliderSpec {
                logarithmic: false,
                smallest_positive: Float::from_bits(MILLIONTH_BITS),
                largest_finite: Float::infinity(),
            },
            clamping: SliderClamping::Always,
            smart_aim: true,
            show_value: true,
            orientation: SliderOrientation::Horizontal,
            prefix: String::new(),
            suffix: String::new(),
            text: String::new(),
            text_color: None,
            step: None,
            drag_value_speed: None,
            min_decimals: 0,
            max_decimals: None,
            number_format: NumberFormat::Decimal,
            trailing_fill: None,
            handle_shape: None,
            update_while_editing: true,
        }
    }

    /// A horizontal slider over `range`. A slider for a whole-number type
    /// (`integral`) is at once made an integer slider.
    pub fn new(range: ValueRange, integral: bool) -> (r: Slider)
        ensures
            r.is_fresh(range, integral),
    {
        let slider = Slider::from_get_set(range);
        if integral {
            slider.integer()
        } else {
            slider
        }
    }

    /// Whether the current value is shown next to the slider.
    pub fn show_value(self, show_value: bool) -> (r: Slider)
        ensures
            r == (Slider { show_value, ..self }),
    {
        let mut slider = self;
        slider.show_value = show_value;
        slider
    }

    /// Text before the number.
    pub fn prefix(self, prefix: String) -> (r: Slider)
        ensures
            r == (Slider { prefix, ..self }),
    {
        let mut slider = self;
        slider.prefix = prefix;
        slider
    }

    /// Text after the number, such as a unit.
    pub fn suffix(self, suffix: String) -> (r: Slider)
        ensures
            r == (Slider { suffix, ..self }),
    {
        let mut slider = self;
        slider.suffix = suffix;
        slider
    }

    /// Text next to the slider.
    pub fn text(self, text: String) -> (r: Slider)
        ensures
            r == (Slider { text, ..self }),
    {
        let mut slider = self;
        slider.text = text;
        slider
    }

    pub fn text_color(self, text_color: [u8; 4]) -> (r: Slider)
        ensures
            r == (Slider { text_color: Some(text_color), ..self }),
    {
        let mut slider = self;
        slider.text_color = Some(text_color);
        slider
    }

    pub fn orientation(self, orientation: SliderOrientation) -> (r: Slider)
        ensures
            r == (Slider { orientation, ..self }),
    {
        let mut slider = self;
        slider.orientation = orientation;
        slider
    }

    pub fn vertical(self) -> (r: Slider)
        ensures
            r == (Slider { orientation: SliderOrientation::Vertical, ..self }),
    {
        let mut slider = self;
        slider.orientation = SliderOrientation::Vertical;
        slider
    }

    /// A logarithmic scale, for ranges that span many orders of magnitude.
    pub fn logarithmic(self, logarithmic: bool) -> (r: Slider)
        ensures
            r == (Slider { spec: SliderSpec { logarithmic, ..self.spec }, ..self }),
    {
        let mut slider = self;
        slider.spec.logarithmic = logarithmic;
        slider
    }

    /// On a logarithmic scale that includes zero, the smallest positive value
    /// that can be selected.
    pub fn smallest_positive(self, smallest_positive: Float) -> (r: Slider)
        ensures
            r == (Slider { spec: SliderSpec { smallest_positive, ..self.spec }, ..self }),
    {
        let mut slider = self;
        slider.spec.smallest_positive = smallest_positive;
        slider
    }

    /// On a logarithmic scale that ends at infinity, the largest finite value
    /// before the scale jumps to infinity.
    pub fn largest_finite(self, largest_finite: Float) -> (r: Slider)
        ensures
            r == (Slider { spec: SliderSpec { largest_finite, ..self.spec }, ..self }),
    {
        let mut slider = self;
        slider.spec.largest_finite = largest_finite;
        slider
    }

    pub fn clamping(self, clamping: SliderClamping) -> (r: Slider)
        ensures
            r == (Slider { clamping, ..self }),
    {
        let mut slider = self;
        slider.clamping = clamping;
        slider
    }

    /// The older switch between clamping always and never.
    pub fn clamp_to_range(self, clamp_to_range: bool) -> (r: Slider)
        ensures
            r == (Slider {
                clamping: if clamp_to_range {
                    SliderClamping::Always
                } else {
                    SliderClamping::Never
                },
                ..self
            }),
    {
        self.clamping(
            if clamp_to_range {
                SliderClamping::Always
            } else {
                SliderClamping::Never
            },
        )
    }

    pub fn smart_aim(self, smart_aim: bool) -> (r: Slider)
        ensures
            r == (Slider { smart_aim, ..self }),
    {
        let mut slider = self;
        slider.smart_aim = smart_aim;
        slider
    }

    /// The smallest change of the value. A step equal to zero means none.
    pub fn step_by(self, step: Float) -> (r: Slider)
        ensures
            r == (Slider {
                step: if step.spec_equals(Float::spec_zero()) {
                    None
                } else {
                    Some(step)
                },
                ..self
            }),
    {
        let mut slider = self;
        slider.step = if step.equals(Float::zero()) {
            None
        } else {
            Some(step)
        };
        slider
    }

    /// How fast the value moves when the number is dragged, in values per
    /// point.
    pub fn drag_value_speed(self, drag_value_speed: Float) -> (r: Slider)
        ensures
            r == (Slider { drag_value_speed: Some(drag_value_speed), ..self }),
    {
        let mut slider = self;
        slider.drag_value_speed = Some(drag_value_speed);
        slider
    }

    pub fn min_decimals(self, min_decimals: usize) -> (r: Slider)
        ensures
            r == (Slider { min_decimals, ..self }),
    {
        let mut slider = self;
        slider.min_decimals = min_decimals;
        slider
    }

    /// The most decimals to show. The value itself is rounded to them too.
    pub fn max_decimals(self, max_decimals: usize) -> (r: Slider)
        ensures
            r == (Slider { max_decimals: Some(max_decimals), ..self }),
    {
        let mut slider = self;
        slider.max_decimals = Some(max_decimals);
        slider
    }

    pub fn max_decimals_opt(self, max_decimals: Option<usize>) -> (r: Slider)
        ensures
            r == (Slider { max_decimals, ..self }),
    {
        let mut slider = self;
        slider.max_decimals = max_decimals;
        slider
    }

    /// Exactly this many decimals, shown and kept.
    pub fn fixed_decimals(self, num_decimals: usize) -> (r: Slider)
        ensures
            r == (Slider {
                min_decimals: num_decimals,
                max_decimals: Some(num_decimals),
                ..self
            }),
    {
        let mut slider = self;
        slider.min_decimals = num_decimals;
        slider.max_decimals = Some(num_decimals);
        slider
    }

    pub fn trailing_fill(self, trailing_fill: bool) -> (r: Slider)
        ensures
            r == (Slider { trailing_fill: Some(trailing_fill), ..self }),
    {
        let mut slider = self;
        slider.trailing_fill = Some(trailing_fill);
        slider
    }

    pub fn handle_shape(self, handle_shape: HandleShape) -> (r: Slider)
        ensures
            r == (Slider { handle_shape: Some(handle_shape), ..self }),
    {
        let mut slider = self;
        slider.handle_shape = Some(handle_shape);
        slider
    }

    /// Whether the value follows each key press while its text is edited.
    pub fn update_while_editing(self, update: bool) -> (r: Slider)
        ensures
            r == (Slider { update_while_editing: update, ..self }),
    {
        let mut slider = self;
        slider.update_while_editing = update;
        slider
    }

    /// Shows and reads the value as a binary integer of at least `min_width`
    /// digits, which must be at least one. A negative value shows as its
    /// two's complement if `twos_complement`, else with a minus sign.
    pub fn binary(self, min_width: usize, twos_complement: bool) -> (r: Slider)
        requires
            min_width > 0,
        ensures
            r == (Slider {
                number_format: NumberFormat::Radix(
                    RadixFormat { radix: Radix::Binary, min_width, twos_complement },
                ),
                ..self
            }),
    {
        let mut slider = self;
        slider.number_format = NumberFormat::Radix(
            RadixFormat { radix: Radix::Binary, min_width, twos_complement },
        );
        slider
    }

    /// Shows and reads the value as an octal integer of at least `min_width`
    /// digits, which must be at least one.
    pub fn octal(self, min_width: usize, twos_complement: bool) -> (r: Slider)
        requires
            min_width > 0,
        ensures
            r == (Slider {
                number_format: NumberFormat::Radix(
                    RadixFormat { radix: Radix::Octal, min_width, twos_complement },
                ),
                ..self
            }),
    {
        let mut slider = self;
        slider.number_format = NumberFormat::Radix(
            RadixFormat { radix: Radix::Octal, min_width, twos_complement },
        );
        slider
    }

    /// Shows and reads the value as a hexadecimal integer of at least
    /// `min_width` digits, which must be at least one, with capital letters
    /// if `upper`.
    pub fn hexadecimal(self, min_width: usize, twos_complement: bool, upper: bool) -> (r: Slider)
        requires
            min_width > 0,
        ensures
            r == (Slider {
                number_format: NumberFormat::Radix(
                    RadixFormat {
                        radix: Radix::Hexadecimal { upper },
                        min_width,
                        twos_complement,
                    },
                ),
                ..self
            }),
    {
        let mut slider = self;
        slider.number_format = NumberFormat::Radix(
            RadixFormat { radix: Radix::Hexadecimal { upper }, min_width, twos_complement },
        );
        slider
    }

    /// A slider for whole numbers: no decimals, steps of one, and one as the
    /// smallest positive value.
    pub fn integer(self) -> (r: Slider)
        ensures
            r == self.as_integer(),
    {
        self.fixed_decimals(0).smallest_positive(Float::one()).step_by(Float::one())
    }

    /// The value of the slider, given the value that the caller holds: held
    /// inside the range where the slider always clamps, else as it is.
    pub open spec fn shown_value(self, stored: Float) -> Float {
        if self.clamping == SliderClamping::Always {
            clamped_to_range(stored, self.range)
        } else {
            stored
        }
    }

    /// Computes [`Slider::shown_value`]. What a slider shows it shows again:
    /// reading the value read changes nothing.
    pub fn get_value(&self, stored: Float) -> (r: Float)
        ensures
            r == self.shown_value(stored),
            self.shown_value(r) == r,
    {
        match self.clamping {
            SliderClamping::Always => clamp_value_to_range(stored, self.range),
            _ => stored,
        }
    }

    /// `value` as it enters the pipeline: held inside the range unless the
    /// slider never clamps.
    pub open spec fn admitted(self, value: Float) -> Float {
        if self.clamping == SliderClamping::Never {
            value
        } else {
            clamped_to_range(value, self.range)
        }
    }

    /// The first step of writing `value`: it is clamped as the slider says,
    /// then put on the step of the slider, counted from the start of the
    /// range, then rounded to the most decimals allowed. The two last are
    /// asked of the caller, and skipped where the slider has no step or no
    /// limit on decimals.
    pub open spec fn write_step(self, value: Float) -> WriteStep {
        match self.step {
            Some(stride) => WriteStep::Ask(
                Request::Quantize { x: self.admitted(value), origin: self.range.start, stride },
                WritePending::Quantized { max_decimals: self.max_decimals },
            ),
            None => rounding_step(self.admitted(value), self.max_decimals),
        }
    }

    /// Starts writing `value`. Once the step is `Done`, the caller stores the
    /// value that it holds. A slider without a step and without a limit on
    /// decimals is done at once, and unless it never clamps, what it writes
    /// lies in its range.
    pub fn set_value(&self, value: Float) -> (r: WriteStep)
        ensures
            r == self.write_step(value),
            self.step.is_none() && self.max_decimals.is_none() ==> r == WriteStep::Done(
                self.admitted(value),
            ),
            self.clamping != SliderClamping::Never ==> clamped_to_range(
                self.admitted(value),
                self.range,
            ) == self.admitted(value),
    {
        let admitted = match self.clamping {
            SliderClamping::Never => value,
            _ => clamp_value_to_range(value, self.range),
        };
        match self.step {
            Some(stride) => WriteStep::Ask(
                Request::Quantize { x: admitted, origin: self.range.start, stride },
                WritePending::Quantized { max_decimals: self.max_decimals },
            ),
            None => round_step(admitted, self.max_decimals),
        }
    }

    pub fn range(&self) -> (r: ValueRange)
        ensures
            r == self.range,
    {
        self.range
    }
}

} // verus!
