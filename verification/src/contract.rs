//! The public contract of RF-EQ: every parameter the host can see.
//!
//! Nothing here performs audio work. The engine reads this table, the
//! packager renders the package metadata from it, and the web surface
//! receives the same schema back from the host, so the three can never drift
//! apart.
//!
//! Values are single-precision numbers, held here as their IEEE 754 bit
//! patterns (`u32`); what the contract decides about them is decided on the
//! encoding, in [`crate::ieee`].

use vstd::prelude::*;
use crate::index::{
    BYPASS, HIGH_SHELF_FREQUENCY, HIGH_SHELF_GAIN, HPF_ENABLE, HPF_FREQUENCY, LOW_SHELF_FREQUENCY,
    LOW_SHELF_GAIN, LPF_ENABLE, LPF_FREQUENCY, OUTPUT, PEAK1_FREQUENCY, PEAK1_GAIN, PEAK1_Q,
    PEAK2_FREQUENCY, PEAK2_GAIN, PEAK2_Q, PEAK3_FREQUENCY, PEAK3_GAIN, PEAK3_Q, PEAK4_FREQUENCY,
    PEAK4_GAIN, PEAK4_Q,
};
use crate::ieee::{
    double_is_finite, double_is_finite_bits, double_is_zero, double_whole, double_whole_bits, narrow,
    narrowed, single_from_whole, single_is_finite, single_is_zero, single_le,
    single_le_bits, single_of_whole, single_whole, DOUBLE_ONE, DOUBLE_SIGN,
    SINGLE_ONE, double_exponent, lemma_between_finite_is_finite, lemma_widened_narrows_back,
    single_exponent, single_is_nan, widened, lemma_small_whole_is_exact, lemma_widened_whole,
    lemma_wholes_are_below_2_64, lemma_single_of_whole_is_positive, lemma_whole_single_is_nearest,
};

verus! {

/// Number of public parameters. Also the length of the state block in
/// single-precision words.
pub const PARAMETER_COUNT: usize = 22;

/// The parameter count of each earlier state layout, so a block saved by an
/// older build can still be read. Length is the only thing that identifies a
/// layout here, which is why parameters are only ever appended.
pub const PREVIOUS_PARAMETER_COUNTS: [usize; 1] = [14];

/// Number of editor pages.
pub const PAGE_COUNT: usize = 2;

/// The furthest a band's gain travels, either way: 15 dB.
pub const BAND_GAIN_DB: u32 = 0x4170_0000;

/// A state layout is identified by its length alone: the current one and the
/// earlier one are read, anything else is not.
pub open spec fn is_known_layout(count: int) -> bool {
    count == PARAMETER_COUNT || PREVIOUS_PARAMETER_COUNTS@.contains(count as usize) && count >= 0
}

/// Whether `count` values make up a state layout this build can read.
pub fn known_layout(count: usize) -> (known: bool)
    ensures
        known == is_known_layout(count as int),
{
    if count == PARAMETER_COUNT {
        return true;
    }
    let mut k: usize = 0;
    while k < PREVIOUS_PARAMETER_COUNTS.len()
        invariant
            k <= PREVIOUS_PARAMETER_COUNTS@.len(),
            forall|j: int| 0 <= j < k ==> PREVIOUS_PARAMETER_COUNTS@[j] != count,
        decreases PREVIOUS_PARAMETER_COUNTS@.len() - k,
    {
        if PREVIOUS_PARAMETER_COUNTS[k] == count {
            return true;
        }
        k = k + 1;
    }
    false
}

/// Editor pages. RackForge renders them in `order`; the web surface uses the
/// same identifiers to group its controls.
#[derive(Clone, Copy, Debug)]
pub struct PageSpec {
    pub id: &'static str,
    pub name: &'static str,
    pub order: i32,
}

pub open spec fn page_spec(index: int) -> PageSpec {
    if index == 0 {
        PageSpec { id: "filters", name: "Filters", order: 0 }
    } else {
        PageSpec { id: "output", name: "Output", order: 1 }
    }
}

/// The editor page at `index`, in declaration order.
pub fn page(index: usize) -> (spec: PageSpec)
    requires
        index < PAGE_COUNT,
    ensures
        spec == page_spec(index as int),
{
    if index == 0 {
        PageSpec { id: "filters", name: "Filters", order: 0 }
    } else {
        PageSpec { id: "output", name: "Output", order: 1 }
    }
}

/// Every editor page, in declaration order.
pub fn pages() -> (all: Vec<PageSpec>)
    ensures
        all@.len() == PAGE_COUNT,
        forall|i: int| 0 <= i < PAGE_COUNT ==> #[trigger] all@[i] == page_spec(i),
{
    let mut all: Vec<PageSpec> = Vec::new();
    let mut index: usize = 0;
    while index < PAGE_COUNT
        invariant
            index <= PAGE_COUNT,
            all@.len() == index,
            forall|i: int| 0 <= i < index ==> #[trigger] all@[i] == page_spec(i),
        decreases PAGE_COUNT - index,
    {
        all.push(page(index));
        index = index + 1;
    }
    all
}

/// How a continuous control travels. Logarithmic needs a minimum above zero.
#[derive(Clone, Copy, PartialEq, Eq, Debug)]
pub enum Taper {
    Linear,
    Logarithmic,
}

/// The parameter kinds the contract can express: a subset of the RackForge
/// parameter schema. RF-EQ uses floats and booleans; the enum and meter kinds
/// stay so the packager renders them correctly should a band ever grow one.
/// A meter is read-only and reports what the engine is doing. Every number
/// is a single-precision bit pattern.
#[derive(Clone, Copy, Debug)]
pub enum Kind {
    Float {
        minimum: u32,
        maximum: u32,
        default: u32,
        step: u32,
        unit: Option<&'static str>,
        taper: Taper,
    },
    Boolean {
        default: bool,
    },
    Enum {
        default: u32,
        choices: &'static [&'static str],
    },
    Meter {
        minimum: u32,
        maximum: u32,
        unit: Option<&'static str>,
    },
}

/// Control hint published to RackForge surfaces (LITTLE, controller mappings).
#[derive(Clone, Copy, PartialEq, Eq, Debug)]
pub enum Control {
    Knob,
    Toggle,
    List,
    Meter,
}

/// The name a surface knows a control hint by.
pub open spec fn control_name(control: Control) -> Seq<char> {
    match control {
        Control::Knob => "knob"@,
        Control::Toggle => "toggle"@,
        Control::List => "list"@,
        Control::Meter => "meter"@,
    }
}

impl Control {
    pub fn as_str(self) -> (name: &'static str)
        ensures
            name@ == control_name(self),
    {
        match self {
            Control::Knob => "knob",
            Control::Toggle => "toggle",
            Control::List => "list",
            Control::Meter => "meter",
        }
    }
}

#[derive(Clone, Copy, Debug)]
pub struct ParameterSpec {
    pub index: u32,
    pub id: &'static str,
    pub name: &'static str,
    pub page: &'static str,
    pub order: i32,
    pub kind: Kind,
    pub control: Control,
}

/// The value a parameter of this kind rests at: a float's default, one or
/// zero for a switch, the default choice's number, a meter's maximum.
pub open spec fn default_of(kind: Kind) -> u32 {
    match kind {
        Kind::Float { default, .. } => default,
        Kind::Boolean { default } => if default {
            SINGLE_ONE
        } else {
            0
        },
        Kind::Enum { default, .. } => single_of_whole(default as nat) as u32,
        Kind::Meter { maximum, .. } => maximum,
    }
}

pub open spec fn kind_is_meter(kind: Kind) -> bool {
    kind is Meter
}

/// What a host value becomes once the contract has looked at it, from the
/// facts about it that the contract reads: whether it is finite, whether it
/// is zero, whether it is one, the whole number it denotes if any, and its
/// single-precision rounding, `rounded`.
///
/// A float or a meter takes the rounded value when it lies within the
/// bounds; a switch takes exactly zero or one; a list takes a whole number
/// below its number of choices.
pub open spec fn canonical_value(
    kind: Kind,
    finite: bool,
    zero: bool,
    one: bool,
    whole: Option<nat>,
    rounded: u32,
) -> Option<u32> {
    if !finite {
        None
    } else {
        match kind {
            Kind::Float { minimum, maximum, .. } => if single_le(minimum, rounded) && single_le(
                rounded,
                maximum,
            ) {
                Some(rounded)
            } else {
                None
            },
            Kind::Meter { minimum, maximum, .. } => if single_le(minimum, rounded) && single_le(
                rounded,
                maximum,
            ) {
                Some(rounded)
            } else {
                None
            },
            Kind::Boolean { .. } => if zero {
                Some(0u32)
            } else if one {
                Some(SINGLE_ONE)
            } else {
                None
            },
            Kind::Enum { choices, .. } => match whole {
                Some(k) => if k < choices@.len() {
                    Some(single_of_whole(k) as u32)
                } else {
                    None
                },
                None => None,
            },
        }
    }
}

/// The canonical stored value of a double-precision host value, or `None`
/// when the value is outside the contract.
pub open spec fn canonical_double(kind: Kind, value: u64) -> Option<u32> {
    canonical_value(
        kind,
        double_is_finite(value),
        double_is_zero(value),
        value == DOUBLE_ONE,
        double_whole(value),
        narrowed(value),
    )
}

/// The canonical stored value of a value already in single precision, or
/// `None` when it is outside the contract: the same rule as
/// [`canonical_double`], read from the single's own encoding, which is its
/// own rounding.
pub open spec fn canonical_single(kind: Kind, value: u32) -> Option<u32> {
    canonical_value(
        kind,
        single_is_finite(value),
        single_is_zero(value),
        value == SINGLE_ONE,
        single_whole(value),
        value,
    )
}

fn canonical_of(
    kind: &Kind,
    finite: bool,
    zero: bool,
    one: bool,
    whole: Option<u64>,
    rounded: u32,
) -> (canonical: Option<u32>)
    ensures
        canonical == canonical_value(
            *kind,
            finite,
            zero,
            one,
            match whole {
                Some(k) => Some(k as nat),
                None => None,
            },
            rounded,
        ),
{
    if !finite {
        return None;
    }
    match kind {
        Kind::Float { minimum, maximum, .. } => {
            if single_le_bits(*minimum, rounded) && single_le_bits(rounded, *maximum) {
                Some(rounded)
            } else {
                None
            }
        },
        Kind::Meter { minimum, maximum, .. } => {
            if single_le_bits(*minimum, rounded) && single_le_bits(rounded, *maximum) {
                Some(rounded)
            } else {
                None
            }
        },
        Kind::Boolean { .. } => {
            if zero {
                Some(0)
            } else if one {
                Some(SINGLE_ONE)
            } else {
                None
            }
        },
        Kind::Enum { choices, .. } => match whole {
            Some(k) => {
                if (k as u128) < (choices.len() as u128) {
                    Some(single_from_whole(k))
                } else {
                    None
                }
            },
            None => None,
        },
    }
}

impl ParameterSpec {
    pub fn default_value(&self) -> (value: u32)
        ensures
            value == default_of(self.kind),
    {
        match self.kind {
            Kind::Float { default, .. } => default,
            Kind::Boolean { default } => if default {
                SINGLE_ONE
            } else {
                0
            },
            Kind::Enum { default, .. } => single_from_whole(default as u64),
            Kind::Meter { maximum, .. } => maximum,
        }
    }

    pub fn is_meter(&self) -> (meter: bool)
        ensures
            meter == kind_is_meter(self.kind),
    {
        match self.kind {
            Kind::Meter { .. } => true,
            _ => false,
        }
    }

    /// Accepts a host value and returns the canonical stored value, or
    /// `None` when the value is outside the declared contract. RackForge
    /// validates first; this is the engine's own guard so a broken caller
    /// cannot poison the audio thread.
    ///
    /// The host value arrives in double precision, as its bit pattern; the
    /// settings block stores single precision.
    pub fn canonicalize(&self, value: u64) -> (canonical: Option<u32>)
        ensures
            canonical == canonical_double(self.kind, value),
    {
        let whole = double_whole_bits(value);
        canonical_of(
            &self.kind,
            double_is_finite_bits(value),
            value % DOUBLE_SIGN == 0,
            value == DOUBLE_ONE,
            whole,
            narrow(value),
        )
    }
}

/// Whether `accepted`, a value `kind` has accepted, is accepted again as it
/// stands: a finite float or meter value, any switch value, a list choice
/// whose number, as single precision holds it, is still below the list's
/// length. An infinity is not one: a float or meter with an infinite bound
/// accepts it for a host value past the largest single, and refuses it as a
/// host value. Nor is a choice of a list longer than `2^24` that rounding to
/// single precision lifts to the list's length or past it.
pub open spec fn settles(kind: Kind, accepted: u32) -> bool {
    match kind {
        Kind::Float { .. } => single_is_finite(accepted),
        Kind::Meter { .. } => single_is_finite(accepted),
        Kind::Boolean { .. } => true,
        Kind::Enum { choices, .. } => match single_whole(accepted) {
            Some(number) => number < choices@.len(),
            None => false,
        },
    }
}

/// A kind all of whose accepted values settle: a float or a meter with
/// finite bounds, a switch, a list of at most `2^24` choices.
pub open spec fn is_settling_kind(kind: Kind) -> bool {
    match kind {
        Kind::Float { minimum, maximum, .. } => single_is_finite(minimum) && single_is_finite(
            maximum,
        ),
        Kind::Meter { minimum, maximum, .. } => single_is_finite(minimum) && single_is_finite(
            maximum,
        ),
        Kind::Boolean { .. } => true,
        Kind::Enum { choices, .. } => choices@.len() <= 0x100_0000,
    }
}

/// Between finite bounds every accepted value is finite.
pub proof fn lemma_settling_kind_settles(kind: Kind, value: u64)
    requires
        is_settling_kind(kind),
        canonical_double(kind, value) is Some,
    ensures
        settles(kind, canonical_double(kind, value).unwrap()),
{
    match kind {
        Kind::Float { minimum, maximum, .. } => {
            lemma_between_finite_is_finite(minimum, narrowed(value), maximum);
        },
        Kind::Meter { minimum, maximum, .. } => {
            lemma_between_finite_is_finite(minimum, narrowed(value), maximum);
        },
        Kind::Enum { .. } => {
            lemma_small_whole_is_exact(double_whole(value).unwrap());
        },
        _ => {},
    }
}

/// A single and its widening are accepted alike, as the same stored value,
/// or refused alike: reading a single through the host's double-precision
/// path decides as reading it directly does, for every kind.
pub proof fn lemma_single_reads_as_its_widening(kind: Kind, value: u32)
    ensures
        canonical_double(kind, widened(value)) == canonical_single(kind, value),
{
    if !single_is_nan(value) {
        lemma_widened_narrows_back(value);
        lemma_widened_whole(value);
    } else {
        assert(single_exponent(value) == 255);
        assert(double_exponent(widened(value)) == 2047);
    }
}

/// A value the contract has accepted from the host, when it settles, is
/// accepted again unchanged, whether it comes back as a single or widened
/// to a double.
pub proof fn lemma_accepted_is_accepted_again(kind: Kind, value: u64)
    requires
        canonical_double(kind, value) is Some,
        settles(kind, canonical_double(kind, value).unwrap()),
    ensures
        canonical_single(kind, canonical_double(kind, value).unwrap()) == canonical_double(
            kind,
            value,
        ),
        canonical_double(kind, widened(canonical_double(kind, value).unwrap())) == canonical_double(
            kind,
            value,
        ),
{
    let accepted = canonical_double(kind, value).unwrap();
    match kind {
        Kind::Enum { .. } => {
            lemma_wholes_are_below_2_64(0, value);
            lemma_single_of_whole_is_positive(double_whole(value).unwrap());
            lemma_whole_single_is_nearest(accepted);
        },
        _ => {},
    }
    lemma_single_reads_as_its_widening(kind, accepted);
}

/// The single-precision form of [`lemma_accepted_is_accepted_again`].
pub proof fn lemma_single_accepted_is_accepted_again(kind: Kind, value: u32)
    requires
        canonical_single(kind, value) is Some,
        settles(kind, canonical_single(kind, value).unwrap()),
    ensures
        canonical_single(kind, canonical_single(kind, value).unwrap()) == canonical_single(
            kind,
            value,
        ),
        canonical_double(kind, widened(canonical_single(kind, value).unwrap())) == canonical_single(
            kind,
            value,
        ),
{
    let accepted = canonical_single(kind, value).unwrap();
    match kind {
        Kind::Enum { .. } => {
            lemma_wholes_are_below_2_64(value, 0);
            lemma_single_of_whole_is_positive(single_whole(value).unwrap());
            lemma_whole_single_is_nearest(accepted);
        },
        _ => {},
    }
    lemma_single_reads_as_its_widening(kind, accepted);
}


/// `-BAND_GAIN_DB`: the sign bit set on fifteen decibels.
pub const NEGATIVE_BAND_GAIN_DB: u32 = 0xC170_0000;

/// A frequency in hertz on the Filters page, travelling logarithmically, to
/// the nearest hertz.
pub open spec fn hertz_spec(
    index: u32,
    id: &'static str,
    name: &'static str,
    order: i32,
    minimum: u32,
    maximum: u32,
    default: u32,
) -> ParameterSpec {
    ParameterSpec {
        index,
        id,
        name,
        page: "filters",
        order,
        kind: Kind::Float {
            minimum,
            maximum,
            default,
            step: 0x3F80_0000,  // 1
            unit: Some("Hz"),
            taper: Taper::Logarithmic,
        },
        control: Control::Knob,
    }
}

/// A gain in decibels, to a tenth, at rest at zero.
pub open spec fn decibels_spec(
    index: u32,
    id: &'static str,
    name: &'static str,
    page: &'static str,
    order: i32,
    minimum: u32,
    maximum: u32,
) -> ParameterSpec {
    ParameterSpec {
        index,
        id,
        name,
        page,
        order,
        kind: Kind::Float {
            minimum,
            maximum,
            default: 0,
            step: 0x3DCC_CCCD,  // 0.1
            unit: Some("dB"),
            taper: Taper::Linear,
        },
        control: Control::Knob,
    }
}

/// A peak band's width as a quality factor, from a bell more than two
/// octaves wide (0.3) to a narrow notch (10), travelling logarithmically,
/// at rest at one.
pub open spec fn quality_spec(index: u32, id: &'static str, name: &'static str, order: i32) -> ParameterSpec {
    ParameterSpec {
        index,
        id,
        name,
        page: "filters",
        order,
        kind: Kind::Float {
            minimum: 0x3E99_999A,  // 0.3
            maximum: 0x4120_0000,  // 10
            default: 0x3F80_0000,  // 1
            step: 0x3C23_D70A,  // 0.01
            unit: None,
            taper: Taper::Logarithmic,
        },
        control: Control::Knob,
    }
}

/// An on/off switch.
pub open spec fn switch_spec(
    index: u32,
    id: &'static str,
    name: &'static str,
    page: &'static str,
    order: i32,
    default: bool,
) -> ParameterSpec {
    ParameterSpec {
        index,
        id,
        name,
        page,
        order,
        kind: Kind::Boolean { default },
        control: Control::Toggle,
    }
}

fn hertz(
    index: u32,
    id: &'static str,
    name: &'static str,
    order: i32,
    minimum: u32,
    maximum: u32,
    default: u32,
) -> (spec: ParameterSpec)
    ensures
        spec == hertz_spec(index, id, name, order, minimum, maximum, default),
{
    ParameterSpec {
        index,
        id,
        name,
        page: "filters",
        order,
        kind: Kind::Float {
            minimum,
            maximum,
            default,
            step: 0x3F80_0000,
            unit: Some("Hz"),
            taper: Taper::Logarithmic,
        },
        control: Control::Knob,
    }
}

fn decibels(
    index: u32,
    id: &'static str,
    name: &'static str,
    page: &'static str,
    order: i32,
    minimum: u32,
    maximum: u32,
) -> (spec: ParameterSpec)
    ensures
        spec == decibels_spec(index, id, name, page, order, minimum, maximum),
{
    ParameterSpec {
        index,
        id,
        name,
        page,
        order,
        kind: Kind::Float {
            minimum,
            maximum,
            default: 0,
            step: 0x3DCC_CCCD,
            unit: Some("dB"),
            taper: Taper::Linear,
        },
        control: Control::Knob,
    }
}

fn quality(index: u32, id: &'static str, name: &'static str, order: i32) -> (spec: ParameterSpec)
    ensures
        spec == quality_spec(index, id, name, order),
{
    ParameterSpec {
        index,
        id,
        name,
        page: "filters",
        order,
        kind: Kind::Float {
            minimum: 0x3E99_999A,
            maximum: 0x4120_0000,
            default: 0x3F80_0000,
            step: 0x3C23_D70A,
            unit: None,
            taper: Taper::Logarithmic,
        },
        control: Control::Knob,
    }
}

fn switch(
    index: u32,
    id: &'static str,
    name: &'static str,
    page: &'static str,
    order: i32,
    default: bool,
) -> (spec: ParameterSpec)
    ensures
        spec == switch_spec(index, id, name, page, order, default),
{
    ParameterSpec { index, id, name, page, order, kind: Kind::Boolean { default }, control: Control::Toggle }
}

/// The parameter table, in index order.
pub open spec fn parameter_spec(index: int) -> ParameterSpec {
    if index == 0 {
        switch_spec(0, "hpf.enable", "High-pass", "filters", 0, false)
    } else if index == 1 {
        hertz_spec(1, "hpf.frequency", "HPF Freq", 1, 0x41A0_0000, 0x43FA_0000, 0x4220_0000)  // 20 .. 500 Hz, at 40
    } else if index == 2 {
        hertz_spec(2, "low_shelf.frequency", "Low Freq", 10, 0x4220_0000, 0x447A_0000, 0x42F0_0000)  // 40 .. 1000 Hz, at 120
    } else if index == 3 {
        decibels_spec(3, "low_shelf.gain", "Low Gain", "filters", 11, NEGATIVE_BAND_GAIN_DB, BAND_GAIN_DB)
    } else if index == 4 {
        hertz_spec(4, "peak1.frequency", "Peak 1 Freq", 20, 0x42C8_0000, 0x45FA_0000, 0x43FA_0000)  // 100 .. 8000 Hz, at 500
    } else if index == 5 {
        decibels_spec(5, "peak1.gain", "Peak 1 Gain", "filters", 21, NEGATIVE_BAND_GAIN_DB, BAND_GAIN_DB)
    } else if index == 6 {
        quality_spec(6, "peak1.q", "Peak 1 Q", 22)
    } else if index == 7 {
        hertz_spec(7, "peak2.frequency", "Peak 2 Freq", 30, 0x4348_0000, 0x467A_0000, 0x453B_8000)  // 200 .. 16000 Hz, at 3000
    } else if index == 8 {
        decibels_spec(8, "peak2.gain", "Peak 2 Gain", "filters", 31, NEGATIVE_BAND_GAIN_DB, BAND_GAIN_DB)
    } else if index == 9 {
        quality_spec(9, "peak2.q", "Peak 2 Q", 32)
    } else if index == 10 {
        hertz_spec(10, "high_shelf.frequency", "High Freq", 60, 0x447A_0000, 0x467A_0000, 0x45FA_0000)  // 1000 .. 16000 Hz, at 8000
    } else if index == 11 {
        decibels_spec(11, "high_shelf.gain", "High Gain", "filters", 61, NEGATIVE_BAND_GAIN_DB, BAND_GAIN_DB)
    } else if index == 12 {
        decibels_spec(12, "output.trim", "Output", "output", 0, 0xC1C0_0000, 0x41C0_0000)  // -24 .. 24 dB
    } else if index == 13 {
        switch_spec(13, "output.bypass", "Bypass", "output", 1, false)
    } else if index == 14 {
        hertz_spec(14, "peak3.frequency", "Peak 3 Freq", 40, 0x4396_0000, 0x469C_4000, 0x45BB_8000)  // 300 .. 20000 Hz, at 6000
    } else if index == 15 {
        decibels_spec(15, "peak3.gain", "Peak 3 Gain", "filters", 41, NEGATIVE_BAND_GAIN_DB, BAND_GAIN_DB)
    } else if index == 16 {
        quality_spec(16, "peak3.q", "Peak 3 Q", 42)
    } else if index == 17 {
        hertz_spec(17, "peak4.frequency", "Peak 4 Freq", 50, 0x43FA_0000, 0x469C_4000, 0x463B_8000)  // 500 .. 20000 Hz, at 12000
    } else if index == 18 {
        decibels_spec(18, "peak4.gain", "Peak 4 Gain", "filters", 51, NEGATIVE_BAND_GAIN_DB, BAND_GAIN_DB)
    } else if index == 19 {
        quality_spec(19, "peak4.q", "Peak 4 Q", 52)
    } else if index == 20 {
        switch_spec(20, "lpf.enable", "Low-pass", "filters", 70, false)
    } else {
        hertz_spec(21, "lpf.frequency", "LPF Freq", 71, 0x43FA_0000, 0x469C_4000, 0x469C_4000)  // 500 .. 20000 Hz, at 20000
    }
}

/// The parameter at `index`.
pub fn parameter(index: usize) -> (spec: ParameterSpec)
    requires
        index < PARAMETER_COUNT,
    ensures
        spec == parameter_spec(index as int),
{
    match index {
        0 => switch(0, "hpf.enable", "High-pass", "filters", 0, false),
        1 => hertz(1, "hpf.frequency", "HPF Freq", 1, 0x41A0_0000, 0x43FA_0000, 0x4220_0000),  // 20 .. 500 Hz, at 40
        2 => hertz(2, "low_shelf.frequency", "Low Freq", 10, 0x4220_0000, 0x447A_0000, 0x42F0_0000),  // 40 .. 1000 Hz, at 120
        3 => decibels(3, "low_shelf.gain", "Low Gain", "filters", 11, NEGATIVE_BAND_GAIN_DB, BAND_GAIN_DB),
        4 => hertz(4, "peak1.frequency", "Peak 1 Freq", 20, 0x42C8_0000, 0x45FA_0000, 0x43FA_0000),  // 100 .. 8000 Hz, at 500
        5 => decibels(5, "peak1.gain", "Peak 1 Gain", "filters", 21, NEGATIVE_BAND_GAIN_DB, BAND_GAIN_DB),
        6 => quality(6, "peak1.q", "Peak 1 Q", 22),
        7 => hertz(7, "peak2.frequency", "Peak 2 Freq", 30, 0x4348_0000, 0x467A_0000, 0x453B_8000),  // 200 .. 16000 Hz, at 3000
        8 => decibels(8, "peak2.gain", "Peak 2 Gain", "filters", 31, NEGATIVE_BAND_GAIN_DB, BAND_GAIN_DB),
        9 => quality(9, "peak2.q", "Peak 2 Q", 32),
        10 => hertz(10, "high_shelf.frequency", "High Freq", 60, 0x447A_0000, 0x467A_0000, 0x45FA_0000),  // 1000 .. 16000 Hz, at 8000
        11 => decibels(11, "high_shelf.gain", "High Gain", "filters", 61, NEGATIVE_BAND_GAIN_DB, BAND_GAIN_DB),
        12 => decibels(12, "output.trim", "Output", "output", 0, 0xC1C0_0000, 0x41C0_0000),  // -24 .. 24 dB
        13 => switch(13, "output.bypass", "Bypass", "output", 1, false),
        14 => hertz(14, "peak3.frequency", "Peak 3 Freq", 40, 0x4396_0000, 0x469C_4000, 0x45BB_8000),  // 300 .. 20000 Hz, at 6000
        15 => decibels(15, "peak3.gain", "Peak 3 Gain", "filters", 41, NEGATIVE_BAND_GAIN_DB, BAND_GAIN_DB),
        16 => quality(16, "peak3.q", "Peak 3 Q", 42),
        17 => hertz(17, "peak4.frequency", "Peak 4 Freq", 50, 0x43FA_0000, 0x469C_4000, 0x463B_8000),  // 500 .. 20000 Hz, at 12000
        18 => decibels(18, "peak4.gain", "Peak 4 Gain", "filters", 51, NEGATIVE_BAND_GAIN_DB, BAND_GAIN_DB),
        19 => quality(19, "peak4.q", "Peak 4 Q", 52),
        20 => switch(20, "lpf.enable", "Low-pass", "filters", 70, false),
        _ => hertz(21, "lpf.frequency", "LPF Freq", 71, 0x43FA_0000, 0x469C_4000, 0x469C_4000),  // 500 .. 20000 Hz, at 20000
    }
}

/// Every parameter, in index order.
pub fn parameters() -> (all: Vec<ParameterSpec>)
    ensures
        all@.len() == PARAMETER_COUNT,
        forall|i: int| 0 <= i < PARAMETER_COUNT ==> #[trigger] all@[i] == parameter_spec(i),
{
    let mut all: Vec<ParameterSpec> = Vec::new();
    let mut index: usize = 0;
    while index < PARAMETER_COUNT
        invariant
            index <= PARAMETER_COUNT,
            all@.len() == index,
            forall|i: int| 0 <= i < index ==> #[trigger] all@[i] == parameter_spec(i),
        decreases PARAMETER_COUNT - index,
    {
        all.push(parameter(index));
        index = index + 1;
    }
    all
}


/// The index of the parameter whose identifier is `id`, if any.
pub fn parameter_index(id: &str) -> (found: Option<u32>)
    ensures
        found matches Some(index) ==> index < PARAMETER_COUNT && parameter_spec(index as int).id@ == id@,
        found is None ==> forall|i: int| 0 <= i < PARAMETER_COUNT ==> #[trigger] parameter_spec(i).id@ != id@,
{
    let mut index: usize = 0;
    while index < PARAMETER_COUNT
        invariant
            index <= PARAMETER_COUNT,
            forall|i: int| 0 <= i < index ==> #[trigger] parameter_spec(i).id@ != id@,
        decreases PARAMETER_COUNT - index,
    {
        if crate::text::same_text(parameter(index).id, id) {
            return Some(index as u32);
        }
        index = index + 1;
    }
    None
}

/// A character RackForge accepts in a parameter identifier.
pub open spec fn is_identifier_char(c: char) -> bool {
    ('a' <= c && c <= 'z') || ('0' <= c && c <= '9') || c == '.' || c == '-' || c == '_'
}

/// Every parameter carries its own position in the table as its index.
pub proof fn lemma_every_parameter_declares_its_own_index()
    ensures
        forall|i: int| 0 <= i < PARAMETER_COUNT ==> #[trigger] parameter_spec(i).index == i,
{
}

/// Whether `id` names a declared editor page.
pub open spec fn is_declared_page(id: &'static str) -> bool {
    exists|p: int| 0 <= p < PAGE_COUNT && #[trigger] page_spec(p).id == id
}

/// Every parameter sits on a declared page.
pub proof fn lemma_every_parameter_sits_on_a_known_page()
    ensures
        forall|i: int| 0 <= i < PARAMETER_COUNT ==> is_declared_page(#[trigger] parameter_spec(i).page),
{
    assert forall|i: int| 0 <= i < PARAMETER_COUNT implies is_declared_page(
        #[trigger] parameter_spec(i).page,
    ) by {
        if parameter_spec(i).page == page_spec(0).id {
        } else {
            assert(page_spec(1).id == parameter_spec(i).page);
        }
    }
}

/// Every identifier is made of characters the host accepts.
#[verifier::rlimit(40)]
pub proof fn lemma_parameter_identifiers_are_host_legal()
    ensures
        forall|i: int, k: int|
            0 <= i < PARAMETER_COUNT && 0 <= k < parameter_spec(i).id@.len() ==> is_identifier_char(
                #[trigger] parameter_spec(i).id@[k],
            ),
{
        reveal_strlit("hpf.enable");
        reveal_strlit("hpf.frequency");
        reveal_strlit("low_shelf.frequency");
        reveal_strlit("low_shelf.gain");
        reveal_strlit("peak1.frequency");
        reveal_strlit("peak1.gain");
        reveal_strlit("peak1.q");
        reveal_strlit("peak2.frequency");
        reveal_strlit("peak2.gain");
        reveal_strlit("peak2.q");
        reveal_strlit("high_shelf.frequency");
        reveal_strlit("high_shelf.gain");
        reveal_strlit("output.trim");
        reveal_strlit("output.bypass");
        reveal_strlit("peak3.frequency");
        reveal_strlit("peak3.gain");
        reveal_strlit("peak3.q");
        reveal_strlit("peak4.frequency");
        reveal_strlit("peak4.gain");
        reveal_strlit("peak4.q");
        reveal_strlit("lpf.enable");
        reveal_strlit("lpf.frequency");
}

/// No two parameters share an identifier.
#[verifier::rlimit(40)]
pub proof fn lemma_parameter_identifiers_are_unique()
    ensures
        forall|i: int, j: int|
            0 <= i < PARAMETER_COUNT && 0 <= j < PARAMETER_COUNT && i != j ==> #[trigger] parameter_spec(i).id@
                != #[trigger] parameter_spec(j).id@,
{
    reveal_strlit("hpf.enable");
    reveal_strlit("hpf.frequency");
    reveal_strlit("low_shelf.frequency");
    reveal_strlit("low_shelf.gain");
    reveal_strlit("peak1.frequency");
    reveal_strlit("peak1.gain");
    reveal_strlit("peak1.q");
    reveal_strlit("peak2.frequency");
    reveal_strlit("peak2.gain");
    reveal_strlit("peak2.q");
    reveal_strlit("high_shelf.frequency");
    reveal_strlit("high_shelf.gain");
    reveal_strlit("output.trim");
    reveal_strlit("output.bypass");
    reveal_strlit("peak3.frequency");
    reveal_strlit("peak3.gain");
    reveal_strlit("peak3.q");
    reveal_strlit("peak4.frequency");
    reveal_strlit("peak4.gain");
    reveal_strlit("peak4.q");
    reveal_strlit("lpf.enable");
    reveal_strlit("lpf.frequency");
    assert("hpf.enable"@.len() != "hpf.frequency"@.len());
    assert("hpf.enable"@.len() != "low_shelf.frequency"@.len());
    assert("hpf.enable"@.len() != "low_shelf.gain"@.len());
    assert("hpf.enable"@.len() != "peak1.frequency"@.len());
    assert("hpf.enable"@[0] != "peak1.gain"@[0]);
    assert("hpf.enable"@.len() != "peak1.q"@.len());
    assert("hpf.enable"@.len() != "peak2.frequency"@.len());
    assert("hpf.enable"@[0] != "peak2.gain"@[0]);
    assert("hpf.enable"@.len() != "peak2.q"@.len());
    assert("hpf.enable"@.len() != "high_shelf.frequency"@.len());
    assert("hpf.enable"@.len() != "high_shelf.gain"@.len());
    assert("hpf.enable"@.len() != "output.trim"@.len());
    assert("hpf.enable"@.len() != "output.bypass"@.len());
    assert("hpf.enable"@.len() != "peak3.frequency"@.len());
    assert("hpf.enable"@[0] != "peak3.gain"@[0]);
    assert("hpf.enable"@.len() != "peak3.q"@.len());
    assert("hpf.enable"@.len() != "peak4.frequency"@.len());
    assert("hpf.enable"@[0] != "peak4.gain"@[0]);
    assert("hpf.enable"@.len() != "peak4.q"@.len());
    assert("hpf.enable"@[0] != "lpf.enable"@[0]);
    assert("hpf.enable"@.len() != "lpf.frequency"@.len());
    assert("hpf.frequency"@.len() != "low_shelf.frequency"@.len());
    assert("hpf.frequency"@.len() != "low_shelf.gain"@.len());
    assert("hpf.frequency"@.len() != "peak1.frequency"@.len());
    assert("hpf.frequency"@.len() != "peak1.gain"@.len());
    assert("hpf.frequency"@.len() != "peak1.q"@.len());
    assert("hpf.frequency"@.len() != "peak2.frequency"@.len());
    assert("hpf.frequency"@.len() != "peak2.gain"@.len());
    assert("hpf.frequency"@.len() != "peak2.q"@.len());
    assert("hpf.frequency"@.len() != "high_shelf.frequency"@.len());
    assert("hpf.frequency"@.len() != "high_shelf.gain"@.len());
    assert("hpf.frequency"@.len() != "output.trim"@.len());
    assert("hpf.frequency"@[0] != "output.bypass"@[0]);
    assert("hpf.frequency"@.len() != "peak3.frequency"@.len());
    assert("hpf.frequency"@.len() != "peak3.gain"@.len());
    assert("hpf.frequency"@.len() != "peak3.q"@.len());
    assert("hpf.frequency"@.len() != "peak4.frequency"@.len());
    assert("hpf.frequency"@.len() != "peak4.gain"@.len());
    assert("hpf.frequency"@.len() != "peak4.q"@.len());
    assert("hpf.frequency"@.len() != "lpf.enable"@.len());
    assert("hpf.frequency"@[0] != "lpf.frequency"@[0]);
    assert("low_shelf.frequency"@.len() != "low_shelf.gain"@.len());
    assert("low_shelf.frequency"@.len() != "peak1.frequency"@.len());
    assert("low_shelf.frequency"@.len() != "peak1.gain"@.len());
    assert("low_shelf.frequency"@.len() != "peak1.q"@.len());
    assert("low_shelf.frequency"@.len() != "peak2.frequency"@.len());
    assert("low_shelf.frequency"@.len() != "peak2.gain"@.len());
    assert("low_shelf.frequency"@.len() != "peak2.q"@.len());
    assert("low_shelf.frequency"@.len() != "high_shelf.frequency"@.len());
    assert("low_shelf.frequency"@.len() != "high_shelf.gain"@.len());
    assert("low_shelf.frequency"@.len() != "output.trim"@.len());
    assert("low_shelf.frequency"@.len() != "output.bypass"@.len());
    assert("low_shelf.frequency"@.len() != "peak3.frequency"@.len());
    assert("low_shelf.frequency"@.len() != "peak3.gain"@.len());
    assert("low_shelf.frequency"@.len() != "peak3.q"@.len());
    assert("low_shelf.frequency"@.len() != "peak4.frequency"@.len());
    assert("low_shelf.frequency"@.len() != "peak4.gain"@.len());
    assert("low_shelf.frequency"@.len() != "peak4.q"@.len());
    assert("low_shelf.frequency"@.len() != "lpf.enable"@.len());
    assert("low_shelf.frequency"@.len() != "lpf.frequency"@.len());
    assert("low_shelf.gain"@.len() != "peak1.frequency"@.len());
    assert("low_shelf.gain"@.len() != "peak1.gain"@.len());
    assert("low_shelf.gain"@.len() != "peak1.q"@.len());
    assert("low_shelf.gain"@.len() != "peak2.frequency"@.len());
    assert("low_shelf.gain"@.len() != "peak2.gain"@.len());
    assert("low_shelf.gain"@.len() != "peak2.q"@.len());
    assert("low_shelf.gain"@.len() != "high_shelf.frequency"@.len());
    assert("low_shelf.gain"@.len() != "high_shelf.gain"@.len());
    assert("low_shelf.gain"@.len() != "output.trim"@.len());
    assert("low_shelf.gain"@.len() != "output.bypass"@.len());
    assert("low_shelf.gain"@.len() != "peak3.frequency"@.len());
    assert("low_shelf.gain"@.len() != "peak3.gain"@.len());
    assert("low_shelf.gain"@.len() != "peak3.q"@.len());
    assert("low_shelf.gain"@.len() != "peak4.frequency"@.len());
    assert("low_shelf.gain"@.len() != "peak4.gain"@.len());
    assert("low_shelf.gain"@.len() != "peak4.q"@.len());
    assert("low_shelf.gain"@.len() != "lpf.enable"@.len());
    assert("low_shelf.gain"@.len() != "lpf.frequency"@.len());
    assert("peak1.frequency"@.len() != "peak1.gain"@.len());
    assert("peak1.frequency"@.len() != "peak1.q"@.len());
    assert("peak1.frequency"@[4] != "peak2.frequency"@[4]);
    assert("peak1.frequency"@.len() != "peak2.gain"@.len());
    assert("peak1.frequency"@.len() != "peak2.q"@.len());
    assert("peak1.frequency"@.len() != "high_shelf.frequency"@.len());
    assert("peak1.frequency"@[0] != "high_shelf.gain"@[0]);
    assert("peak1.frequency"@.len() != "output.trim"@.len());
    assert("peak1.frequency"@.len() != "output.bypass"@.len());
    assert("peak1.frequency"@[4] != "peak3.frequency"@[4]);
    assert("peak1.frequency"@.len() != "peak3.gain"@.len());
    assert("peak1.frequency"@.len() != "peak3.q"@.len());
    assert("peak1.frequency"@[4] != "peak4.frequency"@[4]);
    assert("peak1.frequency"@.len() != "peak4.gain"@.len());
    assert("peak1.frequency"@.len() != "peak4.q"@.len());
    assert("peak1.frequency"@.len() != "lpf.enable"@.len());
    assert("peak1.frequency"@.len() != "lpf.frequency"@.len());
    assert("peak1.gain"@.len() != "peak1.q"@.len());
    assert("peak1.gain"@.len() != "peak2.frequency"@.len());
    assert("peak1.gain"@[4] != "peak2.gain"@[4]);
    assert("peak1.gain"@.len() != "peak2.q"@.len());
    assert("peak1.gain"@.len() != "high_shelf.frequency"@.len());
    assert("peak1.gain"@.len() != "high_shelf.gain"@.len());
    assert("peak1.gain"@.len() != "output.trim"@.len());
    assert("peak1.gain"@.len() != "output.bypass"@.len());
    assert("peak1.gain"@.len() != "peak3.frequency"@.len());
    assert("peak1.gain"@[4] != "peak3.gain"@[4]);
    assert("peak1.gain"@.len() != "peak3.q"@.len());
    assert("peak1.gain"@.len() != "peak4.frequency"@.len());
    assert("peak1.gain"@[4] != "peak4.gain"@[4]);
    assert("peak1.gain"@.len() != "peak4.q"@.len());
    assert("peak1.gain"@[0] != "lpf.enable"@[0]);
    assert("peak1.gain"@.len() != "lpf.frequency"@.len());
    assert("peak1.q"@.len() != "peak2.frequency"@.len());
    assert("peak1.q"@.len() != "peak2.gain"@.len());
    assert("peak1.q"@[4] != "peak2.q"@[4]);
    assert("peak1.q"@.len() != "high_shelf.frequency"@.len());
    assert("peak1.q"@.len() != "high_shelf.gain"@.len());
    assert("peak1.q"@.len() != "output.trim"@.len());
    assert("peak1.q"@.len() != "output.bypass"@.len());
    assert("peak1.q"@.len() != "peak3.frequency"@.len());
    assert("peak1.q"@.len() != "peak3.gain"@.len());
    assert("peak1.q"@[4] != "peak3.q"@[4]);
    assert("peak1.q"@.len() != "peak4.frequency"@.len());
    assert("peak1.q"@.len() != "peak4.gain"@.len());
    assert("peak1.q"@[4] != "peak4.q"@[4]);
    assert("peak1.q"@.len() != "lpf.enable"@.len());
    assert("peak1.q"@.len() != "lpf.frequency"@.len());
    assert("peak2.frequency"@.len() != "peak2.gain"@.len());
    assert("peak2.frequency"@.len() != "peak2.q"@.len());
    assert("peak2.frequency"@.len() != "high_shelf.frequency"@.len());
    assert("peak2.frequency"@[0] != "high_shelf.gain"@[0]);
    assert("peak2.frequency"@.len() != "output.trim"@.len());
    assert("peak2.frequency"@.len() != "output.bypass"@.len());
    assert("peak2.frequency"@[4] != "peak3.frequency"@[4]);
    assert("peak2.frequency"@.len() != "peak3.gain"@.len());
    assert("peak2.frequency"@.len() != "peak3.q"@.len());
    assert("peak2.frequency"@[4] != "peak4.frequency"@[4]);
    assert("peak2.frequency"@.len() != "peak4.gain"@.len());
    assert("peak2.frequency"@.len() != "peak4.q"@.len());
    assert("peak2.frequency"@.len() != "lpf.enable"@.len());
    assert("peak2.frequency"@.len() != "lpf.frequency"@.len());
    assert("peak2.gain"@.len() != "peak2.q"@.len());
    assert("peak2.gain"@.len() != "high_shelf.frequency"@.len());
    assert("peak2.gain"@.len() != "high_shelf.gain"@.len());
    assert("peak2.gain"@.len() != "output.trim"@.len());
    assert("peak2.gain"@.len() != "output.bypass"@.len());
    assert("peak2.gain"@.len() != "peak3.frequency"@.len());
    assert("peak2.gain"@[4] != "peak3.gain"@[4]);
    assert("peak2.gain"@.len() != "peak3.q"@.len());
    assert("peak2.gain"@.len() != "peak4.frequency"@.len());
    assert("peak2.gain"@[4] != "peak4.gain"@[4]);
    assert("peak2.gain"@.len() != "peak4.q"@.len());
    assert("peak2.gain"@[0] != "lpf.enable"@[0]);
    assert("peak2.gain"@.len() != "lpf.frequency"@.len());
    assert("peak2.q"@.len() != "high_shelf.frequency"@.len());
    assert("peak2.q"@.len() != "high_shelf.gain"@.len());
    assert("peak2.q"@.len() != "output.trim"@.len());
    assert("peak2.q"@.len() != "output.bypass"@.len());
    assert("peak2.q"@.len() != "peak3.frequency"@.len());
    assert("peak2.q"@.len() != "peak3.gain"@.len());
    assert("peak2.q"@[4] != "peak3.q"@[4]);
    assert("peak2.q"@.len() != "peak4.frequency"@.len());
    assert("peak2.q"@.len() != "peak4.gain"@.len());
    assert("peak2.q"@[4] != "peak4.q"@[4]);
    assert("peak2.q"@.len() != "lpf.enable"@.len());
    assert("peak2.q"@.len() != "lpf.frequency"@.len());
    assert("high_shelf.frequency"@.len() != "high_shelf.gain"@.len());
    assert("high_shelf.frequency"@.len() != "output.trim"@.len());
    assert("high_shelf.frequency"@.len() != "output.bypass"@.len());
    assert("high_shelf.frequency"@.len() != "peak3.frequency"@.len());
    assert("high_shelf.frequency"@.len() != "peak3.gain"@.len());
    assert("high_shelf.frequency"@.len() != "peak3.q"@.len());
    assert("high_shelf.frequency"@.len() != "peak4.frequency"@.len());
    assert("high_shelf.frequency"@.len() != "peak4.gain"@.len());
    assert("high_shelf.frequency"@.len() != "peak4.q"@.len());
    assert("high_shelf.frequency"@.len() != "lpf.enable"@.len());
    assert("high_shelf.frequency"@.len() != "lpf.frequency"@.len());
    assert("high_shelf.gain"@.len() != "output.trim"@.len());
    assert("high_shelf.gain"@.len() != "output.bypass"@.len());
    assert("high_shelf.gain"@[0] != "peak3.frequency"@[0]);
    assert("high_shelf.gain"@.len() != "peak3.gain"@.len());
    assert("high_shelf.gain"@.len() != "peak3.q"@.len());
    assert("high_shelf.gain"@[0] != "peak4.frequency"@[0]);
    assert("high_shelf.gain"@.len() != "peak4.gain"@.len());
    assert("high_shelf.gain"@.len() != "peak4.q"@.len());
    assert("high_shelf.gain"@.len() != "lpf.enable"@.len());
    assert("high_shelf.gain"@.len() != "lpf.frequency"@.len());
    assert("output.trim"@.len() != "output.bypass"@.len());
    assert("output.trim"@.len() != "peak3.frequency"@.len());
    assert("output.trim"@.len() != "peak3.gain"@.len());
    assert("output.trim"@.len() != "peak3.q"@.len());
    assert("output.trim"@.len() != "peak4.frequency"@.len());
    assert("output.trim"@.len() != "peak4.gain"@.len());
    assert("output.trim"@.len() != "peak4.q"@.len());
    assert("output.trim"@.len() != "lpf.enable"@.len());
    assert("output.trim"@.len() != "lpf.frequency"@.len());
    assert("output.bypass"@.len() != "peak3.frequency"@.len());
    assert("output.bypass"@.len() != "peak3.gain"@.len());
    assert("output.bypass"@.len() != "peak3.q"@.len());
    assert("output.bypass"@.len() != "peak4.frequency"@.len());
    assert("output.bypass"@.len() != "peak4.gain"@.len());
    assert("output.bypass"@.len() != "peak4.q"@.len());
    assert("output.bypass"@.len() != "lpf.enable"@.len());
    assert("output.bypass"@[0] != "lpf.frequency"@[0]);
    assert("peak3.frequency"@.len() != "peak3.gain"@.len());
    assert("peak3.frequency"@.len() != "peak3.q"@.len());
    assert("peak3.frequency"@[4] != "peak4.frequency"@[4]);
    assert("peak3.frequency"@.len() != "peak4.gain"@.len());
    assert("peak3.frequency"@.len() != "peak4.q"@.len());
    assert("peak3.frequency"@.len() != "lpf.enable"@.len());
    assert("peak3.frequency"@.len() != "lpf.frequency"@.len());
    assert("peak3.gain"@.len() != "peak3.q"@.len());
    assert("peak3.gain"@.len() != "peak4.frequency"@.len());
    assert("peak3.gain"@[4] != "peak4.gain"@[4]);
    assert("peak3.gain"@.len() != "peak4.q"@.len());
    assert("peak3.gain"@[0] != "lpf.enable"@[0]);
    assert("peak3.gain"@.len() != "lpf.frequency"@.len());
    assert("peak3.q"@.len() != "peak4.frequency"@.len());
    assert("peak3.q"@.len() != "peak4.gain"@.len());
    assert("peak3.q"@[4] != "peak4.q"@[4]);
    assert("peak3.q"@.len() != "lpf.enable"@.len());
    assert("peak3.q"@.len() != "lpf.frequency"@.len());
    assert("peak4.frequency"@.len() != "peak4.gain"@.len());
    assert("peak4.frequency"@.len() != "peak4.q"@.len());
    assert("peak4.frequency"@.len() != "lpf.enable"@.len());
    assert("peak4.frequency"@.len() != "lpf.frequency"@.len());
    assert("peak4.gain"@.len() != "peak4.q"@.len());
    assert("peak4.gain"@[0] != "lpf.enable"@[0]);
    assert("peak4.gain"@.len() != "lpf.frequency"@.len());
    assert("peak4.q"@.len() != "lpf.enable"@.len());
    assert("peak4.q"@.len() != "lpf.frequency"@.len());
    assert("lpf.enable"@.len() != "lpf.frequency"@.len());
    assert forall|i: int, j: int|
        0 <= i < j < PARAMETER_COUNT implies parameter_spec(i).id@ != parameter_spec(j).id@ by {
    }
}

/// Each named index points at the identifier its name claims.
pub proof fn lemma_named_indexes_point_at_their_identifiers()
    ensures
        parameter_spec(HPF_ENABLE as int).id@ == "hpf.enable"@,
        parameter_spec(HPF_FREQUENCY as int).id@ == "hpf.frequency"@,
        parameter_spec(LOW_SHELF_FREQUENCY as int).id@ == "low_shelf.frequency"@,
        parameter_spec(LOW_SHELF_GAIN as int).id@ == "low_shelf.gain"@,
        parameter_spec(PEAK1_FREQUENCY as int).id@ == "peak1.frequency"@,
        parameter_spec(PEAK1_GAIN as int).id@ == "peak1.gain"@,
        parameter_spec(PEAK1_Q as int).id@ == "peak1.q"@,
        parameter_spec(PEAK2_FREQUENCY as int).id@ == "peak2.frequency"@,
        parameter_spec(PEAK2_GAIN as int).id@ == "peak2.gain"@,
        parameter_spec(PEAK2_Q as int).id@ == "peak2.q"@,
        parameter_spec(HIGH_SHELF_FREQUENCY as int).id@ == "high_shelf.frequency"@,
        parameter_spec(HIGH_SHELF_GAIN as int).id@ == "high_shelf.gain"@,
        parameter_spec(OUTPUT as int).id@ == "output.trim"@,
        parameter_spec(BYPASS as int).id@ == "output.bypass"@,
        parameter_spec(PEAK3_FREQUENCY as int).id@ == "peak3.frequency"@,
        parameter_spec(PEAK3_GAIN as int).id@ == "peak3.gain"@,
        parameter_spec(PEAK3_Q as int).id@ == "peak3.q"@,
        parameter_spec(PEAK4_FREQUENCY as int).id@ == "peak4.frequency"@,
        parameter_spec(PEAK4_GAIN as int).id@ == "peak4.gain"@,
        parameter_spec(PEAK4_Q as int).id@ == "peak4.q"@,
        parameter_spec(LPF_ENABLE as int).id@ == "lpf.enable"@,
        parameter_spec(LPF_FREQUENCY as int).id@ == "lpf.frequency"@,
{
}


/// A logarithmic taper never starts at zero: its minimum is above zero.
pub proof fn lemma_logarithmic_tapers_start_above_zero()
    ensures
        forall|i: int|
            0 <= i < PARAMETER_COUNT ==> (#[trigger] parameter_spec(i).kind matches Kind::Float {
                taper: Taper::Logarithmic,
                minimum,
                ..
            } ==> !single_le(minimum, 0)),
{
}

/// Every parameter's resting value is one its own contract accepts, and
/// accepts unchanged.
pub proof fn lemma_every_default_sits_inside_its_range()
    ensures
        forall|i: int|
            0 <= i < PARAMETER_COUNT ==> canonical_single(
                parameter_spec(i).kind,
                default_of(#[trigger] parameter_spec(i).kind),
            ) == Some(default_of(parameter_spec(i).kind)),
{
}

} // verus!
