//! The flat settings block: one single-precision value per parameter, in
//! index order. It is the plugin's state, so its layout is the contract's.

use vstd::prelude::*;
use vstd::arithmetic::power2::pow2;
use crate::contract::{
    Kind, Taper, canonical_double, canonical_single, default_of, is_known_layout, is_settling_kind,
    kind_is_meter, known_layout, lemma_accepted_is_accepted_again, lemma_settling_kind_settles,
    lemma_single_reads_as_its_widening, parameter, parameter_spec, PARAMETER_COUNT,
    PREVIOUS_PARAMETER_COUNTS,
};
use crate::index::{
    BYPASS, HIGH_SHELF_FREQUENCY, HIGH_SHELF_GAIN, HPF_ENABLE, HPF_FREQUENCY, LOW_SHELF_FREQUENCY,
    LOW_SHELF_GAIN, LPF_ENABLE, LPF_FREQUENCY, OUTPUT, PEAK1_FREQUENCY, PEAK1_GAIN, PEAK1_Q,
    PEAK2_FREQUENCY, PEAK2_GAIN, PEAK2_Q, PEAK3_FREQUENCY, PEAK3_GAIN, PEAK3_Q, PEAK4_FREQUENCY,
    PEAK4_GAIN, PEAK4_Q,
};
use crate::ieee::{single_le, single_le_bits, single_whole, widen, widened, SINGLE_HALF};

verus! {

/// Values every one of which its parameter accepts unchanged: what a
/// settings block always holds.
pub open spec fn settled(values: Seq<u32>) -> bool {
    &&& values.len() == PARAMETER_COUNT
    &&& forall|i: int|
        0 <= i < PARAMETER_COUNT ==> canonical_single(parameter_spec(i).kind, #[trigger] values[i])
            == Some(values[i])
}

/// Every parameter at rest.
pub open spec fn default_values() -> Seq<u32> {
    Seq::new(PARAMETER_COUNT as nat, |i: int| default_of(parameter_spec(i).kind))
}

/// The block a restore of `values` yields, or `None` when it is refused.
///
/// Layouts are identified by length, and parameters are only ever appended,
/// so a shorter block is an older one: its values are applied and anything
/// added since keeps its default. A length that belongs to no layout, or a
/// value outside the contract, is refused outright rather than partially
/// applied. A meter's stored value is ignored: it is the engine's reading,
/// not a setting.
pub open spec fn restored(values: Seq<u32>) -> Option<Seq<u32>> {
    if !is_known_layout(values.len() as int) {
        None
    } else if exists|i: int|
        0 <= i < values.len() && !kind_is_meter(parameter_spec(i).kind) && (#[trigger] canonical_single(
            parameter_spec(i).kind,
            values[i],
        )) is None {
        None
    } else {
        Some(restored_values(values, values.len() as int))
    }
}

/// The defaults, with the first `count` of `values` applied over them
/// (meters excepted).
pub open spec fn restored_values(values: Seq<u32>, count: int) -> Seq<u32> {
    Seq::new(
        PARAMETER_COUNT as nat,
        |i: int|
            if i < count && !kind_is_meter(parameter_spec(i).kind) {
                canonical_single(parameter_spec(i).kind, values[i]).unwrap()
            } else {
                default_of(parameter_spec(i).kind)
            },
    )
}

/// The table holds floats with finite bounds and switches, nothing else:
/// every kind in it settles, and none is a meter.
pub proof fn lemma_table_kinds(i: int)
    requires
        0 <= i < PARAMETER_COUNT,
    ensures
        is_settling_kind(parameter_spec(i).kind),
        !kind_is_meter(parameter_spec(i).kind),
{
}

/// What a parameter accepts from the host, it accepts again unchanged.
pub proof fn lemma_canonical_is_settled(i: int, value: u64)
    requires
        0 <= i < PARAMETER_COUNT,
        canonical_double(parameter_spec(i).kind, value) is Some,
    ensures
        canonical_single(
            parameter_spec(i).kind,
            canonical_double(parameter_spec(i).kind, value).unwrap(),
        ) == canonical_double(parameter_spec(i).kind, value),
{
    lemma_table_kinds(i);
    lemma_settling_kind_settles(parameter_spec(i).kind, value);
    lemma_accepted_is_accepted_again(parameter_spec(i).kind, value);
}

/// Reading a single through the host's double-precision path decides as
/// reading it directly does, for every parameter.
pub proof fn lemma_parameter_reads_singles_as_their_widenings(i: int, value: u32)
    requires
        0 <= i < PARAMETER_COUNT,
    ensures
        canonical_double(parameter_spec(i).kind, widened(value)) == canonical_single(
            parameter_spec(i).kind,
            value,
        ),
{
    lemma_single_reads_as_its_widening(parameter_spec(i).kind, value);
}

/// A value read from the block and written back through the host is taken
/// unchanged: for every parameter, the widening of a value it accepts is
/// accepted again as that same value.
pub proof fn lemma_read_back_writes_unchanged(i: int, value: u32)
    requires
        0 <= i < PARAMETER_COUNT,
        canonical_single(parameter_spec(i).kind, value) == Some(value),
    ensures
        !kind_is_meter(parameter_spec(i).kind),
        canonical_double(parameter_spec(i).kind, widened(value)) == Some(value),
{
    lemma_parameter_reads_singles_as_their_widenings(i, value);
}

/// The gains of every band: at zero a band is out of the signal.
pub open spec fn is_band_gain(index: int) -> bool {
    index == LOW_SHELF_GAIN || index == PEAK1_GAIN || index == PEAK2_GAIN || index == PEAK3_GAIN
        || index == PEAK4_GAIN || index == HIGH_SHELF_GAIN
}

/// The switches: the high-pass, the low-pass and bypass.
pub open spec fn is_switch(index: int) -> bool {
    index == HPF_ENABLE || index == LPF_ENABLE || index == BYPASS
}

/// The frequency controls: the two filters' cutoffs, the shelves' corners
/// and the peaks' centres.
pub open spec fn is_frequency(index: int) -> bool {
    index == HPF_FREQUENCY || index == LOW_SHELF_FREQUENCY || index == PEAK1_FREQUENCY
        || index == PEAK2_FREQUENCY || index == PEAK3_FREQUENCY || index == PEAK4_FREQUENCY
        || index == HIGH_SHELF_FREQUENCY || index == LPF_FREQUENCY
}

/// The peaks' widths.
pub open spec fn is_quality(index: int) -> bool {
    index == PEAK1_Q || index == PEAK2_Q || index == PEAK3_Q || index == PEAK4_Q
}

/// The lowest and highest values of a float control, in whole units, when
/// both are whole numbers.
pub open spec fn whole_range(kind: Kind) -> Option<(nat, nat)> {
    match kind {
        Kind::Float { minimum, maximum, .. } => match (single_whole(minimum), single_whole(maximum)) {
            (Some(low), Some(high)) => Some((low, high)),
            _ => None,
        },
        _ => None,
    }
}

/// The controls table: every control is a frequency, a width, a band gain,
/// the output trim or a switch. Frequencies are in hertz, to the hertz, and
/// travel logarithmically, as widths do (0.3 to 10, at rest at 1, in
/// hundredths); gains travel linearly in decibels, to a tenth, between
/// -15 and +15 dB for a band and -24 and +24 dB for the trim, at rest at
/// zero; every switch is off at rest.
pub proof fn lemma_controls_follow_the_table()
    ensures
        forall|i: int|
            0 <= i < PARAMETER_COUNT ==> is_frequency(i) || is_quality(i) || is_band_gain(i) || i
                == OUTPUT || is_switch(i),
        forall|i: int|
            is_frequency(i) ==> (#[trigger] parameter_spec(i).kind matches Kind::Float {
                step,
                unit: Some(unit),
                taper: Taper::Logarithmic,
                ..
            } && step == 0x3F80_0000u32 && unit@ == "Hz"@),
        forall|i: int|
            is_quality(i) ==> #[trigger] parameter_spec(i).kind == (Kind::Float {
                minimum: 0x3E99_999A,  // 0.3
                maximum: 0x4120_0000,  // 10
                default: 0x3F80_0000,  // 1
                step: 0x3C23_D70A,  // 0.01
                unit: None,
                taper: Taper::Logarithmic,
            }),
        forall|i: int|
            is_band_gain(i) ==> (#[trigger] parameter_spec(i).kind matches Kind::Float {
                minimum: 0xC170_0000,  // -15
                maximum: 0x4170_0000,  // 15
                default: 0,
                step: 0x3DCC_CCCD,  // 0.1
                unit: Some(unit),
                taper: Taper::Linear,
            } && unit@ == "dB"@),
        parameter_spec(OUTPUT as int).kind matches Kind::Float {
            minimum: 0xC1C0_0000,  // -24
            maximum: 0x41C0_0000,  // 24
            default: 0,
            step: 0x3DCC_CCCD,  // 0.1
            unit: Some(unit),
            taper: Taper::Linear,
        } && unit@ == "dB"@,
        forall|i: int| is_switch(i) ==> #[trigger] parameter_spec(i).kind == (Kind::Boolean { default: false }),
{
    reveal_strlit("Hz");
    reveal_strlit("dB");
}

/// A positive single of exponent field `150 - shift` whose significand is
/// `k` shifted up `shift` places denotes `k`.
proof fn lemma_single_denotes(bits: u32, k: nat, shift: nat)
    requires
        bits < 0x8000_0000,
        0 < shift <= 23,
        bits as int / 0x80_0000 == 150 - shift,
        k * pow2(shift) == 0x80_0000 + bits as int % 0x80_0000,
    ensures
        single_whole(bits) == Some(k),
{
    vstd::arithmetic::power2::lemma2_to64();
    vstd::arithmetic::power2::lemma_pow2_pos(shift);
    vstd::arithmetic::div_mod::lemma_fundamental_div_mod_converse(
        0x80_0000 + bits as int % 0x80_0000,
        pow2(shift) as int,
        k as int,
        0,
    );
}

/// The frequency ranges of the controls table, in hertz.
#[verifier::rlimit(40)]
pub proof fn lemma_frequency_ranges_follow_the_table()
    ensures
        whole_range(parameter_spec(HPF_FREQUENCY as int).kind) == Some((20nat, 500nat)),
        whole_range(parameter_spec(LOW_SHELF_FREQUENCY as int).kind) == Some((40nat, 1000nat)),
        whole_range(parameter_spec(PEAK1_FREQUENCY as int).kind) == Some((100nat, 8000nat)),
        whole_range(parameter_spec(PEAK2_FREQUENCY as int).kind) == Some((200nat, 16000nat)),
        whole_range(parameter_spec(PEAK3_FREQUENCY as int).kind) == Some((300nat, 20000nat)),
        whole_range(parameter_spec(PEAK4_FREQUENCY as int).kind) == Some((500nat, 20000nat)),
        whole_range(parameter_spec(HIGH_SHELF_FREQUENCY as int).kind) == Some((1000nat, 16000nat)),
        whole_range(parameter_spec(LPF_FREQUENCY as int).kind) == Some((500nat, 20000nat)),
{
    vstd::arithmetic::power2::lemma2_to64();
    lemma_single_denotes(0x41A0_0000, 20, 19);
    lemma_single_denotes(0x43FA_0000, 500, 15);
    lemma_single_denotes(0x4220_0000, 40, 18);
    lemma_single_denotes(0x447A_0000, 1000, 14);
    lemma_single_denotes(0x42C8_0000, 100, 17);
    lemma_single_denotes(0x45FA_0000, 8000, 11);
    lemma_single_denotes(0x4348_0000, 200, 16);
    lemma_single_denotes(0x467A_0000, 16000, 10);
    lemma_single_denotes(0x4396_0000, 300, 15);
    lemma_single_denotes(0x469C_4000, 20000, 9);
}

/// At rest the equaliser is a wire: every band's gain is zero, the trim is
/// zero decibels, and the high-pass, the low-pass and bypass are off.
pub proof fn lemma_defaults_are_transparent()
    ensures
        forall|i: int| is_band_gain(i) ==> #[trigger] default_values()[i] == 0,
        forall|i: int| is_switch(i) ==> #[trigger] default_values()[i] == 0,
        default_values()[OUTPUT as int] == 0,
{
}

/// A block an earlier build saved is read whole: its values are applied,
/// and every parameter added since rests at its default, which leaves the
/// two extra peaks and the low-pass out of the signal.
pub proof fn lemma_earlier_layout_keeps_new_parameters_at_rest(values: Seq<u32>)
    requires
        values.len() == PREVIOUS_PARAMETER_COUNTS[0],
        restored(values) is Some,
    ensures
        forall|i: int|
            0 <= i < PREVIOUS_PARAMETER_COUNTS[0] ==> #[trigger] restored(values).unwrap()[i]
                == canonical_single(parameter_spec(i).kind, values[i]).unwrap(),
        forall|i: int|
            PREVIOUS_PARAMETER_COUNTS[0] <= i < PARAMETER_COUNT ==> #[trigger] restored(values).unwrap()[i]
                == default_values()[i],
        restored(values).unwrap()[PEAK3_GAIN as int] == 0,
        restored(values).unwrap()[PEAK4_GAIN as int] == 0,
        restored(values).unwrap()[LPF_ENABLE as int] == 0,
{
}

#[derive(Clone, Copy, Debug)]
pub struct Settings {
    values: [u32; PARAMETER_COUNT],
}

impl View for Settings {
    type V = Seq<u32>;

    closed spec fn view(&self) -> Seq<u32> {
        self.values@
    }
}

/// A block of settings holds one value for every parameter.
pub proof fn lemma_settings_hold_every_parameter(settings: Settings)
    ensures
        settings@.len() == PARAMETER_COUNT,
{
}

impl Settings {
    #[verifier::type_invariant]
    closed spec fn is_settled(self) -> bool {
        settled(self.values@)
    }

    /// Stores an already accepted value.
    fn store(&mut self, index: usize, value: u32)
        requires
            index < PARAMETER_COUNT,
            canonical_single(parameter_spec(index as int).kind, value) == Some(value),
        ensures
            final(self)@ == old(self)@.update(index as int, value),
    {
        proof {
            use_type_invariant(&*self);
        }
        let mut values = self.values;
        values[index] = value;
        assert(settled(values@));
        *self = Settings { values };
    }

    /// Sets a control. A meter is the engine's to write, never the host's.
    ///
    /// The host value arrives in double precision, as its bit pattern.
    pub fn set(&mut self, index: u32, value: u64) -> (accepted: bool)
        ensures
            old(self)@.len() == PARAMETER_COUNT,
            final(self)@.len() == PARAMETER_COUNT,
            accepted == (index < PARAMETER_COUNT && !kind_is_meter(parameter_spec(index as int).kind)
                && canonical_double(parameter_spec(index as int).kind, value) is Some),
            accepted ==> final(self)@ == old(self)@.update(
                index as int,
                canonical_double(parameter_spec(index as int).kind, value).unwrap(),
            ),
            !accepted ==> final(self)@ == old(self)@,
    {
        if index as usize >= PARAMETER_COUNT {
            return false;
        }
        let spec = parameter(index as usize);
        if spec.is_meter() {
            return false;
        }
        match spec.canonicalize(value) {
            Some(canonical) => {
                proof {
                    lemma_canonical_is_settled(index as int, value);
                }
                self.store(index as usize, canonical);
                true
            },
            None => false,
        }
    }

    /// The stored value at `index`, widened to the double the host reads,
    /// or `None` past the last parameter.
    pub fn get(&self, index: u32) -> (value: Option<u64>)
        ensures
            value == (if index < PARAMETER_COUNT {
                Some(widened(self@[index as int]))
            } else {
                None
            }),
    {
        if (index as usize) < PARAMETER_COUNT {
            Some(widen(self.values[index as usize]))
        } else {
            None
        }
    }

    pub fn value(&self, index: u32) -> (value: u32)
        requires
            index < PARAMETER_COUNT,
        ensures
            value == self@[index as int],
    {
        self.values[index as usize]
    }

    /// Whether a switch is on: its value is at least one half.
    pub fn engaged(&self, index: u32) -> (on: bool)
        requires
            index < PARAMETER_COUNT,
        ensures
            on == single_le(SINGLE_HALF, self@[index as int]),
    {
        single_le_bits(SINGLE_HALF, self.values[index as usize])
    }

    /// The whole block. Every value in it is one its parameter accepts
    /// unchanged, so the block restores to itself.
    pub fn as_array(&self) -> (values: [u32; PARAMETER_COUNT])
        ensures
            values@ == self@,
            settled(values@),
            restored(values@) == Some(values@),
    {
        proof {
            use_type_invariant(self);
            assert(restored_values(self.values@, PARAMETER_COUNT as int) =~= self.values@);
        }
        self.values
    }

    pub fn from_array(values: [u32; PARAMETER_COUNT]) -> (settings: Option<Self>)
        ensures
            match restored(values@) {
                Some(expected) => settings matches Some(s) && s@ == expected,
                None => settings is None,
            },
    {
        Self::from_slice(values.as_slice())
    }

    /// Reads a state block that may have been written by an earlier build;
    /// see [`restored`].
    #[verifier::rlimit(40)]
    pub fn from_slice(values: &[u32]) -> (settings: Option<Self>)
        ensures
            match restored(values@) {
                Some(expected) => settings matches Some(s) && s@ == expected,
                None => settings is None,
            },
    {
        let count = values.len();
        if !known_layout(count) {
            return None;
        }
        let mut settings = Self::default();
        let mut index: usize = 0;
        while index < count
            invariant
                count == values@.len() <= PARAMETER_COUNT,
                index <= count,
                settings@ == restored_values(values@, index as int),
                forall|k: int|
                    0 <= k < index && !kind_is_meter(parameter_spec(k).kind) ==> (
                    #[trigger] canonical_single(parameter_spec(k).kind, values@[k])) is Some,
            decreases count - index,
        {
            let spec = parameter(index);
            if !spec.is_meter() {
                proof {
                    lemma_parameter_reads_singles_as_their_widenings(index as int, values@[index as int]);
                }
                if !settings.set(index as u32, widen(values[index])) {
                    return None;
                }
            }
            assert(settings@ =~= restored_values(values@, index + 1));
            index = index + 1;
        }
        assert(settings@ =~= restored_values(values@, values@.len() as int));
        Some(settings)
    }
}

impl Default for Settings {
    fn default() -> (settings: Self)
        ensures
            settings@ == default_values(),
    {
        let mut values = [0u32; PARAMETER_COUNT];
        let mut index: usize = 0;
        while index < PARAMETER_COUNT
            invariant
                index <= PARAMETER_COUNT,
                forall|k: int| 0 <= k < index ==> #[trigger] values@[k] == default_of(parameter_spec(k).kind),
            decreases PARAMETER_COUNT - index,
        {
            values[index] = parameter(index).default_value();
            index = index + 1;
        }
        proof {
            crate::contract::lemma_every_default_sits_inside_its_range();
            assert(values@ =~= default_values());
        }
        Settings { values }
    }
}

} // verus!
