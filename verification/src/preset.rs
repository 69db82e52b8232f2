//! Factory settings.
//!
//! A preset here is nothing but a list of parameter values. The packager
//! renders the same table into the package's preset catalog, so the catalog
//! RackForge shows and the settings the engine loads cannot disagree.

use vstd::prelude::*;
use crate::contract::{canonical_single, kind_is_meter, parameter_spec, PARAMETER_COUNT};
use crate::index::{
    HIGH_SHELF_FREQUENCY, HIGH_SHELF_GAIN, HPF_ENABLE, HPF_FREQUENCY, LOW_SHELF_FREQUENCY,
    LOW_SHELF_GAIN, LPF_ENABLE, LPF_FREQUENCY, OUTPUT, PEAK1_FREQUENCY, PEAK1_GAIN, PEAK1_Q,
    PEAK2_FREQUENCY, PEAK2_GAIN, PEAK2_Q, PEAK3_FREQUENCY, PEAK3_GAIN, PEAK3_Q,
};
use crate::ieee::SINGLE_ONE;
use crate::ieee::widen;
use crate::settings::{default_values, lemma_parameter_reads_singles_as_their_widenings, Settings};
use crate::text::same_text;

verus! {

pub const PRESET_COUNT: usize = 8;

/// A factory setting: its identifier, its name and description as the
/// catalog shows them, and the values it puts over the defaults, each a
/// parameter index and a single-precision bit pattern.
pub struct Preset {
    pub id: &'static str,
    pub name: &'static str,
    pub description: &'static str,
    pub values: Vec<(u32, u32)>,
}

/// The identifier, name and description of each preset.
pub open spec fn preset_text(index: int) -> (&'static str, &'static str, &'static str) {
    if index == 0 {
        ("flat", "Flat", "Every band at zero, the high-pass off: the signal as it came.")
    } else if index == 1 {
        (
            "piano_air",
            "Piano Air",
            "Two and a half decibels of air above eight kilohertz, a decibel less low shelf at 120 Hz.",
        )
    } else if index == 2 {
        ("warm", "Warm", "Two decibels more below 150 Hz, two less above six kilohertz.")
    } else if index == 3 {
        ("presence", "Presence", "Three decibels at three kilohertz, a little over an octave wide.")
    } else if index == 4 {
        (
            "rumble_cut",
            "Rumble Cut",
            "The high-pass on at 60 Hz: stage rumble and handling noise out, the low end kept.",
        )
    } else if index == 5 {
        (
            "telephone",
            "Telephone",
            "Nothing below 300 Hz and nothing above three kilohertz: a narrow line.",
        )
    } else if index == 6 {
        ("mix_cleanup", "Mix Cleanup", "Subsonic and low-mid cleanup with a broad presence lift.")
    } else {
        ("master_polish", "Master Polish", "Four restrained, broad moves and compensated output.")
    }
}

pub open spec fn preset_id(index: int) -> Seq<char> {
    preset_text(index).0@
}

/// The values each preset puts over the defaults, in the order they are
/// applied.
///
/// Mix Cleanup and Master Polish are given in the README by name and a
/// one-line description only; their values here are this library's choice,
/// made to fit those descriptions.
pub open spec fn preset_values(index: int) -> Seq<(u32, u32)> {
    if index == 0 {
        seq![]
    } else if index == 1 {
        seq![
            (HIGH_SHELF_FREQUENCY, 0x45FA_0000u32),  // 8 kHz
            (HIGH_SHELF_GAIN, 0x4020_0000u32),  // +2.5 dB
            (LOW_SHELF_FREQUENCY, 0x42F0_0000u32),  // 120 Hz
            (LOW_SHELF_GAIN, 0xBF80_0000u32),  // -1 dB
        ]
    } else if index == 2 {
        seq![
            (LOW_SHELF_FREQUENCY, 0x4316_0000u32),  // 150 Hz
            (LOW_SHELF_GAIN, 0x4000_0000u32),  // +2 dB
            (HIGH_SHELF_FREQUENCY, 0x45BB_8000u32),  // 6 kHz
            (HIGH_SHELF_GAIN, 0xC000_0000u32),  // -2 dB
        ]
    } else if index == 3 {
        seq![
            (PEAK2_FREQUENCY, 0x453B_8000u32),  // 3 kHz
            (PEAK2_GAIN, 0x4040_0000u32),  // +3 dB
            (PEAK2_Q, 0x3F99_999Au32),  // 1.2
        ]
    } else if index == 4 {
        seq![
            (HPF_ENABLE, 0x3F80_0000u32),  // on
            (HPF_FREQUENCY, 0x4270_0000u32),  // 60 Hz
        ]
    } else if index == 5 {
        seq![
            (HPF_ENABLE, 0x3F80_0000u32),  // on
            (HPF_FREQUENCY, 0x4396_0000u32),  // 300 Hz
            (LPF_ENABLE, 0x3F80_0000u32),  // on
            (LPF_FREQUENCY, 0x453B_8000u32),  // 3 kHz
        ]
    } else if index == 6 {
        seq![
            (HPF_ENABLE, 0x3F80_0000u32),  // on: subsonic out
            (HPF_FREQUENCY, 0x41F0_0000u32),  // 30 Hz
            (PEAK1_FREQUENCY, 0x4396_0000u32),  // 300 Hz: the low-mid cleanup
            (PEAK1_GAIN, 0xC020_0000u32),  // -2.5 dB
            (PEAK1_Q, 0x3F80_0000u32),  // 1
            (PEAK2_FREQUENCY, 0x457A_0000u32),  // 4 kHz: the presence lift
            (PEAK2_GAIN, 0x4000_0000u32),  // +2 dB
            (PEAK2_Q, 0x3F33_3333u32),  // 0.7, broad
        ]
    } else {
        seq![
            (LOW_SHELF_FREQUENCY, 0x42A0_0000u32),  // 80 Hz
            (LOW_SHELF_GAIN, 0x3F80_0000u32),  // +1 dB
            (PEAK1_FREQUENCY, 0x437A_0000u32),  // 250 Hz
            (PEAK1_GAIN, 0xBF80_0000u32),  // -1 dB
            (PEAK1_Q, 0x3F33_3333u32),  // 0.7
            (PEAK3_FREQUENCY, 0x451C_4000u32),  // 2.5 kHz
            (PEAK3_GAIN, 0x3F80_0000u32),  // +1 dB
            (PEAK3_Q, 0x3F33_3333u32),  // 0.7
            (HIGH_SHELF_FREQUENCY, 0x461C_4000u32),  // 10 kHz
            (HIGH_SHELF_GAIN, 0x3FC0_0000u32),  // +1.5 dB
            (OUTPUT, 0xBFC0_0000u32),  // -1.5 dB, compensating the lifts
        ]
    }
}

/// `start` with `values` applied in order, or `None` when the contract
/// refuses one of them.
pub open spec fn applied(start: Seq<u32>, values: Seq<(u32, u32)>) -> Option<Seq<u32>>
    decreases values.len(),
{
    if values.len() == 0 {
        Some(start)
    } else {
        match applied(start, values.drop_last()) {
            None => None,
            Some(before) => {
                let (index, value) = values.last();
                if index < PARAMETER_COUNT && !kind_is_meter(parameter_spec(index as int).kind)
                    && canonical_single(parameter_spec(index as int).kind, value) is Some {
                    Some(
                        before.update(
                            index as int,
                            canonical_single(parameter_spec(index as int).kind, value).unwrap(),
                        ),
                    )
                } else {
                    None
                }
            },
        }
    }
}

/// The first preset carrying `id`, if any.
pub open spec fn preset_index_of(id: Seq<char>) -> Option<int> {
    if exists|i: int| 0 <= i < PRESET_COUNT && preset_id(i) == id {
        Some(choose|i: int| 0 <= i < PRESET_COUNT && preset_id(i) == id && forall|k: int| 0 <= k < i ==> preset_id(k) != id)
    } else {
        None
    }
}

/// The settings a preset describes: the defaults, with the preset's values
/// over them. `None` for an id no preset carries.
pub open spec fn preset_settings(id: Seq<char>) -> Option<Seq<u32>> {
    match preset_index_of(id) {
        Some(i) => applied(default_values(), preset_values(i)),
        None => None,
    }
}

fn preset_values_of(index: usize) -> (values: Vec<(u32, u32)>)
    requires
        index < PRESET_COUNT,
    ensures
        values@ == preset_values(index as int),
{
    let values = if index == 0 {
        vec![]
    } else if index == 1 {
        vec![
            (HIGH_SHELF_FREQUENCY, 0x45FA_0000u32),
            (HIGH_SHELF_GAIN, 0x4020_0000u32),
            (LOW_SHELF_FREQUENCY, 0x42F0_0000u32),
            (LOW_SHELF_GAIN, 0xBF80_0000u32),
        ]
    } else if index == 2 {
        vec![
            (LOW_SHELF_FREQUENCY, 0x4316_0000u32),
            (LOW_SHELF_GAIN, 0x4000_0000u32),
            (HIGH_SHELF_FREQUENCY, 0x45BB_8000u32),
            (HIGH_SHELF_GAIN, 0xC000_0000u32),
        ]
    } else if index == 3 {
        vec![
            (PEAK2_FREQUENCY, 0x453B_8000u32),
            (PEAK2_GAIN, 0x4040_0000u32),
            (PEAK2_Q, 0x3F99_999Au32),
        ]
    } else if index == 4 {
        vec![(HPF_ENABLE, 0x3F80_0000u32), (HPF_FREQUENCY, 0x4270_0000u32)]
    } else if index == 5 {
        vec![
            (HPF_ENABLE, 0x3F80_0000u32),
            (HPF_FREQUENCY, 0x4396_0000u32),
            (LPF_ENABLE, 0x3F80_0000u32),
            (LPF_FREQUENCY, 0x453B_8000u32),
        ]
    } else if index == 6 {
        vec![
            (HPF_ENABLE, 0x3F80_0000u32),
            (HPF_FREQUENCY, 0x41F0_0000u32),
            (PEAK1_FREQUENCY, 0x4396_0000u32),
            (PEAK1_GAIN, 0xC020_0000u32),
            (PEAK1_Q, 0x3F80_0000u32),
            (PEAK2_FREQUENCY, 0x457A_0000u32),
            (PEAK2_GAIN, 0x4000_0000u32),
            (PEAK2_Q, 0x3F33_3333u32),
        ]
    } else {
        vec![
            (LOW_SHELF_FREQUENCY, 0x42A0_0000u32),
            (LOW_SHELF_GAIN, 0x3F80_0000u32),
            (PEAK1_FREQUENCY, 0x437A_0000u32),
            (PEAK1_GAIN, 0xBF80_0000u32),
            (PEAK1_Q, 0x3F33_3333u32),
            (PEAK3_FREQUENCY, 0x451C_4000u32),
            (PEAK3_GAIN, 0x3F80_0000u32),
            (PEAK3_Q, 0x3F33_3333u32),
            (HIGH_SHELF_FREQUENCY, 0x461C_4000u32),
            (HIGH_SHELF_GAIN, 0x3FC0_0000u32),
            (OUTPUT, 0xBFC0_0000u32),
        ]
    };
    assert(values@ =~= preset_values(index as int));
    values
}

fn preset_text_of(index: usize) -> (text: (&'static str, &'static str, &'static str))
    requires
        index < PRESET_COUNT,
    ensures
        text == preset_text(index as int),
{
    if index == 0 {
        ("flat", "Flat", "Every band at zero, the high-pass off: the signal as it came.")
    } else if index == 1 {
        (
            "piano_air",
            "Piano Air",
            "Two and a half decibels of air above eight kilohertz, a decibel less low shelf at 120 Hz.",
        )
    } else if index == 2 {
        ("warm", "Warm", "Two decibels more below 150 Hz, two less above six kilohertz.")
    } else if index == 3 {
        ("presence", "Presence", "Three decibels at three kilohertz, a little over an octave wide.")
    } else if index == 4 {
        (
            "rumble_cut",
            "Rumble Cut",
            "The high-pass on at 60 Hz: stage rumble and handling noise out, the low end kept.",
        )
    } else if index == 5 {
        (
            "telephone",
            "Telephone",
            "Nothing below 300 Hz and nothing above three kilohertz: a narrow line.",
        )
    } else if index == 6 {
        ("mix_cleanup", "Mix Cleanup", "Subsonic and low-mid cleanup with a broad presence lift.")
    } else {
        ("master_polish", "Master Polish", "Four restrained, broad moves and compensated output.")
    }
}

/// The preset at `index`, in catalog order.
pub fn preset(index: usize) -> (preset: Preset)
    requires
        index < PRESET_COUNT,
    ensures
        (preset.id, preset.name, preset.description) == preset_text(index as int),
        preset.values@ == preset_values(index as int),
{
    let (id, name, description) = preset_text_of(index);
    Preset { id, name, description, values: preset_values_of(index) }
}

/// Every preset, in catalog order.
pub fn presets() -> (all: Vec<Preset>)
    ensures
        all@.len() == PRESET_COUNT,
        forall|i: int|
            0 <= i < PRESET_COUNT ==> (#[trigger] all@[i].id, all@[i].name, all@[i].description)
                == preset_text(i) && all@[i].values@ == preset_values(i),
{
    let mut all: Vec<Preset> = Vec::new();
    let mut index: usize = 0;
    while index < PRESET_COUNT
        invariant
            index <= PRESET_COUNT,
            all@.len() == index,
            forall|i: int|
                0 <= i < index ==> (#[trigger] all@[i].id, all@[i].name, all@[i].description)
                    == preset_text(i) && all@[i].values@ == preset_values(i),
        decreases PRESET_COUNT - index,
    {
        all.push(preset(index));
        index = index + 1;
    }
    all
}

/// The settings a preset describes; see [`preset_settings`].
pub fn settings_for(id: &str) -> (settings: Option<Settings>)
    ensures
        match preset_settings(id@) {
            Some(expected) => settings matches Some(s) && s@ == expected,
            None => settings is None,
        },
        match described_settings(id@) {
            Some(expected) => settings matches Some(s) && s@ == expected,
            None => settings is None,
        },
{
    proof {
        lemma_presets_are_their_rows(id@);
    }
    let mut index: usize = 0;
    while index < PRESET_COUNT
        invariant
            index <= PRESET_COUNT,
            forall|k: int| 0 <= k < index ==> preset_id(k) != id@,
            preset_settings(id@) == described_settings(id@),
        decreases PRESET_COUNT - index,
    {
        let (candidate, _, _) = preset_text_of(index);
        if same_text(candidate, id) {
            proof {
                let i = index as int;
                assert(0 <= i < PRESET_COUNT && preset_id(i) == id@);
                let chosen = preset_index_of(id@).unwrap();
                assert(chosen == i) by {
                    if chosen < i {
                    } else if chosen > i {
                    }
                }
            }
            return apply_preset(index);
        }
        index = index + 1;
    }
    None
}

#[verifier::rlimit(40)]
fn apply_preset(index: usize) -> (settings: Option<Settings>)
    requires
        index < PRESET_COUNT,
    ensures
        match applied(default_values(), preset_values(index as int)) {
            Some(expected) => settings matches Some(s) && s@ == expected,
            None => settings is None,
        },
{
    let values = preset_values_of(index);
    let mut settings = Settings::default();
    let mut k: usize = 0;
    while k < values.len()
        invariant
            k <= values@.len(),
            values@ == preset_values(index as int),
            applied(default_values(), values@.subrange(0, k as int)) == Some(settings@),
        decreases values@.len() - k,
    {
        let (parameter_index, value) = values[k];
        let ghost before = values@.subrange(0, k as int);
        assert(values@.subrange(0, k + 1).drop_last() =~= before);
        proof {
            if parameter_index < PARAMETER_COUNT {
                lemma_parameter_reads_singles_as_their_widenings(parameter_index as int, value);
            }
        }
        if !settings.set(parameter_index, widen(value)) {
            proof {
                lemma_applied_refused_stays_refused(default_values(), values@, k as int);
            }
            return None;
        }
        k = k + 1;
    }
    assert(values@.subrange(0, values@.len() as int) =~= values@);
    Some(settings)
}

/// Once a value is refused, no longer list is accepted.
proof fn lemma_applied_refused_stays_refused(start: Seq<u32>, values: Seq<(u32, u32)>, k: int)
    requires
        0 <= k < values.len(),
        applied(start, values.subrange(0, k + 1)) is None,
    ensures
        applied(start, values) is None,
    decreases values.len() - k,
{
    if k + 1 < values.len() {
        assert(values.subrange(0, k + 2).drop_last() =~= values.subrange(0, k + 1));
        lemma_applied_refused_stays_refused(start, values, k + 1);
    } else {
        assert(values.subrange(0, k + 1) =~= values);
    }
}


/// No two presets share an identifier.
pub proof fn lemma_preset_identifiers_are_unique()
    ensures
        forall|i: int, j: int|
            0 <= i < PRESET_COUNT && 0 <= j < PRESET_COUNT && i != j ==> #[trigger] preset_id(i)
                != #[trigger] preset_id(j),
{
    reveal_strlit("flat");
    reveal_strlit("piano_air");
    reveal_strlit("warm");
    reveal_strlit("presence");
    reveal_strlit("rumble_cut");
    reveal_strlit("telephone");
    reveal_strlit("mix_cleanup");
    reveal_strlit("master_polish");
    assert("flat"@.len() != "piano_air"@.len());
    assert("flat"@[0] != "warm"@[0]);
    assert("flat"@.len() != "presence"@.len());
    assert("flat"@.len() != "rumble_cut"@.len());
    assert("flat"@.len() != "telephone"@.len());
    assert("flat"@.len() != "mix_cleanup"@.len());
    assert("flat"@.len() != "master_polish"@.len());
    assert("piano_air"@.len() != "warm"@.len());
    assert("piano_air"@.len() != "presence"@.len());
    assert("piano_air"@.len() != "rumble_cut"@.len());
    assert("piano_air"@[0] != "telephone"@[0]);
    assert("piano_air"@.len() != "mix_cleanup"@.len());
    assert("piano_air"@.len() != "master_polish"@.len());
    assert("warm"@.len() != "presence"@.len());
    assert("warm"@.len() != "rumble_cut"@.len());
    assert("warm"@.len() != "telephone"@.len());
    assert("warm"@.len() != "mix_cleanup"@.len());
    assert("warm"@.len() != "master_polish"@.len());
    assert("presence"@.len() != "rumble_cut"@.len());
    assert("presence"@.len() != "telephone"@.len());
    assert("presence"@.len() != "mix_cleanup"@.len());
    assert("presence"@.len() != "master_polish"@.len());
    assert("rumble_cut"@.len() != "telephone"@.len());
    assert("rumble_cut"@.len() != "mix_cleanup"@.len());
    assert("rumble_cut"@.len() != "master_polish"@.len());
    assert("telephone"@.len() != "mix_cleanup"@.len());
    assert("telephone"@.len() != "master_polish"@.len());
    assert("mix_cleanup"@.len() != "master_polish"@.len());
}

/// Each identifier in the catalog finds its own preset.
pub proof fn lemma_preset_found(i: int)
    requires
        0 <= i < PRESET_COUNT,
    ensures
        preset_index_of(preset_id(i)) == Some(i),
{
    lemma_preset_identifiers_are_unique();
    let chosen = preset_index_of(preset_id(i)).unwrap();
    assert(chosen == i) by {
        if chosen < i {
        } else if chosen > i {
        }
    }
}

/// The first `k` values of a preset apply over the defaults.
#[verifier::rlimit(40)]
proof fn lemma_preset_prefix_applies(i: int, k: int)
    requires
        0 <= i < PRESET_COUNT,
        0 <= k <= preset_values(i).len(),
    ensures
        applied(default_values(), preset_values(i).subrange(0, k)) is Some,
    decreases k,
{
    let values = preset_values(i);
    if k > 0 {
        lemma_preset_prefix_applies(i, k - 1);
        assert(values.subrange(0, k).drop_last() =~= values.subrange(0, k - 1));
    }
}

/// Every value a preset carries is one the contract accepts.
pub proof fn lemma_preset_values_apply(i: int)
    requires
        0 <= i < PRESET_COUNT,
    ensures
        applied(default_values(), preset_values(i)) is Some,
{
    lemma_preset_prefix_applies(i, preset_values(i).len() as int);
    assert(preset_values(i).subrange(0, preset_values(i).len() as int) =~= preset_values(i));
}

/// Every preset loads.
pub proof fn lemma_every_preset_loads()
    ensures
        forall|i: int| 0 <= i < PRESET_COUNT ==> (#[trigger] preset_settings(preset_id(i))) is Some,
{
    assert forall|i: int| 0 <= i < PRESET_COUNT implies (#[trigger] preset_settings(
        preset_id(i),
    )) is Some by {
        lemma_preset_found(i);
        lemma_preset_values_apply(i);
    }
}

/// Flat is the defaults.
pub proof fn lemma_flat_is_the_defaults()
    ensures
        preset_settings("flat"@) == Some(default_values()),
{
    lemma_preset_found(0);
    assert(preset_id(0) == "flat"@);
}

/// The name a preset's row carries in the catalog.
pub open spec fn preset_name(index: int) -> Seq<char> {
    preset_text(index).1@
}

/// A name's character in an identifier: a space becomes an underscore, a
/// capital its lower case.
pub open spec fn identifier_char(c: char) -> char {
    if c == ' ' {
        '_'
    } else if 65 <= c as int <= 90 {
        ((c as int) + 32) as char
    } else {
        c
    }
}

/// The identifier a name is known by: the name in lower case, words joined
/// by underscores.
pub open spec fn snake_case(name: Seq<char>) -> Seq<char> {
    Seq::new(name.len(), |j: int| identifier_char(name[j]))
}

/// Every preset is found by the snake-case form of its name.
pub proof fn lemma_identifiers_are_snake_case_names()
    ensures
        forall|i: int| 0 <= i < PRESET_COUNT ==> #[trigger] preset_id(i) == snake_case(preset_name(i)),
{
    reveal_strlit("flat");
    reveal_strlit("Flat");
    reveal_strlit("piano_air");
    reveal_strlit("Piano Air");
    reveal_strlit("warm");
    reveal_strlit("Warm");
    reveal_strlit("presence");
    reveal_strlit("Presence");
    reveal_strlit("rumble_cut");
    reveal_strlit("Rumble Cut");
    reveal_strlit("telephone");
    reveal_strlit("Telephone");
    reveal_strlit("mix_cleanup");
    reveal_strlit("Mix Cleanup");
    reveal_strlit("master_polish");
    reveal_strlit("Master Polish");
    assert(preset_id(0) =~= snake_case(preset_name(0)));
    assert(preset_id(1) =~= snake_case(preset_name(1)));
    assert(preset_id(2) =~= snake_case(preset_name(2)));
    assert(preset_id(3) =~= snake_case(preset_name(3)));
    assert(preset_id(4) =~= snake_case(preset_name(4)));
    assert(preset_id(5) =~= snake_case(preset_name(5)));
    assert(preset_id(6) =~= snake_case(preset_name(6)));
    assert(preset_id(7) =~= snake_case(preset_name(7)));
}

/// The settings each row of the factory table describes, by the row's
/// identifier: the defaults with the row's moves made, each a parameter and
/// its single-precision value. `None` for an identifier no row carries.
pub open spec fn described_settings(id: Seq<char>) -> Option<Seq<u32>> {
    let rest = default_values();
    if id == "flat"@ {
        // Every band at zero, the high-pass off.
        Some(rest)
    } else if id == "piano_air"@ {
        // High shelf +2.5 dB at 8 kHz, low shelf -1 dB at 120 Hz.
        Some(
            rest.update(HIGH_SHELF_FREQUENCY as int, 0x45FA_0000).update(
                HIGH_SHELF_GAIN as int,
                0x4020_0000,
            ).update(LOW_SHELF_FREQUENCY as int, 0x42F0_0000).update(LOW_SHELF_GAIN as int, 0xBF80_0000),
        )
    } else if id == "warm"@ {
        // Low shelf +2 dB at 150 Hz, high shelf -2 dB at 6 kHz.
        Some(
            rest.update(LOW_SHELF_FREQUENCY as int, 0x4316_0000).update(
                LOW_SHELF_GAIN as int,
                0x4000_0000,
            ).update(HIGH_SHELF_FREQUENCY as int, 0x45BB_8000).update(HIGH_SHELF_GAIN as int, 0xC000_0000),
        )
    } else if id == "presence"@ {
        // Peak 2 +3 dB at 3 kHz, Q 1.2.
        Some(
            rest.update(PEAK2_FREQUENCY as int, 0x453B_8000).update(PEAK2_GAIN as int, 0x4040_0000).update(
                PEAK2_Q as int,
                0x3F99_999A,
            ),
        )
    } else if id == "rumble_cut"@ {
        // High-pass on at 60 Hz.
        Some(rest.update(HPF_ENABLE as int, SINGLE_ONE).update(HPF_FREQUENCY as int, 0x4270_0000))
    } else if id == "telephone"@ {
        // High-pass at 300 Hz and low-pass at 3 kHz.
        Some(
            rest.update(HPF_ENABLE as int, SINGLE_ONE).update(HPF_FREQUENCY as int, 0x4396_0000).update(
                LPF_ENABLE as int,
                SINGLE_ONE,
            ).update(LPF_FREQUENCY as int, 0x453B_8000),
        )
    } else if id == "mix_cleanup"@ {
        // High-pass on at 30 Hz; Peak 1 -2.5 dB at 300 Hz, Q 1; Peak 2
        // +2 dB at 4 kHz, Q 0.7.
        Some(
            rest.update(HPF_ENABLE as int, SINGLE_ONE).update(HPF_FREQUENCY as int, 0x41F0_0000).update(
                PEAK1_FREQUENCY as int,
                0x4396_0000,
            ).update(PEAK1_GAIN as int, 0xC020_0000).update(PEAK1_Q as int, SINGLE_ONE).update(
                PEAK2_FREQUENCY as int,
                0x457A_0000,
            ).update(PEAK2_GAIN as int, 0x4000_0000).update(PEAK2_Q as int, 0x3F33_3333),
        )
    } else if id == "master_polish"@ {
        // Low shelf +1 dB at 80 Hz; Peak 1 -1 dB at 250 Hz, Q 0.7; Peak 3
        // +1 dB at 2.5 kHz, Q 0.7; high shelf +1.5 dB at 10 kHz; output
        // -1.5 dB.
        Some(
            rest.update(LOW_SHELF_FREQUENCY as int, 0x42A0_0000).update(
                LOW_SHELF_GAIN as int,
                SINGLE_ONE,
            ).update(PEAK1_FREQUENCY as int, 0x437A_0000).update(PEAK1_GAIN as int, 0xBF80_0000).update(
                PEAK1_Q as int,
                0x3F33_3333,
            ).update(PEAK3_FREQUENCY as int, 0x451C_4000).update(PEAK3_GAIN as int, SINGLE_ONE).update(
                PEAK3_Q as int,
                0x3F33_3333,
            ).update(HIGH_SHELF_FREQUENCY as int, 0x461C_4000).update(HIGH_SHELF_GAIN as int, 0x3FC0_0000).update(
                OUTPUT as int,
                0xBFC0_0000,
            ),
        )
    } else {
        None
    }
}

/// `start` with `values` written over it in order, each value as it stands.
pub open spec fn overlaid(start: Seq<u32>, values: Seq<(u32, u32)>) -> Seq<u32>
    decreases values.len(),
{
    if values.len() == 0 {
        start
    } else {
        overlaid(start, values.drop_last()).update(values.last().0 as int, values.last().1)
    }
}

/// Values each of which the contract accepts as it stands apply as they
/// stand.
proof fn lemma_accepted_values_overlay(start: Seq<u32>, values: Seq<(u32, u32)>)
    requires
        forall|k: int|
            0 <= k < values.len() ==> (#[trigger] values[k]).0 < PARAMETER_COUNT && !kind_is_meter(
                parameter_spec(values[k].0 as int).kind,
            ) && canonical_single(parameter_spec(values[k].0 as int).kind, values[k].1) == Some(
                values[k].1,
            ),
    ensures
        applied(start, values) == Some(overlaid(start, values)),
    decreases values.len(),
{
    if values.len() > 0 {
        let rest = values.drop_last();
        assert forall|k: int| 0 <= k < rest.len() implies (#[trigger] rest[k]).0 < PARAMETER_COUNT
            && !kind_is_meter(parameter_spec(rest[k].0 as int).kind) && canonical_single(
            parameter_spec(rest[k].0 as int).kind,
            rest[k].1,
        ) == Some(rest[k].1) by {
            assert(rest[k] == values[k]);
        }
        lemma_accepted_values_overlay(start, rest);
    }
}

/// One more value of a list written over `start`.
proof fn lemma_overlaid_prefix(start: Seq<u32>, values: Seq<(u32, u32)>, k: int)
    requires
        0 < k <= values.len(),
    ensures
        overlaid(start, values.subrange(0, k)) == overlaid(start, values.subrange(0, k - 1)).update(
            values[k - 1].0 as int,
            values[k - 1].1,
        ),
{
    assert(values.subrange(0, k).drop_last() =~= values.subrange(0, k - 1));
}

#[verifier::rlimit(40)]
proof fn lemma_preset_0_is_its_row()
    ensures
        applied(default_values(), preset_values(0)) == described_settings(preset_id(0)),
{
    let values = preset_values(0);
    lemma_accepted_values_overlay(default_values(), values);
    assert(values.subrange(0, 0) =~= Seq::<(u32, u32)>::empty());
    assert(values.subrange(0, 0) =~= values);
    reveal_strlit("flat");
    reveal_strlit("piano_air");
    reveal_strlit("warm");
    reveal_strlit("presence");
    reveal_strlit("rumble_cut");
    reveal_strlit("telephone");
    reveal_strlit("mix_cleanup");
    reveal_strlit("master_polish");
    lemma_preset_identifiers_are_unique();
    assert(preset_id(0) == "flat"@);
    assert(preset_id(1) == "piano_air"@);
    assert(preset_id(2) == "warm"@);
    assert(preset_id(3) == "presence"@);
    assert(preset_id(4) == "rumble_cut"@);
    assert(preset_id(5) == "telephone"@);
    assert(preset_id(6) == "mix_cleanup"@);
    assert(preset_id(7) == "master_polish"@);
    assert(overlaid(default_values(), values) =~= described_settings(preset_id(0)).unwrap());
}

#[verifier::rlimit(40)]
proof fn lemma_preset_1_is_its_row()
    ensures
        applied(default_values(), preset_values(1)) == described_settings(preset_id(1)),
{
    let values = preset_values(1);
    assert(canonical_single(parameter_spec(values[0].0 as int).kind, values[0].1) == Some(values[0].1));
    assert(canonical_single(parameter_spec(values[1].0 as int).kind, values[1].1) == Some(values[1].1));
    assert(canonical_single(parameter_spec(values[2].0 as int).kind, values[2].1) == Some(values[2].1));
    assert(canonical_single(parameter_spec(values[3].0 as int).kind, values[3].1) == Some(values[3].1));
    lemma_accepted_values_overlay(default_values(), values);
    lemma_overlaid_prefix(default_values(), values, 1);
    lemma_overlaid_prefix(default_values(), values, 2);
    lemma_overlaid_prefix(default_values(), values, 3);
    lemma_overlaid_prefix(default_values(), values, 4);
    assert(values.subrange(0, 0) =~= Seq::<(u32, u32)>::empty());
    assert(values.subrange(0, 4) =~= values);
    reveal_strlit("flat");
    reveal_strlit("piano_air");
    reveal_strlit("warm");
    reveal_strlit("presence");
    reveal_strlit("rumble_cut");
    reveal_strlit("telephone");
    reveal_strlit("mix_cleanup");
    reveal_strlit("master_polish");
    lemma_preset_identifiers_are_unique();
    assert(preset_id(0) == "flat"@);
    assert(preset_id(1) == "piano_air"@);
    assert(preset_id(2) == "warm"@);
    assert(preset_id(3) == "presence"@);
    assert(preset_id(4) == "rumble_cut"@);
    assert(preset_id(5) == "telephone"@);
    assert(preset_id(6) == "mix_cleanup"@);
    assert(preset_id(7) == "master_polish"@);
    assert(overlaid(default_values(), values) =~= described_settings(preset_id(1)).unwrap());
}

#[verifier::rlimit(40)]
proof fn lemma_preset_2_is_its_row()
    ensures
        applied(default_values(), preset_values(2)) == described_settings(preset_id(2)),
{
    let values = preset_values(2);
    assert(canonical_single(parameter_spec(values[0].0 as int).kind, values[0].1) == Some(values[0].1));
    assert(canonical_single(parameter_spec(values[1].0 as int).kind, values[1].1) == Some(values[1].1));
    assert(canonical_single(parameter_spec(values[2].0 as int).kind, values[2].1) == Some(values[2].1));
    assert(canonical_single(parameter_spec(values[3].0 as int).kind, values[3].1) == Some(values[3].1));
    lemma_accepted_values_overlay(default_values(), values);
    lemma_overlaid_prefix(default_values(), values, 1);
    lemma_overlaid_prefix(default_values(), values, 2);
    lemma_overlaid_prefix(default_values(), values, 3);
    lemma_overlaid_prefix(default_values(), values, 4);
    assert(values.subrange(0, 0) =~= Seq::<(u32, u32)>::empty());
    assert(values.subrange(0, 4) =~= values);
    reveal_strlit("flat");
    reveal_strlit("piano_air");
    reveal_strlit("warm");
    reveal_strlit("presence");
    reveal_strlit("rumble_cut");
    reveal_strlit("telephone");
    reveal_strlit("mix_cleanup");
    reveal_strlit("master_polish");
    lemma_preset_identifiers_are_unique();
    assert(preset_id(0) == "flat"@);
    assert(preset_id(1) == "piano_air"@);
    assert(preset_id(2) == "warm"@);
    assert(preset_id(3) == "presence"@);
    assert(preset_id(4) == "rumble_cut"@);
    assert(preset_id(5) == "telephone"@);
    assert(preset_id(6) == "mix_cleanup"@);
    assert(preset_id(7) == "master_polish"@);
    assert(overlaid(default_values(), values) =~= described_settings(preset_id(2)).unwrap());
}

#[verifier::rlimit(40)]
proof fn lemma_preset_3_is_its_row()
    ensures
        applied(default_values(), preset_values(3)) == described_settings(preset_id(3)),
{
    let values = preset_values(3);
    assert(canonical_single(parameter_spec(values[0].0 as int).kind, values[0].1) == Some(values[0].1));
    assert(canonical_single(parameter_spec(values[1].0 as int).kind, values[1].1) == Some(values[1].1));
    assert(canonical_single(parameter_spec(values[2].0 as int).kind, values[2].1) == Some(values[2].1));
    lemma_accepted_values_overlay(default_values(), values);
    lemma_overlaid_prefix(default_values(), values, 1);
    lemma_overlaid_prefix(default_values(), values, 2);
    lemma_overlaid_prefix(default_values(), values, 3);
    assert(values.subrange(0, 0) =~= Seq::<(u32, u32)>::empty());
    assert(values.subrange(0, 3) =~= values);
    reveal_strlit("flat");
    reveal_strlit("piano_air");
    reveal_strlit("warm");
    reveal_strlit("presence");
    reveal_strlit("rumble_cut");
    reveal_strlit("telephone");
    reveal_strlit("mix_cleanup");
    reveal_strlit("master_polish");
    lemma_preset_identifiers_are_unique();
    assert(preset_id(0) == "flat"@);
    assert(preset_id(1) == "piano_air"@);
    assert(preset_id(2) == "warm"@);
    assert(preset_id(3) == "presence"@);
    assert(preset_id(4) == "rumble_cut"@);
    assert(preset_id(5) == "telephone"@);
    assert(preset_id(6) == "mix_cleanup"@);
    assert(preset_id(7) == "master_polish"@);
    assert(overlaid(default_values(), values) =~= described_settings(preset_id(3)).unwrap());
}

#[verifier::rlimit(40)]
proof fn lemma_preset_4_is_its_row()
    ensures
        applied(default_values(), preset_values(4)) == described_settings(preset_id(4)),
{
    let values = preset_values(4);
    assert(canonical_single(parameter_spec(values[0].0 as int).kind, values[0].1) == Some(values[0].1));
    assert(canonical_single(parameter_spec(values[1].0 as int).kind, values[1].1) == Some(values[1].1));
    lemma_accepted_values_overlay(default_values(), values);
    lemma_overlaid_prefix(default_values(), values, 1);
    lemma_overlaid_prefix(default_values(), values, 2);
    assert(values.subrange(0, 0) =~= Seq::<(u32, u32)>::empty());
    assert(values.subrange(0, 2) =~= values);
    reveal_strlit("flat");
    reveal_strlit("piano_air");
    reveal_strlit("warm");
    reveal_strlit("presence");
    reveal_strlit("rumble_cut");
    reveal_strlit("telephone");
    reveal_strlit("mix_cleanup");
    reveal_strlit("master_polish");
    lemma_preset_identifiers_are_unique();
    assert(preset_id(0) == "flat"@);
    assert(preset_id(1) == "piano_air"@);
    assert(preset_id(2) == "warm"@);
    assert(preset_id(3) == "presence"@);
    assert(preset_id(4) == "rumble_cut"@);
    assert(preset_id(5) == "telephone"@);
    assert(preset_id(6) == "mix_cleanup"@);
    assert(preset_id(7) == "master_polish"@);
    assert(overlaid(default_values(), values) =~= described_settings(preset_id(4)).unwrap());
}

#[verifier::rlimit(40)]
proof fn lemma_preset_5_is_its_row()
    ensures
        applied(default_values(), preset_values(5)) == described_settings(preset_id(5)),
{
    let values = preset_values(5);
    assert(canonical_single(parameter_spec(values[0].0 as int).kind, values[0].1) == Some(values[0].1));
    assert(canonical_single(parameter_spec(values[1].0 as int).kind, values[1].1) == Some(values[1].1));
    assert(canonical_single(parameter_spec(values[2].0 as int).kind, values[2].1) == Some(values[2].1));
    assert(canonical_single(parameter_spec(values[3].0 as int).kind, values[3].1) == Some(values[3].1));
    lemma_accepted_values_overlay(default_values(), values);
    lemma_overlaid_prefix(default_values(), values, 1);
    lemma_overlaid_prefix(default_values(), values, 2);
    lemma_overlaid_prefix(default_values(), values, 3);
    lemma_overlaid_prefix(default_values(), values, 4);
    assert(values.subrange(0, 0) =~= Seq::<(u32, u32)>::empty());
    assert(values.subrange(0, 4) =~= values);
    reveal_strlit("flat");
    reveal_strlit("piano_air");
    reveal_strlit("warm");
    reveal_strlit("presence");
    reveal_strlit("rumble_cut");
    reveal_strlit("telephone");
    reveal_strlit("mix_cleanup");
    reveal_strlit("master_polish");
    lemma_preset_identifiers_are_unique();
    assert(preset_id(0) == "flat"@);
    assert(preset_id(1) == "piano_air"@);
    assert(preset_id(2) == "warm"@);
    assert(preset_id(3) == "presence"@);
    assert(preset_id(4) == "rumble_cut"@);
    assert(preset_id(5) == "telephone"@);
    assert(preset_id(6) == "mix_cleanup"@);
    assert(preset_id(7) == "master_polish"@);
    assert(overlaid(default_values(), values) =~= described_settings(preset_id(5)).unwrap());
}

#[verifier::rlimit(40)]
proof fn lemma_preset_6_is_its_row()
    ensures
        applied(default_values(), preset_values(6)) == described_settings(preset_id(6)),
{
    let values = preset_values(6);
    assert(canonical_single(parameter_spec(values[0].0 as int).kind, values[0].1) == Some(values[0].1));
    assert(canonical_single(parameter_spec(values[1].0 as int).kind, values[1].1) == Some(values[1].1));
    assert(canonical_single(parameter_spec(values[2].0 as int).kind, values[2].1) == Some(values[2].1));
    assert(canonical_single(parameter_spec(values[3].0 as int).kind, values[3].1) == Some(values[3].1));
    assert(canonical_single(parameter_spec(values[4].0 as int).kind, values[4].1) == Some(values[4].1));
    assert(canonical_single(parameter_spec(values[5].0 as int).kind, values[5].1) == Some(values[5].1));
    assert(canonical_single(parameter_spec(values[6].0 as int).kind, values[6].1) == Some(values[6].1));
    assert(canonical_single(parameter_spec(values[7].0 as int).kind, values[7].1) == Some(values[7].1));
    lemma_accepted_values_overlay(default_values(), values);
    lemma_overlaid_prefix(default_values(), values, 1);
    lemma_overlaid_prefix(default_values(), values, 2);
    lemma_overlaid_prefix(default_values(), values, 3);
    lemma_overlaid_prefix(default_values(), values, 4);
    lemma_overlaid_prefix(default_values(), values, 5);
    lemma_overlaid_prefix(default_values(), values, 6);
    lemma_overlaid_prefix(default_values(), values, 7);
    lemma_overlaid_prefix(default_values(), values, 8);
    assert(values.subrange(0, 0) =~= Seq::<(u32, u32)>::empty());
    assert(values.subrange(0, 8) =~= values);
    reveal_strlit("flat");
    reveal_strlit("piano_air");
    reveal_strlit("warm");
    reveal_strlit("presence");
    reveal_strlit("rumble_cut");
    reveal_strlit("telephone");
    reveal_strlit("mix_cleanup");
    reveal_strlit("master_polish");
    lemma_preset_identifiers_are_unique();
    assert(preset_id(0) == "flat"@);
    assert(preset_id(1) == "piano_air"@);
    assert(preset_id(2) == "warm"@);
    assert(preset_id(3) == "presence"@);
    assert(preset_id(4) == "rumble_cut"@);
    assert(preset_id(5) == "telephone"@);
    assert(preset_id(6) == "mix_cleanup"@);
    assert(preset_id(7) == "master_polish"@);
    assert(overlaid(default_values(), values) =~= described_settings(preset_id(6)).unwrap());
}

#[verifier::rlimit(40)]
proof fn lemma_preset_7_is_its_row()
    ensures
        applied(default_values(), preset_values(7)) == described_settings(preset_id(7)),
{
    let values = preset_values(7);
    assert(canonical_single(parameter_spec(values[0].0 as int).kind, values[0].1) == Some(values[0].1));
    assert(canonical_single(parameter_spec(values[1].0 as int).kind, values[1].1) == Some(values[1].1));
    assert(canonical_single(parameter_spec(values[2].0 as int).kind, values[2].1) == Some(values[2].1));
    assert(canonical_single(parameter_spec(values[3].0 as int).kind, values[3].1) == Some(values[3].1));
    assert(canonical_single(parameter_spec(values[4].0 as int).kind, values[4].1) == Some(values[4].1));
    assert(canonical_single(parameter_spec(values[5].0 as int).kind, values[5].1) == Some(values[5].1));
    assert(canonical_single(parameter_spec(values[6].0 as int).kind, values[6].1) == Some(values[6].1));
    assert(canonical_single(parameter_spec(values[7].0 as int).kind, values[7].1) == Some(values[7].1));
    assert(canonical_single(parameter_spec(values[8].0 as int).kind, values[8].1) == Some(values[8].1));
    assert(canonical_single(parameter_spec(values[9].0 as int).kind, values[9].1) == Some(values[9].1));
    assert(canonical_single(parameter_spec(values[10].0 as int).kind, values[10].1) == Some(values[10].1));
    lemma_accepted_values_overlay(default_values(), values);
    lemma_overlaid_prefix(default_values(), values, 1);
    lemma_overlaid_prefix(default_values(), values, 2);
    lemma_overlaid_prefix(default_values(), values, 3);
    lemma_overlaid_prefix(default_values(), values, 4);
    lemma_overlaid_prefix(default_values(), values, 5);
    lemma_overlaid_prefix(default_values(), values, 6);
    lemma_overlaid_prefix(default_values(), values, 7);
    lemma_overlaid_prefix(default_values(), values, 8);
    lemma_overlaid_prefix(default_values(), values, 9);
    lemma_overlaid_prefix(default_values(), values, 10);
    lemma_overlaid_prefix(default_values(), values, 11);
    assert(values.subrange(0, 0) =~= Seq::<(u32, u32)>::empty());
    assert(values.subrange(0, 11) =~= values);
    reveal_strlit("flat");
    reveal_strlit("piano_air");
    reveal_strlit("warm");
    reveal_strlit("presence");
    reveal_strlit("rumble_cut");
    reveal_strlit("telephone");
    reveal_strlit("mix_cleanup");
    reveal_strlit("master_polish");
    lemma_preset_identifiers_are_unique();
    assert(preset_id(0) == "flat"@);
    assert(preset_id(1) == "piano_air"@);
    assert(preset_id(2) == "warm"@);
    assert(preset_id(3) == "presence"@);
    assert(preset_id(4) == "rumble_cut"@);
    assert(preset_id(5) == "telephone"@);
    assert(preset_id(6) == "mix_cleanup"@);
    assert(preset_id(7) == "master_polish"@);
    assert(overlaid(default_values(), values) =~= described_settings(preset_id(7)).unwrap());
}

/// The preset a catalog entry loads is the one its row describes.
proof fn lemma_preset_is_its_row(i: int)
    requires
        0 <= i < PRESET_COUNT,
    ensures
        applied(default_values(), preset_values(i)) == described_settings(preset_id(i)),
{
    if i == 0 {
        lemma_preset_0_is_its_row();
    } else if i == 1 {
        lemma_preset_1_is_its_row();
    } else if i == 2 {
        lemma_preset_2_is_its_row();
    } else if i == 3 {
        lemma_preset_3_is_its_row();
    } else if i == 4 {
        lemma_preset_4_is_its_row();
    } else if i == 5 {
        lemma_preset_5_is_its_row();
    } else if i == 6 {
        lemma_preset_6_is_its_row();
    } else {
        lemma_preset_7_is_its_row();
    }
}

/// Loading a preset by its identifier gives the settings its row of the
/// factory table describes, and an identifier no row carries loads
/// nothing.
pub proof fn lemma_presets_are_their_rows(id: Seq<char>)
    ensures
        preset_settings(id) == described_settings(id),
{
    lemma_preset_identifiers_are_unique();
    reveal_strlit("flat");
    reveal_strlit("piano_air");
    reveal_strlit("warm");
    reveal_strlit("presence");
    reveal_strlit("rumble_cut");
    reveal_strlit("telephone");
    reveal_strlit("mix_cleanup");
    reveal_strlit("master_polish");
    if exists|i: int| 0 <= i < PRESET_COUNT && preset_id(i) == id {
        let i = choose|i: int| 0 <= i < PRESET_COUNT && preset_id(i) == id;
        lemma_preset_found(i);
        lemma_preset_is_its_row(i);
    } else {
        assert(preset_id(0) == "flat"@);
        assert(preset_id(1) == "piano_air"@);
        assert(preset_id(2) == "warm"@);
        assert(preset_id(3) == "presence"@);
        assert(preset_id(4) == "rumble_cut"@);
        assert(preset_id(5) == "telephone"@);
        assert(preset_id(6) == "mix_cleanup"@);
        assert(preset_id(7) == "master_polish"@);
    }
}

} // verus!
