use rf_eq::contract::{parameters, PARAMETER_COUNT};
use rf_eq::engine::{accepts_sample_rate, LATENCY};
use rf_eq::index;
use rf_eq::preset::{preset, presets, settings_for, PRESET_COUNT};
use rf_eq::routing::serves_layout;
use rf_eq::settings::Settings;
use rf_eq::state::{load_state, save_state, STATE_BYTES};

fn double(value: f64) -> u64 {
    value.to_bits()
}

fn single(value: f32) -> u32 {
    value.to_bits()
}

#[test]
fn defaults_round_trip_through_validation() {
    let settings = Settings::default();
    let restored = Settings::from_array(settings.as_array()).expect("defaults are valid");
    assert_eq!(settings.as_array(), restored.as_array());
}

#[test]
fn a_value_outside_the_contract_is_refused() {
    let mut settings = Settings::default();
    assert!(settings.set(index::PEAK1_GAIN, double(-15.0)));
    assert!(!settings.set(index::PEAK1_GAIN, double(15.1)));
    assert!(!settings.set(index::HPF_FREQUENCY, double(10.0)));
    assert!(settings.set(index::HPF_FREQUENCY, double(500.0)));
    assert!(!settings.set(index::BYPASS, double(0.5)));
    assert!(settings.set(index::BYPASS, double(1.0)));
    assert!(!settings.set(index::PEAK2_Q, double(f64::NAN)));
    assert!(!settings.set(PARAMETER_COUNT as u32, double(0.0)));
}

#[test]
fn every_preset_loads_and_stays_inside_the_contract() {
    for preset in presets().iter() {
        assert!(
            settings_for(preset.id).is_some(),
            "{} does not load",
            preset.id
        );
    }
    assert!(settings_for("nowhere").is_none());
}

#[test]
fn preset_identifiers_are_unique() {
    let all = presets();
    for (position, preset) in all.iter().enumerate() {
        for other in &all[position + 1..] {
            assert_ne!(preset.id, other.id);
        }
    }
}

#[test]
fn flat_is_the_defaults() {
    let flat = settings_for("flat").expect("flat loads");
    assert_eq!(flat.as_array(), Settings::default().as_array());
}

#[test]
fn every_factory_setting_loads() {
    for preset in presets().iter() {
        assert!(settings_for(preset.id).is_some(), "{}", preset.id);
    }
}

#[test]
fn piano_air_carries_its_described_values() {
    let air = settings_for("piano_air").expect("piano air loads");
    assert_eq!(f32::from_bits(air.value(index::HIGH_SHELF_FREQUENCY)), 8_000.0);
    assert_eq!(f32::from_bits(air.value(index::HIGH_SHELF_GAIN)), 2.5);
    assert_eq!(f32::from_bits(air.value(index::LOW_SHELF_FREQUENCY)), 120.0);
    assert_eq!(f32::from_bits(air.value(index::LOW_SHELF_GAIN)), -1.0);
    assert_eq!(f32::from_bits(air.value(index::PEAK1_GAIN)), 0.0);
}

#[test]
fn telephone_is_a_high_pass_and_a_low_pass() {
    let telephone = settings_for("telephone").expect("telephone loads");
    assert!(telephone.engaged(index::HPF_ENABLE));
    assert_eq!(f32::from_bits(telephone.value(index::HPF_FREQUENCY)), 300.0);
    assert!(telephone.engaged(index::LPF_ENABLE));
    assert_eq!(f32::from_bits(telephone.value(index::LPF_FREQUENCY)), 3_000.0);
    assert!(!telephone.engaged(index::BYPASS));
    assert_eq!(PRESET_COUNT, 8);
    assert_eq!(preset(5).name, "Telephone");
}

#[test]
fn defaults_leave_every_band_out_and_the_trim_at_zero() {
    let settings = Settings::default();
    for gain in [
        index::LOW_SHELF_GAIN,
        index::PEAK1_GAIN,
        index::PEAK2_GAIN,
        index::PEAK3_GAIN,
        index::PEAK4_GAIN,
        index::HIGH_SHELF_GAIN,
        index::OUTPUT,
    ] {
        assert_eq!(settings.value(gain), 0);
    }
    assert!(!settings.engaged(index::HPF_ENABLE));
    assert!(!settings.engaged(index::LPF_ENABLE));
    assert!(!settings.engaged(index::BYPASS));
    for (position, spec) in parameters().iter().enumerate() {
        assert_eq!(
            settings.get(position as u32),
            Some(f64::from(f32::from_bits(spec.default_value())).to_bits())
        );
    }
    assert_eq!(settings.get(PARAMETER_COUNT as u32), None);
}

#[test]
fn a_written_value_reads_back_rounded_to_single_precision() {
    let mut settings = Settings::default();
    assert!(settings.set(index::PEAK1_FREQUENCY, double(440.123456789)));
    assert_eq!(
        settings.get(index::PEAK1_FREQUENCY),
        Some(f64::from(440.123456789_f64 as f32).to_bits())
    );
    assert!(settings.set(index::PEAK1_Q, double(2.5)));
    assert_eq!(settings.get(index::PEAK1_Q), Some(double(2.5)));
    assert!(!settings.set(index::PEAK1_Q, double(0.2)));
    assert_eq!(settings.get(index::PEAK1_Q), Some(double(2.5)));
}

#[test]
fn an_earlier_block_keeps_what_was_added_since_at_rest() {
    let mut older = [0_u32; 14];
    let defaults = Settings::default().as_array();
    older.copy_from_slice(&defaults[..14]);
    older[index::PEAK1_GAIN as usize] = single(6.0);
    let settings = Settings::from_slice(&older).expect("an older block loads");
    assert_eq!(f32::from_bits(settings.value(index::PEAK1_GAIN)), 6.0);
    for position in 14..PARAMETER_COUNT {
        assert_eq!(settings.value(position as u32), defaults[position]);
    }
    assert!(Settings::from_slice(&defaults[..13]).is_none());
    assert!(Settings::from_slice(&[]).is_none());
    let mut wrong = defaults;
    wrong[index::HPF_FREQUENCY as usize] = single(5.0);
    assert!(Settings::from_array(wrong).is_none());
}

#[test]
fn engine_state_round_trips_and_a_bad_length_is_refused() {
    let mut settings = Settings::default();
    assert!(settings.set(index::PEAK2_FREQUENCY, double(2_500.0)));
    assert!(settings.set(index::HPF_ENABLE, double(1.0)));
    let mut block = [0_u8; STATE_BYTES];
    assert_eq!(save_state(&settings, &mut block), Some(STATE_BYTES));
    let other = load_state(&block).expect("a saved block loads");
    assert_eq!(other.get(index::PEAK2_FREQUENCY).map(f64::from_bits), Some(2_500.0));
    assert_eq!(other.get(index::HPF_ENABLE).map(f64::from_bits), Some(1.0));
    assert!(load_state(&block[..7]).is_none());
    assert!(load_state(&block[..8]).is_none());
}

#[test]
fn lib_state_round_trips_and_a_bad_length_is_refused() {
    let mut settings = Settings::default();
    assert!(settings.set(index::PEAK1_GAIN, double(6.5)));
    let mut block = [0_u8; 4096];
    assert_eq!(save_state(&settings, &mut block), Some(STATE_BYTES));
    let other = load_state(&block[..STATE_BYTES]).expect("a saved block loads");
    assert_eq!(other.get(index::PEAK1_GAIN).map(f64::from_bits), Some(6.5));
    assert!(load_state(&block[..STATE_BYTES - 4]).is_none());
}

#[test]
fn the_state_is_little_endian_singles_in_parameter_order() {
    let settings = settings_for("warm").expect("warm loads");
    let mut block = [0xAA_u8; STATE_BYTES + 3];
    assert_eq!(save_state(&settings, &mut block), Some(STATE_BYTES));
    for (position, value) in settings.as_array().iter().enumerate() {
        assert_eq!(&block[4 * position..4 * position + 4], &value.to_le_bytes());
    }
    assert_eq!(&block[STATE_BYTES..], &[0xAA, 0xAA, 0xAA]);
    let mut short = [0x55_u8; STATE_BYTES - 1];
    assert_eq!(save_state(&settings, &mut short), None);
    assert!(short.iter().all(|byte| *byte == 0x55));
}

#[test]
fn an_earlier_state_block_is_read() {
    let defaults = Settings::default().as_array();
    let mut block = Vec::new();
    for value in &defaults[..14] {
        block.extend_from_slice(&value.to_le_bytes());
    }
    block[4 * index::OUTPUT as usize..4 * index::OUTPUT as usize + 4]
        .copy_from_slice(&(-3.0_f32).to_bits().to_le_bytes());
    let settings = load_state(&block).expect("an older block loads");
    assert_eq!(f32::from_bits(settings.value(index::OUTPUT)), -3.0);
    assert_eq!(settings.value(index::LPF_FREQUENCY), defaults[index::LPF_FREQUENCY as usize]);
    // A value outside the contract refuses the block whole.
    block[0..4].copy_from_slice(&0.5_f32.to_bits().to_le_bytes());
    assert!(load_state(&block).is_none());
}

#[test]
fn it_refuses_a_rate_that_is_not_a_rate() {
    assert!(!accepts_sample_rate(double(0.0)));
    assert!(!accepts_sample_rate(double(-48_000.0)));
    assert!(!accepts_sample_rate(double(f64::NAN)));
    assert!(accepts_sample_rate(double(192_000.0)));
    assert_eq!(LATENCY, 0);
    assert!(!accepts_sample_rate(double(-0.0)));
    assert!(!accepts_sample_rate(double(f64::INFINITY)));
    assert!(accepts_sample_rate(double(f64::MIN_POSITIVE)));
}

fn prepare(sample_rate: f64, input_channels: u32, output_channels: u32) -> bool {
    serves_layout(input_channels, output_channels) && accepts_sample_rate(double(sample_rate))
}

#[test]
fn it_refuses_a_configuration_it_cannot_serve() {
    assert!(!prepare(48_000.0, 0, 2));
    assert!(!prepare(48_000.0, 3, 2));
    assert!(!prepare(48_000.0, 2, 3));
    assert!(!prepare(0.0, 2, 2));
    assert!(prepare(48_000.0, 1, 2));
}

#[test]
fn a_value_read_back_writes_unchanged() {
    let mut settings = settings_for("presence").expect("presence loads");
    let before = settings.as_array();
    for position in 0..PARAMETER_COUNT as u32 {
        let value = settings.get(position).expect("every parameter reads");
        assert!(settings.set(position, value), "parameter {position}");
    }
    assert_eq!(settings.as_array(), before);
}

#[test]
fn the_factory_settings_are_the_eight_of_the_table() {
    let names: Vec<&str> = presets().iter().map(|p| p.name).collect();
    assert_eq!(
        names,
        vec![
            "Flat",
            "Piano Air",
            "Warm",
            "Presence",
            "Rumble Cut",
            "Telephone",
            "Mix Cleanup",
            "Master Polish",
        ]
    );
    for p in presets() {
        assert!(settings_for(p.id).is_some(), "{} loads", p.id);
    }
    assert!(settings_for("no_such_preset").is_none());
}

#[test]
fn mix_cleanup_cuts_subsonics_and_low_mids_and_lifts_presence() {
    let mix = settings_for("mix_cleanup").expect("mix cleanup loads");
    assert_eq!(preset(6).name, "Mix Cleanup");
    assert!(mix.engaged(index::HPF_ENABLE));
    assert_eq!(f32::from_bits(mix.value(index::HPF_FREQUENCY)), 30.0);
    assert_eq!(f32::from_bits(mix.value(index::PEAK1_FREQUENCY)), 300.0);
    assert_eq!(f32::from_bits(mix.value(index::PEAK1_GAIN)), -2.5);
    assert_eq!(f32::from_bits(mix.value(index::PEAK2_FREQUENCY)), 4_000.0);
    assert_eq!(f32::from_bits(mix.value(index::PEAK2_GAIN)), 2.0);
    assert_eq!(f32::from_bits(mix.value(index::PEAK2_Q)), 0.7);
    assert!(!mix.engaged(index::LPF_ENABLE));
    assert_eq!(f32::from_bits(mix.value(index::OUTPUT)), 0.0);
}

#[test]
fn master_polish_makes_broad_moves_and_compensates_the_output() {
    let polish = settings_for("master_polish").expect("master polish loads");
    assert_eq!(preset(7).name, "Master Polish");
    assert_eq!(f32::from_bits(polish.value(index::LOW_SHELF_GAIN)), 1.0);
    assert_eq!(f32::from_bits(polish.value(index::PEAK1_GAIN)), -1.0);
    assert_eq!(f32::from_bits(polish.value(index::PEAK3_GAIN)), 1.0);
    assert_eq!(f32::from_bits(polish.value(index::HIGH_SHELF_GAIN)), 1.5);
    assert_eq!(f32::from_bits(polish.value(index::HIGH_SHELF_FREQUENCY)), 10_000.0);
    assert_eq!(f32::from_bits(polish.value(index::OUTPUT)), -1.5);
    assert!(!polish.engaged(index::HPF_ENABLE));
    assert!(!polish.engaged(index::BYPASS));
}
