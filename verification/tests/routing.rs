use rf_eq::engine::{band_engaged, band_update, design_step, BandUpdate, DESIGN_INTERVAL};
use rf_eq::routing::{
    due_events, input_positions, output_position, serves_layout, stereo_positions, Side,
};

#[test]
fn only_mono_and_stereo_layouts_are_served() {
    for input in 0..4 {
        for output in 0..4 {
            let expected = (1..=2).contains(&input) && (1..=2).contains(&output);
            assert_eq!(serves_layout(input, output), expected, "{input} in, {output} out");
        }
    }
}

#[test]
fn a_mono_input_feeds_both_sides_and_stereo_is_interleaved() {
    assert_eq!(input_positions(4, 2, 1), (Some(2), Some(2)));
    assert_eq!(input_positions(4, 4, 1), (None, None));
    assert_eq!(input_positions(8, 1, 2), (Some(2), Some(3)));
    assert_eq!(input_positions(7, 3, 2), (Some(6), None));
    assert_eq!(input_positions(8, 0, 0), (None, None));
    assert_eq!(input_positions(usize::MAX, usize::MAX, 2), (None, None));
}

#[test]
fn outputs_carry_the_left_first_and_the_right_after() {
    assert_eq!(output_position(8, 1, 2, 0), Some((2, Side::Left)));
    assert_eq!(output_position(8, 1, 2, 1), Some((3, Side::Right)));
    assert_eq!(output_position(8, 3, 2, 1), Some((7, Side::Right)));
    assert_eq!(output_position(8, 4, 2, 0), None);
    assert_eq!(output_position(4, 3, 1, 0), Some((3, Side::Left)));
}

#[test]
fn automation_lands_on_its_frame() {
    let frames = [0_u32, 0, 3, 3, 3, 7, 2];
    assert_eq!(due_events(&frames, 0, 0), 2);
    assert_eq!(due_events(&frames, 2, 1), 2);
    assert_eq!(due_events(&frames, 2, 3), 5);
    assert_eq!(due_events(&frames, 5, 7), 6);
    // An event out of order is never due, and holds back the rest.
    assert_eq!(due_events(&frames, 6, 8), 6);
    assert_eq!(due_events(&frames, 7, 8), 7);
}

#[test]
fn the_sections_are_redesigned_every_interval_while_moving() {
    let mut until = DESIGN_INTERVAL;
    let mut designs = Vec::new();
    for sample in 0..40 {
        let (design, next) = design_step(until, true);
        if design {
            designs.push(sample);
        }
        until = next;
    }
    assert_eq!(designs, vec![7, 15, 23, 31, 39]);
    // The last ramp arriving redesigns at once.
    assert_eq!(design_step(5, false), (true, DESIGN_INTERVAL));
    assert_eq!(design_step(5, true), (false, 4));
}

#[test]
fn a_band_at_zero_is_out_of_the_signal() {
    assert!(!band_engaged(0.0_f32.to_bits()));
    assert!(!band_engaged((-0.0_f32).to_bits()));
    assert!(band_engaged(1.0e-30_f32.to_bits()));
    assert!(band_engaged(f32::NAN.to_bits()));
    assert_eq!(band_update(true, false, true), BandUpdate::Design);
    assert_eq!(band_update(true, true, false), BandUpdate::Wire);
    assert_eq!(band_update(false, true, true), BandUpdate::Release);
    assert_eq!(band_update(false, false, false), BandUpdate::Rest);
}

#[test]
fn a_frame_folds_to_its_first_two_samples_or_the_first_twice() {
    assert_eq!(stereo_positions(1), (0, 0));
    assert_eq!(stereo_positions(2), (0, 1));
    assert_eq!(stereo_positions(6), (0, 1));
}
