use rf_eq::contract::{
    page, pages, parameter, parameter_index, parameters, Control, Kind, ParameterSpec, Taper,
    PAGE_COUNT, PARAMETER_COUNT,
};
use rf_eq::index;

fn single(value: f32) -> u32 {
    value.to_bits()
}

fn double(value: f64) -> u64 {
    value.to_bits()
}

#[test]
fn every_parameter_declares_its_own_index_and_a_known_page() {
    let pages = pages();
    for (position, spec) in parameters().iter().enumerate() {
        assert_eq!(spec.index as usize, position, "{}", spec.id);
        assert!(
            pages.iter().any(|page| page.id == spec.page),
            "{} refers to an undeclared page",
            spec.id
        );
    }
}

#[test]
fn parameter_identifiers_are_unique_and_host_legal() {
    let all = parameters();
    for (position, spec) in all.iter().enumerate() {
        assert!(
            spec.id.bytes().all(|byte| byte.is_ascii_lowercase()
                || byte.is_ascii_digit()
                || b".-_".contains(&byte)),
            "{} is not a legal RackForge identifier",
            spec.id
        );
        for other in &all[position + 1..] {
            assert_ne!(spec.id, other.id);
        }
    }
}

#[test]
fn a_logarithmic_taper_never_starts_at_zero() {
    for spec in parameters().iter() {
        if let Kind::Float {
            taper: Taper::Logarithmic,
            minimum,
            ..
        } = spec.kind
        {
            assert!(
                f32::from_bits(minimum) > 0.0,
                "{} tapers logarithmically from zero",
                spec.id
            );
        }
    }
}

#[test]
fn every_default_sits_inside_its_range() {
    for spec in parameters().iter() {
        let default = f32::from_bits(spec.default_value());
        assert!(
            spec.canonicalize(double(f64::from(default))).is_some(),
            "{} defaults outside its range",
            spec.id
        );
    }
}

#[test]
fn named_indexes_point_at_the_identifiers_they_claim() {
    let expect = |index: u32, id: &str| assert_eq!(parameter(index as usize).id, id);
    expect(index::HPF_ENABLE, "hpf.enable");
    expect(index::HPF_FREQUENCY, "hpf.frequency");
    expect(index::LOW_SHELF_FREQUENCY, "low_shelf.frequency");
    expect(index::LOW_SHELF_GAIN, "low_shelf.gain");
    expect(index::PEAK1_FREQUENCY, "peak1.frequency");
    expect(index::PEAK1_GAIN, "peak1.gain");
    expect(index::PEAK1_Q, "peak1.q");
    expect(index::PEAK2_FREQUENCY, "peak2.frequency");
    expect(index::PEAK2_GAIN, "peak2.gain");
    expect(index::PEAK2_Q, "peak2.q");
    expect(index::HIGH_SHELF_FREQUENCY, "high_shelf.frequency");
    expect(index::HIGH_SHELF_GAIN, "high_shelf.gain");
    expect(index::OUTPUT, "output.trim");
    expect(index::BYPASS, "output.bypass");
    expect(index::PEAK3_FREQUENCY, "peak3.frequency");
    expect(index::PEAK3_GAIN, "peak3.gain");
    expect(index::PEAK3_Q, "peak3.q");
    expect(index::PEAK4_FREQUENCY, "peak4.frequency");
    expect(index::PEAK4_GAIN, "peak4.gain");
    expect(index::PEAK4_Q, "peak4.q");
    expect(index::LPF_ENABLE, "lpf.enable");
    expect(index::LPF_FREQUENCY, "lpf.frequency");
}

#[test]
fn control_hints_have_their_surface_names() {
    assert_eq!(Control::Knob.as_str(), "knob");
    assert_eq!(Control::Toggle.as_str(), "toggle");
    assert_eq!(Control::List.as_str(), "list");
    assert_eq!(Control::Meter.as_str(), "meter");
}

#[test]
fn the_pages_are_filters_then_output() {
    assert_eq!(PAGE_COUNT, 2);
    assert_eq!(page(0).id, "filters");
    assert_eq!(page(0).name, "Filters");
    assert_eq!(page(0).order, 0);
    assert_eq!(page(1).id, "output");
    assert_eq!(page(1).name, "Output");
    assert_eq!(page(1).order, 1);
}

#[test]
fn the_table_reads_as_the_controls_are_described() {
    assert_eq!(parameters().len(), PARAMETER_COUNT);
    let hpf = parameter(index::HPF_FREQUENCY as usize);
    assert_eq!(hpf.name, "HPF Freq");
    assert_eq!(hpf.page, "filters");
    assert!(matches!(hpf.control, Control::Knob));
    match hpf.kind {
        Kind::Float { minimum, maximum, default, step, unit, taper } => {
            assert_eq!(f32::from_bits(minimum), 20.0);
            assert_eq!(f32::from_bits(maximum), 500.0);
            assert_eq!(f32::from_bits(default), 40.0);
            assert_eq!(f32::from_bits(step), 1.0);
            assert_eq!(unit, Some("Hz"));
            assert_eq!(taper, Taper::Logarithmic);
        }
        _ => panic!("the high-pass frequency is a float"),
    }
    let trim = parameter(index::OUTPUT as usize);
    match trim.kind {
        Kind::Float { minimum, maximum, default, step, unit, taper } => {
            assert_eq!(f32::from_bits(minimum), -24.0);
            assert_eq!(f32::from_bits(maximum), 24.0);
            assert_eq!(f32::from_bits(default), 0.0);
            assert_eq!(f32::from_bits(step), 0.1);
            assert_eq!(unit, Some("dB"));
            assert_eq!(taper, Taper::Linear);
        }
        _ => panic!("the trim is a float"),
    }
    let q = parameter(index::PEAK3_Q as usize);
    match q.kind {
        Kind::Float { minimum, maximum, default, step, unit, .. } => {
            assert_eq!(f32::from_bits(minimum), 0.3);
            assert_eq!(f32::from_bits(maximum), 10.0);
            assert_eq!(f32::from_bits(default), 1.0);
            assert_eq!(f32::from_bits(step), 0.01);
            assert_eq!(unit, None);
        }
        _ => panic!("a Q is a float"),
    }
    let lpf = parameter(index::LPF_FREQUENCY as usize);
    assert_eq!(f32::from_bits(lpf.default_value()), 20_000.0);
    let bypass = parameter(index::BYPASS as usize);
    assert!(matches!(bypass.kind, Kind::Boolean { default: false }));
    assert!(matches!(bypass.control, Control::Toggle));
    assert_eq!(bypass.page, "output");
}

#[test]
fn identifiers_find_their_parameters() {
    assert_eq!(parameter_index("peak1.frequency"), Some(index::PEAK1_FREQUENCY));
    assert_eq!(parameter_index("lpf.frequency"), Some(index::LPF_FREQUENCY));
    assert_eq!(parameter_index("output.bypass"), Some(index::BYPASS));
    assert_eq!(parameter_index("peak5.gain"), None);
    assert_eq!(parameter_index(""), None);
}

fn float_spec(minimum: f32, maximum: f32) -> ParameterSpec {
    ParameterSpec {
        index: 0,
        id: "test.float",
        name: "Test",
        page: "filters",
        order: 0,
        kind: Kind::Float {
            minimum: single(minimum),
            maximum: single(maximum),
            default: single(minimum),
            step: single(1.0),
            unit: None,
            taper: Taper::Linear,
        },
        control: Control::Knob,
    }
}

#[test]
fn a_float_takes_its_rounded_value_inside_its_bounds() {
    let spec = float_spec(-15.0, 15.0);
    assert_eq!(spec.canonicalize(double(-15.0)), Some(single(-15.0)));
    assert_eq!(spec.canonicalize(double(15.0)), Some(single(15.0)));
    assert_eq!(spec.canonicalize(double(15.1)), None);
    assert_eq!(spec.canonicalize(double(0.1)), Some(single(0.1)));
    assert_eq!(spec.canonicalize(double(-0.0)), Some(single(-0.0)));
    assert_eq!(spec.canonicalize(double(f64::NAN)), None);
    assert_eq!(spec.canonicalize(double(f64::INFINITY)), None);
    assert_eq!(spec.canonicalize(double(f64::NEG_INFINITY)), None);
    // Just above the bound, but narrowing lands on it.
    let near = 15.0_f64 + 1.0e-9;
    assert_eq!(spec.canonicalize(double(near)), Some(single(15.0)));
}

#[test]
fn a_float_with_an_infinite_bound_refuses_a_non_finite_host_value() {
    let spec = float_spec(0.0, f32::INFINITY);
    assert_eq!(spec.canonicalize(double(f64::INFINITY)), None);
    // A finite double past the largest single narrows to infinity, which the
    // bound admits.
    assert_eq!(spec.canonicalize(double(1.0e300)), Some(single(f32::INFINITY)));
}

#[test]
fn a_switch_takes_exactly_zero_or_one() {
    let spec = parameter(index::BYPASS as usize);
    assert_eq!(spec.canonicalize(double(0.0)), Some(single(0.0)));
    assert_eq!(spec.canonicalize(double(-0.0)), Some(single(0.0)));
    assert_eq!(spec.canonicalize(double(1.0)), Some(single(1.0)));
    assert_eq!(spec.canonicalize(double(0.5)), None);
    assert_eq!(spec.canonicalize(double(1.0 + 1.0e-12)), None);
    assert_eq!(spec.canonicalize(double(2.0)), None);
    assert_eq!(spec.canonicalize(double(f64::NAN)), None);
}

static CHOICES: [&str; 3] = ["one", "two", "three"];

fn list_spec(default: u32) -> ParameterSpec {
    ParameterSpec {
        index: 0,
        id: "test.list",
        name: "List",
        page: "filters",
        order: 0,
        kind: Kind::Enum { default, choices: &CHOICES },
        control: Control::List,
    }
}

#[test]
fn a_list_takes_a_whole_number_below_its_choice_count() {
    let spec = list_spec(1);
    assert_eq!(f32::from_bits(spec.default_value()), 1.0);
    assert_eq!(spec.canonicalize(double(0.0)), Some(single(0.0)));
    assert_eq!(spec.canonicalize(double(-0.0)), Some(single(0.0)));
    assert_eq!(spec.canonicalize(double(2.0)), Some(single(2.0)));
    assert_eq!(spec.canonicalize(double(3.0)), None);
    assert_eq!(spec.canonicalize(double(1.5)), None);
    assert_eq!(spec.canonicalize(double(-1.0)), None);
    assert_eq!(spec.canonicalize(double(1.0e-300)), None);
    assert_eq!(spec.canonicalize(double(1.0e30)), None);
    assert!(!spec.is_meter());
}

#[test]
fn a_large_default_choice_rounds_like_a_conversion() {
    for default in [16_777_217_u32, 16_777_219, 33_554_435, u32::MAX, 123_456_789] {
        assert_eq!(list_spec(default).default_value(), (default as f32).to_bits());
    }
}

#[test]
fn a_meter_reads_its_maximum_and_takes_values_in_its_range() {
    let spec = ParameterSpec {
        index: 0,
        id: "test.meter",
        name: "Meter",
        page: "output",
        order: 0,
        kind: Kind::Meter { minimum: single(-60.0), maximum: single(0.0), unit: Some("dB") },
        control: Control::Meter,
    };
    assert!(spec.is_meter());
    assert_eq!(spec.default_value(), single(0.0));
    assert_eq!(spec.canonicalize(double(-6.0)), Some(single(-6.0)));
    assert_eq!(spec.canonicalize(double(3.0)), None);
}

#[test]
fn every_parameter_decides_as_float_comparison_would() {
    let mut values: Vec<f64> = vec![
        0.0, -0.0, 1.0, 0.5, -15.0, 15.0, 15.000001, 20.0, 19.999998, 500.0, 1.0e-40, f64::NAN,
        f64::INFINITY, -24.0, 0.3, 10.0, 1.0e300, -1.0e-300,
    ];
    let mut state = 0xC0FF_EE00_u32;
    for _ in 0..300 {
        state = state.wrapping_mul(1_664_525).wrapping_add(1_013_904_223);
        values.push(f64::from(f32::from_bits(state)));
        values.push(f64::from(f32::from_bits(state % 0x4700_0000)));
    }
    for spec in parameters().iter() {
        for value in &values {
            let expected = match spec.kind {
                Kind::Float { minimum, maximum, .. } => {
                    let narrowed = *value as f32;
                    (value.is_finite()
                        && narrowed >= f32::from_bits(minimum)
                        && narrowed <= f32::from_bits(maximum))
                    .then_some(narrowed.to_bits())
                }
                Kind::Boolean { .. } => {
                    if *value == 0.0 {
                        Some(0)
                    } else if *value == 1.0 {
                        Some(1.0_f32.to_bits())
                    } else {
                        None
                    }
                }
                _ => unreachable!(),
            };
            assert_eq!(spec.canonicalize(value.to_bits()), expected, "{} at {value:e}", spec.id);
        }
    }
}

#[test]
fn an_accepted_value_is_accepted_again_unchanged() {
    let meter = ParameterSpec {
        index: 0,
        id: "test.meter",
        name: "Meter",
        page: "output",
        order: 0,
        kind: Kind::Meter { minimum: single(-60.0), maximum: single(0.0), unit: Some("dB") },
        control: Control::Meter,
    };
    let specs = [
        float_spec(-15.0, 15.0),
        float_spec(0.0, f32::INFINITY),
        list_spec(0),
        meter,
        parameter(index::BYPASS as usize),
    ];
    let hosts = [0.0, -0.0, 0.1, 1.0, 2.0, -6.3, 14.999_999_9, 1.0e-40, 123_456.7];
    for spec in specs.iter() {
        for host in hosts {
            if let Some(accepted) = spec.canonicalize(double(host)) {
                let again = f64::from(f32::from_bits(accepted)).to_bits();
                assert_eq!(spec.canonicalize(again), Some(accepted), "{} at {host:e}", spec.id);
            }
        }
    }
    // The one exception: a host value past the largest single narrows to an
    // infinity, which a float with an infinite bound accepts once and then
    // refuses as a host value.
    let open_ended = float_spec(0.0, f32::INFINITY);
    let accepted = open_ended.canonicalize(double(1.0e300)).expect("accepted");
    assert_eq!(open_ended.canonicalize(f64::from(f32::from_bits(accepted)).to_bits()), None);
}
