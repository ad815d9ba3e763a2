use spinnrd::accel::{
    build_channels, file_name, get_or, is_accelerometer, parse_fix_sign, scale_source,
    AccelerationVector, Channel, ChannelNaming, ScaleSource,
    FsAccelerometer, Tilt, DEFAULT_DATA_PREFIX, DEFAULT_DATA_SUFFIX, DEFAULT_DESCR_PREFIX,
    DEFAULT_DESCR_SUFFIX, DEFAULT_FIX_SIGN, DEFAULT_FSACCEL_PATH, DEFAULT_SCALE_FILE,
};
use spinnrd::descriptor::{DecodeError, DescriptorError};
use spinnrd::options::{parse_options, Options};
use spinnrd::rotation::{DummyOrientator, Orientator, Rotation};

fn tilt(x: f64, y: f64, z: f64, sensitivity: f64) -> Tilt {
    Tilt {
        steep: (x.abs() - y.abs()).abs() > z.abs() / sensitivity + 1.4715,
        sideways: x.abs() > y.abs(),
        x_negative: x < 0.0,
        y_negative: y < 0.0,
    }
}

#[test]
fn vectors_add_and_subtract_by_component() {
    let a = AccelerationVector { x: 1i32, y: -2, z: 3 };
    let b = AccelerationVector { x: 10i32, y: 20, z: -30 };
    let sum = a + b;
    assert_eq!((sum.x, sum.y, sum.z), (11, 18, -27));
    let difference = a - b;
    assert_eq!((difference.x, difference.y, difference.z), (-9, -22, 33));
    let mut c = a;
    c += b;
    assert_eq!((c.x, c.y, c.z), (11, 18, -27));
}

#[test]
fn vectors_of_floats_add_too() {
    let a = AccelerationVector { x: 0.5f64, y: 1.0, z: -2.0 };
    let b = AccelerationVector { x: 0.25f64, y: 1.0, z: 2.0 };
    let sum = a + b;
    assert_eq!((sum.x, sum.y, sum.z), (0.75, 2.0, 0.0));
    let difference = a - b;
    assert_eq!((difference.x, difference.y, difference.z), (0.25, 0.0, -4.0));
}

#[test]
fn the_default_vector_is_zero() {
    let zero: AccelerationVector<i32> = Default::default();
    assert_eq!((zero.x, zero.y, zero.z), (0, 0, 0));
}

#[test]
fn strongly_to_the_right() {
    assert_eq!(tilt(-9.8, 0.1, 0.1, 5.0).orientation(), Some(Rotation::Right));
}

#[test]
fn lying_flat_has_no_orientation() {
    assert_eq!(tilt(0.1, 0.1, 9.8, 5.0).orientation(), None);
}

#[test]
fn the_four_rotations() {
    assert_eq!(tilt(9.8, 0.1, 0.1, 5.0).orientation(), Some(Rotation::Left));
    assert_eq!(tilt(-9.8, 0.1, 0.1, 5.0).orientation(), Some(Rotation::Right));
    assert_eq!(tilt(0.1, -9.8, 0.1, 5.0).orientation(), Some(Rotation::Normal));
    assert_eq!(tilt(0.1, 9.8, 0.1, 5.0).orientation(), Some(Rotation::Inverted));
    assert_eq!(tilt(6.9, 6.9, 0.0, 5.0).orientation(), None);
}

#[test]
fn every_tilt_has_its_rotation() {
    for steep in [false, true] {
        for sideways in [false, true] {
            for x_negative in [false, true] {
                for y_negative in [false, true] {
                    let expected = match (steep, sideways) {
                        (false, _) => None,
                        (true, true) => Some(if x_negative { Rotation::Right } else { Rotation::Left }),
                        (true, false) => {
                            Some(if y_negative { Rotation::Normal } else { Rotation::Inverted })
                        }
                    };
                    let tilt = Tilt { steep, sideways, x_negative, y_negative };
                    assert_eq!(tilt.orientation(), expected);
                }
            }
        }
    }
}

#[test]
fn a_dummy_senses_nothing() {
    let mut dummy = DummyOrientator();
    assert_eq!(dummy.orientation(), None);
}

#[test]
fn rotations_have_names_and_a_default() {
    assert_eq!(Rotation::Normal.name(), "normal");
    assert_eq!(Rotation::Left.name(), "left");
    assert_eq!(Rotation::Inverted.name(), "inverted");
    assert_eq!(Rotation::Right.name(), "right");
    assert_eq!(Rotation::default(), Rotation::Normal);
}

#[test]
fn a_channel_reads_its_data_file() {
    let channel = Channel::new_from_file("x", "le:s12/16>>4\n", false).unwrap();
    assert_eq!(channel.id(), "x");
    assert_eq!(channel.scan().bits(), 12);
    assert_eq!(channel.read("4095\n"), Ok(-1));
    assert_eq!(channel.read("  17  "), Ok(17));
    assert_eq!(channel.read("\t2048"), Ok(-2048));
    assert_eq!(channel.read(""), Err(DecodeError::NumberFormat));
    assert_eq!(channel.read("\n"), Err(DecodeError::NumberFormat));
    assert_eq!(channel.read("1 7"), Err(DecodeError::NumberFormat));
    assert_eq!(channel.read("-17"), Err(DecodeError::NumberFormat));
}

#[test]
fn a_channel_needs_a_descriptor() {
    match Channel::new_from_file("x", "nothing here\n", false) {
        Err(DescriptorError::Malformed(text)) => assert_eq!(text, "nothing here\n"),
        Ok(channel) => panic!("read as {:?}", channel),
    }
}

#[test]
fn three_channels_are_built_in_order() {
    let (x, y, z) =
        build_channels(("x", "y", "z"), ("s8/32", "u6/16", "be:s12/16>>4"), false).unwrap();
    assert_eq!((x.id(), y.id(), z.id()), ("x", "y", "z"));
    assert_eq!((x.scan().bits(), y.scan().bits(), z.scan().bits()), (8, 6, 12));
    match build_channels(("x", "y", "z"), ("s8/32", "bad y", "bad z"), false) {
        Err(DescriptorError::Malformed(text)) => assert_eq!(text, "bad y"),
        Ok(_) => panic!("built from bad descriptors"),
    }
    match build_channels(("x", "y", "z"), ("s8/32", "u6/16", "bad z"), true) {
        Err(DescriptorError::Malformed(text)) => assert_eq!(text, "bad z"),
        Ok(_) => panic!("built from bad descriptors"),
    }
}

#[test]
fn an_accelerometer_reads_three_files() {
    let channels = build_channels(("x", "y", "z"), ("s8/32", "u6/16", "s64/64"), false).unwrap();
    let accel = FsAccelerometer::new(channels);
    let v = accel.read("255\n", "17\n", "5000000000\n").unwrap();
    assert_eq!((v.x, v.y, v.z), (-1, -15, 5_000_000_000));
    let raw = accel.read_raw("255\n", "17\n", "5000000000\n").unwrap();
    assert_eq!((raw.x, raw.y, raw.z), (-1, -15, 5_000_000_000i64 as i32));
    assert_eq!(raw.z, 705_032_704);
    assert_eq!(accel.read("255", "x", "0").err(), Some(DecodeError::NumberFormat));
    assert_eq!(accel.read_raw("255", "17", "").err(), Some(DecodeError::NumberFormat));
}

#[test]
fn files_are_named_after_their_channel() {
    assert_eq!(file_name("in_accel_", "x", "_raw"), "in_accel_x_raw");
    assert_eq!(file_name("", "", ""), "");
    let naming = ChannelNaming {
        data_prefix: DEFAULT_DATA_PREFIX.to_owned(),
        data_suffix: DEFAULT_DATA_SUFFIX.to_owned(),
        descr_prefix: DEFAULT_DESCR_PREFIX.to_owned(),
        descr_suffix: DEFAULT_DESCR_SUFFIX.to_owned(),
        fix_sign: false,
    };
    let files = naming.files("z");
    assert_eq!(files.data, "in_accel_z_raw");
    assert_eq!(files.descr, "scan_elements/in_accel_z_type");
    assert_eq!(DEFAULT_SCALE_FILE, "in_accel_scale");
    assert_eq!(DEFAULT_FSACCEL_PATH, "/sys/bus/iio/devices/iio:device*");
}

#[test]
fn the_sign_fix_is_true_or_false() {
    assert_eq!(parse_fix_sign("true"), Some(true));
    assert_eq!(parse_fix_sign("false"), Some(false));
    assert_eq!(parse_fix_sign(DEFAULT_FIX_SIGN), Some(false));
    assert_eq!(parse_fix_sign("True"), None);
    assert_eq!(parse_fix_sign("1"), None);
    assert_eq!(parse_fix_sign(""), None);
    assert_eq!(parse_fix_sign("true "), None);
}

#[test]
fn an_option_or_its_default() {
    let mut options = Options::new();
    assert_eq!(get_or(&options, "scalefile", "in_accel_scale"), "in_accel_scale");
    options.insert("scalefile".to_owned(), "scale".to_owned());
    assert_eq!(get_or(&options, "scalefile", "in_accel_scale"), "scale");
    assert_eq!(get_or(&options, "scale", ""), "");
}

#[test]
fn the_naming_is_read_from_the_options() {
    let naming = ChannelNaming::from_options(&Options::new()).unwrap();
    assert_eq!(naming.data_prefix, "in_accel_");
    assert_eq!(naming.data_suffix, "_raw");
    assert_eq!(naming.descr_prefix, "scan_elements/in_accel_");
    assert_eq!(naming.descr_suffix, "_type");
    assert!(!naming.fix_sign);
    let mut options = Options::new();
    parse_options(",data_prefix=accel_,descr_suffix=_scan,fix_sign=true", &mut options);
    let naming = ChannelNaming::from_options(&options).unwrap();
    assert_eq!(naming.data_prefix, "accel_");
    assert_eq!(naming.data_suffix, "_raw");
    assert_eq!(naming.descr_prefix, "scan_elements/in_accel_");
    assert_eq!(naming.descr_suffix, "_scan");
    assert!(naming.fix_sign);
    assert_eq!(naming.files("y").data, "accel_y_raw");
    assert_eq!(naming.files("y").descr, "scan_elements/in_accel_y_scan");
}

#[test]
fn a_sign_fix_that_is_neither_true_nor_false_gives_no_naming() {
    let mut options = Options::new();
    options.insert("fix_sign".to_owned(), "yes".to_owned());
    assert!(ChannelNaming::from_options(&options).is_none());
}

#[test]
fn an_accelerometer_is_known_by_its_name() {
    assert!(is_accelerometer("accel_3d"));
    assert!(is_accelerometer("accel_3d\n"));
    assert!(is_accelerometer("  accel_3d \t"));
    assert!(!is_accelerometer("gyro_3d\n"));
    assert!(!is_accelerometer("accel_3d x"));
    assert!(!is_accelerometer("accel 3d"));
    assert!(!is_accelerometer(""));
}

#[test]
fn the_scale_comes_from_an_option_or_a_file() {
    let mut options = Options::new();
    match scale_source(&options) {
        ScaleSource::File { name, default } => {
            assert_eq!(name, "in_accel_scale");
            assert_eq!(default, None);
        }
        other => panic!("unexpected {:?}", other),
    }
    parse_options(",scalefile=scale,defscale=0.01", &mut options);
    match scale_source(&options) {
        ScaleSource::File { name, default } => {
            assert_eq!(name, "scale");
            assert_eq!(default, Some("0.01".to_owned()));
        }
        other => panic!("unexpected {:?}", other),
    }
    options.insert("scale".to_owned(), "0.5".to_owned());
    match scale_source(&options) {
        ScaleSource::Given(text) => assert_eq!(text, "0.5"),
        other => panic!("unexpected {:?}", other),
    }
}
