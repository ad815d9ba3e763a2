use spinnrd::decode::{centered, low_bits, mask_extend, native_cast, power_of_two, storage_limit};

#[test]
fn powers_of_two() {
    assert_eq!(power_of_two(0), 1);
    assert_eq!(power_of_two(1), 2);
    assert_eq!(power_of_two(10), 1024);
    assert_eq!(power_of_two(63), 9223372036854775808);
}

#[test]
fn low_bits_of_a_number() {
    assert_eq!(low_bits(0x1234, 8), 0x34);
    assert_eq!(low_bits(0x1234, 4), 0x4);
    assert_eq!(low_bits(0x1234, 1), 0);
    assert_eq!(low_bits(u64::MAX, 63), 0x7fff_ffff_ffff_ffff);
    assert_eq!(low_bits(u64::MAX, 64), u64::MAX);
}

#[test]
fn largest_number_of_a_width() {
    assert_eq!(storage_limit(1), 1);
    assert_eq!(storage_limit(8), 255);
    assert_eq!(storage_limit(16), 65535);
    assert_eq!(storage_limit(32), 4294967295);
    assert_eq!(storage_limit(64), u64::MAX);
}

#[test]
fn extension_by_hand_agrees_with_the_casts() {
    let samples = [
        0u64, 1, 0x7f, 0x80, 0xff, 0x100, 0x7fff, 0x8000, 0xffff, 0x1_0000, 0x7fff_ffff,
        0x8000_0000, 0xffff_ffff, 0x1_0000_0000, 0x7fff_ffff_ffff_ffff, 0x8000_0000_0000_0000,
        u64::MAX, 0xdead_beef_cafe_f00d,
    ];
    for raw in samples {
        assert_eq!(mask_extend(raw, 8), raw as u8 as i8 as i64);
        assert_eq!(mask_extend(raw, 16), raw as u16 as i16 as i64);
        assert_eq!(mask_extend(raw, 32), raw as u32 as i32 as i64);
        assert_eq!(mask_extend(raw, 64), raw as i64);
        assert_eq!(native_cast(raw, 8), raw as u8 as i8 as i64);
        assert_eq!(native_cast(raw, 16), raw as u16 as i16 as i64);
        assert_eq!(native_cast(raw, 32), raw as u32 as i32 as i64);
        assert_eq!(native_cast(raw, 64), raw as i64);
    }
}

#[test]
fn extension_from_widths_without_a_cast() {
    assert_eq!(mask_extend(0b011, 3), 3);
    assert_eq!(mask_extend(0b100, 3), -4);
    assert_eq!(mask_extend(0b111, 3), -1);
    assert_eq!(mask_extend(0b1111, 3), -1);
    assert_eq!(mask_extend(0, 1), 0);
    assert_eq!(mask_extend(1, 1), -1);
    assert_eq!(mask_extend(0x3fff_ffff_ffff_ffff, 63), 0x3fff_ffff_ffff_ffff);
    assert_eq!(mask_extend(0x4000_0000_0000_0000, 63), -0x4000_0000_0000_0000);
}

#[test]
fn extending_twice_changes_nothing() {
    for width in 1u8..=64 {
        for raw in [0u64, 1, 5, 0x7f, 0x80, 0xffff, 0x8000_0000, u64::MAX, 0x1234_5678_9abc_def0] {
            let once = mask_extend(raw, width);
            assert_eq!(mask_extend(once as u64, width), once);
        }
    }
}

#[test]
fn centered_readings() {
    assert_eq!(centered(17, 6), -15);
    assert_eq!(centered(0, 6), -32);
    assert_eq!(centered(32, 6), 0);
    assert_eq!(centered(63, 6), 31);
    assert_eq!(centered(64, 6), -32);
    assert_eq!(centered(0, 1), -1);
    assert_eq!(centered(1, 1), 0);
    assert_eq!(centered(0, 64), i64::MIN);
    assert_eq!(centered(u64::MAX, 64), i64::MAX);
    assert_eq!(centered(0x8000_0000_0000_0000, 64), 0);
}
