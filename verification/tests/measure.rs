use si1145::measure::{above_dark, word_from_le, Illuminance, UvIndex, DARK_COUNTS};

#[test]
fn words_are_little_endian() {
    assert_eq!(word_from_le([0x34, 0x12]), 0x1234);
    assert_eq!(word_from_le([0x00, 0x00]), 0);
    assert_eq!(word_from_le([0xFF, 0x00]), 255);
    assert_eq!(word_from_le([0x00, 0x01]), 256);
    assert_eq!(word_from_le([0xFF, 0xFF]), 0xFFFF);
}

#[test]
fn words_agree_with_the_standard_conversion() {
    for low in [0x00u8, 0x01, 0x7F, 0x80, 0xED, 0xFF] {
        for high in [0x00u8, 0x01, 0x12, 0x80, 0xFF] {
            assert_eq!(word_from_le([low, high]), u16::from_le_bytes([low, high]));
        }
    }
}

#[test]
fn dark_level_is_taken_off() {
    assert_eq!(DARK_COUNTS, 256);
    assert_eq!(above_dark(300), 44);
    assert_eq!(above_dark(257), 1);
    assert_eq!(above_dark(65535), 65279);
}

#[test]
fn dark_readings_clamp_to_zero() {
    assert_eq!(above_dark(0), 0);
    assert_eq!(above_dark(100), 0);
    assert_eq!(above_dark(200), 0);
    assert_eq!(above_dark(255), 0);
    assert_eq!(above_dark(256), 0);
}

#[test]
fn lux_of_visible_300_infrared_200() {
    let reading = Illuminance::from_counts(300, 200);
    assert_eq!(reading, Illuminance { visible: 44, infrared: 0 });
    assert_eq!(reading.millilux(), 3_451_580);
    let lux = reading.millilux() as f32 / 1000.0;
    let formula = 5.41f32 * 44.0 * 14.5 + (-0.08f32) * 0.0;
    assert!((lux - formula).abs() < 0.01);
}

#[test]
fn lux_of_a_dark_visible_channel_is_not_positive() {
    let reading = Illuminance::from_counts(100, 100);
    assert_eq!(reading, Illuminance { visible: 0, infrared: 0 });
    assert_eq!(reading.millilux(), 0);
}

#[test]
fn lux_is_passed_on_when_negative() {
    let reading = Illuminance::from_counts(256, 1256);
    assert_eq!(reading, Illuminance { visible: 0, infrared: 1000 });
    assert_eq!(reading.millilux(), -80_000);
}

#[test]
fn lux_of_one_count_each() {
    assert_eq!(Illuminance { visible: 1, infrared: 0 }.millilux(), 78_445);
    assert_eq!(Illuminance { visible: 0, infrared: 1 }.millilux(), -80);
    assert_eq!(Illuminance { visible: 1, infrared: 1 }.millilux(), 78_365);
}

#[test]
fn lux_at_full_scale() {
    let reading = Illuminance::from_counts(65535, 65535);
    assert_eq!(reading, Illuminance { visible: 65279, infrared: 65279 });
    assert_eq!(reading.millilux(), 78_445 * 65_279 - 80 * 65_279);
    assert_eq!(Illuminance { visible: 65535, infrared: 0 }.millilux(), 5_140_893_075);
    assert_eq!(Illuminance { visible: 0, infrared: 65535 }.millilux(), -5_242_800);
}

#[test]
fn uv_index_of_237_hundredths() {
    let index = UvIndex { hundredths: 237 };
    assert_eq!(index.whole(), 2);
    assert_eq!(index.fraction(), 37);
    assert!((index.hundredths as f32 / 100.0 - 2.37).abs() < 1e-6);
}

#[test]
fn uv_index_digits() {
    assert_eq!(UvIndex { hundredths: 0 }.whole(), 0);
    assert_eq!(UvIndex { hundredths: 0 }.fraction(), 0);
    assert_eq!(UvIndex { hundredths: 99 }.whole(), 0);
    assert_eq!(UvIndex { hundredths: 99 }.fraction(), 99);
    assert_eq!(UvIndex { hundredths: 1100 }.whole(), 11);
    assert_eq!(UvIndex { hundredths: 1100 }.fraction(), 0);
    assert_eq!(UvIndex { hundredths: 65535 }.whole(), 655);
    assert_eq!(UvIndex { hundredths: 65535 }.fraction(), 35);
}
