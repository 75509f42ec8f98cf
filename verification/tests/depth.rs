use mate::depth::{adc_value, calibration_word, check_calibration, crc4, Calibration};

#[test]
fn crc4_of_known_words() {
    let mut words = [1u16, 2, 3, 4, 5, 6, 7, 8];
    assert_eq!(crc4(&mut words), 10);
    assert_eq!(words, [1, 2, 3, 4, 5, 6, 7, 0]);
}

#[test]
fn calibration_accepted_with_matching_crc() {
    let mut words = [0xF2A0u16, 34982, 36352, 20328, 22354, 26646, 26146, 0];
    assert_eq!(check_calibration(&mut words), Calibration::Valid(0x15));
}

#[test]
fn calibration_rejected_with_wrong_crc() {
    let mut words = [0x02A0u16, 34982, 36352, 20328, 22354, 26646, 26146, 0];
    assert_eq!(check_calibration(&mut words), Calibration::BadCrc);
}

#[test]
fn calibration_rejects_unknown_version() {
    let mut words = [0xD060u16, 34982, 36352, 20328, 22354, 26646, 26146, 0];
    assert_eq!(check_calibration(&mut words), Calibration::UnsupportedVersion(3));
}

#[test]
fn sensor_words_are_big_endian() {
    assert_eq!(calibration_word(0x12, 0x34), 0x1234);
    assert_eq!(adc_value(0x01, 0x02, 0x03), 0x010203);
}

#[test]
fn compensation_of_known_conversions() {
    let calibration = [0xF2A0u16, 34982, 36352, 20328, 22354, 26646, 26146, 0];
    // Below 20 degrees the second-order correction applies.
    assert_eq!(mate::depth::compensate(&calibration, 4958179, 6815414), (19999, 1982));
    assert_eq!(mate::depth::compensate(&calibration, 4958179, 7815414), (20798, 5098));
}

#[test]
fn crc4_is_linear_over_xor() {
    let a = [0x1234u16, 0xBEEF, 0x0042, 0x7777, 0xFFFF, 0x0000, 0x8001, 0x5A5A];
    let b = [0xF00Du16, 0x1111, 0xC0DE, 0x0F0F, 0x1357, 0x2468, 0x9999, 0xA5A5];
    let mut c = [0u16; 8];
    for i in 0..8 {
        c[i] = a[i] ^ b[i];
    }
    let (mut a2, mut b2) = (a, b);
    assert_eq!(crc4(&mut c), crc4(&mut a2) ^ crc4(&mut b2));
}
