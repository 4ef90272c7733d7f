use std::collections::HashMap;
use tiltr::tilt::{decode, ibeacon, Error, Tilt};

fn record(payload: Vec<u8>) -> HashMap<u16, Vec<u8>> {
    let mut m: HashMap<u16, Vec<u8>> = HashMap::new();
    m.insert(76, payload);
    m
}

fn pink_payload() -> Vec<u8> {
    vec![
        2, 21, 164, 149, 187, 128, 197, 177, 75, 68, 181, 18, 19, 112, 240, 45, 116, 222, 0, 67,
        4, 4, 34,
    ]
}

#[test]
fn not_ibeacon() {
    let mut other: HashMap<u16, Vec<u8>> = HashMap::new();
    other.insert(77, vec![]);
    let tilt = Tilt::try_from(&other);
    assert!(matches!(tilt, Err(Error::NotIbeacon)));

    let tilt = Tilt::try_from(&record(vec![]));
    assert!(matches!(tilt, Err(Error::NotIbeacon)));

    let tilt = Tilt::try_from(&record(vec![0; 23]));
    assert!(matches!(tilt, Err(Error::NotIbeacon)));
}

#[test]
fn unknown_uuid() {
    let mut payload = vec![21; 23];
    payload[0] = 2;
    let tilt = Tilt::try_from(&record(payload));
    assert!(matches!(tilt, Err(Error::NotATilt)));
}

#[test]
fn bad_temp_100() {
    let tilt = Tilt::try_from(&record(vec![
        2, 21, 164, 149, 187, 128, 197, 177, 75, 68, 181, 18, 19, 112, 240, 45, 116, 222, 0, 212,
        4, 4, 34,
    ]));
    assert!(matches!(tilt, Err(Error::UnexpectedTempValue)));
}

#[test]
fn bad_temp_0() {
    let tilt = Tilt::try_from(&record(vec![
        2, 21, 164, 149, 187, 128, 197, 177, 75, 68, 181, 18, 19, 112, 240, 45, 116, 222, 0, 31,
        4, 4, 34,
    ]));
    assert!(matches!(tilt, Err(Error::UnexpectedTempValue)));
}

#[test]
fn bad_g_08() {
    let tilt = Tilt::try_from(&record(vec![
        2, 21, 164, 149, 187, 128, 197, 177, 75, 68, 181, 18, 19, 112, 240, 45, 116, 222, 0, 67,
        3, 32, 34,
    ]));
    assert!(matches!(tilt, Err(Error::UnexpectedGravityValue)));
}

#[test]
fn bad_g_12() {
    let tilt = Tilt::try_from(&record(vec![
        2, 21, 164, 149, 187, 128, 197, 177, 75, 68, 181, 18, 19, 112, 240, 45, 116, 222, 0, 67,
        4, 176, 34,
    ]));
    assert!(matches!(tilt, Err(Error::UnexpectedGravityValue)));
}

#[test]
fn happy() {
    let tilt = Tilt::try_from(&record(pink_payload())).expect("Valid sample");

    assert_eq!(tilt.name, "Pink");
    let gravity = tilt.milli_gravity as f32 / 1000.0;
    assert_eq!(gravity, 1.028);
    let temp = (tilt.fahrenheit as f32 - 32.0) / 1.8;
    assert!(f32::abs(temp - 19.4) < 0.1);
}

#[test]
fn decode_pink_sample_fields() {
    let reading = decode(76, &pink_payload()).expect("valid frame");
    assert_eq!(reading.name, "Pink");
    assert_eq!(reading.color, 7);
    assert_eq!(reading.fahrenheit, 67);
    assert_eq!(reading.milli_gravity, 1028);
}

#[test]
fn decode_rejects_other_company() {
    assert!(matches!(decode(77, &pink_payload()), Err(Error::NotIbeacon)));
    assert!(matches!(decode(0, &pink_payload()), Err(Error::NotIbeacon)));
}

#[test]
fn decode_rejects_wrong_length() {
    let mut short = pink_payload();
    short.pop();
    assert!(matches!(decode(76, &short), Err(Error::NotIbeacon)));

    let mut long = pink_payload();
    long.push(0);
    assert!(matches!(decode(76, &long), Err(Error::NotIbeacon)));

    assert!(matches!(decode(76, &vec![]), Err(Error::NotIbeacon)));
}

#[test]
fn decode_rejects_bad_header_bytes() {
    for sub_type in 0u8..=255 {
        if sub_type == 2 {
            continue;
        }
        let mut payload = pink_payload();
        payload[0] = sub_type;
        assert!(matches!(decode(76, &payload), Err(Error::NotIbeacon)));
    }
    for sub_length in 0u8..=255 {
        if sub_length == 21 {
            continue;
        }
        let mut payload = pink_payload();
        payload[1] = sub_length;
        assert!(matches!(decode(76, &payload), Err(Error::NotIbeacon)));
    }
}

#[test]
fn decode_rejects_unregistered_identifier() {
    let mut payload = pink_payload();
    payload[2] = 0xa5;
    assert!(matches!(decode(76, &payload), Err(Error::NotATilt)));

    let mut payload = pink_payload();
    payload[5] = 0x81;
    assert!(matches!(decode(76, &payload), Err(Error::NotATilt)));
}

#[test]
fn temperature_boundaries() {
    let mut freezing = pink_payload();
    freezing[18] = 0;
    freezing[19] = 32;
    let reading = decode(76, &freezing).expect("0 Celsius is accepted");
    assert_eq!(reading.fahrenheit, 32);

    let mut just_below_boiling = pink_payload();
    just_below_boiling[18] = 0;
    just_below_boiling[19] = 211;
    let reading = decode(76, &just_below_boiling).expect("just below 100 Celsius is accepted");
    assert_eq!(reading.fahrenheit, 211);

    let mut boiling = pink_payload();
    boiling[18] = 0;
    boiling[19] = 212;
    assert!(matches!(decode(76, &boiling), Err(Error::UnexpectedTempValue)));

    let mut too_cold = pink_payload();
    too_cold[18] = 0;
    too_cold[19] = 31;
    assert!(matches!(decode(76, &too_cold), Err(Error::UnexpectedTempValue)));

    let mut huge = pink_payload();
    huge[18] = 255;
    huge[19] = 255;
    assert!(matches!(decode(76, &huge), Err(Error::UnexpectedTempValue)));
}

#[test]
fn gravity_boundaries() {
    let mut lowest = pink_payload();
    lowest[20] = 3;
    lowest[21] = 132;
    let reading = decode(76, &lowest).expect("0.900 is accepted");
    assert_eq!(reading.milli_gravity, 900);

    let mut highest = pink_payload();
    highest[20] = 4;
    highest[21] = 75;
    let reading = decode(76, &highest).expect("1.099 is accepted");
    assert_eq!(reading.milli_gravity, 1099);

    let mut just_below = pink_payload();
    just_below[20] = 3;
    just_below[21] = 131;
    assert!(matches!(decode(76, &just_below), Err(Error::UnexpectedGravityValue)));

    let mut just_above = pink_payload();
    just_above[20] = 4;
    just_above[21] = 76;
    assert!(matches!(decode(76, &just_above), Err(Error::UnexpectedGravityValue)));
}

#[test]
fn decode_is_deterministic() {
    let first = decode(76, &pink_payload()).expect("valid frame");
    let second = decode(76, &pink_payload()).expect("valid frame");
    assert_eq!(first.name, second.name);
    assert_eq!(first.color, second.color);
    assert_eq!(first.fahrenheit, second.fahrenheit);
    assert_eq!(first.milli_gravity, second.milli_gravity);

    let mut bad = pink_payload();
    bad[1] = 0;
    let e1 = decode(76, &bad).expect_err("malformed frame");
    let e2 = decode(76, &bad).expect_err("malformed frame");
    assert_eq!(e1, e2);
}

#[test]
fn ibeacon_extracts_the_company_record() {
    let payload = pink_payload();
    let frame = ibeacon(&record(payload.clone())).expect("well-shaped record");
    assert_eq!(frame, payload);

    let mut absent: HashMap<u16, Vec<u8>> = HashMap::new();
    absent.insert(1, payload.clone());
    assert!(matches!(ibeacon(&absent), Err(Error::NotIbeacon)));

    let mut bad_shape = payload;
    bad_shape[1] = 20;
    assert!(matches!(ibeacon(&record(bad_shape)), Err(Error::NotIbeacon)));
}

#[test]
fn error_messages() {
    assert_eq!(Error::NotIbeacon.message(), "Not an ibeacon device");
    assert_eq!(Error::NotATilt.message(), "Not a tilt");
    assert_eq!(Error::UnexpectedTempValue.message(), "Unexpected temp value");
    assert_eq!(Error::UnexpectedGravityValue.message(), "Unexpected gravity value");
}

#[test]
fn calibration_offset_is_added() {
    let reading = decode(76, &pink_payload()).expect("valid frame");
    assert_eq!(reading.calibrated_milli_gravity(0), 1028);
    assert_eq!(reading.calibrated_milli_gravity(-28), 1000);
    assert_eq!(reading.calibrated_milli_gravity(100), 1128);
}
