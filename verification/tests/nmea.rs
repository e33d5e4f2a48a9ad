use glider_telemetry::util::nmea::{NMEAData, NMEASentenceType};

fn reading() -> NMEAData {
    NMEAData::new(
        NMEAData::build_position(430_000_000, 140_000_000, 138_200),
        NMEAData::build_motion(200, 100, 45_200, 1_900, 0),
        NMEAData::build_environment(101_325, 1_900, 0),
    )
}

fn readings() -> Vec<NMEAData> {
    vec![
        reading(),
        NMEAData::new(
            NMEAData::build_position(0, 0, 0),
            NMEAData::build_motion(0, 0, 0, 0, 0),
            NMEAData::build_environment(0, 0, 0),
        ),
        NMEAData::new(
            NMEAData::build_position(-337_654_321, -1_512_345_678, -4_250),
            NMEAData::build_motion(-1, 35_999, -98_066, 150, -250),
            NMEAData::build_environment(-30, -4_015, -12_345),
        ),
        NMEAData::new(
            NMEAData::build_position(i64::MAX, i64::MIN, i64::MAX),
            NMEAData::build_motion(i64::MIN, i64::MAX, i64::MIN, i64::MAX, i64::MIN),
            NMEAData::build_environment(i64::MAX, i64::MIN, i64::MAX),
        ),
    ]
}

fn kinds() -> Vec<NMEASentenceType> {
    vec![NMEASentenceType::Pov, NMEASentenceType::Peya, NMEASentenceType::Peyi]
}

fn xor_of(text: &str) -> u8 {
    let mut sum = 0u8;
    for b in text.bytes() {
        sum ^= b;
    }
    sum
}

#[test]
fn pov_sentence_of_the_reference_reading() {
    let text = reading().get_data_string(NMEASentenceType::Pov);
    assert_eq!(text, "$POV,P,10.13,T,19.00,E,0.00*29\r\n");
}

#[test]
fn peya_sentence_of_the_reference_reading() {
    let text = reading().get_data_string(NMEASentenceType::Peya);
    assert_eq!(text, "$PEYA,10.13,,13.82,,,,,0.00,19.00,*62\r\n");
    let star = text.find('*').unwrap();
    assert_eq!(&text[1..star], "PEYA,10.13,,13.82,,,,,0.00,19.00,");
}

#[test]
fn peyi_sentence_of_the_reference_reading() {
    let text = reading().get_data_string(NMEASentenceType::Peyi);
    assert_eq!(text, "$PEYI,1.00,1.00,,,,4.52,0.19,0.00,,1.00,*35\r\n");
    let star = text.find('*').unwrap();
    assert_eq!(&text[1..star], "PEYI,1.00,1.00,,,,4.52,0.19,0.00,,1.00,");
}

#[test]
fn heading_fills_three_fields_of_peyi() {
    let data = NMEAData::new(
        NMEAData::build_position(0, 0, 0),
        NMEAData::build_motion(0, 27_050, 0, 0, 0),
        NMEAData::build_environment(0, 0, 0),
    );
    let text = data.get_data_string(NMEASentenceType::Peyi);
    let star = text.find('*').unwrap();
    let fields: Vec<&str> = text[1..star].split(',').collect();
    assert_eq!(
        fields,
        vec!["PEYI", "270.50", "270.50", "", "", "", "0.00", "0.00", "0.00", "", "270.50", ""]
    );
}

#[test]
fn every_sentence_is_framed() {
    for data in readings() {
        for kind in kinds() {
            let text = data.get_data_string(kind);
            assert!(text.starts_with('$'));
            assert!(text.ends_with("\r\n"));
            assert_eq!(text.matches('*').count(), 1);
            assert_eq!(text.matches('$').count(), 1);
            assert_eq!(text.matches('\r').count(), 1);
            assert_eq!(text.matches('\n').count(), 1);
            let star = text.find('*').unwrap();
            assert!(!text[1..star].contains('*'));
            assert!(text.is_ascii());
        }
    }
}

#[test]
fn checksum_reads_back_as_the_fold_of_the_body() {
    for data in readings() {
        for kind in kinds() {
            let text = data.get_data_string(kind);
            let star = text.find('*').unwrap();
            let body = &text[1..star];
            let digits = &text[star + 1..text.len() - 2];
            assert!(!digits.is_empty());
            assert!(digits.bytes().all(|b| b.is_ascii_digit()));
            assert!(digits == "0" || !digits.starts_with('0'));
            let written: u32 = digits.parse().unwrap();
            assert_eq!(written, u32::from(xor_of(body)));
        }
    }
}

#[test]
fn encoding_twice_gives_the_same_bytes() {
    for data in readings() {
        for kind in kinds() {
            let first = data.get_data_string(kind);
            let second = data.get_data_string(kind);
            assert_eq!(first.as_bytes(), second.as_bytes());
        }
    }
}

#[test]
fn scaled_fields_round_half_to_even() {
    let cases: Vec<(i64, &str)> = vec![
        (49, "0.00"),
        (50, "0.00"),
        (51, "0.01"),
        (149, "0.01"),
        (150, "0.02"),
        (151, "0.02"),
        (250, "0.02"),
        (350, "0.04"),
        (9_950, "1.00"),
        (101_325, "10.13"),
        (101_350, "10.14"),
        (101_250, "10.12"),
    ];
    for (pressure, shown) in cases {
        let data = NMEAData::new(
            NMEAData::build_position(0, 0, 0),
            NMEAData::build_motion(0, 0, 0, 0, 0),
            NMEAData::build_environment(pressure, 0, 0),
        );
        let text = data.get_data_string(NMEASentenceType::Pov);
        let star = text.find('*').unwrap();
        assert_eq!(&text[1..star], format!("POV,P,{},T,0.00,E,0.00", shown));
    }
}

#[test]
fn negative_quantities_carry_a_minus_sign() {
    let data = NMEAData::new(
        NMEAData::build_position(0, 0, -4_250),
        NMEAData::build_motion(0, -5, -98_066, -150, -49),
        NMEAData::build_environment(-30, -4_015, -12_345),
    );
    let pov = data.get_data_string(NMEASentenceType::Pov);
    assert_eq!(&pov[..pov.find('*').unwrap()], "$POV,P,-0.00,T,-40.15,E,-1.23");
    let peya = data.get_data_string(NMEASentenceType::Peya);
    assert_eq!(
        &peya[..peya.find('*').unwrap()],
        "$PEYA,-0.00,,-0.42,,,,,-1.23,-40.15,"
    );
    let peyi = data.get_data_string(NMEASentenceType::Peyi);
    assert_eq!(
        &peyi[..peyi.find('*').unwrap()],
        "$PEYI,-0.05,-0.05,,,,-9.81,-0.02,-0.00,,-0.05,"
    );
}

#[test]
fn extreme_quantities_are_written_in_full() {
    let data = NMEAData::new(
        NMEAData::build_position(0, 0, 0),
        NMEAData::build_motion(0, 0, 0, 0, 0),
        NMEAData::build_environment(i64::MAX, i64::MIN, i64::MIN),
    );
    let text = data.get_data_string(NMEASentenceType::Pov);
    let star = text.find('*').unwrap();
    assert_eq!(
        &text[1..star],
        "POV,P,922337203685477.58,T,-92233720368547758.08,E,-922337203685477.58"
    );
    assert_eq!(&text[star + 1..text.len() - 2], xor_of(&text[1..star]).to_string());
}

#[test]
fn checksum_covers_what_stands_between_the_marks() {
    assert_eq!(NMEAData::nmea_checksum("$POV,P,10.13,T,19.00,E,0.00*"), 29);
    assert_eq!(NMEAData::nmea_checksum("$POV,P,10.13,T,19.00,E,0.00*29\r\n"), 29);
    assert_eq!(NMEAData::nmea_checksum("$POV,P,10.13,T,19.00,E,0.00"), 29);
    assert_eq!(NMEAData::nmea_checksum("?POV,P,10.13,T,19.00,E,0.00*"), 29);
    assert_eq!(NMEAData::nmea_checksum("$A*B*C"), 65);
    assert_eq!(NMEAData::nmea_checksum("$AB"), 3);
    assert_eq!(NMEAData::nmea_checksum("$*"), 0);
    assert_eq!(NMEAData::nmea_checksum("$"), 0);
    assert_eq!(NMEAData::nmea_checksum(""), 0);
}
