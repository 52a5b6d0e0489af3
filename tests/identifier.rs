use cusip::{
    build_from_parts, build_from_payload, compute_check_digit, parse, parse_loose, validate,
    CUSIPError, CINS, CUSIP,
};

#[test]
fn parse_cusip_for_bcc_strict() {
    match CUSIP::parse("09739D100") {
        Ok(cusip) => {
            assert_eq!(cusip.to_string(), "09739D100");
            assert_eq!(cusip.issuer_num(), "09739D");
            assert_eq!(cusip.issue_num(), "10");
            assert_eq!(cusip.check_digit(), '0');
            assert!(!cusip.is_cins());
        }
        Err(err) => panic!("Did not expect parsing to fail: {:?}", err),
    }
}

#[test]
fn parse_cusip_for_bcc_loose() {
    match CUSIP::parse_loose("\t09739d100    ") {
        Ok(cusip) => {
            assert_eq!(cusip.to_string(), "09739D100");
            assert_eq!(cusip.issuer_num(), "09739D");
            assert_eq!(cusip.issue_num(), "10");
            assert_eq!(cusip.check_digit(), '0');
            assert!(!cusip.is_cins());
        }
        Err(err) => panic!("Did not expect parsing to fail: {:?}", err),
    }
}

#[test]
fn validate_cusip_for_bcc() {
    // Boise Cascade
    assert!(validate("09739D100"))
}

#[test]
fn validate_cusip_for_dfs() {
    // Discover Financial Services
    assert!(validate("254709108"))
}

#[test]
fn parse_cins() {
    match CUSIP::parse("S08000AA9") {
        Ok(cusip) => {
            assert_eq!(cusip.to_string(), "S08000AA9");
            assert_eq!(cusip.issuer_num(), "S08000");
            assert_eq!(cusip.issue_num(), "AA");
            assert_eq!(cusip.check_digit(), '9');
            assert!(cusip.is_cins());
        }
        Err(err) => panic!("Did not expect parsing to fail: {:?}", err),
    }
}

/// The worked example of the standard's annex on the modulus 10
/// double-add-double technique.
#[test]
fn parse_example_from_standard() {
    match CUSIP::parse("837649128") {
        Ok(cusip) => {
            assert_eq!(cusip.to_string(), "837649128");
            assert_eq!(cusip.issuer_num(), "837649");
            assert_eq!(cusip.issue_num(), "12");
            assert_eq!(cusip.check_digit(), '8');
            assert!(!cusip.is_cins());
        }
        Err(err) => panic!("Did not expect parsing to fail: {:?}", err),
    }
}

#[test]
fn validate_example_from_standard() {
    assert!(validate("837649128"))
}

#[test]
fn reject_empty_string() {
    let res = CUSIP::parse("");
    assert!(res.is_err());
}

#[test]
fn reject_lowercase_issuer_id_if_strict() {
    match CUSIP::parse("99999zAA5") {
        Err(CUSIPError::InvalidIssuerNum { was: _ }) => {} // Ok
        Err(err) => {
            panic!(
                "Expected Err(InvalidIssuerNum {{ ... }}), but got: Err({:?})",
                err
            )
        }
        Ok(cusip) => {
            panic!(
                "Expected Err(InvalidIssuerNum {{ ... }}), but got: Ok({:?})",
                cusip
            )
        }
    }
}

#[test]
fn reject_lowercase_issue_id_if_strict() {
    match CUSIP::parse("99999Zaa5") {
        Err(CUSIPError::InvalidIssueNum { was: _ }) => {} // Ok
        Err(err) => {
            panic!(
                "Expected Err(InvalidIssueNum {{ ... }}), but got: Err({:?})",
                err
            )
        }
        Ok(cusip) => {
            panic!(
                "Expected Err(InvalidIssueNum {{ ... }}), but got: Ok({:?})",
                cusip
            )
        }
    }
}

#[test]
fn parse_cusip_with_0_check_digit() {
    CUSIP::parse("09739D100").unwrap(); // BCC aka Boise Cascade
}

#[test]
fn parse_cusip_with_1_check_digit() {
    CUSIP::parse("00724F101").unwrap(); // ADBE aka Adobe
}

#[test]
fn parse_cusip_with_2_check_digit() {
    CUSIP::parse("02376R102").unwrap(); // AAL aka American Airlines
}

#[test]
fn parse_cusip_with_3_check_digit() {
    CUSIP::parse("053015103").unwrap(); // ADP aka Automatic Data Processing
}

#[test]
fn parse_cusip_with_4_check_digit() {
    CUSIP::parse("457030104").unwrap(); // IMKTA aka Ingles Markets
}

#[test]
fn parse_cusip_with_5_check_digit() {
    CUSIP::parse("007800105").unwrap(); // AJRD aka Aerojet Rocketdyne Holdings
}

#[test]
fn parse_cusip_with_6_check_digit() {
    CUSIP::parse("98421M106").unwrap(); // XRX aka Xerox
}

#[test]
fn parse_cusip_with_7_check_digit() {
    CUSIP::parse("007903107").unwrap(); // AMD aka Advanced Micro Devices
}

#[test]
fn parse_cusip_with_8_check_digit() {
    CUSIP::parse("921659108").unwrap(); // VNDA aka Vanda Pharmaceuticals
}

#[test]
fn parse_cusip_with_9_check_digit() {
    CUSIP::parse("020772109").unwrap(); // APT aka AlphaProTec
}

const BULK: [&str; 70] = [
    "25470F104", "254709108", "254709108", "25470F104", "25470F302", "25470M109", "25490H106",
    "25490K273", "25490K281", "25490K323", "25490K331", "25490K596", "25490K869", "25525P107",
    "255519100", "256135203", "25614T309", "256163106", "25659T107", "256677105", "256746108",
    "25746U109", "25754A201", "257554105", "257559203", "257651109", "257701201", "257867200",
    "25787G100", "25809K105", "25820R105", "258278100", "258622109", "25960P109", "25960R105",
    "25985W105", "260003108", "260174107", "260557103", "26140E600", "26142R104", "26152H301",
    "262037104", "262077100", "26210C104", "264120106", "264147109", "264411505", "26441C204",
    "26443V101", "26484T106", "265504100", "26614N102", "266605104", "26745T101", "267475101",
    "268150109", "268158201", "26817Q886", "268311107", "26856L103", "268603107", "26874R108",
    "26884L109", "26884U109", "268948106", "26922A230", "26922A248", "26922A289", "26922A305",
];

/// Cases from public SEC data (the 13F lists).
#[test]
fn parse_bulk() {
    for case in BULK.iter() {
        CUSIP::parse(case).unwrap();
        assert!(
            validate(case),
            "Successfully parsed {:?} but got false from validate()!",
            case
        );
    }
}

#[test]
fn round_trip_through_text() {
    for case in BULK.iter().chain(["S08000AA9", "837649128", "09739D100"].iter()) {
        let v = CUSIP::parse(case).unwrap();
        assert_eq!(CUSIP::parse(&v.to_string()), Ok(v));
        assert_eq!(parse(&v.to_string()), Ok(v));
        assert_eq!(v.to_string(), *case);
    }
}

#[test]
fn build_then_read_back() {
    for case in BULK.iter() {
        let p = &case[0..8];
        let v = build_from_payload(p).unwrap();
        assert_eq!(v.payload(), p);
        assert_eq!(v.check_digit(), compute_check_digit(p.as_bytes()) as char);
        assert_eq!(v.to_string(), *case);
        let w = build_from_parts(&case[0..6], &case[6..8]).unwrap();
        assert_eq!(w, v);
    }
    let v = build_from_payload("83764912").unwrap();
    assert_eq!(v.to_string(), "837649128");
    assert_eq!(v.check_digit(), '8');
}

#[test]
fn loose_parse_of_canonical_text_and_variants() {
    let v = CUSIP::parse("S08000AA9").unwrap();
    assert_eq!(CUSIP::parse_loose(&v.to_string()), Ok(v));
    assert_eq!(parse_loose("s08000aa9"), Ok(v));
    assert_eq!(parse_loose(" \n S08000aA9\r\n\t"), Ok(v));
    assert_eq!(parse_loose("\u{3000}S08000AA9\u{a0}"), Ok(v));
    let parsed: CUSIP = "  09739d100 ".parse().unwrap();
    assert_eq!(parsed, CUSIP::parse("09739D100").unwrap());
    // White space inside is not removed
    assert_eq!(
        parse_loose("S0800 0AA9"),
        Err(CUSIPError::InvalidCUSIPLength { was: 10 })
    );
}

#[test]
fn loose_parse_still_rejects() {
    assert_eq!(
        parse_loose("  09739d10  "),
        Err(CUSIPError::InvalidCUSIPLength { was: 8 })
    );
    assert_eq!(
        parse_loose("09739d101"),
        Err(CUSIPError::IncorrectCheckDigit {
            was: b'1',
            expected: b'0'
        })
    );
}

#[test]
fn malformed_input_never_panics() {
    let inputs = [
        "",
        "0",
        "09739D10",
        "09739D1000",
        "\u{e9}\u{e9}\u{e9}\u{e9}x",
        "0973\u{e9}D10",
        "\u{1F600}\u{1F600}x",
        "*@#******",
        "09739D10\u{0}",
        "         ",
        "zzzzzzzzzzzzzzzzzzzzzzzzzzzzzzzzzzzzzzzzzzzzzzzzz",
    ];
    for s in inputs.iter() {
        assert!(CUSIP::parse(s).is_err());
        assert!(!validate(s));
        let _ = parse_loose(s);
    }
}

#[test]
fn every_error_kind() {
    assert_eq!(CUSIP::parse(""), Err(CUSIPError::InvalidCUSIPLength { was: 0 }));
    // Length is counted in bytes: a two-byte character counts twice.
    assert_eq!(
        CUSIP::parse("\u{e9}x"),
        Err(CUSIPError::InvalidCUSIPLength { was: 3 })
    );
    // Nine bytes, but not ASCII: the issuer number is rejected.
    assert!(matches!(
        CUSIP::parse("\u{e9}\u{e9}\u{e9}\u{e9}x"),
        Err(CUSIPError::InvalidIssuerNum { .. })
    ));
    assert_eq!(
        CUSIP::parse("0973*D100"),
        Err(CUSIPError::InvalidIssuerNum { was: *b"0973*D" })
    );
    assert_eq!(
        CUSIP::parse("09739D1@0"),
        Err(CUSIPError::InvalidIssueNum { was: *b"1@" })
    );
    assert_eq!(
        CUSIP::parse("09739D10A"),
        Err(CUSIPError::InvalidCheckDigit { was: b'A' })
    );
    assert_eq!(
        CUSIP::parse("09739D105"),
        Err(CUSIPError::IncorrectCheckDigit {
            was: b'5',
            expected: b'0'
        })
    );
    assert_eq!(
        build_from_payload("09739D1"),
        Err(CUSIPError::InvalidPayloadLength { was: 7 })
    );
    assert_eq!(
        build_from_payload("0973#D10"),
        Err(CUSIPError::InvalidIssuerNum { was: *b"0973#D" })
    );
    assert_eq!(
        build_from_payload("09739Dx0"),
        Err(CUSIPError::InvalidIssueNum { was: *b"x0" })
    );
    assert_eq!(
        build_from_parts("09739", "10"),
        Err(CUSIPError::InvalidIssuerNumLength { was: 5 })
    );
    assert_eq!(
        build_from_parts("09739d", "1"),
        Err(CUSIPError::InvalidIssuerNum { was: *b"09739d" })
    );
    assert_eq!(
        build_from_parts("09739D", "100"),
        Err(CUSIPError::InvalidIssueNumLength { was: 3 })
    );
    assert_eq!(
        build_from_parts("09739D", "1a"),
        Err(CUSIPError::InvalidIssueNum { was: *b"1a" })
    );
}

#[test]
fn length_is_checked_before_characters() {
    assert_eq!(
        CUSIP::parse("ab*"),
        Err(CUSIPError::InvalidCUSIPLength { was: 3 })
    );
    assert_eq!(
        CUSIP::from_bytes(b"09739D10"),
        Err(CUSIPError::InvalidCUSIPLength { was: 8 })
    );
    assert_eq!(
        CUSIP::from_bytes(b"037833100").map(|c| c.to_string()),
        Ok("037833100".to_string())
    );
    assert!(CUSIP::from_bytes(b"invalid!!").is_err());
}

#[test]
fn cins_view() {
    let cusip = CUSIP::parse("S08000AA9").unwrap();
    let cins = cusip.as_cins().unwrap();
    assert_eq!(cins.country_code(), 'S');
    assert_eq!(cins.issuer_num(), "08000");
    assert_eq!(cins.issue_num(), "AA");
    assert_eq!(cins.as_cusip().to_string(), "S08000AA9");
    assert!(cins.is_base());
    assert!(!cins.is_extended());
    assert_eq!(CINS::new(&cusip), Some(cins.clone()));
    assert!(cusip.is_cins_base());
    assert!(!cusip.is_cins_extended());
    assert_eq!(cusip.cins_country_code(), Some('S'));

    let plain = CUSIP::parse("037833100").unwrap();
    assert!(plain.as_cins().is_none());
    assert!(CINS::new(&plain).is_none());
    assert!(!plain.is_cins_base());
    assert!(!plain.is_cins_extended());
    assert_eq!(plain.cins_country_code(), None);
}

#[test]
fn unused_country_codes_are_still_cins() {
    for code in ["I", "O", "Z"] {
        let v = build_from_payload(&format!("{}0800011", code)).unwrap();
        assert!(v.is_cins());
        assert!(!v.is_cins_base());
        assert!(v.is_cins_extended());
        let cins = v.as_cins().unwrap();
        assert!(cins.is_extended());
        assert!(!cins.is_base());
        assert_eq!(cins.country_code().to_string(), code);
    }
}

#[test]
fn private_use_ranges() {
    let private_issuer = build_from_payload("ABC99D10").unwrap();
    assert!(private_issuer.has_private_issuer());
    assert!(!private_issuer.is_private_issue());
    assert!(private_issuer.is_private_use());

    let numeric_range = build_from_payload("99000010").unwrap();
    assert!(numeric_range.has_private_issuer());
    assert!(numeric_range.is_private_use());
    let top_of_range = build_from_parts("999999", "10").unwrap();
    assert!(top_of_range.has_private_issuer());

    // Not all digits: outside the numeric range, and positions 4 and 5 are not both 9
    let letter_at_end = build_from_payload("99000A10").unwrap();
    assert!(!letter_at_end.has_private_issuer());
    let below_range = build_from_payload("98999910").unwrap();
    assert!(below_range.has_private_issuer()); // positions 4 and 5 are 9

    let ordinary = CUSIP::parse("09739D100").unwrap();
    assert!(!ordinary.has_private_issuer());
    assert!(!ordinary.is_private_issue());
    assert!(!ordinary.is_private_use());

    let digit_issue = build_from_payload("09739D95").unwrap();
    assert!(digit_issue.is_private_issue());
    assert!(digit_issue.is_private_use());
    let letter_issue = build_from_payload("09739D9Y").unwrap();
    assert!(letter_issue.is_private_issue());
    let z_issue = build_from_payload("09739D9Z").unwrap();
    assert!(!z_issue.is_private_issue());
    assert!(!z_issue.is_private_use());
    let not_nine = build_from_payload("09739D89").unwrap();
    assert!(!not_nine.is_private_issue());
}

#[test]
fn accessors_slice_the_identifier() {
    let v = CUSIP::parse("S08000AA9").unwrap();
    assert_eq!(v.payload(), "S08000AA");
    assert_eq!(v.issuer_num(), "S08000");
    assert_eq!(v.issue_num(), "AA");
    assert_eq!(v.check_digit(), '9');
}
