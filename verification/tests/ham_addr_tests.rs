use hamaddr::{Eui64, EuiWidth, HamAddr, HamAddrError};

#[test]
fn test_ham_addr_parse_callsign() {
    let addr = HamAddr::parse_callsign("KZ2X-1").unwrap();
    assert_eq!(addr.to_callsign(), "KZ2X-1");
}

#[test]
fn test_ham_addr_to_hex_string() {
    let addr = HamAddr::parse_callsign("KZ2X-1").unwrap();
    assert_eq!(addr.to_hex_string(), "48ED:9C0C");

    let addr = HamAddr::parse_callsign("N6DRC").unwrap();
    assert_eq!(addr.to_hex_string(), "5CAC:70F8");
    assert_eq!(addr.to_ham64_string(), "5CAC-70F8-0000-0000");

    let addr = HamAddr::parse_callsign("VI2BMARC50").unwrap();
    assert_eq!(addr.to_hex_string(), "8B05:0E89:7118:A8C0");

    let addr = HamAddr::parse_callsign("KJ6QOH/P").unwrap();
    assert_eq!(addr.to_ham64_string(), "4671-6CA0-E9C0-0000");
}

#[test]
fn test_ham_addr_to_eui64() {
    let addr = HamAddr::parse_callsign("KZ2X-1").unwrap();
    let eui64 = addr.to_eui64().unwrap();
    assert_eq!(eui64.to_hex_string(), "02:48:ed:ff:fe:9c:0c:00");
    let addr = eui64.to_ham_addr();
    assert_eq!(addr.to_callsign(), "KZ2X-1");
    let eui64 = addr.to_eui64().unwrap();
    assert_eq!(eui64.to_hex_string(), "02:48:ed:ff:fe:9c:0c:00");

    let addr = HamAddr::parse_callsign("AC2OI").unwrap();
    let eui64 = addr.to_eui64().unwrap();
    assert_eq!(eui64.to_hex_string(), "02:06:d5:ff:fe:5f:28:00");

    let addr = HamAddr::parse_callsign("WB3KUZ-111").unwrap();
    let eui64 = addr.to_eui64().unwrap();
    assert_eq!(eui64.to_hex_string(), "02:90:2e:48:22:f1:fc:af");

    let addr = HamAddr::parse_callsign("VI2BMARC50").unwrap();
    let eui64 = addr.to_eui64().unwrap();
    assert_eq!(eui64.to_hex_string(), "c2:8b:05:0e:89:71:18:a8");
    let addr = eui64.to_ham_addr();
    assert_eq!(addr.to_callsign(), "VI2BMARC50");
    let eui64 = addr.to_eui64().unwrap();
    assert_eq!(eui64.to_hex_string(), "c2:8b:05:0e:89:71:18:a8");
}

#[test]
fn test_ham_addr_to_eui48() {
    let addr = HamAddr::parse_callsign("KZ2X-1").unwrap();
    let eui48 = addr.to_eui48().unwrap();
    assert_eq!(eui48.to_hex_string(), "02:48:ed:9c:0c:00");

    let addr = eui48.to_ham_addr();
    assert_eq!(addr.to_callsign(), "KZ2X-1");

    let addr = HamAddr::parse_callsign("AC2OI").unwrap();
    let eui48 = addr.to_eui48().unwrap();
    assert_eq!(eui48.to_hex_string(), "02:06:d5:5f:28:00");

    let addr = HamAddr::parse_callsign("WB3KUZ-1").unwrap();
    let eui48 = addr.to_eui48().unwrap();
    assert_eq!(eui48.to_hex_string(), "e2:90:2e:48:22:f1");
    let addr = eui48.to_ham_addr();
    assert_eq!(addr.to_callsign(), "WB3KUZ-1");

    let addr = HamAddr::parse_callsign("NA1SS").unwrap();
    let eui48 = addr.to_eui48().unwrap();
    assert_eq!(eui48.to_hex_string(), "02:57:c4:79:b8:00");
    let addr = eui48.to_ham_addr();
    assert_eq!(addr.to_callsign(), "NA1SS");

    let addr = HamAddr::parse_callsign("VI2BMARC50").unwrap();
    let not_eui48 = addr.to_eui48();
    assert!(matches!(not_eui48, Err(_)));
}

#[test]
fn quads_follow_the_base_40_formula() {
    // K = 11, Z = 26, 2 = 29: 11 * 1600 + 26 * 40 + 29 = 18669 = 0x48ED.
    assert_eq!(HamAddr::parse_callsign("KZ2").unwrap(), HamAddr(0x48ED_0000_0000_0000));
    // A lone character counts 1600 times its number.
    assert_eq!(HamAddr::parse_callsign("A").unwrap(), HamAddr(1600 << 48));
    // Two characters: A = 1, B = 2: 1600 + 80.
    assert_eq!(HamAddr::parse_callsign("AB").unwrap(), HamAddr(1680 << 48));
    // 9 = 36, / = 37, - = 38, \ = 39.
    assert_eq!(
        HamAddr::parse_callsign("9/-\\").unwrap(),
        HamAddr(((36 * 1600 + 37 * 40 + 38) << 48) | ((39 * 1600) << 32))
    );
    assert_eq!(HamAddr::parse_callsign("").unwrap(), HamAddr(0));
}

#[test]
fn twelve_characters_fill_all_four_quads() {
    // ABC = 1683, DEF = 6606, GHI = 11529, JKL = 16452.
    let addr = HamAddr::parse_callsign("ABCDEFGHIJKL").unwrap();
    assert_eq!(addr, HamAddr((1683 << 48) | (6606 << 32) | (11529 << 16) | 16452));
    assert_eq!(addr.to_ham64_string(), "0693-19CE-2D09-4044");
    assert_eq!(addr.to_hex_string(), "0693:19CE:2D09:4044");
    assert_eq!(addr.to_callsign(), "ABCDEFGHIJKL");
}

#[test]
fn parsing_ignores_case() {
    let lower = HamAddr::parse_callsign("kz2x-1").unwrap();
    let upper = HamAddr::parse_callsign("KZ2X-1").unwrap();
    assert_eq!(lower, upper);
    assert_eq!(lower.to_callsign(), "KZ2X-1");
    assert_eq!(HamAddr::parse_callsign("Vi2bMaRc50").unwrap().to_callsign(), "VI2BMARC50");
}

#[test]
fn parse_uppercase_does_not_fold_case() {
    assert_eq!(HamAddr::parse_uppercase("KZ2X-1"), Ok(HamAddr(0x48ED_9C0C_0000_0000)));
    assert_eq!(HamAddr::parse_uppercase("kZ2X-1"), Err(HamAddrError::InvalidCharacter('k')));
}

#[test]
fn callsign_round_trips() {
    for sign in ["", "A", "N6", "KZ2X-1", "N6DRC", "KJ6QOH/P", "WB3KUZ-111", "0123456789/-", "\\\\\\"] {
        let addr = HamAddr::parse_callsign(sign).unwrap();
        assert_eq!(addr.to_callsign(), sign);
    }
}

#[test]
fn a_caret_is_packed_but_does_not_come_back() {
    // ^ = 40: 40 * 1600 = 64000 = 0xFA00, whose highest base-40 digit reads as 0.
    let addr = HamAddr::parse_callsign("^").unwrap();
    assert_eq!(addr.to_ham64_string(), "FA00-0000-0000-0000");
    assert_eq!(addr.to_callsign(), "");
    let addr = HamAddr::parse_callsign("A^B").unwrap();
    assert_eq!(addr, HamAddr((1600 + 40 * 40 + 2) << 48));
    assert_eq!(addr.to_callsign(), "BB");
}

#[test]
fn a_quad_above_sixteen_bits_wraps() {
    // 40 * 1600 + 40 * 40 + 40 = 65640 = 0x1_0068.
    let addr = HamAddr::parse_callsign("^^^").unwrap();
    assert_eq!(addr.to_ham64_string(), "0068-0000-0000-0000");
    assert_eq!(addr.to_callsign(), "BX");
    // 40 * 1600 + 38 * 40 + 16 = 65536 wraps to 0; the next quad is untouched.
    let addr = HamAddr::parse_callsign("^-PA").unwrap();
    assert_eq!(addr.to_ham64_string(), "0000-0640-0000-0000");
    assert_eq!(addr.to_hex_string(), "0640");
}

#[test]
fn a_character_outside_the_alphabet_is_refused() {
    assert_eq!(HamAddr::parse_callsign("AB!CD"), Err(HamAddrError::InvalidCharacter('!')));
    assert_eq!(HamAddr::parse_callsign("K Z"), Err(HamAddrError::InvalidCharacter(' ')));
    assert_eq!(HamAddr::parse_callsign("é"), Err(HamAddrError::InvalidCharacter('É')));
}

#[test]
fn the_first_invalid_character_is_named() {
    assert_eq!(HamAddr::parse_callsign("A?B!C"), Err(HamAddrError::InvalidCharacter('?')));
    assert_eq!(HamAddr::parse_callsign("ab_cd."), Err(HamAddrError::InvalidCharacter('_')));
}

#[test]
fn a_thirteen_character_callsign_is_too_long() {
    assert_eq!(HamAddr::parse_callsign("ABCDEFGHIJKLM"), Err(HamAddrError::TooLong));
    assert_eq!(HamAddr::parse_callsign("0123456789012345678"), Err(HamAddrError::TooLong));
}

#[test]
fn an_invalid_character_is_reported_before_the_length() {
    assert_eq!(
        HamAddr::parse_callsign("ABCDEFGHIJKLMNOP*"),
        Err(HamAddrError::InvalidCharacter('*'))
    );
}

#[test]
fn upper_casing_may_change_the_number_of_characters() {
    // One character whose upper-case form is two.
    let addr = HamAddr::parse_callsign("ß").unwrap();
    assert_eq!(addr.to_callsign(), "SS");
    // Six of them make twelve characters, seven make fourteen.
    assert_eq!(HamAddr::parse_callsign("ßßßßßß").unwrap().to_callsign(), "SSSSSSSSSSSS");
    assert_eq!(HamAddr::parse_callsign("ßßßßßßß"), Err(HamAddrError::TooLong));
}

#[test]
fn the_length_is_counted_in_characters() {
    // Seven characters that take two bytes each, with an upper-case form of one letter.
    let addr = HamAddr::parse_callsign("ııııııı").unwrap();
    assert_eq!(addr.to_callsign(), "IIIIIII");
}

#[test]
fn hex_string_leaves_out_zero_quads() {
    assert_eq!(HamAddr(0).to_hex_string(), "");
    assert_eq!(HamAddr(0).to_ham64_string(), "0000-0000-0000-0000");
    assert_eq!(HamAddr(0x0000_00AB_0000_CDEF).to_hex_string(), "00AB:CDEF");
    assert_eq!(HamAddr(0x0000_00AB_0000_CDEF).to_ham64_string(), "0000-00AB-0000-CDEF");
    assert_eq!(HamAddr(0x1234_0000_0000_0000).to_hex_string(), "1234");
    assert_eq!(HamAddr(0x0000_0000_0000_0001).to_hex_string(), "0001");
    assert_eq!(HamAddr(0xFFFF_FFFF_FFFF_FFFF).to_hex_string(), "FFFF:FFFF:FFFF:FFFF");
}

#[test]
fn quads_are_taken_from_the_top() {
    assert_eq!(HamAddr(0x0123_4567_89AB_CDEF).quads(), [0x0123, 0x4567, 0x89AB, 0xCDEF]);
}

#[test]
fn any_number_reads_as_some_callsign() {
    assert_eq!(HamAddr(0).to_callsign(), "");
    // 0xFFFF = 65535: digits 40 % 40 = 0, 1638 % 40 = 38, 65535 % 40 = 15.
    assert_eq!(HamAddr(0xFFFF_0000_0000_0000).to_callsign(), "-O");
    // A zero digit inside a quad is passed over: 1 * 1600 + 0 * 40 + 2.
    assert_eq!(HamAddr(1602 << 48).to_callsign(), "AB");
    assert_eq!(HamAddr(0x0000_0000_0000_0001).to_callsign(), "A");
}

#[test]
fn to_eui64_needs_the_low_three_bits_clear() {
    for low in 1..8u64 {
        assert_eq!(
            HamAddr(0x48ED_9C0C_0000_0000 | low).to_eui64(),
            Err(HamAddrError::AddressTooLarge(EuiWidth::Eui64))
        );
    }
    assert_eq!(
        HamAddr(0x48ED_9C0C_0000_0008).to_eui64(),
        Ok(Eui64::new([0x0A, 0x48, 0xED, 0x9C, 0x0C, 0x00, 0x00, 0x00]))
    );
}

#[test]
fn to_eui48_needs_the_low_nineteen_bits_clear() {
    for bit in 0..19 {
        assert_eq!(
            HamAddr(0x48ED_9C0C_0000_0000 | (1 << bit)).to_eui48(),
            Err(HamAddrError::AddressTooLarge(EuiWidth::Eui48))
        );
    }
    let eui48 = HamAddr(0x48ED_9C0C_0008_0000).to_eui48().unwrap();
    assert_eq!(eui48.0, [0x0A, 0x48, 0xED, 0x9C, 0x0C, 0x00]);
}

#[test]
fn a_ten_character_callsign_has_no_eui48() {
    let addr = HamAddr::parse_callsign("VI2BMARC50").unwrap();
    assert_eq!(addr, HamAddr(0x8B05_0E89_7118_A8C0));
    assert_eq!(addr.to_eui48(), Err(HamAddrError::AddressTooLarge(EuiWidth::Eui48)));
    assert!(addr.to_eui64().is_ok());
}

#[test]
fn to_eui64_of_a_small_address_is_its_eui48_widened() {
    for value in [0u64, 0x48ED_9C0C_0000_0000, 0xFFFF_FFFF_FFF8_0000, 0x0102_0304_0508_0000] {
        let addr = HamAddr(value);
        let eui48 = addr.to_eui48().unwrap();
        assert_eq!(addr.to_eui64().unwrap(), Eui64::from(&eui48));
    }
}

#[test]
fn eui48_round_trips() {
    for value in [0u64, 0x48ED_9C0C_0000_0000, 0xFFFF_FFFF_FFF8_0000, 0x0102_0304_0508_0000, 0x0000_FFFE_0000_0000] {
        let addr = HamAddr(value);
        assert_eq!(addr.to_eui48().unwrap().to_ham_addr(), addr);
    }
}

#[test]
fn eui64_round_trips() {
    for value in [
        0u64,
        0x48ED_9C0C_0000_0000,
        0x8B05_0E89_7118_A8C0,
        0xFFFF_FFFF_FFFF_FFF8,
        0x0000_0000_0000_0008,
        0x0000_FFFE_0000_0000,
        0x0000_FF00_0000_0008,
        0x0000_00FE_0000_0008,
    ] {
        let addr = HamAddr(value);
        assert_eq!(addr.to_eui64().unwrap().to_ham_addr(), addr);
    }
}

#[test]
fn an_address_that_looks_widened_does_not_round_trip_through_eui64() {
    let addr = HamAddr(0x0000_FFFE_0000_0008);
    let eui64 = addr.to_eui64().unwrap();
    assert_eq!(eui64.0, [0x0A, 0x00, 0x00, 0xFF, 0xFE, 0x00, 0x00, 0x00]);
    assert_eq!(eui64.to_ham_addr(), HamAddr(0x0000_0000_0008_0000));
}

#[test]
fn messages_say_what_went_wrong() {
    assert_eq!(
        HamAddrError::InvalidCharacter('!').message(),
        "Callsign contains bad character '!'"
    );
    assert_eq!(HamAddrError::TooLong.message(), "Callsign is too long");
    assert_eq!(
        HamAddrError::AddressTooLarge(EuiWidth::Eui48).message(),
        "address too large for EUI-48 slot"
    );
    assert_eq!(
        HamAddrError::AddressTooLarge(EuiWidth::Eui64).message(),
        "address too large for EUI-64 slot"
    );
}
