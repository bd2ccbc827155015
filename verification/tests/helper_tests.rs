use hamaddr::bytes::{rotate_left, rotate_right, to_be_bytes, u64_from_be_bytes};
use hamaddr::callsign::{
    char_to_index, chunk_to_quad, pack_quads, push_digit_char, push_quad_chars, ALPHABET,
};
use hamaddr::hex::{octets_to_hex, push_hex2_lower, push_hex4_upper, quads_to_hex};

#[test]
fn be_bytes_are_most_significant_first() {
    assert_eq!(to_be_bytes(0x0102_0304_0506_0708), [1, 2, 3, 4, 5, 6, 7, 8]);
    assert_eq!(to_be_bytes(0), [0; 8]);
    assert_eq!(to_be_bytes(u64::MAX), [0xff; 8]);
    assert_eq!(u64_from_be_bytes(&[1, 2, 3, 4, 5, 6, 7, 8]), 0x0102_0304_0506_0708);
    assert_eq!(u64_from_be_bytes(&[0x80, 0, 0, 0, 0, 0, 0, 1]), 0x8000_0000_0000_0001);
}

#[test]
fn be_bytes_agree_with_the_standard_library() {
    for x in [0u64, 1, 0x48ED_9C0C_0000_0000, 0x8B05_0E89_7118_A8C0, u64::MAX] {
        assert_eq!(to_be_bytes(x), x.to_be_bytes());
        assert_eq!(u64_from_be_bytes(&x.to_be_bytes()), x);
    }
}

#[test]
fn rotation_moves_a_run_and_leaves_the_rest() {
    let mut a: [u8; 8] = [0, 1, 2, 3, 4, 5, 6, 7];
    rotate_left(&mut a, 0, 8, 1);
    assert_eq!(a, [1, 2, 3, 4, 5, 6, 7, 0]);
    let mut a: [u8; 8] = [0, 1, 2, 3, 4, 5, 6, 7];
    rotate_right(&mut a, 0, 8, 1);
    assert_eq!(a, [7, 0, 1, 2, 3, 4, 5, 6]);
    let mut a: [u8; 8] = [0, 1, 2, 3, 4, 5, 6, 7];
    rotate_left(&mut a, 3, 8, 2);
    assert_eq!(a, [0, 1, 2, 5, 6, 7, 3, 4]);
    let mut a: [u8; 8] = [0, 1, 2, 3, 4, 5, 6, 7];
    rotate_right(&mut a, 3, 8, 2);
    assert_eq!(a, [0, 1, 2, 6, 7, 3, 4, 5]);
    let mut a: [u8; 6] = [0, 1, 2, 3, 4, 5];
    rotate_left(&mut a, 0, 6, 1);
    assert_eq!(a, [1, 2, 3, 4, 5, 0]);
}

#[test]
fn rotation_agrees_with_the_standard_library() {
    for from in 0..=8usize {
        for to in from..=8usize {
            for k in 0..=(to - from) {
                let start: [u8; 8] = [10, 11, 12, 13, 14, 15, 16, 17];
                let mut left = start;
                rotate_left(&mut left, from, to, k);
                let mut expected = start;
                expected[from..to].rotate_left(k);
                assert_eq!(left, expected);
                let mut right = start;
                rotate_right(&mut right, from, to, k);
                let mut expected = start;
                expected[from..to].rotate_right(k);
                assert_eq!(right, expected);
            }
        }
    }
}

#[test]
fn characters_are_numbered_from_one() {
    assert_eq!(char_to_index('A'), 1);
    assert_eq!(char_to_index('Z'), 26);
    assert_eq!(char_to_index('0'), 27);
    assert_eq!(char_to_index('9'), 36);
    assert_eq!(char_to_index('/'), 37);
    assert_eq!(char_to_index('-'), 38);
    assert_eq!(char_to_index('\\'), 39);
    assert_eq!(char_to_index('^'), 40);
    for (at, c) in ALPHABET.chars().enumerate() {
        assert_eq!(char_to_index(c) as usize, at + 1);
    }
}

#[test]
fn other_characters_have_the_number_zero() {
    for c in ['a', 'z', ' ', '!', '@', '[', ']', '_', '`', ':', '.', 'É', '\0'] {
        assert_eq!(char_to_index(c), 0);
    }
}

#[test]
fn chunks_are_groups_of_three() {
    let text: Vec<char> = "KZ2X-1".chars().collect();
    assert_eq!(chunk_to_quad(&text, 0), 0x48ED);
    assert_eq!(chunk_to_quad(&text, 1), 0x9C0C);
    assert_eq!(chunk_to_quad(&text, 2), 0);
    assert_eq!(chunk_to_quad(&text, usize::MAX), 0);
    let text: Vec<char> = "KJ6QOH/P".chars().collect();
    assert_eq!(chunk_to_quad(&text, 2), 0xE9C0);
    let text: Vec<char> = "^^^".chars().collect();
    assert_eq!(chunk_to_quad(&text, 0), 104);
    assert_eq!(chunk_to_quad(&[], 0), 0);
}

#[test]
fn quads_are_packed_highest_first() {
    assert_eq!(pack_quads(0x0123, 0x4567, 0x89AB, 0xCDEF), 0x0123_4567_89AB_CDEF);
    assert_eq!(pack_quads(0, 0, 0, 1), 1);
    assert_eq!(pack_quads(0xFFFF, 0, 0, 0), 0xFFFF_0000_0000_0000);
}

#[test]
fn digits_become_characters() {
    let mut out = String::from("x");
    push_digit_char(&mut out, 0);
    push_digit_char(&mut out, 1);
    push_digit_char(&mut out, 39);
    push_digit_char(&mut out, 40);
    push_digit_char(&mut out, 41);
    assert_eq!(out, "xA\\^");
    let mut out = String::from("=");
    push_quad_chars(&mut out, 0x48ED);
    push_quad_chars(&mut out, 0);
    push_quad_chars(&mut out, 0x9C0C);
    assert_eq!(out, "=KZ2X-1");
}

#[test]
fn hex_digits_are_appended() {
    let mut out = String::from(">");
    push_hex2_lower(&mut out, 0x0a);
    push_hex2_lower(&mut out, 0xf0);
    assert_eq!(out, ">0af0");
    let mut out = String::from(">");
    push_hex4_upper(&mut out, 0x0a1b);
    push_hex4_upper(&mut out, 0xfedc);
    assert_eq!(out, ">0A1BFEDC");
}

#[test]
fn groups_are_joined_without_a_separator_at_the_ends() {
    assert_eq!(octets_to_hex(&[]), "");
    assert_eq!(octets_to_hex(&[0xab]), "ab");
    assert_eq!(octets_to_hex(&[0xab, 0x01, 0x9f]), "ab:01:9f");
    assert_eq!(quads_to_hex(&[], '-'), "");
    assert_eq!(quads_to_hex(&[0xab], '-'), "00AB");
    assert_eq!(quads_to_hex(&[0xab, 0x1, 0xffff], '+'), "00AB+0001+FFFF");
}
