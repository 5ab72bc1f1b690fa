use playground::ciphers::{
    ascii_rot_shift, ascii_rot_shift_decode, ascii_rot_shift_encode, ascii_vig_decode,
    ascii_vig_encode, key_to_shifts, rot13_decode, rot13_encode,
};
use playground::dates::{days_in_month, is_leap_year};

#[test]
fn rot13_decodes_the_station_message() {
    assert_eq!(
        rot13_decode("uv vagreangvbany fcnpr fgngvba"),
        "hi international space station"
    );
}

#[test]
fn rot13_is_its_own_inverse() {
    let message = "Hola Estación Espacial Internacional";
    let coded = rot13_encode(message);
    assert_eq!(rot13_decode(&coded), message);
    // Characters outside the ASCII letters pass through unchanged.
    assert!(coded.contains('ó'));
    assert!(coded.contains(' '));
}

#[test]
fn caesar_shift_decodes_julius() {
    assert_eq!(
        ascii_rot_shift_decode(3, "L fdph, L vdz, L frqtxhuhg."),
        "I came, I saw, I conquered."
    );
}

#[test]
fn caesar_shift_wraps_within_each_case() {
    assert_eq!(ascii_rot_shift('z', 1), 'a');
    assert_eq!(ascii_rot_shift('Z', 1), 'A');
    assert_eq!(ascii_rot_shift('a', 26), 'a');
    assert_eq!(ascii_rot_shift('m', 13), 'z');
    assert_eq!(ascii_rot_shift('!', 13), '!');
}

#[test]
fn caesar_encode_then_decode_round_trips() {
    let text = "The quick brown fox jumps over the lazy dog";
    for shift in 0..=26u8 {
        let coded = ascii_rot_shift_encode(shift, text);
        assert_eq!(ascii_rot_shift_decode(shift, &coded), text);
    }
}

#[test]
fn vigenere_decodes_the_gopher_message() {
    assert_eq!(
        ascii_vig_decode("CSOITEUIWUIZNSROCNKFD", "GOLANG"),
        "WEDIGYOULUVTHEGOPHERS"
    );
}

#[test]
fn vigenere_round_trips() {
    let message = "Ve dig you. Luv, Ze Gophers";
    let key = "endoplasmic bombing";
    let coded = ascii_vig_encode(message, key);
    assert_eq!(ascii_vig_decode(&coded, key), message);
}

#[test]
fn vigenere_with_an_empty_key_yields_empty_text() {
    assert_eq!(ascii_vig_encode("abc", ""), "");
    assert_eq!(ascii_vig_decode("abc", ""), "");
}

#[test]
fn key_shifts_ignore_non_letters_and_case() {
    assert_eq!(key_to_shifts("GOLANG"), vec![6, 14, 11, 0, 13, 6]);
    assert_eq!(key_to_shifts("aB z"), vec![0, 1, 0, 25]);
}

#[test]
fn leap_years_follow_the_gregorian_rule() {
    assert!(is_leap_year(2000));
    assert!(!is_leap_year(1900));
    assert!(is_leap_year(2024));
    assert!(!is_leap_year(2023));
}

#[test]
fn month_lengths_are_flat_except_february() {
    assert_eq!(days_in_month(2024, 2), 29);
    assert_eq!(days_in_month(2023, 2), 28);
    assert_eq!(days_in_month(2023, 1), 30);
    assert_eq!(days_in_month(2023, 4), 30);
    assert_eq!(days_in_month(2023, 12), 30);
}
