//! Rotation ciphers over ASCII letters: plain Caesar shifts, ROT13, and a
//! Vigenere variant whose key letters give the shift at each position.
//!
//! Only ASCII letters are rotated, each within its own case; every other
//! character passes through unchanged.

use vstd::prelude::*;

verus! {

use crate::text::push_char;
use vstd::string::StrSliceExecFns;

/// `c` rotated forward by `shift` within its case; anything that is not an
/// ASCII letter is left alone.
pub open spec fn rot_shift_spec(c: char, shift: u8) -> char {
    if 'a' <= c && c <= 'z' {
        (((c as int - 'a' as int + shift) % 26) + 'a' as int) as char
    } else if 'A' <= c && c <= 'Z' {
        (((c as int - 'A' as int + shift) % 26) + 'A' as int) as char
    } else {
        c
    }
}

/// Every character of `s` rotated forward by `shift`.
pub open spec fn rot_text(s: Seq<char>, shift: u8) -> Seq<char> {
    Seq::new(s.len(), |i: int| rot_shift_spec(s[i], shift))
}

/// The shift a key character contributes: its place in the alphabet,
/// ignoring case, and 0 for anything that is not an ASCII letter.
pub open spec fn shift_of_key_char(c: char) -> u8 {
    if 'a' <= c && c <= 'z' {
        (c as int - 'a' as int) as u8
    } else if 'A' <= c && c <= 'Z' {
        (c as int - 'A' as int) as u8
    } else {
        0u8
    }
}

/// The shifts a whole key contributes, one per key character.
pub open spec fn key_shifts_spec(key: Seq<char>) -> Seq<u8> {
    Seq::new(key.len(), |i: int| shift_of_key_char(key[i]))
}

/// `text` encoded against the cycle of `shifts`: position `i` is rotated
/// forward by `shifts[i mod len]`. An empty cycle encodes everything to the
/// empty text.
pub open spec fn vig_encoded(text: Seq<char>, shifts: Seq<u8>) -> Seq<char> {
    if shifts.len() == 0 {
        Seq::empty()
    } else {
        Seq::new(text.len(), |i: int| rot_shift_spec(text[i], shifts[i % shifts.len() as int]))
    }
}

/// `text` decoded against the cycle of `shifts`: position `i` is rotated
/// forward by the complement `26 - shifts[i mod len]`.
pub open spec fn vig_decoded(text: Seq<char>, shifts: Seq<u8>) -> Seq<char> {
    if shifts.len() == 0 {
        Seq::empty()
    } else {
        Seq::new(
            text.len(),
            |i: int|
                rot_shift_spec(text[i], (26 - shifts[i % shifts.len() as int]) as u8),
        )
    }
}

/// Rotates one character forward by `shift` within its case; anything that
/// is not an ASCII letter passes through.
pub fn ascii_rot_shift(c: char, shift: u8) -> (r: char)
    requires
        shift <= 26,
    ensures
        r == rot_shift_spec(c, shift),
{
    if c >= 'a' && c <= 'z' {
        let place = c as u32 - 97;
        let shifted = (place + shift as u32) % 26;
        ((97 + shifted) as u8) as char
    } else if c >= 'A' && c <= 'Z' {
        let place = c as u32 - 65;
        let shifted = (place + shift as u32) % 26;
        ((65 + shifted) as u8) as char
    } else {
        c
    }
}

/// Encodes by rotating every character forward by `shift`.
pub fn ascii_rot_shift_encode(shift: u8, cleartext: &str) -> (r: String)
    requires
        shift <= 26,
    ensures
        r@ == rot_text(cleartext@, shift),
{
    let n = cleartext.unicode_len();
    let mut out = String::new();
    assert(out@ =~= Seq::<char>::empty());
    for i in 0..n
        invariant
            shift <= 26,
            n == cleartext@.len(),
            out@.len() == i,
            forall|j: int| 0 <= j < i ==> out@[j] == rot_shift_spec(cleartext@[j], shift),
    {
        let c = cleartext.get_char(i);
        push_char(&mut out, ascii_rot_shift(c, shift));
    }
    proof {
        assert(out@ =~= rot_text(cleartext@, shift));
    }
    out
}

/// Decodes a rotation by `shift`: rotates every character forward by the
/// complement `26 - shift`.
pub fn ascii_rot_shift_decode(shift: u8, ciphertext: &str) -> (r: String)
    requires
        shift <= 26,
    ensures
        r@ == rot_text(ciphertext@, (26 - shift) as u8),
{
    ascii_rot_shift_encode(26 - shift, ciphertext)
}

/// ROT13: encoding and decoding are the same rotation.
pub fn rot13_encode(cleartext: &str) -> (r: String)
    ensures
        r@ == rot_text(cleartext@, 13),
{
    ascii_rot_shift_encode(13, cleartext)
}

/// ROT13 again: decoding is the same rotation as encoding.
pub fn rot13_decode(ciphertext: &str) -> (r: String)
    ensures
        r@ == rot_text(ciphertext@, 13),
{
    ascii_rot_shift_decode(13, ciphertext)
}

/// The shift each key character contributes, one per character.
pub fn key_to_shifts(key: &str) -> (shifts: Vec<u8>)
    ensures
        shifts@ == key_shifts_spec(key@),
{
    let n = key.unicode_len();
    let mut shifts: Vec<u8> = Vec::new();
    for i in 0..n
        invariant
            n == key@.len(),
            shifts@.len() == i,
            forall|j: int| 0 <= j < i ==> shifts@[j] == shift_of_key_char(key@[j]),
    {
        let c = key.get_char(i);
        let shift: u8 = if c >= 'a' && c <= 'z' {
            (c as u32 - 97) as u8
        } else if c >= 'A' && c <= 'Z' {
            (c as u32 - 65) as u8
        } else {
            0
        };
        shifts.push(shift);
    }
    proof {
        assert(shifts@ =~= key_shifts_spec(key@));
    }
    shifts
}

/// Encodes `cleartext` against the cycle of shifts that `key` contributes.
pub fn ascii_vig_encode(cleartext: &str, key: &str) -> (r: String)
    ensures
        r@ == vig_encoded(cleartext@, key_shifts_spec(key@)),
{
    let shifts = key_to_shifts(key);
    let m = shifts.len();
    let mut out = String::new();
    assert(out@ =~= Seq::<char>::empty());
    if m == 0 {
        return out;
    }
    let n = cleartext.unicode_len();
    for i in 0..n
        invariant
            0 < m,
            m == shifts@.len(),
            shifts@ == key_shifts_spec(key@),
            n == cleartext@.len(),
            out@.len() == i,
            forall|j: int|
                0 <= j < i ==> out@[j] == rot_shift_spec(cleartext@[j], shifts@[j % m as int]),
    {
        let c = cleartext.get_char(i);
        let shift = shifts[i % m];
        assert(shift == shift_of_key_char(key@[i as int % m as int]));
        push_char(&mut out, ascii_rot_shift(c, shift));
    }
    proof {
        assert(out@ =~= vig_encoded(cleartext@, key_shifts_spec(key@)));
    }
    out
}

/// Decodes `ciphertext` against the cycle of shifts that `key` contributes.
pub fn ascii_vig_decode(ciphertext: &str, key: &str) -> (r: String)
    ensures
        r@ == vig_decoded(ciphertext@, key_shifts_spec(key@)),
{
    let shifts = key_to_shifts(key);
    let m = shifts.len();
    let mut out = String::new();
    assert(out@ =~= Seq::<char>::empty());
    if m == 0 {
        return out;
    }
    let n = ciphertext.unicode_len();
    for i in 0..n
        invariant
            0 < m,
            m == shifts@.len(),
            shifts@ == key_shifts_spec(key@),
            n == ciphertext@.len(),
            out@.len() == i,
            forall|j: int|
                0 <= j < i ==> out@[j] == rot_shift_spec(
                    ciphertext@[j],
                    (26 - shifts@[j % m as int]) as u8,
                ),
    {
        let c = ciphertext.get_char(i);
        let shift = shifts[i % m];
        assert(shift == shift_of_key_char(key@[i as int % m as int]));
        push_char(&mut out, ascii_rot_shift(c, 26 - shift));
    }
    proof {
        assert(out@ =~= vig_decoded(ciphertext@, key_shifts_spec(key@)));
    }
    out
}

/// Rotating a character forward by `shift` and then by its complement
/// `26 - shift` gives the character back.
pub proof fn lemma_rot_shift_round_trip(c: char, shift: u8)
    requires
        shift <= 26,
    ensures
        rot_shift_spec(rot_shift_spec(c, shift), (26 - shift) as u8) == c,
{
}

/// Decoding an encoded text with the same shift restores the text.
pub proof fn lemma_rot_text_round_trip(s: Seq<char>, shift: u8)
    requires
        shift <= 26,
    ensures
        rot_text(rot_text(s, shift), (26 - shift) as u8) == s,
{
    assert forall|i: int| 0 <= i < s.len() implies rot_text(rot_text(s, shift), (26 - shift) as u8)[i]
        == s[i] by {
        lemma_rot_shift_round_trip(s[i], shift);
    }
    assert(rot_text(rot_text(s, shift), (26 - shift) as u8) =~= s);
}

/// Decoding an encoded text with the same key restores the text.
pub proof fn lemma_vig_round_trip(text: Seq<char>, key: Seq<char>)
    requires
        key.len() > 0,
    ensures
        vig_decoded(vig_encoded(text, key_shifts_spec(key)), key_shifts_spec(key)) == text,
{
    let shifts = key_shifts_spec(key);
    let coded = vig_encoded(text, shifts);
    assert forall|i: int| 0 <= i < text.len() implies vig_decoded(coded, shifts)[i] == text[i] by {
        lemma_rot_shift_round_trip(text[i], shifts[i % shifts.len() as int]);
    }
    assert(vig_decoded(coded, shifts) =~= text);
}

} // verus!
