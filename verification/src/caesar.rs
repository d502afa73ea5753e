use vstd::prelude::*;
use vstd::arithmetic::div_mod::{
    lemma_add_mod_noop_right, lemma_fundamental_div_mod, lemma_fundamental_div_mod_converse_mod,
    lemma_mod_add_multiples_vanish, lemma_mod_sub_multiples_vanish, lemma_small_mod,
    lemma_sub_mod_noop, lemma_sub_mod_noop_right,
};
use crate::CaesarError;

verus! {

// ---------------------------------------------------------------------------
// The alphabet and the mathematical model of the shift transformation.
// ---------------------------------------------------------------------------

/// A lowercase Latin letter, `b'a'..=b'z'`.
pub open spec fn is_lower(b: u8) -> bool {
    97 <= b <= 122
}

/// An uppercase Latin letter, `b'A'..=b'Z'`.
pub open spec fn is_upper(b: u8) -> bool {
    65 <= b <= 90
}

/// A letter of the 26-letter alphabet, in either case.
pub open spec fn is_letter(b: u8) -> bool {
    is_lower(b) || is_upper(b)
}

/// A byte in the 7-bit ASCII range.
pub open spec fn is_ascii_byte(b: u8) -> bool {
    b < 128
}

/// Every byte of the text is ASCII.
pub open spec fn is_ascii(s: Seq<u8>) -> bool {
    forall|i: int| 0 <= i < s.len() ==> is_ascii_byte(s[i])
}

/// The Caesar shift of one byte by an arbitrary integer key: a letter is
/// rotated within its case by `key mod 26` (the mathematical modulus, so a
/// negative key rotates backwards); every other byte passes through unchanged.
pub open spec fn shift_byte(b: u8, key: int) -> u8 {
    if is_lower(b) {
        (97 + ((b - 97 + key) % 26)) as u8
    } else if is_upper(b) {
        (65 + ((b - 65 + key) % 26)) as u8
    } else {
        b
    }
}

/// The Caesar shift of a whole text: `shift_byte` applied pointwise.
pub open spec fn shift_seq(s: Seq<u8>, key: int) -> Seq<u8> {
    s.map_values(|b: u8| shift_byte(b, key))
}

// ---------------------------------------------------------------------------
// Laws of the shift transformation.
// ---------------------------------------------------------------------------

/// Two keys that agree modulo 26 shift a byte identically.
proof fn lemma_shift_byte_congruent(b: u8, k1: int, k2: int)
    requires
        k1 % 26 == k2 % 26,
    ensures
        shift_byte(b, k1) == shift_byte(b, k2),
{
    if is_lower(b) {
        lemma_add_mod_noop_right(b - 97, k1, 26);
        lemma_add_mod_noop_right(b - 97, k2, 26);
    } else if is_upper(b) {
        lemma_add_mod_noop_right(b - 65, k1, 26);
        lemma_add_mod_noop_right(b - 65, k2, 26);
    }
}

/// Two keys that agree modulo 26 shift every text identically.
pub proof fn lemma_shift_seq_congruent(s: Seq<u8>, k1: int, k2: int)
    requires
        k1 % 26 == k2 % 26,
    ensures
        shift_seq(s, k1) == shift_seq(s, k2),
{
    assert forall|i: int| 0 <= i < s.len() implies shift_seq(s, k1)[i] == shift_seq(s, k2)[i] by {
        lemma_shift_byte_congruent(s[i], k1, k2);
    }
    assert(shift_seq(s, k1) =~= shift_seq(s, k2));
}

/// Law: the key is normalized modulo the alphabet size, so shifting by `k`,
/// `k + 26` and `k - 26` are one and the same transformation.
pub proof fn lemma_key_normalization(s: Seq<u8>, k: int)
    ensures
        shift_seq(s, k) == shift_seq(s, k + 26),
        shift_seq(s, k) == shift_seq(s, k - 26),
{
    lemma_mod_add_multiples_vanish(k, 26);
    lemma_mod_sub_multiples_vanish(k, 26);
    lemma_shift_seq_congruent(s, k, k + 26);
    lemma_shift_seq_congruent(s, k, k - 26);
}

/// Shifting a byte by `k` and then by `-k` gives the byte back.
proof fn lemma_shift_byte_round_trip(b: u8, k: int)
    ensures
        shift_byte(shift_byte(b, k), -k) == b,
{
    if is_lower(b) || is_upper(b) {
        let base: int = if is_lower(b) { 97 } else { 65 };
        let x = b - base;
        let r1 = (x + k) % 26;
        assert(0 <= r1 < 26);
        let b2 = shift_byte(b, k);
        assert(b2 == base + r1);
        assert((r1 + (-k)) % 26 == x) by {
            lemma_sub_mod_noop_right(r1, k, 26);
            lemma_sub_mod_noop(x + k, k, 26);
            lemma_small_mod(x as nat, 26);
        }
    }
}

/// Law: the round trip. Unshifting (shifting by the negated key) undoes the
/// shift, for every text and every integer key.
pub proof fn lemma_round_trip(s: Seq<u8>, k: int)
    ensures
        shift_seq(shift_seq(s, k), -k) == s,
{
    assert forall|i: int| 0 <= i < s.len() implies shift_seq(shift_seq(s, k), -k)[i] == s[i] by {
        lemma_shift_byte_round_trip(s[i], k);
    }
    assert(shift_seq(shift_seq(s, k), -k) =~= s);
}

/// Law: bytes outside the 26-letter alphabet (spaces, punctuation, digits)
/// pass through every shift unchanged, whatever the key; and a shift never
/// changes the length or the case of the text.
pub proof fn lemma_non_alphabetic_passthrough(s: Seq<u8>, k: int)
    ensures
        shift_seq(s, k).len() == s.len(),
        forall|i: int| 0 <= i < s.len() && !is_letter(s[i]) ==> shift_seq(s, k)[i] == s[i],
        forall|i: int| 0 <= i < s.len() ==> (is_lower(s[i]) <==> is_lower(#[trigger] shift_seq(s, k)[i])),
        forall|i: int| 0 <= i < s.len() ==> (is_upper(s[i]) <==> is_upper(#[trigger] shift_seq(s, k)[i])),
{
}

// ---------------------------------------------------------------------------
// Executable transformation.
// ---------------------------------------------------------------------------

/// Whether every byte of the text is 7-bit ASCII.
pub fn is_ascii_vec(v: &Vec<u8>) -> (r: bool)
    ensures
        r == is_ascii(v@),
{
    let n = v.len();
    let mut i: usize = 0;
    while i < n
        invariant
            i <= n,
            n == v@.len(),
            forall|j: int| 0 <= j < i ==> is_ascii_byte(v@[j]),
        decreases n - i,
    {
        if v[i] >= 128 {
            return false;
        }
        i += 1;
    }
    true
}

/// One byte shifted by a key already normalized into `0..26`.
fn shift_byte_exec(b: u8, nk: u8) -> (r: u8)
    requires
        nk < 26,
    ensures
        r == shift_byte(b, nk as int),
{
    if 97 <= b && b <= 122 {
        97 + (b - 97 + nk) % 26
    } else if 65 <= b && b <= 90 {
        65 + (b - 65 + nk) % 26
    } else {
        b
    }
}

/// The key reduced to the mathematical modulus `key mod 26`, always in
/// `0..26` even for a negative key.
fn normalize_key(key: i16) -> (r: u8)
    ensures
        r as int == (key as int) % 26,
{
    if key >= 0 {
        let r: u32 = (key as u32) % 26;
        proof {
            lemma_small_mod((key as u32 % 26) as nat, 26);
        }
        r as u8
    } else {
        let neg: u32 = (0 - (key as i32)) as u32;
        let m: u32 = neg % 26;
        proof {
            let k = key as int;
            let d = neg as int / 26;
            lemma_fundamental_div_mod(neg as int, 26);
            if m == 0 {
                assert(k == (-d) * 26 + 0) by (nonlinear_arith)
                    requires
                        k == -(neg as int),
                        neg as int == 26 * d + m,
                        m == 0,
                ;
                lemma_fundamental_div_mod_converse_mod(k, 26, -d, 0);
            } else {
                assert(k == (-d - 1) * 26 + (26 - m)) by (nonlinear_arith)
                    requires
                        k == -(neg as int),
                        neg as int == 26 * d + m,
                ;
                lemma_fundamental_div_mod_converse_mod(k, 26, -d - 1, 26 - m as int);
            }
        }
        if m == 0 {
            0
        } else {
            (26 - m) as u8
        }
    }
}

/// Shifts every byte in place by a key already normalized into `0..26`.
fn shift_in_place(text: &mut Vec<u8>, nk: u8)
    requires
        nk < 26,
    ensures
        final(text)@ == shift_seq(old(text)@, nk as int),
{
    let ghost orig: Seq<u8> = text@;
    let n = text.len();
    let mut i: usize = 0;
    while i < n
        invariant
            i <= n,
            n == text@.len(),
            text@.len() == orig.len(),
            nk < 26,
            forall|j: int| 0 <= j < i ==> text@[j] == shift_byte(orig[j], nk as int),
            forall|j: int| i <= j < n ==> text@[j] == orig[j],
        decreases n - i,
    {
        let b = text[i];
        text.set(i, shift_byte_exec(b, nk));
        i += 1;
    }
    assert(text@ =~= shift_seq(orig, nk as int));
}

/// A fresh copy of the text shifted by a key already normalized into `0..26`,
/// with the original left untouched.
pub(crate) fn shifted_copy(v: &Vec<u8>, nk: u8) -> (r: Vec<u8>)
    requires
        nk < 26,
    ensures
        r@ == shift_seq(v@, nk as int),
{
    let n = v.len();
    let mut r: Vec<u8> = Vec::new();
    let mut i: usize = 0;
    while i < n
        invariant
            i <= n,
            n == v@.len(),
            r@.len() == i,
            nk < 26,
            forall|j: int| 0 <= j < i ==> r@[j] == shift_byte(v@[j], nk as int),
        decreases n - i,
    {
        r.push(shift_byte_exec(v[i], nk));
        i += 1;
    }
    assert(r@ =~= shift_seq(v@, nk as int));
    r
}

/// Encrypts the text in place: every alphabet byte is rotated forward by
/// `key mod 26`, case preserved, all other bytes untouched. Succeeds exactly
/// on ASCII input; non-ASCII input is rejected whole, with the text left
/// unmodified.
pub fn shift(text: &mut Vec<u8>, key: i16) -> (r: Result<(), CaesarError>)
    ensures
        match r {
            Ok(()) => is_ascii(old(text)@) && final(text)@ == shift_seq(old(text)@, key as int),
            Err(e) => {
                &&& e == CaesarError::NonAscii
                &&& !is_ascii(old(text)@)
                &&& final(text)@ == old(text)@
            },
        },
{
    if !is_ascii_vec(text) {
        return Err(CaesarError::NonAscii);
    }
    let nk = normalize_key(key);
    shift_in_place(text, nk);
    proof {
        lemma_shift_seq_congruent(old(text)@, nk as int, key as int);
    }
    Ok(())
}

/// Decrypts the text in place: the inverse of `shift` with the same key,
/// that is, a shift by the negated key. Succeeds exactly on ASCII input;
/// non-ASCII input is rejected whole, with the text left unmodified.
pub fn unshift(text: &mut Vec<u8>, key: i16) -> (r: Result<(), CaesarError>)
    ensures
        match r {
            Ok(()) => is_ascii(old(text)@) && final(text)@ == shift_seq(old(text)@, -(key as int)),
            Err(e) => {
                &&& e == CaesarError::NonAscii
                &&& !is_ascii(old(text)@)
                &&& final(text)@ == old(text)@
            },
        },
{
    if !is_ascii_vec(text) {
        return Err(CaesarError::NonAscii);
    }
    let nk = normalize_key(key);
    let ink: u8 = if nk == 0 {
        0
    } else {
        26 - nk
    };
    proof {
        let k = key as int;
        lemma_fundamental_div_mod(k, 26);
        let q = k / 26;
        if nk == 0 {
            assert(-k == (-q) * 26 + 0) by (nonlinear_arith)
                requires
                    k == 26 * q + nk,
                    nk == 0,
            ;
            lemma_fundamental_div_mod_converse_mod(-k, 26, -q, 0);
        } else {
            assert(-k == (-q - 1) * 26 + (26 - nk)) by (nonlinear_arith)
                requires
                    k == 26 * q + nk as int,
            ;
            lemma_fundamental_div_mod_converse_mod(-k, 26, -q - 1, 26 - nk as int);
        }
    }
    shift_in_place(text, ink);
    proof {
        lemma_shift_seq_congruent(old(text)@, ink as int, -(key as int));
    }
    Ok(())
}

} // verus!

