use vstd::prelude::*;
use vstd::arithmetic::div_mod::{lemma_fundamental_div_mod_converse_mod, lemma_small_mod};
use crate::CaesarError;
use crate::caesar::{is_ascii, is_ascii_vec, lemma_shift_seq_congruent, shift_seq, shifted_copy};
use crate::freq::FrequencyTable;
use crate::validate::Validator;

verus! {

// ---------------------------------------------------------------------------
// The automatic search: enumerate the candidate keys in ascending order,
// decrypt a copy of the input with each, and let the validator decide. The
// first accepted key wins; only then is the input overwritten.
// ---------------------------------------------------------------------------

/// The candidate plaintext the search examines for key `j`: the input
/// decrypted with that key, that is, shifted by `-j`.
pub open spec fn candidate_for(s: Seq<u8>, j: int) -> Seq<u8> {
    shift_seq(s, -j)
}

/// Recovers the key of a Caesar-ciphered text without being given it.
///
/// The search tries every candidate key `k` from 0 upwards, decrypting a copy
/// of the input with each (a shift by `-k`) and asking the validator; the
/// frequency table is accepted for interface symmetry between the crib-driven
/// and the lexical mode, and the decision rests with the validator alone. On
/// the first accepted candidate the input is overwritten with that decryption
/// and the search stops, returning the winning key, which is also how many
/// keys were tried and rejected before it. Each key is tried at most once, so
/// the search always terminates within 26 attempts.
///
/// Failure leaves the input unmodified: `NonAscii` when the input holds a
/// byte outside the ASCII range (detected before any attempt), and
/// `PlaintextInvalid` when all 26 keys were tried and the validator accepted
/// none.
pub fn auto_decrypt<V: Validator>(
    text: &mut Vec<u8>,
    _table: &FrequencyTable,
    validator: &V,
) -> (r: Result<u8, CaesarError>)
    ensures
        match r {
            Ok(k) => {
                &&& k < 26
                &&& is_ascii(old(text)@)
                &&& final(text)@ == candidate_for(old(text)@, k as int)
                &&& validator.accepts(final(text)@)
                &&& forall|j: int| 0 <= j < k as int ==> !validator.accepts(
                    #[trigger] candidate_for(old(text)@, j),
                )
            },
            Err(e) => {
                &&& final(text)@ == old(text)@
                &&& match e {
                    CaesarError::NonAscii => !is_ascii(old(text)@),
                    CaesarError::PlaintextInvalid => {
                        &&& is_ascii(old(text)@)
                        &&& forall|j: int| 0 <= j < 26 ==> !validator.accepts(
                            #[trigger] candidate_for(old(text)@, j),
                        )
                    },
                }
            },
        },
{
    if !is_ascii_vec(text) {
        return Err(CaesarError::NonAscii);
    }
    let ghost orig: Seq<u8> = text@;
    let mut k: u8 = 0;
    while k < 26
        invariant
            k <= 26,
            text@ == orig,
            orig == old(text)@,
            is_ascii(orig),
            forall|j: int| 0 <= j < k as int ==> !validator.accepts(
                #[trigger] candidate_for(orig, j),
            ),
        decreases 26 - k,
    {
        let ink: u8 = if k == 0 {
            0
        } else {
            26 - k
        };
        proof {
            if k == 0 {
                lemma_small_mod(0, 26);
            } else {
                lemma_small_mod(ink as nat, 26);
                assert(-(k as int) == (-1) * 26 + (26 - k as int));
                lemma_fundamental_div_mod_converse_mod(-(k as int), 26, -1, 26 - k as int);
            }
            lemma_shift_seq_congruent(orig, ink as int, -(k as int));
        }
        let candidate = shifted_copy(text, ink);
        if validator.validate(&candidate) {
            *text = candidate;
            return Ok(k);
        }
        k += 1;
    }
    Err(CaesarError::PlaintextInvalid)
}

} // verus!
