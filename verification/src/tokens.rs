use vstd::prelude::*;
use crate::caesar::{is_letter, is_upper};

verus! {

// ---------------------------------------------------------------------------
// Tokenization: candidate text and word corpora are split into words on
// whitespace and punctuation. A word is a maximal run of word bytes (letters,
// hyphen, apostrophe), normalized to lowercase as it is read.
// ---------------------------------------------------------------------------

/// A byte that belongs to a word: a letter of the alphabet, a hyphen or an
/// apostrophe. Every other byte delimits words.
pub open spec fn is_word_byte(b: u8) -> bool {
    is_letter(b) || b == 45 || b == 39
}

/// The byte with an uppercase letter folded to lowercase; anything else is
/// unchanged.
pub open spec fn to_lower_byte(b: u8) -> u8 {
    if is_upper(b) {
        (b + 32) as u8
    } else {
        b
    }
}

/// The text with every uppercase letter folded to lowercase.
pub open spec fn lower_seq(s: Seq<u8>) -> Seq<u8> {
    s.map_values(|b: u8| to_lower_byte(b))
}

/// The state of a left-to-right scan of `s`: the words completed so far and
/// the (possibly empty) word still being read at the right edge.
pub open spec fn token_state(s: Seq<u8>) -> (Seq<Seq<u8>>, Seq<u8>)
    decreases s.len(),
{
    if s.len() == 0 {
        (Seq::<Seq<u8>>::empty(), Seq::<u8>::empty())
    } else {
        let prev = token_state(s.drop_last());
        let b = s.last();
        if is_word_byte(b) {
            (prev.0, prev.1.push(to_lower_byte(b)))
        } else if prev.1.len() > 0 {
            (prev.0.push(prev.1), Seq::<u8>::empty())
        } else {
            prev
        }
    }
}

/// The words of the text, in order: maximal runs of word bytes, lowercased.
/// Delimiter bytes never produce empty words.
pub open spec fn tokens(s: Seq<u8>) -> Seq<Seq<u8>> {
    let st = token_state(s);
    if st.1.len() > 0 {
        st.0.push(st.1)
    } else {
        st.0
    }
}

/// The mathematical view of a vector of byte vectors.
pub open spec fn views_of(ws: Seq<Vec<u8>>) -> Seq<Seq<u8>> {
    ws.map_values(|w: Vec<u8>| w@)
}

/// Whether the byte belongs to a word.
pub fn is_word_byte_exec(b: u8) -> (r: bool)
    ensures
        r == is_word_byte(b),
{
    (97 <= b && b <= 122) || (65 <= b && b <= 90) || b == 45 || b == 39
}

/// The byte folded to lowercase.
pub fn to_lower_byte_exec(b: u8) -> (r: u8)
    ensures
        r == to_lower_byte(b),
{
    if 65 <= b && b <= 90 {
        b + 32
    } else {
        b
    }
}

/// The text folded to lowercase, as a fresh vector.
pub fn to_lower_vec(s: &Vec<u8>) -> (r: Vec<u8>)
    ensures
        r@ == lower_seq(s@),
{
    let n = s.len();
    let mut r: Vec<u8> = Vec::new();
    let mut i: usize = 0;
    while i < n
        invariant
            i <= n,
            n == s@.len(),
            r@.len() == i,
            forall|j: int| 0 <= j < i ==> r@[j] == to_lower_byte(s@[j]),
        decreases n - i,
    {
        r.push(to_lower_byte_exec(s[i]));
        i += 1;
    }
    assert(r@ =~= lower_seq(s@));
    r
}

/// Splits the text into its words, exactly the `tokens` of its view.
pub fn tokenize(text: &Vec<u8>) -> (r: Vec<Vec<u8>>)
    ensures
        views_of(r@) == tokens(text@),
{
    let n = text.len();
    let mut toks: Vec<Vec<u8>> = Vec::new();
    let mut cur: Vec<u8> = Vec::new();
    let mut i: usize = 0;
    while i < n
        invariant
            i <= n,
            n == text@.len(),
            views_of(toks@) == token_state(text@.take(i as int)).0,
            cur@ == token_state(text@.take(i as int)).1,
        decreases n - i,
    {
        proof {
            assert(text@.take(i as int + 1).drop_last() =~= text@.take(i as int));
            assert(text@.take(i as int + 1).last() == text@[i as int]);
        }
        let ghost prev_toks: Seq<Seq<u8>> = views_of(toks@);
        let b = text[i];
        if is_word_byte_exec(b) {
            cur.push(to_lower_byte_exec(b));
        } else if cur.len() > 0 {
            toks.push(cur);
            cur = Vec::new();
            proof {
                assert(views_of(toks@) =~= prev_toks.push(
                    token_state(text@.take(i as int)).1,
                ));
            }
        }
        i += 1;
    }
    proof {
        assert(text@.take(n as int) =~= text@);
    }
    if cur.len() > 0 {
        let ghost prev_toks: Seq<Seq<u8>> = views_of(toks@);
        toks.push(cur);
        proof {
            assert(views_of(toks@) =~= prev_toks.push(token_state(text@).1));
        }
    }
    toks
}

} // verus!
