use vstd::prelude::*;
use crate::tokens::{lower_seq, to_lower_vec, tokenize, tokens, views_of};

verus! {

// ---------------------------------------------------------------------------
// The lexicon: a set of lowercase words built once from a static word corpus
// and immutable afterwards, looked up by the word-list validator.
// ---------------------------------------------------------------------------

/// A word list. It holds the words of the corpus it was built from, already
/// lowercased by tokenization.
pub struct Lexicon {
    words: Vec<Vec<u8>>,
}

/// Compares two byte strings for equality.
fn bytes_eq(a: &Vec<u8>, b: &Vec<u8>) -> (r: bool)
    ensures
        r == (a@ == b@),
{
    let n = a.len();
    if n != b.len() {
        return false;
    }
    let mut i: usize = 0;
    while i < n
        invariant
            i <= n,
            n == a@.len(),
            n == b@.len(),
            forall|j: int| 0 <= j < i ==> a@[j] == b@[j],
        decreases n - i,
    {
        if a[i] != b[i] {
            return false;
        }
        i += 1;
    }
    assert(a@ =~= b@);
    true
}

impl Lexicon {
    /// The words the lexicon holds, in the order the corpus gave them.
    pub closed spec fn words_seq(&self) -> Seq<Seq<u8>> {
        views_of(self.words@)
    }

    /// Builds the lexicon from a word corpus: its words are exactly the
    /// corpus's tokens (maximal runs of word bytes, lowercased), so any
    /// whitespace- or newline-delimited word list works.
    pub fn new(corpus: &Vec<u8>) -> (r: Lexicon)
        ensures
            r.words_seq() == tokens(corpus@),
    {
        Lexicon { words: tokenize(corpus) }
    }

    /// How many words the lexicon holds.
    pub fn len(&self) -> (r: usize)
        ensures
            r == self.words_seq().len(),
    {
        self.words.len()
    }

    /// Looks a word up exactly as given, without case folding.
    pub fn contains_exact(&self, word: &Vec<u8>) -> (r: bool)
        ensures
            r == self.words_seq().contains(word@),
    {
        let n = self.words.len();
        let mut i: usize = 0;
        while i < n
            invariant
                i <= n,
                n == self.words_seq().len(),
                n == self.words@.len(),
                forall|j: int| 0 <= j < i ==> self.words_seq()[j] != word@,
            decreases n - i,
        {
            if bytes_eq(&self.words[i], word) {
                assert(self.words_seq()[i as int] == word@);
                return true;
            }
            i += 1;
        }
        false
    }

    /// Looks a word up with case folded to lowercase, so lookup is
    /// case-insensitive against the lowercase corpus.
    pub fn contains(&self, word: &Vec<u8>) -> (r: bool)
        ensures
            r == self.words_seq().contains(lower_seq(word@)),
    {
        let folded = to_lower_vec(word);
        self.contains_exact(&folded)
    }
}

} // verus!
