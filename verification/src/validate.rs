use vstd::prelude::*;
use crate::lexicon::Lexicon;
use crate::tokens::{tokenize, tokens, views_of};

verus! {

// ---------------------------------------------------------------------------
// Validators: strategies that judge whether a decrypted candidate is
// plausible plaintext. A crib validator looks for a known substring; a
// word-list validator asks that enough of the candidate's words appear in a
// lexicon.
// ---------------------------------------------------------------------------

/// The pattern occurs in `t` starting at position `i`.
pub open spec fn matches_at(t: Seq<u8>, p: Seq<u8>, i: int) -> bool {
    &&& 0 <= i
    &&& i + p.len() <= t.len()
    &&& t.subrange(i, i + p.len() as int) == p
}

/// The pattern occurs somewhere in `t` as a contiguous substring.
pub open spec fn contains_sub(t: Seq<u8>, p: Seq<u8>) -> bool {
    exists|i: int| matches_at(t, p, i)
}

/// How many of the words appear in the lexicon, each occurrence counted.
pub open spec fn count_found(ts: Seq<Seq<u8>>, lex: Seq<Seq<u8>>) -> int
    decreases ts.len(),
{
    if ts.len() == 0 {
        0
    } else {
        count_found(ts.drop_last(), lex) + if lex.contains(ts.last()) {
            1int
        } else {
            0int
        }
    }
}

/// A strategy that accepts or rejects a candidate plaintext. `accepts` is the
/// mathematical criterion; `validate` is its executable decision procedure.
pub trait Validator: Sized {
    spec fn accepts(&self, text: Seq<u8>) -> bool;

    fn validate(&self, text: &Vec<u8>) -> (r: bool)
        ensures
            r == self.accepts(text@),
    ;
}

// ---------------------------------------------------------------------------
// Crib validator.
// ---------------------------------------------------------------------------

/// Accepts a candidate exactly when it contains a known piece of expected
/// plaintext (the crib) as a case-sensitive substring.
pub struct CribValidator {
    crib: Vec<u8>,
}

/// Whether the pattern occurs in `t` starting at position `i`.
fn match_at_exec(t: &Vec<u8>, p: &Vec<u8>, i: usize) -> (r: bool)
    requires
        i + p@.len() <= t@.len(),
    ensures
        r == matches_at(t@, p@, i as int),
{
    let n = t.len();
    let m = p.len();
    let mut j: usize = 0;
    while j < m
        invariant
            j <= m,
            m == p@.len(),
            n == t@.len(),
            i + m <= n,
            forall|k: int| 0 <= k < j ==> t@[i + k] == p@[k],
        decreases m - j,
    {
        if t[i + j] != p[j] {
            proof {
                assert(t@.subrange(i as int, i as int + m as int)[j as int] == t@[i + j]);
            }
            return false;
        }
        j += 1;
    }
    proof {
        assert(t@.subrange(i as int, i as int + m as int) =~= p@);
    }
    true
}

/// Whether the pattern occurs anywhere in the text as a substring.
pub fn contains_subslice(t: &Vec<u8>, p: &Vec<u8>) -> (r: bool)
    ensures
        r == contains_sub(t@, p@),
{
    let n = t.len();
    let m = p.len();
    if m > n {
        assert forall|i: int| !matches_at(t@, p@, i) by {}
        return false;
    }
    if m == 0 {
        proof {
            assert(t@.subrange(0, 0) =~= p@);
            assert(matches_at(t@, p@, 0));
        }
        return true;
    }
    let mut i: usize = 0;
    while i <= n - m
        invariant
            1 <= m <= n,
            n == t@.len(),
            m == p@.len(),
            i <= n - m + 1,
            forall|j: int| 0 <= j < i ==> !matches_at(t@, p@, j),
        decreases n - m - i + 1,
    {
        if match_at_exec(t, p, i) {
            return true;
        }
        i += 1;
    }
    assert forall|j: int| !matches_at(t@, p@, j) by {
        if 0 <= j && j + p@.len() <= t@.len() {
            assert(j < i);
        }
    }
    false
}

impl CribValidator {
    /// The crib the validator looks for.
    pub closed spec fn crib_seq(&self) -> Seq<u8> {
        self.crib@
    }

    /// A validator for the given crib.
    pub fn new(crib: Vec<u8>) -> (r: CribValidator)
        ensures
            r.crib_seq() == crib@,
    {
        CribValidator { crib }
    }

    /// Replaces the crib.
    pub fn set_crib(&mut self, crib: Vec<u8>)
        ensures
            final(self).crib_seq() == crib@,
    {
        self.crib = crib;
    }
}

impl Validator for CribValidator {
    /// The candidate contains the crib as a case-sensitive substring.
    open spec fn accepts(&self, text: Seq<u8>) -> bool {
        contains_sub(text, self.crib_seq())
    }

    fn validate(&self, text: &Vec<u8>) -> (r: bool) {
        contains_subslice(text, &self.crib)
    }
}

// ---------------------------------------------------------------------------
// Word-list validator.
// ---------------------------------------------------------------------------

/// Accepts a candidate exactly when it has at least one word and the fraction
/// of its words found in the lexicon reaches the threshold, an inclusive
/// comparison against the rational `threshold_num / threshold_den`. A
/// candidate without words is rejected: no words give no evidence of
/// language.
pub struct WordListValidator {
    lexicon: Lexicon,
    num: u64,
    den: u64,
}

impl WordListValidator {
    /// The words of the wrapped lexicon.
    pub closed spec fn lex_words(&self) -> Seq<Seq<u8>> {
        self.lexicon.words_seq()
    }

    /// The numerator of the acceptance threshold.
    pub closed spec fn threshold_num(&self) -> int {
        self.num as int
    }

    /// The denominator of the acceptance threshold.
    pub closed spec fn threshold_den(&self) -> int {
        self.den as int
    }

    /// The threshold is a well-formed fraction in the closed interval
    /// from zero to one.
    pub open spec fn wf(&self) -> bool {
        &&& 1 <= self.threshold_den()
        &&& 0 <= self.threshold_num() <= self.threshold_den()
    }

    /// A validator over the given lexicon with the default threshold of
    /// three quarters of the words recognized.
    pub fn new(lexicon: Lexicon) -> (r: WordListValidator)
        ensures
            r.lex_words() == lexicon.words_seq(),
            r.threshold_num() == 3,
            r.threshold_den() == 4,
            r.wf(),
    {
        WordListValidator { lexicon, num: 3, den: 4 }
    }

    /// A validator over the given lexicon with the given threshold fraction,
    /// clamped into the closed interval from zero to one.
    pub fn with_threshold(lexicon: Lexicon, num: u64, den: u64) -> (r: WordListValidator)
        ensures
            r.lex_words() == lexicon.words_seq(),
            r.threshold_den() == (if den == 0 { 1int } else { den as int }),
            r.threshold_num() == (if num as int > r.threshold_den() {
                r.threshold_den()
            } else {
                num as int
            }),
            r.wf(),
    {
        let mut r = WordListValidator { lexicon, num: 3, den: 4 };
        r.set_threshold(num, den);
        r
    }

    /// Adjusts the threshold between calls: the one mutable knob of the
    /// validator. A zero denominator is raised to one and the numerator is
    /// clamped to the denominator, so the stored fraction always lies in the
    /// closed interval from zero to one.
    pub fn set_threshold(&mut self, num: u64, den: u64)
        ensures
            final(self).lex_words() == old(self).lex_words(),
            final(self).threshold_den() == (if den == 0 { 1int } else { den as int }),
            final(self).threshold_num() == (if num as int > final(self).threshold_den() {
                final(self).threshold_den()
            } else {
                num as int
            }),
            final(self).wf(),
    {
        let d: u64 = if den == 0 { 1 } else { den };
        let n: u64 = if num > d { d } else { num };
        self.num = n;
        self.den = d;
    }
}

impl Validator for WordListValidator {
    /// The candidate has at least one word, and the recognized fraction
    /// reaches the threshold: `found / total >= num / den`, compared without
    /// division as `found * den >= num * total`.
    open spec fn accepts(&self, text: Seq<u8>) -> bool {
        let ts = tokens(text);
        &&& ts.len() > 0
        &&& count_found(ts, self.lex_words()) * self.threshold_den() >= self.threshold_num()
            * ts.len()
    }

    fn validate(&self, text: &Vec<u8>) -> (r: bool) {
        let toks = tokenize(text);
        let ghost ts: Seq<Seq<u8>> = tokens(text@);
        let total = toks.len();
        if total == 0 {
            return false;
        }
        let mut found: usize = 0;
        let mut i: usize = 0;
        while i < total
            invariant
                i <= total,
                total == toks@.len(),
                ts == views_of(toks@),
                found <= i,
                found == count_found(ts.take(i as int), self.lex_words()),
            decreases total - i,
        {
            proof {
                assert(ts.take(i as int + 1).drop_last() =~= ts.take(i as int));
                assert(ts.take(i as int + 1).last() == toks@[i as int]@);
            }
            if self.lexicon.contains_exact(&toks[i]) {
                found += 1;
            }
            i += 1;
        }
        proof {
            assert(ts.take(total as int) =~= ts);
        }
        proof {
            assert((found as int) * (self.den as int) <= u128::MAX) by (nonlinear_arith)
                requires
                    0 <= found as int <= u64::MAX,
                    0 <= self.den as int <= u64::MAX,
            ;
            assert((self.num as int) * (total as int) <= u128::MAX) by (nonlinear_arith)
                requires
                    0 <= self.num as int <= u64::MAX,
                    0 <= total as int <= u64::MAX,
            ;
        }
        let lhs: u128 = (found as u128) * (self.den as u128);
        let rhs: u128 = (self.num as u128) * (total as u128);
        lhs >= rhs
    }
}

// ---------------------------------------------------------------------------
// Laws of the word-list validator.
// ---------------------------------------------------------------------------

/// Law: a candidate without words is rejected, deterministically; the
/// validator never divides by the zero word count.
pub proof fn lemma_zero_words_rejected(v: WordListValidator, text: Seq<u8>)
    requires
        tokens(text).len() == 0,
    ensures
        !v.accepts(text),
{
}

/// Law: the threshold comparison is inclusive. A candidate whose recognized
/// words make exactly the threshold fraction of its words is accepted, and
/// one whose recognized count falls one short of that exact boundary is
/// rejected.
pub proof fn lemma_threshold_boundary(v: WordListValidator, t1: Seq<u8>, t2: Seq<u8>)
    requires
        v.wf(),
        tokens(t1).len() > 0,
        tokens(t2).len() == tokens(t1).len(),
        count_found(tokens(t1), v.lex_words()) * v.threshold_den() == v.threshold_num()
            * tokens(t1).len(),
        count_found(tokens(t2), v.lex_words()) == count_found(tokens(t1), v.lex_words()) - 1,
    ensures
        v.accepts(t1),
        !v.accepts(t2),
{
    let c1 = count_found(tokens(t1), v.lex_words());
    let d = v.threshold_den();
    assert((c1 - 1) * d == c1 * d - d) by (nonlinear_arith);
}

} // verus!
