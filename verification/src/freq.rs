use vstd::prelude::*;

verus! {

// ---------------------------------------------------------------------------
// The frequency table: the reference distribution of letter frequencies for a
// target language, loaded once and shared read-only by every search. It is an
// input the automatic search accepts for interface symmetry between its two
// modes; the decision itself rests with the validator.
// ---------------------------------------------------------------------------

/// A reference letter-frequency distribution: one entry per alphabet letter,
/// in alphabetical order, as parts per hundred thousand of running text.
pub struct FrequencyTable {
    frequencies: Vec<u32>,
}

/// The expected relative frequencies of the English letters `a..=z`, in parts
/// per hundred thousand.
pub open spec fn english_letter_frequencies() -> Seq<u32> {
    seq![
        8167u32, 1492u32, 2782u32, 4253u32, 12702u32, 2228u32, 2015u32, 6094u32, 6966u32, 153u32,
        772u32, 4025u32, 2406u32, 6749u32, 7507u32, 1929u32, 95u32, 5987u32, 6327u32, 9056u32,
        2758u32, 978u32, 2360u32, 150u32, 1974u32, 74u32,
    ]
}

impl FrequencyTable {
    /// The distribution the table holds, indexed by letter position in the
    /// alphabet.
    pub closed spec fn dist(&self) -> Seq<u32> {
        self.frequencies@
    }

    /// One entry per letter of the alphabet.
    pub open spec fn wf(&self) -> bool {
        self.dist().len() == 26
    }

    /// A table from caller-supplied data, one entry per alphabet letter in
    /// alphabetical order.
    pub fn new(frequencies: Vec<u32>) -> (r: FrequencyTable)
        requires
            frequencies@.len() == 26,
        ensures
            r.dist() == frequencies@,
            r.wf(),
    {
        FrequencyTable { frequencies }
    }

    /// The expected frequency of the letter at the given alphabet position.
    pub fn frequency_of(&self, index: usize) -> (r: u32)
        requires
            self.wf(),
            index < 26,
        ensures
            r == self.dist()[index as int],
    {
        self.frequencies[index]
    }
}

/// The English reference distribution.
pub fn english_frequency_table() -> (r: FrequencyTable)
    ensures
        r.dist() == english_letter_frequencies(),
        r.wf(),
{
    let mut v: Vec<u32> = Vec::new();
    v.push(8167);
    v.push(1492);
    v.push(2782);
    v.push(4253);
    v.push(12702);
    v.push(2228);
    v.push(2015);
    v.push(6094);
    v.push(6966);
    v.push(153);
    v.push(772);
    v.push(4025);
    v.push(2406);
    v.push(6749);
    v.push(7507);
    v.push(1929);
    v.push(95);
    v.push(5987);
    v.push(6327);
    v.push(9056);
    v.push(2758);
    v.push(978);
    v.push(2360);
    v.push(150);
    v.push(1974);
    v.push(74);
    assert(v@ =~= english_letter_frequencies());
    FrequencyTable::new(v)
}

} // verus!
