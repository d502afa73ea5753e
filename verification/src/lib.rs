use vstd::prelude::*;

pub mod caesar;
pub mod freq;
pub mod lexicon;
pub mod search;
pub mod tokens;
pub mod validate;

verus! {

/// The closed error taxonomy of the engine. Both errors are recoverable and
/// are returned, never panicked.
#[derive(Clone, Copy, PartialEq, Eq, Structural, Debug)]
pub enum CaesarError {
    /// The input text held a byte outside the 7-bit ASCII range; the input is
    /// left unmodified.
    NonAscii,
    /// The automatic search exhausted every key without the validator
    /// accepting a candidate; the input is left unmodified.
    PlaintextInvalid,
}

} // verus!
