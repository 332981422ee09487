//! Reading a floating-point numeral, through nom.
use vstd::prelude::*;

verus! {

/// What nom's `double` reads at the start of `s`: the number of characters of
/// the numeral and the bit pattern of its `f64` value; `None` where no numeral
/// starts there.
pub uninterp spec fn double_prefix(s: Seq<char>) -> Option<(nat, u64)>;

/// Relies on `nom::number::complete::double`: on success it returns the rest
/// of its input after a numeral of at least one character (it slices the
/// input, so the rest is a proper suffix) and the value read; its result
/// depends on the text alone.
#[verifier::external_body]
pub(crate) fn scan_double<'a>(s: &'a str) -> (r: Option<(&'a str, u64)>)
    ensures
        match r {
            Some((rest, bits)) => {
                &&& rest@.len() < s@.len()
                &&& rest@ == s@.subrange(s@.len() - rest@.len(), s@.len() as int)
                &&& double_prefix(s@) == Some(((s@.len() - rest@.len()) as nat, bits))
            },
            None => double_prefix(s@) is None,
        },
{
    match nom::number::complete::double::<&str, nom::error::Error<&str>>(s) {
        Ok((rest, value)) => Some((rest, value.to_bits())),
        Err(_) => None,
    }
}

} // verus!
