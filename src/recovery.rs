//! The threshold-recovery primitive and the mnemonic decoder, both taken from
//! outside crates and treated as deterministic black boxes.

use vstd::prelude::*;

verus! {

/// The secret that Shamir recovery yields for the given share indexes and
/// share bytes, or nothing when the shares are rejected (wrong count, unequal
/// or unsupported lengths, or a failed checksum).
pub uninterp spec fn shamir_recovered(indexes: Seq<usize>, shares: Seq<Seq<u8>>) -> Option<Seq<u8>>;

/// The entropy bytes that a mnemonic phrase encodes, or nothing when the
/// phrase is not a valid mnemonic.
pub uninterp spec fn mnemonic_entropy(phrase: Seq<char>) -> Option<Seq<u8>>;

/// Relies on `bc_shamir::recover_secret`: the result depends on the indexes
/// and the share bytes alone; any rejection of the share set comes back as an
/// error, which is dropped here.
#[verifier::external_body]
pub(crate) fn recover_secret(indexes: &Vec<usize>, shares: &Vec<Vec<u8>>) -> (r: Option<Vec<u8>>)
    ensures
        match r {
            Some(v) => shamir_recovered(indexes@, shares@.map_values(|v: Vec<u8>| v@)) == Some(v@),
            None => shamir_recovered(indexes@, shares@.map_values(|v: Vec<u8>| v@)) is None,
        },
{
    bc_shamir::recover_secret(indexes, shares).ok()
}

/// Relies on `bip39::Mnemonic::parse` and `bip39::Mnemonic::to_entropy`: the
/// phrase is validated and turned into the entropy it encodes, a function of
/// the phrase alone.
#[verifier::external_body]
pub(crate) fn decode_mnemonic(phrase: &str) -> (r: Option<Vec<u8>>)
    ensures
        match r {
            Some(v) => mnemonic_entropy(phrase@) == Some(v@),
            None => mnemonic_entropy(phrase@) is None,
        },
{
    match bip39::Mnemonic::parse(phrase) {
        Ok(m) => Some(m.to_entropy()),
        Err(_) => None,
    }
}

} // verus!
