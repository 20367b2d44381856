//! The coordinator: validates submitted shares, stores them, and recovers the
//! seed whenever enough shares are held.

use vstd::prelude::*;

use crate::hex_text::{decode_hex, encode_hex, hex_decode_result, hex_encoded, lemma_hex_round_trip};
use crate::recovery::{decode_mnemonic, mnemonic_entropy, recover_secret, shamir_recovered};
use crate::share_store::{
    add_outcome, entries_after_add, indexes_of, materials_of, AddResult, ShareStore,
};

verus! {

/// How many shares a default coordinator accepts.
pub const DEFAULT_CAPACITY: usize = 3;

/// How many shares a default coordinator needs before it recovers the seed.
pub const DEFAULT_THRESHOLD: usize = 2;

/// A submission that could not be handled.
#[derive(Clone, Copy, Debug, PartialEq, Eq, Structural)]
pub enum CoordinatorError {
    /// The share text is not hex, or the phrase is not a valid mnemonic; the
    /// stored shares are untouched.
    InvalidInput,
    /// The recovery primitive rejected the stored shares; the new share stays
    /// stored and nothing is persisted.
    ReconstructionFailure,
    /// The recovered seed could not be written.
    StorageUnavailable,
}

/// What became of a share that was accepted for handling.
#[derive(Debug, PartialEq, Eq)]
pub enum Submission {
    /// The coordinator already holds as many shares as it ever accepts.
    Full,
    /// A stored share already has this material or this index.
    Duplicate,
    /// The share was stored; too few shares are held to recover the seed.
    Added,
    /// The share was stored and the seed was recovered from all stored
    /// shares; `seed_hex` is the seed as lower-case hex, ready to persist.
    Recovered { seed_hex: String },
}

/// What the persistence layer did with a recovered seed.
#[derive(Clone, Copy, Debug, PartialEq, Eq, Structural)]
pub enum SeedWrite {
    /// The seed file was created and written.
    Written,
    /// A seed file already existed and was left as it was.
    AlreadyPresent,
}

/// The seed that the recovery primitive yields for `entries`: their indexes
/// and materials, in order of acceptance.
pub open spec fn recovered_seed(entries: Seq<(Seq<u8>, u32)>) -> Option<Seq<u8>> {
    shamir_recovered(
        indexes_of(entries).map_values(|i: u32| i as usize),
        materials_of(entries),
    )
}

/// The reply owed for offering `(m, i)` to shares `entries` under the given
/// capacity and threshold: refusals first, then `Added` below the threshold,
/// then the recovered seed (as hex) or a reconstruction failure.
pub open spec fn add_reply_matches(
    r: Result<Submission, CoordinatorError>,
    entries: Seq<(Seq<u8>, u32)>,
    cap: nat,
    threshold: nat,
    m: Seq<u8>,
    i: u32,
) -> bool {
    let out = add_outcome(entries, cap, m, i);
    let after = entries_after_add(entries, cap, m, i);
    match r {
        Ok(Submission::Full) => out == AddResult::Full,
        Ok(Submission::Duplicate) => out == AddResult::Duplicate,
        Ok(Submission::Added) => out == AddResult::Added && after.len() < threshold,
        Ok(Submission::Recovered { seed_hex }) => {
            &&& out == AddResult::Added
            &&& after.len() >= threshold
            &&& recovered_seed(after) is Some
            &&& seed_hex@ == hex_encoded(recovered_seed(after)->0)
        },
        Err(CoordinatorError::ReconstructionFailure) => {
            &&& out == AddResult::Added
            &&& after.len() >= threshold
            &&& recovered_seed(after) is None
        },
        Err(_) => false,
    }
}

impl Submission {
    /// The status text for this outcome; `write` says what became of the
    /// recovered seed and counts only for `Recovered`.
    pub open spec fn message_spec(&self, write: SeedWrite) -> Seq<char> {
        match self {
            Submission::Full => "Enough key shares have already been added."@,
            Submission::Duplicate => "Key already exists."@,
            Submission::Added => "Key added successfully"@,
            Submission::Recovered { .. } => "Key added successfully"@ + " and secret recovered."@
                + match write {
                SeedWrite::Written => " Seed written to file."@,
                SeedWrite::AlreadyPresent => " Seed file already exists."@,
            },
        }
    }

    /// The human-readable status for this outcome.
    pub fn message(&self, write: SeedWrite) -> (r: String)
        ensures
            r@ == self.message_spec(write),
    {
        match self {
            Submission::Full => String::from_str("Enough key shares have already been added."),
            Submission::Duplicate => String::from_str("Key already exists."),
            Submission::Added => String::from_str("Key added successfully"),
            Submission::Recovered { .. } => {
                let mut r = String::from_str("Key added successfully");
                r.append(" and secret recovered.");
                match write {
                    SeedWrite::Written => r.append(" Seed written to file."),
                    SeedWrite::AlreadyPresent => r.append(" Seed file already exists."),
                }
                r
            },
        }
    }
}

/// The coordinator's state: the accepted shares and the recovery threshold.
pub struct MyCoordinator {
    store: ShareStore,
    threshold: usize,
}

impl MyCoordinator {
    /// The accepted shares as (material, index) pairs, in order of acceptance.
    pub closed spec fn entries(&self) -> Seq<(Seq<u8>, u32)> {
        self.store.entries()
    }

    /// The most shares this coordinator ever accepts.
    pub closed spec fn capacity_spec(&self) -> nat {
        self.store.capacity_spec()
    }

    /// How many shares are needed before recovery is attempted.
    pub closed spec fn threshold_spec(&self) -> nat {
        self.threshold as nat
    }

    /// The coordinator's invariant: the store's, and a threshold no larger
    /// than the capacity.
    pub closed spec fn wf(&self) -> bool {
        &&& self.store.wf()
        &&& self.threshold <= self.store.capacity_spec()
    }

    /// A coordinator with no shares, accepting at most `capacity` of them
    /// and recovering once `threshold` are held.
    pub fn new(capacity: usize, threshold: usize) -> (r: MyCoordinator)
        requires
            threshold <= capacity,
        ensures
            r.wf(),
            r.entries() == Seq::<(Seq<u8>, u32)>::empty(),
            r.capacity_spec() == capacity,
            r.threshold_spec() == threshold,
    {
        MyCoordinator { store: ShareStore::new(capacity), threshold }
    }

    /// The most shares this coordinator ever accepts.
    pub fn capacity(&self) -> (r: usize)
        ensures
            r == self.capacity_spec(),
    {
        self.store.capacity()
    }

    /// How many shares are needed before recovery is attempted.
    pub fn threshold(&self) -> (r: usize)
        ensures
            r == self.threshold_spec(),
    {
        self.threshold
    }

    /// Offers a share given as raw material. A new share is stored; once at
    /// least the threshold of shares is held, the seed is recovered from all
    /// of them, on this and on every later accepted share.
    pub fn add_share(&mut self, material: Vec<u8>, index: u32) -> (r: Result<
        Submission,
        CoordinatorError,
    >)
        requires
            old(self).wf(),
        ensures
            final(self).wf(),
            final(self).capacity_spec() == old(self).capacity_spec(),
            final(self).threshold_spec() == old(self).threshold_spec(),
            final(self).entries() == entries_after_add(
                old(self).entries(),
                old(self).capacity_spec(),
                material@,
                index,
            ),
            add_reply_matches(
                r,
                old(self).entries(),
                old(self).capacity_spec(),
                old(self).threshold_spec(),
                material@,
                index,
            ),
    {
        match self.store.try_add(material, index) {
            AddResult::Full => Ok(Submission::Full),
            AddResult::Duplicate => Ok(Submission::Duplicate),
            AddResult::Added => {
                if self.store.len() < self.threshold {
                    return Ok(Submission::Added);
                }
                let indexes = self.store.indexes();
                let shares = self.store.snapshot();
                match recover_secret(&indexes, &shares) {
                    Some(secret) => {
                        let seed_hex = encode_hex(secret.as_slice());
                        Ok(Submission::Recovered { seed_hex })
                    },
                    None => Err(CoordinatorError::ReconstructionFailure),
                }
            },
        }
    }

    /// Offers a share given as hex text; text that is not hex is refused as
    /// `InvalidInput` and changes nothing.
    pub fn add_key(&mut self, key_hex: &str, index: u32) -> (r: Result<
        Submission,
        CoordinatorError,
    >)
        requires
            old(self).wf(),
        ensures
            final(self).wf(),
            final(self).capacity_spec() == old(self).capacity_spec(),
            final(self).threshold_spec() == old(self).threshold_spec(),
            match hex_decode_result(key_hex@) {
                None => {
                    &&& r == Err::<Submission, CoordinatorError>(CoordinatorError::InvalidInput)
                    &&& final(self).entries() == old(self).entries()
                },
                Some(m) => {
                    &&& final(self).entries() == entries_after_add(
                        old(self).entries(),
                        old(self).capacity_spec(),
                        m,
                        index,
                    )
                    &&& add_reply_matches(
                        r,
                        old(self).entries(),
                        old(self).capacity_spec(),
                        old(self).threshold_spec(),
                        m,
                        index,
                    )
                },
            },
    {
        match decode_hex(key_hex) {
            Some(material) => self.add_share(material, index),
            None => Err(CoordinatorError::InvalidInput),
        }
    }

    /// Offers a share given as a mnemonic phrase: its entropy, written as hex,
    /// takes the path of `add_key`, so the entropy is the share material. A
    /// phrase that is not a valid mnemonic is refused as
    /// `InvalidInput` and changes nothing.
    pub fn add_mnemonic(&mut self, phrase: &str, index: u32) -> (r: Result<
        Submission,
        CoordinatorError,
    >)
        requires
            old(self).wf(),
        ensures
            final(self).wf(),
            final(self).capacity_spec() == old(self).capacity_spec(),
            final(self).threshold_spec() == old(self).threshold_spec(),
            match mnemonic_entropy(phrase@) {
                None => {
                    &&& r == Err::<Submission, CoordinatorError>(CoordinatorError::InvalidInput)
                    &&& final(self).entries() == old(self).entries()
                },
                Some(m) => {
                    &&& final(self).entries() == entries_after_add(
                        old(self).entries(),
                        old(self).capacity_spec(),
                        m,
                        index,
                    )
                    &&& add_reply_matches(
                        r,
                        old(self).entries(),
                        old(self).capacity_spec(),
                        old(self).threshold_spec(),
                        m,
                        index,
                    )
                },
            },
    {
        match decode_mnemonic(phrase) {
            Some(entropy) => {
                let key_hex = encode_hex(entropy.as_slice());
                proof {
                    lemma_hex_round_trip(entropy@);
                }
                self.add_key(key_hex.as_str(), index)
            },
            None => Err(CoordinatorError::InvalidInput),
        }
    }

    /// The materials of the accepted shares, in order of acceptance.
    pub fn list_shares(&self) -> (r: Vec<Vec<u8>>)
        ensures
            r@.map_values(|v: Vec<u8>| v@) == materials_of(self.entries()),
    {
        self.store.snapshot()
    }

    /// The materials of the accepted shares as lower-case hex, in order of
    /// acceptance.
    pub fn list_keys(&self) -> (r: Vec<String>)
        ensures
            r@.map_values(|s: String| s@) == materials_of(self.entries()).map_values(
                |m: Seq<u8>| hex_encoded(m),
            ),
    {
        let shares = self.store.snapshot();
        let ghost want = materials_of(self.entries()).map_values(|m: Seq<u8>| hex_encoded(m));
        let mut r: Vec<String> = Vec::new();
        let mut j: usize = 0;
        while j < shares.len()
            invariant
                0 <= j <= shares.len(),
                shares@.map_values(|v: Vec<u8>| v@) == materials_of(self.entries()),
                want == materials_of(self.entries()).map_values(|m: Seq<u8>| hex_encoded(m)),
                r@.map_values(|s: String| s@) == want.take(j as int),
            decreases shares.len() - j,
        {
            let text = encode_hex(shares[j].as_slice());
            let ghost before = r@;
            r.push(text);
            assert(r@.map_values(|s: String| s@) =~= before.map_values(|s: String| s@).push(text@));
            assert(shares@.map_values(|v: Vec<u8>| v@)[j as int] == shares@[j as int]@);
            assert(want.take(j as int + 1) =~= want.take(j as int).push(text@));
            j += 1;
        }
        assert(want.take(j as int) =~= want);
        r
    }
}

impl Default for MyCoordinator {
    /// A coordinator with no shares, accepting at most three and recovering
    /// once two are held.
    fn default() -> (r: MyCoordinator)
        ensures
            r.wf(),
            r.entries() == Seq::<(Seq<u8>, u32)>::empty(),
            r.capacity_spec() == DEFAULT_CAPACITY,
            r.threshold_spec() == DEFAULT_THRESHOLD,
    {
        MyCoordinator::new(DEFAULT_CAPACITY, DEFAULT_THRESHOLD)
    }
}

} // verus!
