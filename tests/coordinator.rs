use key_share::coordinator::{CoordinatorError, MyCoordinator, SeedWrite, Submission};

const SECRET: &[u8] = b"my secret belongs to me.";

fn split(threshold: usize, count: usize) -> Vec<Vec<u8>> {
    let mut rng = bc_rand::SecureRandomNumberGenerator;
    bc_shamir::split_secret(threshold, count, SECRET, &mut rng).unwrap()
}

fn recovered_hex(r: Result<Submission, CoordinatorError>) -> String {
    match r {
        Ok(Submission::Recovered { seed_hex }) => seed_hex,
        other => panic!("expected a recovered seed, got {:?}", other),
    }
}

#[test]
fn same_hex_twice_is_duplicate() {
    let mut c = MyCoordinator::new(3, 2);
    assert_eq!(c.add_key("00112233445566778899aabbccddeeff", 1), Ok(Submission::Added));
    assert_eq!(c.add_key("00112233445566778899aabbccddeeff", 1), Ok(Submission::Duplicate));
    assert_eq!(c.list_shares().len(), 1);
}

#[test]
fn same_material_in_other_case_is_duplicate() {
    let mut c = MyCoordinator::new(3, 2);
    assert_eq!(c.add_key("abcdef", 1), Ok(Submission::Added));
    assert_eq!(c.add_key("ABCDEF", 2), Ok(Submission::Duplicate));
    assert_eq!(c.list_shares(), vec![vec![0xab, 0xcd, 0xef]]);
}

#[test]
fn reused_index_is_duplicate() {
    let mut c = MyCoordinator::new(3, 2);
    assert_eq!(c.add_key("0102", 7), Ok(Submission::Added));
    assert_eq!(c.add_key("0304", 7), Ok(Submission::Duplicate));
    assert_eq!(c.list_shares(), vec![vec![1, 2]]);
}

#[test]
fn full_after_capacity_adds() {
    let mut c = MyCoordinator::new(3, 3);
    assert_eq!(c.add_key("01", 1), Ok(Submission::Added));
    assert_eq!(c.add_key("02", 2), Ok(Submission::Added));
    assert_eq!(c.add_key("03", 3), Err(CoordinatorError::ReconstructionFailure));
    assert_eq!(c.add_key("04", 4), Ok(Submission::Full));
    assert_eq!(c.add_key("01", 1), Ok(Submission::Full));
    assert_eq!(c.list_shares().len(), 3);
}

#[test]
fn full_with_capacity_zero() {
    let mut c = MyCoordinator::new(0, 0);
    assert_eq!(c.add_key("01", 1), Ok(Submission::Full));
    assert!(c.list_shares().is_empty());
}

#[test]
fn recovers_secret_from_any_two_shares() {
    let shares = split(2, 3);
    let expected = hex::encode(SECRET);
    for (a, b) in [(0usize, 1usize), (1, 0), (0, 2), (2, 1)] {
        let mut c = MyCoordinator::new(3, 2);
        assert_eq!(c.add_share(shares[a].clone(), a as u32), Ok(Submission::Added));
        let got = recovered_hex(c.add_share(shares[b].clone(), b as u32));
        assert_eq!(got, expected);
    }
}

#[test]
fn recovers_secret_from_three_of_five() {
    let shares = split(3, 5);
    let mut c = MyCoordinator::new(5, 3);
    assert_eq!(c.add_key(&hex::encode(&shares[4]), 4), Ok(Submission::Added));
    assert_eq!(c.add_key(&hex::encode(&shares[0]), 0), Ok(Submission::Added));
    let got = recovered_hex(c.add_key(&hex::encode(&shares[2]), 2));
    assert_eq!(got, hex::encode(SECRET));
}

#[test]
fn threshold_one_recovers_the_share_itself() {
    let mut c = MyCoordinator::new(1, 1);
    let share = "000102030405060708090a0b0c0d0e0f";
    let got = recovered_hex(c.add_key(share, 0));
    assert_eq!(got, share);
}

#[test]
fn inconsistent_shares_fail_and_stay_stored() {
    let mut c = MyCoordinator::new(3, 2);
    assert_eq!(c.add_key("0a0b", 1), Ok(Submission::Added));
    assert_eq!(c.add_key("0c0d", 2), Err(CoordinatorError::ReconstructionFailure));
    assert_eq!(c.list_shares(), vec![vec![0x0a, 0x0b], vec![0x0c, 0x0d]]);
}

#[test]
fn listing_is_empty_then_in_submission_order() {
    let mut c = MyCoordinator::new(3, 3);
    assert!(c.list_shares().is_empty());
    assert!(c.list_keys().is_empty());
    assert_eq!(c.add_key("FF00", 5), Ok(Submission::Added));
    assert_eq!(c.add_key("0a", 2), Ok(Submission::Added));
    assert_eq!(c.list_shares(), vec![vec![0xff, 0x00], vec![0x0a]]);
    assert_eq!(c.list_keys(), vec!["ff00".to_string(), "0a".to_string()]);
}

#[test]
fn concrete_scenario_threshold_two_capacity_three() {
    let shares = split(2, 4);
    let mut c = MyCoordinator::default();
    assert_eq!(c.capacity(), 3);
    assert_eq!(c.threshold(), 2);

    let first = c.add_key(&hex::encode(&shares[1]), 1).unwrap();
    assert_eq!(first, Submission::Added);
    assert_eq!(first.message(SeedWrite::Written), "Key added successfully");

    let second = c.add_key(&hex::encode(&shares[2]), 2).unwrap();
    assert_eq!(second, Submission::Recovered { seed_hex: hex::encode(SECRET) });
    assert_eq!(
        second.message(SeedWrite::Written),
        "Key added successfully and secret recovered. Seed written to file."
    );

    let third = c.add_key(&hex::encode(&shares[3]), 3).unwrap();
    assert_eq!(third, Submission::Recovered { seed_hex: hex::encode(SECRET) });
    assert_eq!(
        third.message(SeedWrite::AlreadyPresent),
        "Key added successfully and secret recovered. Seed file already exists."
    );

    let fourth = c.add_key(&hex::encode(&shares[0]), 0).unwrap();
    assert_eq!(fourth, Submission::Full);
    assert_eq!(fourth.message(SeedWrite::Written), "Enough key shares have already been added.");
}

#[test]
fn duplicate_message() {
    assert_eq!(Submission::Duplicate.message(SeedWrite::AlreadyPresent), "Key already exists.");
}

#[test]
fn non_hex_is_invalid_input() {
    let mut c = MyCoordinator::new(3, 2);
    assert_eq!(c.add_key("0102", 1), Ok(Submission::Added));
    assert_eq!(c.add_key("zz", 2), Err(CoordinatorError::InvalidInput));
    assert_eq!(c.add_key("012", 2), Err(CoordinatorError::InvalidInput));
    assert_eq!(c.add_key("01 2", 2), Err(CoordinatorError::InvalidInput));
    assert_eq!(c.list_shares(), vec![vec![1, 2]]);
}

#[test]
fn invalid_mnemonic_is_invalid_input() {
    let mut c = MyCoordinator::new(3, 2);
    assert_eq!(c.add_mnemonic("not a mnemonic phrase at all", 1), Err(CoordinatorError::InvalidInput));
    assert!(c.list_shares().is_empty());
}

#[test]
fn mnemonic_entropy_becomes_the_share() {
    let mut c = MyCoordinator::new(3, 2);
    let phrase = "abandon abandon abandon abandon abandon abandon abandon abandon abandon abandon abandon about";
    assert_eq!(c.add_mnemonic(phrase, 1), Ok(Submission::Added));
    assert_eq!(c.list_keys(), vec!["00000000000000000000000000000000".to_string()]);
    assert_eq!(c.add_key("00000000000000000000000000000000", 2), Ok(Submission::Duplicate));
}

#[test]
fn mnemonic_shares_recover_the_secret() {
    let secret = [7u8; 16];
    let mut rng = bc_rand::SecureRandomNumberGenerator;
    let shares = bc_shamir::split_secret(2, 3, &secret, &mut rng).unwrap();
    let mut c = MyCoordinator::new(3, 2);
    let p0 = bip39::Mnemonic::from_entropy(&shares[0]).unwrap().to_string();
    let p2 = bip39::Mnemonic::from_entropy(&shares[2]).unwrap().to_string();
    assert_eq!(c.add_mnemonic(&p0, 0), Ok(Submission::Added));
    assert_eq!(recovered_hex(c.add_mnemonic(&p2, 2)), hex::encode(secret));
}
