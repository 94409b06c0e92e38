use kora::devnet::trusted_deal;
use kora::dkg::output::DkgOutput;
use kora::runner::{load_threshold_material, SchemeError};

const PUB1: &str = "d75a980182b10ab7d54bfed3c964073a0ee172f3daa62325af021a68f707511a";
const PUB2: &str = "3d4017c3e843895a92b70aa74d1b7ebc9c982ccf2ec4968cc0cd55f12af4660c";
const PUB3: &str = "fc51cd8e6218a1a38da47ed00230f0580816ed13ba3303ac5deb911548908025";

fn dealt_output(index: usize) -> DkgOutput {
    let keys = vec![PUB1.to_string(), PUB2.to_string(), PUB3.to_string()];
    let records = trusted_deal(&keys, 3).unwrap();
    let (output, share) = &records[index];
    DkgOutput::from_records(output, share).unwrap()
}

#[test]
fn material_of_a_dealt_output() {
    let output = dealt_output(1);
    let m = load_threshold_material(&output).unwrap();
    assert_eq!(m.max_participants, 3);
    let mut expected: Vec<[u8; 32]> = [PUB1, PUB2, PUB3]
        .iter()
        .map(|h| {
            let mut k = [0u8; 32];
            k.copy_from_slice(&hex::decode(h).unwrap());
            k
        })
        .collect();
    expected.sort();
    assert_eq!(m.participants, expected);
    assert_eq!(m.public_polynomial, output.public_polynomial);
    assert_eq!(m.share_secret, output.share_secret);
}

#[test]
fn repeated_participants_are_kept_once() {
    let mut output = dealt_output(0);
    let first = output.participant_keys[0].clone();
    output.participant_keys.push(first);
    let m = load_threshold_material(&output);
    // The polynomial was dealt for three participants; four are listed now,
    // which only raises the bound it is read with.
    let m = m.unwrap();
    assert_eq!(m.max_participants, 4);
    assert_eq!(m.participants.len(), 3);
}

#[test]
fn material_errors() {
    let mut no_keys = dealt_output(0);
    no_keys.participant_keys.clear();
    assert_eq!(load_threshold_material(&no_keys).unwrap_err(), SchemeError::NoParticipants);
    assert_eq!(SchemeError::NoParticipants.message(), "participants cannot be empty");

    let mut short_key = dealt_output(0);
    short_key.participant_keys[1] = vec![1, 2, 3];
    assert_eq!(load_threshold_material(&short_key).unwrap_err(), SchemeError::ParticipantKey(1));

    let mut bad_poly = dealt_output(0);
    bad_poly.public_polynomial = vec![0xff; 4];
    assert_eq!(load_threshold_material(&bad_poly).unwrap_err(), SchemeError::PublicPolynomial);
    assert_eq!(SchemeError::PublicPolynomial.message(), "failed to decode public polynomial");

    let mut bad_share = dealt_output(0);
    bad_share.share_secret = vec![];
    assert_eq!(load_threshold_material(&bad_share).unwrap_err(), SchemeError::Share);
    assert_eq!(SchemeError::Share.message(), "failed to decode share");
}

#[test]
fn a_share_from_another_dealing_is_refused() {
    let output = dealt_output(1);
    let mut foreign = dealt_output(1);
    // Another dealing gives another polynomial, so the share's public key
    // is not the one this polynomial gives at index 1.
    foreign.public_polynomial = output.public_polynomial.clone();
    let other = dealt_output(1);
    foreign.share_secret = other.share_secret.clone();
    assert_eq!(load_threshold_material(&foreign).unwrap_err(), SchemeError::ShareKeyMismatch);
    assert_eq!(SchemeError::ShareKeyMismatch.message(), "failed to create signer: share public key mismatch");
}

#[test]
fn every_dealt_record_loads_back_as_signing_material() {
    for index in 0..3 {
        let output = dealt_output(index);
        let m = load_threshold_material(&output).unwrap();
        assert_eq!(m.max_participants, 3);
        assert_eq!(m.share_secret, output.share_secret);
    }
}
