use commonware_codec::ReadExt;
use commonware_cryptography::ed25519;

use kora::devnet::{
    devnet_genesis, devnet_layout, node_dir_name, node_hostname, participant_keys, trusted_deal, DealError,
};

fn unhex32(s: &str) -> [u8; 32] {
    let v = hex::decode(s).unwrap();
    let mut out = [0u8; 32];
    out.copy_from_slice(&v);
    out
}

// RFC 8032 test vectors 1 to 3: secret seed and public key.
const SEED1: &str = "9d61b19deffd5a60ba844af492ec2cc44449c5697b326919703bac031cae7f60";
const PUB1: &str = "d75a980182b10ab7d54bfed3c964073a0ee172f3daa62325af021a68f707511a";
const SEED2: &str = "4ccd089b28ff96da9db6c346ec114e0f5b8a319f35aba624da8cf6ed4fb8a6fb";
const PUB2: &str = "3d4017c3e843895a92b70aa74d1b7ebc9c982ccf2ec4968cc0cd55f12af4660c";
const SEED3: &str = "c5aa8df43f9f837bedb7442f31dcb7b166d38535076f094b85ce3a2e0b4458f7";
const PUB3: &str = "fc51cd8e6218a1a38da47ed00230f0580816ed13ba3303ac5deb911548908025";

fn is_ed25519_key(bytes: &[u8; 32]) -> bool {
    let mut input = commonware_codec::Copying(bytes.as_slice());
    ed25519::PublicKey::read(&mut input).is_ok()
}

#[test]
fn node_names_and_hosts() {
    assert_eq!(node_dir_name(0), "node0");
    assert_eq!(node_dir_name(12), "node12");
    assert_eq!(node_hostname(2, 30303), "node2:30303");
    assert_eq!(node_hostname(0, 0), "node0:0");
}

#[test]
fn layout_derives_keys_from_seeds() {
    let seeds = vec![unhex32(SEED1), unhex32(SEED2), unhex32(SEED3)];
    let layout = devnet_layout(&seeds, 2, 30303);
    assert_eq!(layout.peers.validators, 3);
    assert_eq!(layout.peers.threshold, 2);
    assert_eq!(layout.peers.participants, vec![PUB1.to_string(), PUB2.to_string(), PUB3.to_string()]);
    assert_eq!(layout.nodes.len(), 3);
    for (i, node) in layout.nodes.iter().enumerate() {
        assert_eq!(node.validator_index, i);
        assert_eq!(node.port, 30303);
        assert_eq!(node.public_key, layout.peers.participants[i]);
    }
}

#[test]
fn layout_bootstrappers_are_ordered_by_key() {
    let seeds = vec![unhex32(SEED1), unhex32(SEED2), unhex32(SEED3)];
    let layout = devnet_layout(&seeds, 3, 4000);
    assert_eq!(
        layout.peers.bootstrappers,
        vec![
            (PUB2.to_string(), "node1:4000".to_string()),
            (PUB1.to_string(), "node0:4000".to_string()),
            (PUB3.to_string(), "node2:4000".to_string()),
        ]
    );
}

#[test]
fn layout_of_repeated_seed_keeps_last_address() {
    let seeds = vec![unhex32(SEED1), unhex32(SEED1)];
    let layout = devnet_layout(&seeds, 1, 9000);
    assert_eq!(layout.peers.participants, vec![PUB1.to_string(), PUB1.to_string()]);
    assert_eq!(layout.peers.bootstrappers, vec![(PUB1.to_string(), "node1:9000".to_string())]);
}

#[test]
fn empty_layout() {
    let layout = devnet_layout(&Vec::new(), 0, 1);
    assert_eq!(layout.peers.validators, 0);
    assert!(layout.nodes.is_empty());
    assert!(layout.peers.bootstrappers.is_empty());
}

#[test]
fn genesis_funds_one_account() {
    let g = devnet_genesis(1337, 1700000000);
    assert_eq!(g.chain_id, 1337);
    assert_eq!(g.timestamp, 1700000000);
    assert_eq!(g.allocations.len(), 1);
    assert_eq!(g.allocations[0].address, "0x0000000000000000000000000000000000000001");
    assert_eq!(g.allocations[0].balance, "1000000000000000000000000");
}

#[test]
fn participant_keys_read_in_order() {
    let hexes = vec![PUB1.to_string(), PUB2.to_string().to_uppercase()];
    let keys = participant_keys(&hexes).unwrap();
    assert_eq!(keys, vec![unhex32(PUB1), unhex32(PUB2)]);
}

#[test]
fn participant_key_reads_first_32_bytes() {
    let hexes = vec![format!("{PUB3}00ff")];
    assert_eq!(participant_keys(&hexes).unwrap(), vec![unhex32(PUB3)]);
}

#[test]
fn participant_key_not_hex() {
    let hexes = vec![PUB1.to_string(), "zz".to_string(), "12".to_string()];
    match participant_keys(&hexes) {
        Err(DealError::InvalidHex { node, message }) => {
            assert_eq!(node, 1);
            assert!(!message.is_empty());
        }
        other => panic!("unexpected {other:?}"),
    }
}

#[test]
fn participant_key_too_short() {
    let hexes = vec![PUB1.to_string(), "abcd".to_string()];
    assert_eq!(participant_keys(&hexes), Err(DealError::InvalidPublicKey { node: 1 }));
}

#[test]
fn participant_key_not_a_point() {
    let bad = (0u8..=255)
        .map(|b| {
            let mut k = [0u8; 32];
            k[0] = b;
            k[1] = 7;
            k
        })
        .find(|k| !is_ed25519_key(k))
        .expect("some small encoding is not a curve point");
    let hexes = vec![hex::encode(bad), "zz".to_string()];
    assert_eq!(participant_keys(&hexes), Err(DealError::InvalidPublicKey { node: 0 }));
    assert_eq!(DealError::InvalidPublicKey { node: 0 }.message(), "Failed to decode public key");
}

#[test]
fn participant_keys_duplicate() {
    let hexes = vec![PUB1.to_string(), PUB2.to_string(), PUB1.to_string()];
    assert_eq!(participant_keys(&hexes), Err(DealError::DuplicateParticipants));
    assert_eq!(DealError::DuplicateParticipants.message(), "Duplicate participants");
}

#[test]
fn deal_without_participants() {
    assert!(matches!(trusted_deal(&Vec::new(), 3), Err(DealError::NoParticipants)));
    assert_eq!(DealError::NoParticipants.message(), "DKG deal failed: NumPlayers(0)");
}

#[test]
fn deal_rejects_duplicates_before_dealing() {
    let hexes = vec![PUB2.to_string(), PUB2.to_string()];
    assert!(matches!(trusted_deal(&hexes, 1), Err(DealError::DuplicateParticipants)));
}

#[test]
fn deal_gives_each_validator_the_same_public_output() {
    let hexes = vec![PUB1.to_string(), PUB2.to_string(), PUB3.to_string()];
    let records = trusted_deal(&hexes, 3).unwrap();
    assert_eq!(records.len(), 3);
    let (first, _) = &records[0];
    assert!(hex::decode(&first.group_public_key).is_ok());
    assert!(!first.group_public_key.is_empty());
    assert!(!first.public_polynomial.is_empty());
    let mut secrets = Vec::new();
    for (i, (output, share)) in records.iter().enumerate() {
        assert_eq!(output.group_public_key, first.group_public_key);
        assert_eq!(output.public_polynomial, first.public_polynomial);
        assert_eq!(output.threshold, 3);
        assert_eq!(output.participants, 3);
        assert_eq!(output.participant_keys, hexes);
        assert_eq!(share.index, i as u32);
        assert!(hex::decode(&share.secret).is_ok());
        secrets.push(share.secret.clone());
    }
    secrets.sort();
    secrets.dedup();
    assert_eq!(secrets.len(), 3);
}
