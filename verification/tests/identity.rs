use p2p_swarm::identity::{
    load_or_create, stored, IdentityError, KeyFile, Keypair, PeerIdentity, KEYPAIR_LENGTH,
    PUBLIC_KEY_LENGTH,
};

#[test]
fn missing_store_creates_a_keypair_to_be_stored() {
    let loaded = load_or_create(KeyFile::Missing).expect("a new identity");
    assert!(loaded.created);
    assert_eq!(loaded.keypair.encode().len(), KEYPAIR_LENGTH);
}

#[test]
fn stored_keypair_round_trips() {
    let first = load_or_create(KeyFile::Missing).expect("a new identity");
    let stored = first.keypair.encode();
    let second = load_or_create(KeyFile::Contents(stored.clone())).expect("the stored identity");
    assert!(!second.created);
    assert_eq!(second.keypair.encode(), stored);
    assert_eq!(second.keypair.peer_identity(), first.keypair.peer_identity());
    assert!(second.keypair.peer_identity().same(&first.keypair.peer_identity()));
}

#[test]
fn two_new_keypairs_differ() {
    let a = load_or_create(KeyFile::Missing).unwrap();
    let b = load_or_create(KeyFile::Missing).unwrap();
    assert_ne!(a.keypair.encode(), b.keypair.encode());
    assert!(!a.keypair.peer_identity().same(&b.keypair.peer_identity()));
}

#[test]
fn wrong_length_is_corrupt() {
    assert_eq!(Keypair::decode(vec![0u8; 63]).err(), Some(IdentityError::Corrupt));
    assert_eq!(Keypair::decode(vec![0u8; 65]).err(), Some(IdentityError::Corrupt));
    assert_eq!(Keypair::decode(Vec::new()).err(), Some(IdentityError::Corrupt));
    let r = load_or_create(KeyFile::Contents(vec![1u8; 10]));
    assert_eq!(r.err(), Some(IdentityError::Corrupt));
}

#[test]
fn mismatched_halves_are_corrupt() {
    let good = load_or_create(KeyFile::Missing).unwrap().keypair.encode();
    let mut bad = good.clone();
    bad[0] ^= 1;
    assert_eq!(Keypair::decode(bad).err(), Some(IdentityError::Corrupt));
    assert!(Keypair::decode(good).is_ok());
}

#[test]
fn unreadable_store_is_an_io_failure() {
    assert_eq!(load_or_create(KeyFile::Unreadable).err(), Some(IdentityError::IOFailure));
}

#[test]
fn known_keypair_has_its_known_identity() {
    let secret = [7u8; 32];
    let pair = libp2p::identity::Keypair::ed25519_from_bytes(secret).expect("32 bytes");
    let expected = pair.public().to_peer_id().to_bytes();
    let encoded = pair.try_into_ed25519().expect("an Ed25519 pair").to_bytes().to_vec();
    let keypair = Keypair::decode(encoded.clone()).expect("a valid encoding");
    assert_eq!(keypair.peer_identity().to_bytes(), expected);
    assert_eq!(keypair.public_key(), encoded[32..].to_vec());
    assert_eq!(keypair.public_key().len(), PUBLIC_KEY_LENGTH);
    assert_ne!(keypair.public_key(), keypair.peer_identity().to_bytes());
    assert_ne!(keypair.peer_identity().to_bytes(), encoded);
    assert_eq!(expected.len(), 38);
}

#[test]
fn peer_identity_is_its_bytes() {
    let a = PeerIdentity::from_bytes(vec![1, 2, 3]);
    let b = PeerIdentity::from_bytes(vec![1, 2, 3]);
    let c = PeerIdentity::from_bytes(vec![1, 2]);
    assert!(a.same(&b));
    assert!(!a.same(&c));
    assert_eq!(a.to_bytes(), vec![1u8, 2, 3]);
    assert!(a.clone().same(&a));
}

#[test]
fn new_keypair_counts_only_once_it_is_stored() {
    let kept = stored(load_or_create(KeyFile::Missing), true).expect("a stored identity");
    assert!(kept.created);
    assert_eq!(
        stored(load_or_create(KeyFile::Missing), false).err(),
        Some(IdentityError::IOFailure)
    );
    // a loaded keypair needs no storing
    let again = stored(load_or_create(KeyFile::Contents(kept.keypair.encode())), false)
        .expect("the stored identity");
    assert!(!again.created);
    assert_eq!(again.keypair.encode(), kept.keypair.encode());
    // an error stays what it was
    assert_eq!(stored(load_or_create(KeyFile::Unreadable), true).err(), Some(IdentityError::IOFailure));
    assert_eq!(
        stored(load_or_create(KeyFile::Contents(vec![1, 2, 3])), false).err(),
        Some(IdentityError::Corrupt)
    );
}

#[test]
fn missing_store_always_yields_a_keypair() {
    for _ in 0..20 {
        assert!(load_or_create(KeyFile::Missing).is_ok());
    }
}
