use rand::rngs::StdRng;
use rand::SeedableRng;
use wallet_address::error::WalletError;
use wallet_address::keys::KeyPair;

/// The order of the curve's group, big-endian.
const ORDER: [u8; 32] = [
    0xff, 0xff, 0xff, 0xff, 0xff, 0xff, 0xff, 0xff, 0xff, 0xff, 0xff, 0xff, 0xff, 0xff, 0xff, 0xfe,
    0xba, 0xae, 0xdc, 0xe6, 0xaf, 0x48, 0xa0, 0x3b, 0xbf, 0xd2, 0x5e, 0x8c, 0xd0, 0x36, 0x41, 0x41,
];

fn secret_one() -> [u8; 32] {
    let mut secret = [0u8; 32];
    secret[31] = 1;
    secret
}

#[test]
fn the_public_key_of_one_is_the_generator_point() {
    let keys = KeyPair::from_secret(secret_one()).unwrap();
    assert_eq!(keys.secret(), &secret_one());
    assert_eq!(
        hex::encode(keys.public()),
        "0279be667ef9dcbbac55a06295ce870b07029bfcdb2dce28d959f2815b16f81798"
    );
}

#[test]
fn the_public_key_of_two() {
    let mut secret = [0u8; 32];
    secret[31] = 2;
    let keys = KeyPair::from_secret(secret).unwrap();
    assert_eq!(
        hex::encode(keys.public()),
        "02c6047f9441ed7d6d3045406e95c07cd85c778e4b8cef3ca7abac09b95c709ee5"
    );
}

#[test]
fn the_public_key_of_the_largest_secret_mirrors_the_generator_point() {
    let mut secret = ORDER;
    secret[31] = 0x40;
    let keys = KeyPair::from_secret(secret).unwrap();
    assert_eq!(
        hex::encode(keys.public()),
        "0379be667ef9dcbbac55a06295ce870b07029bfcdb2dce28d959f2815b16f81798"
    );
}

#[test]
fn zero_is_no_secret_key() {
    assert!(KeyPair::from_secret([0u8; 32]).is_none());
}

#[test]
fn the_group_order_is_no_secret_key() {
    assert!(KeyPair::from_secret(ORDER).is_none());
    assert!(KeyPair::from_secret([0xff; 32]).is_none());
}

#[test]
fn a_generated_pair_is_matched() {
    let keys = KeyPair::generate().unwrap();
    let again = KeyPair::from_secret(*keys.secret()).unwrap();
    assert_eq!(again.public(), keys.public());
    assert!(keys.public()[0] == 0x02 || keys.public()[0] == 0x03);
}

#[test]
fn two_generated_pairs_differ() {
    let first = KeyPair::generate().unwrap();
    let second = KeyPair::generate().unwrap();
    assert_ne!(first.secret(), second.secret());
    assert_ne!(first.public(), second.public());
}

#[test]
fn failed_seeding_is_reported_as_missing_entropy() {
    let outcome = KeyPair::generate_with(Err(rand::Error::new("the source is closed")));
    assert_eq!(outcome.err(), Some(WalletError::EntropyUnavailable));
}

#[test]
fn a_fixed_seed_gives_a_fixed_pair() {
    let first = KeyPair::generate_with(Ok(StdRng::from_seed([7u8; 32]))).unwrap();
    let second = KeyPair::generate_with(Ok(StdRng::from_seed([7u8; 32]))).unwrap();
    let other = KeyPair::generate_with(Ok(StdRng::from_seed([8u8; 32]))).unwrap();
    assert_eq!(first.secret(), second.secret());
    assert_eq!(first.public(), second.public());
    assert_ne!(first.secret(), other.secret());
    let again = KeyPair::from_secret(*first.secret()).unwrap();
    assert_eq!(again.public(), first.public());
}
