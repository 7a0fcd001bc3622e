use wallet_address::keys::KeyPair;
use wallet_address::wallet::WalletAddress;

fn wallet_of_one() -> WalletAddress {
    let mut secret = [0u8; 32];
    secret[31] = 1;
    WalletAddress::from_key_pair(&KeyPair::from_secret(secret).unwrap())
}

#[test]
fn the_wallet_of_secret_one() {
    let wallet = wallet_of_one();
    assert_eq!(
        wallet.private_key(),
        "0000000000000000000000000000000000000000000000000000000000000001"
    );
    assert_eq!(
        wallet.public_key(),
        "0279be667ef9dcbbac55a06295ce870b07029bfcdb2dce28d959f2815b16f81798"
    );
    assert_eq!(wallet.address(), "1BgGZ9tcN4rm9KBzDn7KprQz87SZ26SAMH");
}

#[test]
fn keys_are_written_in_lower_case_hexadecimal() {
    let secret = [
        0xab, 0xcd, 0xef, 0x01, 0x23, 0x45, 0x67, 0x89, 0x9a, 0xbc, 0xde, 0xf0, 0x0f, 0xf0, 0x10,
        0x0a, 0xa0, 0xff, 0x00, 0x7f, 0x80, 0xc3, 0x3c, 0x5a, 0xa5, 0x1b, 0xb1, 0x2d, 0xd2, 0x4e,
        0xe4, 0x99,
    ];
    let wallet = WalletAddress::from_key_pair(&KeyPair::from_secret(secret).unwrap());
    assert_eq!(
        wallet.private_key(),
        "abcdef01234567899abcdef00ff0100aa0ff007f80c33c5aa51bb12dd24ee499"
    );
    assert_eq!(wallet.public_key().len(), 66);
    assert!(wallet.public_key().chars().all(|c| "0123456789abcdef".contains(c)));
}

#[test]
fn display_writes_three_labelled_lines() {
    let text = wallet_of_one().display();
    assert_eq!(
        text,
        "Private Key: 0000000000000000000000000000000000000000000000000000000000000001\n\
         Public Key: 0279be667ef9dcbbac55a06295ce870b07029bfcdb2dce28d959f2815b16f81798\n\
         Address: 1BgGZ9tcN4rm9KBzDn7KprQz87SZ26SAMH\n"
    );
}

#[test]
fn a_new_wallet_is_consistent() {
    let wallet = WalletAddress::new().unwrap();
    assert_eq!(wallet.private_key().len(), 64);
    assert_eq!(wallet.public_key().len(), 66);
    let secret: [u8; 32] = hex::decode(wallet.private_key()).unwrap().try_into().unwrap();
    let public = hex::decode(wallet.public_key()).unwrap();
    let keys = KeyPair::from_secret(secret).unwrap();
    assert_eq!(&keys.public()[..], &public[..]);
    assert_eq!(
        WalletAddress::generate_bitcoin_address(&public),
        Ok(wallet.address().to_string())
    );
    let lines: Vec<String> = wallet.display().lines().map(|l| l.to_string()).collect();
    assert_eq!(lines.len(), 3);
    assert_eq!(lines[0], format!("Private Key: {}", wallet.private_key()));
    assert_eq!(lines[1], format!("Public Key: {}", wallet.public_key()));
    assert_eq!(lines[2], format!("Address: {}", wallet.address()));
}

#[test]
fn two_new_wallets_differ() {
    let first = WalletAddress::new().unwrap();
    let second = WalletAddress::new().unwrap();
    assert_ne!(first.private_key(), second.private_key());
    assert_ne!(first.address(), second.address());
}
