use simpiwallet::error::Error;
use simpiwallet::keys::{DescriptorSecretKey, UnspendableKey, Wildcard, XOnlyPublicKey};

fn secp() -> bitcoin::secp256k1::Secp256k1<bitcoin::secp256k1::All> {
    bitcoin::secp256k1::Secp256k1::new()
}

fn parent_xpub(seed: &[u8]) -> bitcoin::bip32::Xpub {
    let secp = secp();
    let master = bitcoin::bip32::Xpriv::new_master(bitcoin::NetworkKind::Test, seed).expect("const");
    let path: Vec<bitcoin::bip32::ChildNumber> = vec![
        bitcoin::bip32::ChildNumber::from_hardened_idx(84).unwrap(),
        bitcoin::bip32::ChildNumber::from_hardened_idx(0).unwrap(),
        bitcoin::bip32::ChildNumber::from_hardened_idx(0).unwrap(),
    ];
    let prefix = master.derive_priv(&secp, &path).expect("const");
    bitcoin::bip32::Xpub::from_priv(&secp, &prefix)
}

#[test]
fn descriptor_secret_key_at_derivation_index() {
    let seed: Vec<u8> = vec![0u8; 32];
    let parent_xpriv = DescriptorSecretKey::from_seed(&seed).expect("const");
    let parent_xpub = parent_xpub(&[0u8; 32]);
    let secp = secp();

    for index in 0..10 {
        let private_key = parent_xpriv
            .clone()
            .at_derivation_index(index)
            .expect("valid child index")
            .to_private_key()
            .expect("derivation succeeds");
        let sk = bitcoin::secp256k1::SecretKey::from_slice(&private_key).unwrap();
        let public_key_from_private_key = sk.public_key(&secp);
        let public_key = parent_xpub
            .derive_pub(
                &secp,
                &[bitcoin::bip32::ChildNumber::from_normal_idx(index).unwrap()],
            )
            .expect("valid child index")
            .public_key;
        assert_eq!(public_key_from_private_key, public_key);
    }
}

#[test]
fn hardened_wildcard_private_derivation_works_but_public_fails() {
    let seed: Vec<u8> = vec![7u8; 32];
    let base = DescriptorSecretKey::from_seed(&seed).expect("const");
    let hardened = DescriptorSecretKey {
        seed: base.seed.clone(),
        path: base.path.clone(),
        wildcard: Wildcard::Hardened,
    };

    // Private derivation in hardened mode succeeds.
    let sk_bytes = hardened
        .clone()
        .at_derivation_index(3)
        .expect("valid child index")
        .to_private_key()
        .expect("derivation succeeds");
    assert_eq!(sk_bytes.len(), 32);

    // Public-only derivation of a hardened child must fail.
    let xpub = parent_xpub(&[7u8; 32]);
    let secp = secp();
    let res = xpub.derive_pub(
        &secp,
        &[bitcoin::bip32::ChildNumber::from_hardened_idx(3).unwrap()],
    );
    assert!(res.is_err());
}

#[test]
fn at_derivation_index_rejects_hardened_boundary() {
    let seed: Vec<u8> = vec![1u8; 32];
    let key = DescriptorSecretKey::from_seed(&seed).expect("const");
    let res = key.at_derivation_index(0x8000_0000);
    assert!(matches!(res, Err(Error::InvalidChildIndex(i)) if i == 0x8000_0000));
}

#[test]
fn fixed_wildcard_ignores_index() {
    let seed: Vec<u8> = vec![2u8; 32];
    let base = DescriptorSecretKey::from_seed(&seed).expect("const");
    let fixed = DescriptorSecretKey {
        seed: base.seed.clone(),
        path: base.path.clone(),
        wildcard: Wildcard::Fixed,
    };
    let a = fixed
        .clone()
        .at_derivation_index(1)
        .unwrap()
        .to_private_key()
        .unwrap();
    let b = fixed
        .clone()
        .at_derivation_index(9)
        .unwrap()
        .to_private_key()
        .unwrap();
    assert_eq!(a, b);
}

#[test]
fn unspendable_key_is_the_fixed_point() {
    let x = XOnlyPublicKey::unspendable();
    assert_eq!(x.bytes.len(), 32);
    assert_eq!(x.bytes[0], 0x50);
    assert_eq!(x.bytes[31], 0xc0);
    // The constant parses as a real x-only public key.
    assert!(bitcoin::secp256k1::XOnlyPublicKey::from_slice(&x.bytes).is_ok());
    let full = simpiwallet::keys::PublicKey::unspendable();
    assert_eq!(full.bytes.len(), 33);
    assert_eq!(full.bytes[0], 2);
    assert_eq!(&full.bytes[1..], &x.bytes[..]);
}

#[test]
fn random_root_key_has_expected_shape() {
    let a = DescriptorSecretKey::random().expect("rng");
    assert_eq!(a.seed.len(), 32);
    assert_eq!(a.path, vec![0x8000_0054u32, 0x8000_0000, 0x8000_0000]);
    assert!(matches!(a.wildcard, Wildcard::Unhardened));
}
