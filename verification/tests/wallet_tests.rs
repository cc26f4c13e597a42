use simpiwallet::error::Error;
use simpiwallet::keys::DescriptorSecretKey;
use simpiwallet::network::Network;
use simpiwallet::outputs::CommitmentOutput;
use simpiwallet::registry::AssemblySet;
use simpiwallet::rpc::{match_unspents, Connection, Unspent};
use simpiwallet::state::State;

fn fresh_state(seed_byte: u8) -> State {
    let seed: Vec<u8> = vec![seed_byte; 32];
    let xpriv = DescriptorSecretKey::from_seed(&seed).expect("const");
    State::new(xpriv)
}

#[test]
fn keymap_lookup_agrees_with_standalone_derivation() {
    // Wallet from the all-zero seed; derive indices 0..10; a standalone
    // secret-key derivation and a keymap-based lookup must agree.
    let mut state = fresh_state(0);
    let secp = bitcoin::secp256k1::Secp256k1::new();
    let seed: Vec<u8> = vec![0u8; 32];
    let root = DescriptorSecretKey::from_seed(&seed).expect("const");

    for index in 0..10 {
        let out = state.next_child_descriptor().expect("cursor in range");
        let internal_key = match &out {
            CommitmentOutput::Keyed { internal_key } => internal_key.clone(),
            _ => panic!("child outputs are keyed"),
        };

        // Standalone derivation of the same index.
        let sk_bytes = root
            .clone()
            .at_derivation_index(index)
            .expect("valid child index")
            .to_private_key()
            .expect("derivation succeeds");
        let sk = bitcoin::secp256k1::SecretKey::from_slice(&sk_bytes).unwrap();
        let (xonly, _parity) = sk.public_key(&secp).x_only_public_key();
        assert_eq!(internal_key.bytes, xonly.serialize().to_vec());

        // Keymap-based lookup of the corresponding public key.
        let kp = state.get_keypair(&internal_key).expect("key below cursor");
        let kp_sk = bitcoin::secp256k1::SecretKey::from_slice(&kp.secret).unwrap();
        let (kp_xonly, _par) = kp_sk.public_key(&secp).x_only_public_key();
        assert_eq!(kp_xonly.serialize().to_vec(), internal_key.bytes);
    }
}

#[test]
fn lookup_keypair_signature_verifies_against_internal_key() {
    // Round trip: derive a keyed output's internal key, sign with the
    // looked-up keypair, verify against that exact internal key. The
    // even-y normalization makes the negated-secret path necessary for
    // roughly half of all indices.
    let mut state = fresh_state(3);
    let secp = bitcoin::secp256k1::Secp256k1::new();
    for _ in 0..8 {
        let out = state.next_child_descriptor().expect("cursor in range");
        let internal_key = match &out {
            CommitmentOutput::Keyed { internal_key } => internal_key.clone(),
            _ => panic!("child outputs are keyed"),
        };
        let kp = state.get_keypair(&internal_key).expect("key below cursor");
        let keypair =
            bitcoin::secp256k1::Keypair::from_seckey_slice(&secp, &kp.secret).expect("valid");
        let msg = bitcoin::secp256k1::Message::from_digest_slice(&[0x42u8; 32]).unwrap();
        let sig = secp.sign_schnorr_no_aux_rand(&msg, &keypair);
        let target = bitcoin::secp256k1::XOnlyPublicKey::from_slice(&internal_key.bytes).unwrap();
        assert!(secp.verify_schnorr(&sig, &msg, &target).is_ok());
    }
}

#[test]
fn lookup_fails_for_foreign_key() {
    let mut state = fresh_state(4);
    for _ in 0..3 {
        state.next_child_descriptor().expect("in range");
    }
    let foreign = simpiwallet::keys::XOnlyPublicKey { bytes: vec![9u8; 32] };
    assert!(state.get_keypair(&foreign).is_none());
}

#[test]
fn next_address_produces_network_prefixed_addresses() {
    let mut state = fresh_state(5);
    let a = state.next_address().expect("in range");
    assert!(a.starts_with("tex1"));
    state.set_network(Network::Regtest);
    let b = state.next_address().expect("in range");
    assert!(b.starts_with("ert1"));
    assert_ne!(a, b);
}

#[test]
fn index_exhaustion_is_fatal_and_reported() {
    let state = fresh_state(6);
    let mut state = State::from_parts(
        state.xpriv,
        0x8000_0000,
        AssemblySet::new(),
        1000,
        Connection::default(),
        Network::Testnet,
    )
    .expect("boundary value is still representable");
    let res = state.next_address();
    assert!(matches!(res, Err(Error::IndexExhausted(n)) if n == 0x8000_0000));

    let again = fresh_state(6);
    let res2 = State::from_parts(
        again.xpriv,
        0x8000_0001,
        AssemblySet::new(),
        1000,
        Connection::default(),
        Network::Testnet,
    );
    assert!(matches!(res2, Err(Error::InvalidChildIndex(_))));
}

#[test]
fn scan_targets_are_taproot_scripts() {
    let mut state = fresh_state(7);
    state.next_child_descriptor().expect("in range");
    state.next_child_descriptor().expect("in range");
    state.assembly_mut().insert(vec![0xcd; 32]);
    // The locked root is not scanned for spendable balance.
    let targets = state.scan_targets().expect("derivation succeeds");
    assert_eq!(targets.len(), 2);
    for (_out, spk) in &targets {
        assert_eq!(spk.len(), 34);
        assert_eq!(spk[0], 0x51);
        assert_eq!(spk[1], 0x20);
    }
    let locked = state.locked_targets();
    assert_eq!(locked.len(), 1);
    assert_eq!(locked[0].1.len(), 34);
}

#[test]
fn match_unspents_maps_results_back_by_script() {
    let mut state = fresh_state(8);
    state.next_child_descriptor().expect("in range");
    let targets = state.scan_targets().expect("derivation succeeds");
    let spk = targets[0].1.clone();
    let unspents = vec![Unspent {
        amount: 12345,
        script_pub_key: spk.clone(),
        txid: vec![0xaa; 32],
        vout: 3,
    }];
    let set = match_unspents(&targets, &unspents).expect("script was queried");
    assert_eq!(set.0.len(), 1);
    assert_eq!(set.0[0].amount, 12345);
    assert_eq!(set.0[0].outpoint.txid, vec![0xaa; 32]);
    assert_eq!(set.0[0].outpoint.vout, 3);

    let foreign = vec![Unspent {
        amount: 1,
        script_pub_key: vec![0x51, 0x20, 0x00],
        txid: vec![0xbb; 32],
        vout: 0,
    }];
    assert!(matches!(
        match_unspents(&targets, &foreign),
        Err(Error::CouldNotParse(_))
    ));
}

#[test]
fn network_names_round_trip() {
    assert_eq!(Network::from_name("regtest"), Some(Network::Regtest));
    assert_eq!(Network::from_name("testnet"), Some(Network::Testnet));
    assert_eq!(Network::from_name("mainnet"), None);
    assert_eq!(Network::from_name(&Network::Regtest.name()), Some(Network::Regtest));
    assert_eq!(Network::from_name(&Network::Testnet.name()), Some(Network::Testnet));
}

#[test]
fn network_parameters_are_fixed_and_distinct() {
    let r_id = Network::Regtest.bitcoin_id();
    let t_id = Network::Testnet.bitcoin_id();
    assert_eq!(r_id.len(), 32);
    assert_eq!(t_id.len(), 32);
    assert_ne!(r_id, t_id);
    assert_eq!(r_id[0], 0x23);
    assert_eq!(t_id[0], 0xe8);
    let r_gen = Network::Regtest.genesis_hash();
    let t_gen = Network::Testnet.genesis_hash();
    assert_eq!(r_gen.len(), 32);
    assert_ne!(r_gen, t_gen);
    assert_eq!(r_gen[0], 0x7d);
    assert_eq!(t_gen[0], 0x40);
}

#[test]
fn connection_default_is_loopback() {
    let c = Connection::default();
    assert_eq!(c.url, "localhost:18443");
    assert_eq!(c.user, "user");
    assert_eq!(c.pass.as_deref(), Some("pass"));
    let shown = c.describe();
    assert_eq!(shown, "user@localhost:18443 with password ****");
}

#[test]
fn error_messages_name_the_kind() {
    assert_eq!(Error::NotEnoughFunds.message(), "Not enough funds");
    assert_eq!(Error::CouldNotSatisfy.message(), "Could not satisfy");
    // The unknown-assembly message names the offending root in hex.
    let mut root = vec![0u8; 31];
    root.push(0xbe);
    let shown = Error::UnknownAssembly(root).message();
    assert_eq!(
        shown,
        format!(
            "Unknown assembly fragment (not imported): {}{}",
            "00".repeat(31),
            "be"
        )
    );
    assert_eq!(
        Error::CouldNotParse("bad".to_string()).message(),
        "Could not parse: bad"
    );
}
