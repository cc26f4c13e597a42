use simpiwallet::error::Error;
use simpiwallet::keys::DescriptorSecretKey;
use simpiwallet::outputs::{get_cmr, get_control_block, CommitmentOutput};
use simpiwallet::spend::{send_to_address, Payment, TransactionBuilder, TxOutput};
use simpiwallet::state::{OutPoint, State, Utxo, UtxoSet};

const UNIT_PROGRAM: [u8; 1] = [0x24];

fn fresh_state(seed_byte: u8) -> State {
    let seed: Vec<u8> = vec![seed_byte; 32];
    let xpriv = DescriptorSecretKey::from_seed(&seed).expect("const");
    State::new(xpriv)
}

fn keyed_utxo(state: &mut State, amount: u64, tag: u8) -> Utxo {
    let descriptor = state.next_child_descriptor().expect("cursor in range");
    Utxo {
        descriptor,
        amount,
        outpoint: OutPoint { txid: vec![tag; 32], vout: 0 },
    }
}

fn build_one_input_tx(state: &State, utxo: Utxo) -> (TransactionBuilder, TxOutput) {
    let bitcoin_id = state.network().bitcoin_id();
    let inputs = UtxoSet(vec![utxo]).into_inputs(bitcoin_id.clone());
    let mut builder = TransactionBuilder::new(state.network());
    let prevout = inputs[0].prevout.clone();
    for input in inputs {
        builder.add_input(input);
    }
    builder.add_output(TxOutput {
        asset: bitcoin_id,
        value: 9_000,
        script_pubkey: prevout.script_pubkey.clone(),
    });
    builder.add_fee(1_000);
    (builder, prevout)
}

#[test]
fn signing_is_deterministic() {
    let mut state = fresh_state(10);
    let utxo = keyed_utxo(&mut state, 10_000, 0x21);
    let (builder, _prevout) = build_one_input_tx(&state, utxo);
    let tx1 = builder.sign(&state).expect("material present");
    let tx2 = builder.sign(&state).expect("material present");
    assert_eq!(tx1.witnesses, tx2.witnesses);
    assert_eq!(tx1.witnesses.len(), 1);
    assert_eq!(tx1.witnesses[0].len(), 1);
    assert_eq!(tx1.witnesses[0][0].len(), 65);
    assert_eq!(*tx1.witnesses[0][0].last().unwrap(), 0x01);
}

#[test]
fn key_path_signature_verifies_against_recomputed_sighash() {
    let mut state = fresh_state(11);
    let utxo = keyed_utxo(&mut state, 10_000, 0x22);
    let internal_key = match &utxo.descriptor {
        CommitmentOutput::Keyed { internal_key } => internal_key.bytes.clone(),
        _ => panic!("keyed"),
    };
    let (builder, prevout) = build_one_input_tx(&state, utxo);
    let signed = builder.sign(&state).expect("material present");

    // Rebuild the transaction with the ledger library and recompute the
    // key-spend signature hash independently.
    let to_txout = |o: &TxOutput| elements::TxOut {
        asset: elements::confidential::Asset::Explicit(elements::AssetId::from_byte_array(
            o.asset.as_slice().try_into().unwrap(),
        )),
        value: elements::confidential::Value::Explicit(o.value),
        nonce: elements::confidential::Nonce::Null,
        script_pubkey: elements::Script::from(o.script_pubkey.clone()),
        witness: elements::TxOutWitness::default(),
    };
    let tx = elements::Transaction {
        version: 2,
        lock_time: elements::LockTime::ZERO,
        input: signed
            .inputs
            .iter()
            .map(|i| elements::TxIn {
                previous_output: elements::OutPoint {
                    txid: elements::Txid::from_byte_array(
                        i.prevout_txid.as_slice().try_into().unwrap(),
                    ),
                    vout: i.prevout_vout,
                },
                is_pegin: false,
                script_sig: elements::Script::new(),
                sequence: elements::Sequence(i.sequence),
                asset_issuance: elements::AssetIssuance::default(),
                witness: elements::TxInWitness::default(),
            })
            .collect(),
        output: signed.outputs.iter().map(|o| to_txout(o)).collect(),
    };
    let prevouts = [to_txout(&prevout)];
    let genesis = elements::BlockHash::from_byte_array(
        state.network().genesis_hash().as_slice().try_into().unwrap(),
    );
    let mut cache = simplicity::sighash::SighashCache::new(&tx);
    let sighash = cache
        .taproot_key_spend_signature_hash(
            0,
            &elements::sighash::Prevouts::All(&prevouts),
            elements::sighash::SchnorrSighashType::All,
            genesis,
        )
        .expect("valid index");

    let secp = bitcoin::secp256k1::Secp256k1::new();
    let sig_bytes = &signed.witnesses[0][0][..64];
    let sig = bitcoin::secp256k1::schnorr::Signature::from_slice(sig_bytes).unwrap();
    let msg = bitcoin::secp256k1::Message::from_digest_slice(sighash.as_ref()).unwrap();
    let key = bitcoin::secp256k1::XOnlyPublicKey::from_slice(&internal_key).unwrap();
    assert!(secp.verify_schnorr(&sig, &msg, &key).is_ok());
}

#[test]
fn locked_opaque_input_aborts_whole_signing() {
    // One keyed input and one opaque input whose root is locked (no
    // witness registered): signing returns nothing, never a partial
    // transaction.
    let mut state = fresh_state(12);
    let keyed = keyed_utxo(&mut state, 10_000, 0x31);
    let root = vec![0x77u8; 32];
    state.assembly_mut().insert(root.clone());
    let opaque = Utxo {
        descriptor: CommitmentOutput::Opaque { root: root.clone() },
        amount: 5_000,
        outpoint: OutPoint { txid: vec![0x32; 32], vout: 1 },
    };
    let bitcoin_id = state.network().bitcoin_id();
    let inputs = UtxoSet(vec![keyed, opaque]).into_inputs(bitcoin_id.clone());
    let mut builder = TransactionBuilder::new(state.network());
    for input in inputs {
        builder.add_input(input);
    }
    builder.add_output(TxOutput {
        asset: bitcoin_id,
        value: 14_000,
        script_pubkey: vec![0x51, 0x20, 0x00],
    });
    builder.add_fee(1_000);
    assert!(builder.sign(&state).is_none());
}

#[test]
fn spendable_opaque_input_gets_witness_script_and_control_block() {
    let mut state = fresh_state(13);
    let root = vec![0x88u8; 32];
    state.assembly_mut().insert(root.clone());
    state
        .assembly_mut()
        .insert_satisfaction(&root, UNIT_PROGRAM.to_vec(), Vec::new())
        .expect("valid program");
    let opaque = Utxo {
        descriptor: CommitmentOutput::Opaque { root: root.clone() },
        amount: 5_000,
        outpoint: OutPoint { txid: vec![0x33; 32], vout: 0 },
    };
    let bitcoin_id = state.network().bitcoin_id();
    let inputs = UtxoSet(vec![opaque]).into_inputs(bitcoin_id.clone());
    let mut builder = TransactionBuilder::new(state.network());
    for input in inputs {
        builder.add_input(input);
    }
    builder.add_fee(5_000);
    let signed = builder.sign(&state).expect("witness present");
    assert_eq!(signed.witnesses.len(), 1);
    let stack = &signed.witnesses[0];
    assert_eq!(stack.len(), 4);
    assert_eq!(stack[0], Vec::<u8>::new());
    assert_eq!(stack[1], UNIT_PROGRAM.to_vec());
    assert_eq!(stack[2], root);

    let cb = get_control_block(&CommitmentOutput::Opaque { root: root.clone() })
        .expect("opaque outputs have a leaf proof");
    assert_eq!(stack[3], cb);
    assert_eq!(cb.len(), 33);
    // Control block: the program leaf version with the output key parity bit.
    assert!(cb[0] == 0xbe || cb[0] == 0xbf);
}

#[test]
fn keyed_output_has_no_root_or_leaf_proof() {
    let mut state = fresh_state(14);
    let out = state.next_child_descriptor().expect("in range");
    assert!(get_cmr(&out).is_none());
    assert!(get_control_block(&out).is_none());
    let root = vec![0x99u8; 32];
    let opaque = CommitmentOutput::Opaque { root: root.clone() };
    assert_eq!(get_cmr(&opaque), Some(root));
}

#[test]
fn send_to_address_builds_payment_change_and_fee() {
    let mut state = fresh_state(15);
    let utxo_a = keyed_utxo(&mut state, 30_000, 0x41);
    let utxo_b = keyed_utxo(&mut state, 50_000, 0x42);
    let utxo_c = keyed_utxo(&mut state, 20_000, 0x43);
    let pay_to = state.next_address().expect("in range");
    let set = UtxoSet(vec![utxo_a, utxo_b, utxo_c]);
    let payment = Payment { amount: 35_000, address: pay_to };

    let tx = send_to_address(&mut state, set, payment).expect("funds and material present");
    // First-fit selection picks the first two coins: 30k + 50k = 80k.
    assert_eq!(tx.inputs.len(), 2);
    assert_eq!(tx.witnesses.len(), 2);
    assert_eq!(tx.outputs.len(), 3);
    assert_eq!(tx.outputs[0].value, 35_000);
    // Change = 80_000 - 35_000 - 1_000 (default fee).
    assert_eq!(tx.outputs[1].value, 44_000);
    assert_eq!(tx.outputs[2].value, 1_000);
    assert_eq!(tx.outputs[2].script_pubkey, Vec::<u8>::new());
    // The payment output pays the requested address's script.
    assert_eq!(tx.outputs[0].script_pubkey.len(), 34);
}

#[test]
fn send_to_address_reports_insufficient_funds() {
    let mut state = fresh_state(16);
    let utxo = keyed_utxo(&mut state, 30_000, 0x51);
    let pay_to = state.next_address().expect("in range");
    let set = UtxoSet(vec![utxo]);
    let payment = Payment { amount: 35_000, address: pay_to };
    let res = send_to_address(&mut state, set, payment);
    assert!(matches!(res, Err(Error::NotEnoughFunds)));
}

#[test]
fn send_to_address_rejects_malformed_address() {
    let mut state = fresh_state(17);
    let utxo = keyed_utxo(&mut state, 30_000, 0x61);
    let set = UtxoSet(vec![utxo]);
    let payment = Payment { amount: 1_000, address: "not an address".to_string() };
    let res = send_to_address(&mut state, set, payment);
    assert!(matches!(res, Err(Error::CouldNotParse(_))));
}

#[test]
fn payment_to_output_carries_the_address_script() {
    let mut state = fresh_state(18);
    let addr = state.next_address().expect("in range");
    let payment = Payment { amount: 777, address: addr };
    let out = payment.to_output(state.network().bitcoin_id()).expect("valid address");
    assert_eq!(out.value, 777);
    assert_eq!(out.asset, state.network().bitcoin_id());
    assert_eq!(out.script_pubkey.len(), 34);
    assert_eq!(out.script_pubkey[0], 0x51);
}
