use simpiwallet::error::Error;
use simpiwallet::witness::{frame, unframe, SerdeWitnessNode};

const UNIT_PROGRAM: [u8; 1] = [0x24];

#[test]
fn witness_text_round_trip() {
    let w = SerdeWitnessNode::new(UNIT_PROGRAM.to_vec(), Vec::new()).expect("valid program");
    let text = w.encode_to_string();
    let w2 = SerdeWitnessNode::from_str(&text).expect("own encoding decodes");
    assert_eq!(w2.program, w.program);
    assert_eq!(w2.witness, w.witness);
    // The blob is self-describing text, not the raw bytes.
    assert_ne!(text.as_bytes(), &UNIT_PROGRAM[..]);
}

#[test]
fn witness_round_trip_with_witness_data() {
    // A finalized program that carries witness data, produced the same way
    // the program parser hands it over.
    let forest = simplicity::human_encoding::Forest::parse::<simplicity::jet::Elements>(
        "wit1 := witness\nmain := comp wit1 jet_verify",
    )
    .expect("valid source");
    let mut values = std::collections::HashMap::new();
    values.insert(std::sync::Arc::<str>::from("wit1"), simplicity::Value::u1(1));
    let (program, witness) = simplicity::types::Context::with_context(|ctx| {
        let node = forest.to_witness_node(&ctx, &values).expect("main root");
        node.finalize_unpruned().expect("witness attached").to_vec_with_witness()
    });
    let w = SerdeWitnessNode::new(program.clone(), witness.clone()).expect("valid program");
    let text = w.encode_to_string();
    let w2 = SerdeWitnessNode::from_str(&text).expect("own encoding decodes");
    assert_eq!(w2.program, program);
    assert_eq!(w2.witness, witness);
}

#[test]
fn decoding_corrupted_base64_fails_without_panicking() {
    let res = SerdeWitnessNode::from_str("!!!not base64!!!");
    assert!(matches!(res, Err(Error::CouldNotParse(_))));
}

#[test]
fn decoding_truncated_blob_fails() {
    let w = SerdeWitnessNode::new(UNIT_PROGRAM.to_vec(), Vec::new()).expect("valid program");
    let text = w.encode_to_string();
    // Truncate the base64 text: either invalid base64 or a short frame.
    let truncated = &text[..text.len() - 2];
    let res = SerdeWitnessNode::from_str(truncated);
    assert!(matches!(res, Err(Error::CouldNotParse(_))));
}

#[test]
fn decoding_garbage_program_bytes_fails() {
    // A well-framed, well-encoded blob whose program part is garbage.
    let blob = frame(&vec![0xffu8, 0x00, 0x12], &vec![0x01u8]);
    let text = base64::Engine::encode(&base64::engine::general_purpose::STANDARD, &blob);
    let res = SerdeWitnessNode::from_str(&text);
    assert!(matches!(res, Err(Error::CouldNotParse(_))));
}

#[test]
fn new_rejects_inconsistent_pair() {
    // The unit program consumes no witness bytes; a trailing byte is an error.
    let res = SerdeWitnessNode::new(UNIT_PROGRAM.to_vec(), vec![0x00]);
    assert!(matches!(res, Err(Error::Finalize(_))));
}

#[test]
fn frame_and_unframe_are_inverse() {
    let p = vec![1u8, 2, 3];
    let w = vec![9u8, 8];
    let blob = frame(&p, &w);
    assert_eq!(blob.len(), 4 + 3 + 2);
    let (p2, w2) = unframe(&blob).expect("framed");
    assert_eq!(p2, p);
    assert_eq!(w2, w);
    // A blob shorter than its header claims does not unframe.
    assert!(unframe(&vec![0x05, 0, 0, 0, 1]).is_none());
    assert!(unframe(&vec![1, 2, 3]).is_none());
}
