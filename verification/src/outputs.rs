use vstd::prelude::*;

use crate::keys::{is_valid_xonly, spec_unspendable_x, unspendable_x_bytes, XOnlyPublicKey};
use crate::network::Network;

verus! {

// ---------------------------------------------------------------------------
// Names for the results of taproot output construction. Each value is a
// function of the named arguments alone.
// ---------------------------------------------------------------------------

/// The output script of a taproot output with the given internal key and
/// (for a single-leaf tree under the fixed program leaf version) leaf
/// script.
pub uninterp spec fn spk_of(internal: Seq<u8>, leaf: Option<Seq<u8>>) -> Seq<u8>;

/// The serialized control block proving inclusion of the single leaf script
/// in the taproot output committed to by the internal key.
pub uninterp spec fn control_block_of(internal: Seq<u8>, leaf_script: Seq<u8>) -> Seq<u8>;

/// The address string of the taproot output on the given network.
pub uninterp spec fn address_of(internal: Seq<u8>, leaf: Option<Seq<u8>>, regtest: bool) -> Seq<
    char,
>;

/// The contents of an optional borrowed leaf script, as an optional byte
/// sequence.
pub open spec fn spec_leaf_opt(leaf: Option<&Vec<u8>>) -> Option<Seq<u8>> {
    match leaf {
        Some(l) => Some(l@),
        None => None,
    }
}

// ---------------------------------------------------------------------------
// Trusted wrappers around taproot output construction.
// ---------------------------------------------------------------------------

/// Relies on `elements::Script::new_v1_p2tr` and
/// `elements::taproot::TaprootBuilder` with the program leaf version: the
/// output script is a function of the internal key and the leaf script
/// alone.
#[verifier::external_body]
pub(crate) fn taproot_spk(internal: &Vec<u8>, leaf: Option<&Vec<u8>>) -> (r: Vec<u8>)
    requires
        internal@.len() == 32,
        is_valid_xonly(internal@),
    ensures
        r@ == spk_of(internal@, spec_leaf_opt(leaf)),
{
    let key = elements::secp256k1_zkp::XOnlyPublicKey::from_slice(internal.as_slice())
        .expect("valid x-only key");
    let secp = elements::secp256k1_zkp::Secp256k1::new();
    let merkle_root = match leaf {
        None => None,
        Some(l) => {
            let script = elements::Script::from(l.clone());
            let builder = elements::taproot::TaprootBuilder::new()
                .add_leaf_with_ver(0, script, simplicity::leaf_version())
                .expect("single leaf at depth 0");
            let spend = builder.finalize(&secp, key).expect("single leaf is within bounds");
            spend.merkle_root()
        },
    };
    elements::Script::new_v1_p2tr(&secp, key, merkle_root).into_bytes()
}

/// Relies on `elements::taproot::TaprootSpendInfo::control_block` with the
/// program leaf version: the control block of the single leaf is a function
/// of the internal key and the leaf script alone, and exists for every known
/// leaf.
#[verifier::external_body]
pub(crate) fn taproot_control_block(internal: &Vec<u8>, leaf: &Vec<u8>) -> (r: Vec<u8>)
    requires
        internal@.len() == 32,
        is_valid_xonly(internal@),
    ensures
        r@ == control_block_of(internal@, leaf@),
{
    let key = elements::secp256k1_zkp::XOnlyPublicKey::from_slice(internal.as_slice())
        .expect("valid x-only key");
    let secp = elements::secp256k1_zkp::Secp256k1::new();
    let script = elements::Script::from(leaf.clone());
    let builder = elements::taproot::TaprootBuilder::new()
        .add_leaf_with_ver(0, script.clone(), simplicity::leaf_version())
        .expect("single leaf at depth 0");
    let spend = builder.finalize(&secp, key).expect("single leaf is within bounds");
    let control_block = spend
        .control_block(&(script, simplicity::leaf_version()))
        .expect("control block must exist in script map for every known leaf");
    control_block.serialize()
}

/// Relies on `elements::Address::p2tr` and its display encoding: the
/// address is a function of the internal key, the leaf tree and the network
/// parameters alone.
#[verifier::external_body]
pub(crate) fn taproot_address(internal: &Vec<u8>, leaf: Option<&Vec<u8>>, network: Network) -> (r:
    String)
    requires
        internal@.len() == 32,
        is_valid_xonly(internal@),
    ensures
        r@ == address_of(internal@, spec_leaf_opt(leaf), network == Network::Regtest),
{
    let key = elements::secp256k1_zkp::XOnlyPublicKey::from_slice(internal.as_slice())
        .expect("valid x-only key");
    let secp = elements::secp256k1_zkp::Secp256k1::new();
    let merkle_root = leaf.map(|l| {
        let builder = elements::taproot::TaprootBuilder::new()
            .add_leaf_with_ver(0, elements::Script::from(l.clone()), simplicity::leaf_version())
            .expect("single leaf at depth 0");
        let spend = builder.finalize(&secp, key).expect("single leaf is within bounds");
        spend.merkle_root().expect("single leaf has a root")
    });
    let address = elements::Address::p2tr(&secp, key, merkle_root, None, network.address_params());
    format!("{}", address)
}

/// Relies on `secp256k1::XOnlyPublicKey::from_slice`: it accepts exactly
/// the 32-byte x coordinates of curve points.
#[verifier::external_body]
pub(crate) fn xonly_is_valid(bytes: &Vec<u8>) -> (r: bool)
    ensures
        r == (bytes@.len() == 32 && is_valid_xonly(bytes@)),
{
    bytes.len() == 32 && bitcoin::secp256k1::XOnlyPublicKey::from_slice(bytes.as_slice()).is_ok()
}

// ---------------------------------------------------------------------------
// The commitment-output model.
// ---------------------------------------------------------------------------

/// A spending condition with exactly one of two shapes: a derived key as the
/// internal key with no script leaf (spent via the key path), or the fixed
/// unspendable internal key with a single leaf holding a 32-byte program
/// root (spent via the leaf path).
#[derive(Clone, Debug)]
pub enum CommitmentOutput {
    Keyed { internal_key: XOnlyPublicKey },
    Opaque { root: Vec<u8> },
}

/// The value of a commitment output: the shape with its bytes.
pub enum CommitmentOutputV {
    Keyed { internal_key: Seq<u8> },
    Opaque { root: Seq<u8> },
}

impl View for CommitmentOutput {
    type V = CommitmentOutputV;

    open spec fn view(&self) -> CommitmentOutputV {
        match self {
            CommitmentOutput::Keyed { internal_key } => CommitmentOutputV::Keyed {
                internal_key: internal_key.bytes@,
            },
            CommitmentOutput::Opaque { root } => CommitmentOutputV::Opaque { root: root@ },
        }
    }
}

impl CommitmentOutput {
    /// Well-formedness: the internal key is a valid x-only key; a program
    /// root is exactly 32 bytes.
    pub open spec fn wf(&self) -> bool {
        match self {
            CommitmentOutput::Keyed { internal_key } => internal_key.bytes@.len() == 32
                && is_valid_xonly(internal_key.bytes@),
            CommitmentOutput::Opaque { root } => root@.len() == 32,
        }
    }

    /// The internal key bytes of the output.
    pub open spec fn spec_internal_key(&self) -> Seq<u8> {
        match self {
            CommitmentOutput::Keyed { internal_key } => internal_key.bytes@,
            CommitmentOutput::Opaque { .. } => spec_unspendable_x(),
        }
    }

    /// The leaf script of the output: nothing for a keyed output, the raw
    /// program root for an opaque one.
    pub open spec fn spec_leaf(&self) -> Option<Seq<u8>> {
        match self {
            CommitmentOutput::Keyed { .. } => None,
            CommitmentOutput::Opaque { root } => Some(root@),
        }
    }

    /// The output script of this output.
    pub open spec fn spec_script_pubkey(&self) -> Seq<u8> {
        spk_of(self.spec_internal_key(), self.spec_leaf())
    }

    /// Whether two outputs describe the same spending condition: the same
    /// shape with the same bytes.
    pub open spec fn eqv(&self, other: &CommitmentOutput) -> bool {
        match (self, other) {
            (
                CommitmentOutput::Keyed { internal_key: a },
                CommitmentOutput::Keyed { internal_key: b },
            ) => a.bytes@ == b.bytes@,
            (CommitmentOutput::Opaque { root: a }, CommitmentOutput::Opaque { root: b }) => a@
                == b@,
            _ => false,
        }
    }
}

/// Equivalent outputs agree on well-formedness, internal key, leaf and
/// output script.
pub proof fn lemma_eqv_props(a: &CommitmentOutput, b: &CommitmentOutput)
    requires
        a.eqv(b),
    ensures
        a.wf() == b.wf(),
        a.spec_internal_key() == b.spec_internal_key(),
        a.spec_leaf() == b.spec_leaf(),
        a.spec_script_pubkey() == b.spec_script_pubkey(),
{
}

/// Decide well-formedness of an output at run time.
pub fn output_wf_check(o: &CommitmentOutput) -> (r: bool)
    ensures
        r == o.wf(),
{
    match o {
        CommitmentOutput::Keyed { internal_key } => xonly_is_valid(&internal_key.bytes),
        CommitmentOutput::Opaque { root } => root.len() == 32,
    }
}

/// Equivalent outputs have the same value.
pub proof fn lemma_eqv_view(a: &CommitmentOutput, b: &CommitmentOutput)
    requires
        a.eqv(b),
    ensures
        a@ == b@,
{
}

/// A field-for-field copy of an output.
pub fn copy_output(o: &CommitmentOutput) -> (r: CommitmentOutput)
    ensures
        r.eqv(o),
        o.eqv(&r),
{
    match o {
        CommitmentOutput::Keyed { internal_key } => CommitmentOutput::Keyed {
            internal_key: XOnlyPublicKey { bytes: internal_key.bytes.clone() },
        },
        CommitmentOutput::Opaque { root } => CommitmentOutput::Opaque { root: root.clone() },
    }
}

/// The keyed single-leaf-tree output of a public key: the key itself is the
/// internal key and there is no script leaf.
pub fn simplicity_pk(key: XOnlyPublicKey) -> (r: CommitmentOutput)
    ensures
        r == (CommitmentOutput::Keyed { internal_key: key }),
{
    CommitmentOutput::Keyed { internal_key: key }
}

/// The opaque-program output of a program root: the unspendable internal
/// key with the raw root as the single leaf script.
pub fn simplicity_asm(cmr: Vec<u8>) -> (r: CommitmentOutput)
    ensures
        r == (CommitmentOutput::Opaque { root: cmr }),
{
    CommitmentOutput::Opaque { root: cmr }
}

/// The program root committed to by an output: the leaf's root for an
/// opaque output, nothing for a keyed one.
pub fn get_cmr(output: &CommitmentOutput) -> (r: Option<Vec<u8>>)
    ensures
        match output {
            CommitmentOutput::Keyed { .. } => r is None,
            CommitmentOutput::Opaque { root } => r matches Some(c) && c@ == root@,
        },
{
    match output {
        CommitmentOutput::Keyed { .. } => None,
        CommitmentOutput::Opaque { root } => Some(root.clone()),
    }
}

/// The leaf-inclusion proof (serialized control block) of the single leaf
/// of an opaque output; nothing for a keyed output, which has no leaf.
pub fn get_control_block(output: &CommitmentOutput) -> (r: Option<Vec<u8>>)
    requires
        output.wf(),
    ensures
        match output {
            CommitmentOutput::Keyed { .. } => r is None,
            CommitmentOutput::Opaque { root } => r matches Some(cb) && cb@ == control_block_of(
                spec_unspendable_x(),
                root@,
            ),
        },
{
    match output {
        CommitmentOutput::Keyed { .. } => None,
        CommitmentOutput::Opaque { root } => {
            let internal = unspendable_x_bytes();
            Some(taproot_control_block(&internal, root))
        },
    }
}

/// The output script of the output.
pub fn script_pubkey(output: &CommitmentOutput) -> (r: Vec<u8>)
    requires
        output.wf(),
    ensures
        r@ == output.spec_script_pubkey(),
{
    match output {
        CommitmentOutput::Keyed { internal_key } => taproot_spk(&internal_key.bytes, None),
        CommitmentOutput::Opaque { root } => {
            let internal = unspendable_x_bytes();
            taproot_spk(&internal, Some(root))
        },
    }
}

/// The address of the output on the given network.
pub fn address(output: &CommitmentOutput, network: Network) -> (r: String)
    requires
        output.wf(),
    ensures
        r@ == address_of(
            output.spec_internal_key(),
            output.spec_leaf(),
            network == Network::Regtest,
        ),
{
    match output {
        CommitmentOutput::Keyed { internal_key } => taproot_address(
            &internal_key.bytes,
            None,
            network,
        ),
        CommitmentOutput::Opaque { root } => {
            let internal = unspendable_x_bytes();
            taproot_address(&internal, Some(root), network)
        },
    }
}

} // verus!
