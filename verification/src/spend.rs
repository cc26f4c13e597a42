use vstd::prelude::*;
use vstd::string::StringExecFns;

use crate::error::Error;
use crate::keys::{
    schnorr_sig_of, schnorr_sign, spec_unspendable_x, unspendable_x_bytes, DescriptorSecretKey,
};
use crate::network::{spec_bitcoin_id, spec_genesis_hash, Network};
use crate::outputs::{
    control_block_of, copy_output, lemma_eqv_props, output_wf_check, script_pubkey, spk_of,
    taproot_control_block, CommitmentOutput, CommitmentOutputV,
};
use crate::registry::{spec_satisfaction, AssemblyEntry};
use crate::state::{
    copy_utxo, spec_child_ok, spec_child_pubkey_x, spec_hit_secret, spec_lookup_from, State,
    Utxo, UtxoSet,
};

verus! {

// ---------------------------------------------------------------------------
// The transaction model: explicit assets and amounts, one script per
// output, version 2 and zero locktime throughout.
// ---------------------------------------------------------------------------

/// A transaction input before witnesses are attached.
#[derive(Clone, Debug)]
pub struct TxInput {
    pub prevout_txid: Vec<u8>,
    pub prevout_vout: u32,
    pub sequence: u32,
}

/// The value of a transaction input.
pub struct TxInputV {
    pub prevout_txid: Seq<u8>,
    pub prevout_vout: u32,
    pub sequence: u32,
}

impl View for TxInput {
    type V = TxInputV;

    open spec fn view(&self) -> TxInputV {
        TxInputV {
            prevout_txid: self.prevout_txid@,
            prevout_vout: self.prevout_vout,
            sequence: self.sequence,
        }
    }
}

/// A transaction output: an explicit asset, an explicit amount and a
/// locking script. A fee output is the output with an empty script, as the
/// ledger encodes fees.
#[derive(Clone, Debug)]
pub struct TxOutput {
    pub asset: Vec<u8>,
    pub value: u64,
    pub script_pubkey: Vec<u8>,
}

/// The value of a transaction output.
pub struct TxOutputV {
    pub asset: Seq<u8>,
    pub value: u64,
    pub script_pubkey: Seq<u8>,
}

impl View for TxOutput {
    type V = TxOutputV;

    open spec fn view(&self) -> TxOutputV {
        TxOutputV {
            asset: self.asset@,
            value: self.value,
            script_pubkey: self.script_pubkey@,
        }
    }
}

/// The values of a sequence of viewable items.
pub open spec fn seq_view<T: View>(s: Seq<T>) -> Seq<T::V> {
    s.map_values(|x: T| x@)
}

// ---------------------------------------------------------------------------
// Payments.
// ---------------------------------------------------------------------------

/// The output script that an address denotes, if the text parses as an
/// address.
pub uninterp spec fn addr_spk_of(s: Seq<char>) -> Option<Seq<u8>>;

/// Relies on the address library's parser and `Address::script_pubkey`:
/// whether a string parses, and the script it denotes, depend on the text
/// alone.
#[verifier::external_body]
fn address_to_spk(s: &str) -> (r: Option<Vec<u8>>)
    ensures
        match r {
            Some(b) => addr_spk_of(s@) == Some(b@),
            None => addr_spk_of(s@) is None,
        },
{
    match s.parse::<elements::Address>() {
        Ok(a) => Some(a.script_pubkey().into_bytes()),
        Err(_) => None,
    }
}

/// A requested payment: an amount and the address to pay.
#[derive(Clone, Debug)]
pub struct Payment {
    pub amount: u64,
    pub address: String,
}

impl Payment {
    /// The transaction output paying this payment in the given asset.
    /// Fails with a parse error if the address text is malformed.
    pub fn to_output(&self, bitcoin_id: Vec<u8>) -> (r: Result<TxOutput, Error>)
        ensures
            match r {
                Ok(o) => addr_spk_of(self.address@) == Some(o.script_pubkey@) && o.asset@
                    == bitcoin_id@ && o.value == self.amount,
                Err(e) => addr_spk_of(self.address@) is None && (e matches Error::CouldNotParse(d)
                    && d@ == "malformed address"@),
            },
    {
        match address_to_spk(self.address.as_str()) {
            Some(spk) => Ok(TxOutput { asset: bitcoin_id, value: self.amount, script_pubkey: spk }),
            None => Err(Error::CouldNotParse(String::from_str("malformed address"))),
        }
    }
}

// ---------------------------------------------------------------------------
// Coin selection.
// ---------------------------------------------------------------------------

/// The sum of the amounts of a sequence of unspent outputs.
pub open spec fn spec_total(s: Seq<Utxo>) -> int
    decreases s.len(),
{
    if s.len() == 0 {
        0
    } else {
        spec_total(s.drop_last()) + s.last().amount
    }
}

/// The total is never negative.
pub proof fn lemma_total_nonneg(s: Seq<Utxo>)
    ensures
        0 <= spec_total(s),
    decreases s.len(),
{
    if s.len() > 0 {
        lemma_total_nonneg(s.drop_last());
    }
}

/// Adding the next output extends the prefix sum by its amount.
pub proof fn lemma_total_take_succ(s: Seq<Utxo>, i: int)
    requires
        0 <= i < s.len(),
    ensures
        spec_total(s.take(i + 1)) == spec_total(s.take(i)) + s[i].amount,
{
    assert(s.take(i + 1).drop_last() =~= s.take(i));
    assert(s.take(i + 1).last() == s[i]);
}

/// A prefix never sums to more than the whole.
pub proof fn lemma_total_take_bound(s: Seq<Utxo>, i: int)
    requires
        0 <= i <= s.len(),
    ensures
        spec_total(s.take(i)) <= spec_total(s),
    decreases s.len() - i,
{
    if i == s.len() {
        assert(s.take(i) =~= s);
    } else {
        lemma_total_take_succ(s, i);
        lemma_total_take_bound(s, i + 1);
    }
}

impl UtxoSet {
    /// The sum of all amounts, or nothing if the sum does not fit.
    pub fn checked_total(&self) -> (r: Option<u64>)
        ensures
            match r {
                Some(t) => t == spec_total(self.0@) && spec_total(self.0@) <= u64::MAX,
                None => spec_total(self.0@) > u64::MAX,
            },
    {
        let mut acc: u64 = 0;
        let n = self.0.len();
        let mut i: usize = 0;
        while i < n
            invariant
                n == self.0@.len(),
                i <= n,
                acc == spec_total(self.0@.take(i as int)),
            decreases n - i,
        {
            proof {
                lemma_total_take_succ(self.0@, i as int);
            }
            acc = match acc.checked_add(self.0[i].amount) {
                Some(a) => a,
                None => {
                    proof {
                        lemma_total_take_bound(self.0@, i + 1);
                    }
                    return None;
                },
            };
            i += 1;
        }
        proof {
            assert(self.0@.take(n as int) =~= self.0@);
        }
        Some(acc)
    }

    /// The sum of all amounts.
    pub fn total_amount(&self) -> (r: u64)
        requires
            spec_total(self.0@) <= u64::MAX,
        ensures
            r == spec_total(self.0@),
    {
        match self.checked_total() {
            Some(t) => t,
            None => {
                proof {
                    assert(false);
                }
                0
            },
        }
    }

    /// First-fit coin selection: accumulate outputs in the order presented
    /// until the total reaches the target, and return that prefix with its
    /// total; nothing if the whole set is insufficient. For a fixed order
    /// and fixed amounts the selection is fully deterministic.
    pub fn select_coins(&self, amount: u64) -> (r: Option<(UtxoSet, u64)>)
        requires
            spec_total(self.0@) <= u64::MAX,
        ensures
            (r is Some) == (spec_total(self.0@) >= amount),
            match r {
                Some(sel) => {
                    let k = sel.0.0@.len() as int;
                    &&& k <= self.0@.len()
                    &&& forall|i: int| 0 <= i < k ==> (#[trigger] sel.0.0@[i]).eqv(&self.0@[i])
                    &&& sel.1 == spec_total(self.0@.take(k))
                    &&& sel.1 >= amount
                    &&& forall|i: int| 0 <= i < k ==> spec_total(#[trigger] self.0@.take(i)) < amount
                },
                None => spec_total(self.0@) < amount,
            },
    {
        let mut selected: Vec<Utxo> = Vec::new();
        let mut acc: u64 = 0;
        let n = self.0.len();
        let mut i: usize = 0;
        while i < n && acc < amount
            invariant
                n == self.0@.len(),
                i <= n,
                selected@.len() == i,
                acc == spec_total(self.0@.take(i as int)),
                spec_total(self.0@) <= u64::MAX,
                forall|j: int| 0 <= j < i ==> (#[trigger] selected@[j]).eqv(&self.0@[j]),
                forall|j: int| 0 <= j < i ==> spec_total(#[trigger] self.0@.take(j)) < amount,
            decreases n - i,
        {
            proof {
                lemma_total_take_succ(self.0@, i as int);
                lemma_total_take_bound(self.0@, i + 1);
                lemma_total_nonneg(self.0@.take(i as int));
            }
            selected.push(copy_utxo(&self.0[i]));
            acc = acc + self.0[i].amount;
            i += 1;
        }
        if acc < amount {
            proof {
                assert(i == n);
                assert(self.0@.take(n as int) =~= self.0@);
            }
            None
        } else {
            proof {
                lemma_total_take_bound(self.0@, i as int);
            }
            Some((UtxoSet(selected), acc))
        }
    }
}


// ---------------------------------------------------------------------------
// Inputs for the transaction builder.
// ---------------------------------------------------------------------------

/// One spendable input: the condition it is locked to, the input record,
/// and the output it spends.
#[derive(Clone, Debug)]
pub struct Input {
    pub descriptor: CommitmentOutput,
    pub input: TxInput,
    pub prevout: TxOutput,
}

impl UtxoSet {
    /// Turn the selected outputs into transaction inputs: each input
    /// references its outpoint with the maximal sequence number, and its
    /// prevout restates the explicit asset, amount and locking script.
    pub fn into_inputs(self, bitcoin_id: Vec<u8>) -> (r: Vec<Input>)
        requires
            forall|i: int| 0 <= i < self.0@.len() ==> (#[trigger] self.0@[i]).descriptor.wf(),
        ensures
            r@.len() == self.0@.len(),
            forall|i: int|
                0 <= i < r@.len() ==> {
                    let u = self.0@[i];
                    let inp = #[trigger] r@[i];
                    &&& inp.descriptor.eqv(&u.descriptor)
                    &&& inp.descriptor.wf()
                    &&& inp.input@ == (TxInputV {
                        prevout_txid: u.outpoint.txid@,
                        prevout_vout: u.outpoint.vout,
                        sequence: u32::MAX,
                    })
                    &&& inp.prevout@ == (TxOutputV {
                        asset: bitcoin_id@,
                        value: u.amount,
                        script_pubkey: u.descriptor.spec_script_pubkey(),
                    })
                },
    {
        let mut r: Vec<Input> = Vec::new();
        let n = self.0.len();
        let mut i: usize = 0;
        while i < n
            invariant
                n == self.0@.len(),
                i <= n,
                r@.len() == i,
                forall|j: int| 0 <= j < n ==> (#[trigger] self.0@[j]).descriptor.wf(),
                forall|j: int|
                    0 <= j < i ==> {
                        let u = self.0@[j];
                        let inp = #[trigger] r@[j];
                        &&& inp.descriptor.eqv(&u.descriptor)
                        &&& inp.descriptor.wf()
                        &&& inp.input@ == (TxInputV {
                            prevout_txid: u.outpoint.txid@,
                            prevout_vout: u.outpoint.vout,
                            sequence: u32::MAX,
                        })
                        &&& inp.prevout@ == (TxOutputV {
                            asset: bitcoin_id@,
                            value: u.amount,
                            script_pubkey: u.descriptor.spec_script_pubkey(),
                        })
                    },
            decreases n - i,
        {
            let u = &self.0[i];
            let descriptor = copy_output(&u.descriptor);
            proof {
                lemma_eqv_props(&descriptor, &u.descriptor);
            }
            let spk = script_pubkey(&descriptor);
            let input = TxInput {
                prevout_txid: u.outpoint.txid.clone(),
                prevout_vout: u.outpoint.vout,
                sequence: u32::MAX,
            };
            let prevout = TxOutput { asset: bitcoin_id.clone(), value: u.amount, script_pubkey: spk };
            r.push(Input { descriptor, input, prevout });
            i += 1;
        }
        r
    }
}

// ---------------------------------------------------------------------------
// The cached signature hasher.
// ---------------------------------------------------------------------------

/// The taproot key-spend signature hash of the modeled transaction
/// (version 2, zero locktime, no input witnesses) under `SIGHASH_ALL`, for
/// one input, with the given explicit prevouts and genesis hash.
pub uninterp spec fn key_spend_sighash_of(
    inputs: Seq<TxInputV>,
    outputs: Seq<TxOutputV>,
    prevouts: Seq<TxOutputV>,
    index: int,
    genesis: Seq<u8>,
) -> Seq<u8>;

/// A transaction of the ledger library.
#[verifier::external_type_specification]
#[verifier::external_body]
pub struct ExElementsTransaction(elements::Transaction);

/// The ledger library's signature-hash cache.
#[verifier::external_type_specification]
#[verifier::external_body]
#[verifier::reject_recursive_types(T)]
pub struct ExSighashCache<T: core::ops::Deref<Target = elements::Transaction>>(
    simplicity::sighash::SighashCache<T>,
);

/// The ledger library's signature-hash cache for one transaction, together
/// with the converted prevouts. Built only by `SighashComputer::new`.
struct SighashCacheHandle {
    cache: simplicity::sighash::SighashCache<std::rc::Rc<elements::Transaction>>,
    prevouts: Vec<elements::TxOut>,
}

/// A transaction input of the ledger library.
#[verifier::external_type_specification]
#[verifier::external_body]
pub struct ExElementsTxIn(elements::TxIn);

/// A transaction output of the ledger library.
#[verifier::external_type_specification]
#[verifier::external_body]
pub struct ExElementsTxOut(elements::TxOut);

/// Converts a model input to the ledger's input type: empty signature
/// script, no pegin, no issuance, no witness.
#[verifier::external_body]
fn to_elements_txin(i: &TxInput) -> elements::TxIn
    requires
        i.prevout_txid@.len() == 32,
{
    let txid_bytes: [u8; 32] = i.prevout_txid.as_slice().try_into().expect("32-byte txid");
    elements::TxIn {
        previous_output: elements::OutPoint {
            txid: elements::Txid::from_byte_array(txid_bytes),
            vout: i.prevout_vout,
        },
        is_pegin: false,
        script_sig: elements::Script::new(),
        sequence: elements::Sequence(i.sequence),
        asset_issuance: elements::AssetIssuance::default(),
        witness: elements::TxInWitness::default(),
    }
}

/// Converts a model output to the ledger's output type: explicit asset and
/// amount, empty nonce and witness.
#[verifier::external_body]
fn to_elements_txout(o: &TxOutput) -> elements::TxOut
    requires
        o.asset@.len() == 32,
{
    let asset_bytes: [u8; 32] = o.asset.as_slice().try_into().expect("32-byte asset id");
    elements::TxOut {
        asset: elements::confidential::Asset::Explicit(elements::AssetId::from_byte_array(
            asset_bytes,
        )),
        value: elements::confidential::Value::Explicit(o.value),
        nonce: elements::confidential::Nonce::Null,
        script_pubkey: elements::Script::from(o.script_pubkey.clone()),
        witness: elements::TxOutWitness::default(),
    }
}

/// A signature hasher shared across all inputs of one transaction: the
/// transaction digests are computed once and reused per input.
pub struct SighashComputer {
    inputs: Vec<TxInput>,
    outputs: Vec<TxOutput>,
    prevouts: Vec<TxOutput>,
    handle: SighashCacheHandle,
}

impl SighashComputer {
    /// The modeled inputs.
    pub closed spec fn spec_inputs(&self) -> Seq<TxInputV> {
        seq_view(self.inputs@)
    }

    /// The modeled outputs.
    pub closed spec fn spec_outputs(&self) -> Seq<TxOutputV> {
        seq_view(self.outputs@)
    }

    /// The modeled prevouts.
    pub closed spec fn spec_prevouts(&self) -> Seq<TxOutputV> {
        seq_view(self.prevouts@)
    }

    /// Build the hasher over one transaction. Relies on the ledger
    /// library's `SighashCache`: the cache is bound to the converted
    /// transaction, whose model is kept beside it.
    #[verifier::external_body]
    pub fn new(inputs: Vec<TxInput>, outputs: Vec<TxOutput>, prevouts: Vec<TxOutput>) -> (r:
        SighashComputer)
        requires
            prevouts@.len() == inputs@.len(),
            forall|i: int| 0 <= i < inputs@.len() ==> (#[trigger] inputs@[i]).prevout_txid@.len()
                == 32,
            forall|i: int| 0 <= i < outputs@.len() ==> (#[trigger] outputs@[i]).asset@.len() == 32,
            forall|i: int| 0 <= i < prevouts@.len() ==> (#[trigger] prevouts@[i]).asset@.len()
                == 32,
        ensures
            r.spec_inputs() == seq_view(inputs@),
            r.spec_outputs() == seq_view(outputs@),
            r.spec_prevouts() == seq_view(prevouts@),
    {
        let etx = elements::Transaction {
            version: 2,
            lock_time: elements::LockTime::ZERO,
            input: inputs.iter().map(to_elements_txin).collect(),
            output: outputs.iter().map(to_elements_txout).collect(),
        };
        let pv: Vec<elements::TxOut> = prevouts.iter().map(to_elements_txout).collect();
        let handle = SighashCacheHandle {
            cache: simplicity::sighash::SighashCache::new(std::rc::Rc::new(etx)),
            prevouts: pv,
        };
        SighashComputer { inputs, outputs, prevouts, handle }
    }

    /// The key-spend signature hash of one input. Relies on the ledger
    /// library's `taproot_key_spend_signature_hash` under `SIGHASH_ALL`:
    /// the hash is a function of the transaction model, the prevouts, the
    /// input index and the genesis hash alone.
    #[verifier::external_body]
    pub fn key_spend_sighash(&mut self, index: usize, genesis: &Vec<u8>) -> (r: Vec<u8>)
        requires
            index < old(self).spec_inputs().len(),
            old(self).spec_prevouts().len() == old(self).spec_inputs().len(),
            genesis@.len() == 32,
        ensures
            r@ == key_spend_sighash_of(
                old(self).spec_inputs(),
                old(self).spec_outputs(),
                old(self).spec_prevouts(),
                index as int,
                genesis@,
            ),
            r@.len() == 32,
            final(self).spec_inputs() == old(self).spec_inputs(),
            final(self).spec_outputs() == old(self).spec_outputs(),
            final(self).spec_prevouts() == old(self).spec_prevouts(),
    {
        let genesis_bytes: [u8; 32] = genesis.as_slice().try_into().expect("32-byte hash");
        let genesis_hash = elements::BlockHash::from_byte_array(genesis_bytes);
        let handle = &mut self.handle;
        let prev = elements::sighash::Prevouts::All(handle.prevouts.as_slice());
        let h = handle
            .cache
            .taproot_key_spend_signature_hash(
                index,
                &prev,
                elements::sighash::SchnorrSighashType::All,
                genesis_hash,
            )
            .expect("valid input index and matching prevouts");
        let bytes: &[u8] = h.as_ref();
        bytes.to_vec()
    }
}

// ---------------------------------------------------------------------------
// The transaction builder and signer.
// ---------------------------------------------------------------------------

/// The witness stack of a key-path spend: one Schnorr signature with the
/// `SIGHASH_ALL` tag byte.
pub open spec fn spec_keyed_stack(sig: Seq<u8>) -> Seq<Seq<u8>> {
    seq![sig.push(1u8)]
}

/// The witness stack of a leaf-path spend: the witness encoding, the
/// program encoding, the leaf script (the raw program root) and the
/// control block of the single leaf.
pub open spec fn spec_opaque_stack(program: Seq<u8>, witness: Seq<u8>, root: Seq<u8>) -> Seq<
    Seq<u8>,
> {
    seq![witness, program, root, control_block_of(spec_unspendable_x(), root)]
}

/// The witness stack of one input, resolved against the wallet: a keyed
/// input needs a signing keypair found by key lookup; an opaque input
/// needs a stored unlocking witness. Nothing if the required material is
/// missing.
pub open spec fn spec_input_stack(
    descriptor: CommitmentOutputV,
    inputs: Seq<TxInputV>,
    outputs: Seq<TxOutputV>,
    prevouts: Seq<TxOutputV>,
    index: int,
    k: DescriptorSecretKey,
    cursor: u32,
    entries: Seq<AssemblyEntry>,
    genesis: Seq<u8>,
) -> Option<Seq<Seq<u8>>> {
    match descriptor {
        CommitmentOutputV::Keyed { internal_key } => {
            match spec_lookup_from(k, 0, cursor, internal_key) {
                None => None,
                Some(hit) => {
                    let sk = spec_hit_secret(k, hit.0, hit.1);
                    let sighash = key_spend_sighash_of(inputs, outputs, prevouts, index, genesis);
                    Some(spec_keyed_stack(schnorr_sig_of(sk, sighash)))
                },
            }
        },
        CommitmentOutputV::Opaque { root } => {
            match spec_satisfaction(entries, root) {
                None => None,
                Some(w) => Some(spec_opaque_stack(w.0, w.1, root)),
            }
        },
    }
}

/// The witness stacks of the first `n` inputs, or nothing if any of them
/// lacks its material.
pub open spec fn spec_sign_stacks(
    descriptors: Seq<CommitmentOutputV>,
    inputs: Seq<TxInputV>,
    outputs: Seq<TxOutputV>,
    prevouts: Seq<TxOutputV>,
    k: DescriptorSecretKey,
    cursor: u32,
    entries: Seq<AssemblyEntry>,
    genesis: Seq<u8>,
    n: int,
) -> Option<Seq<Seq<Seq<u8>>>>
    decreases n,
{
    if n <= 0 {
        Some(Seq::empty())
    } else {
        match spec_sign_stacks(
            descriptors,
            inputs,
            outputs,
            prevouts,
            k,
            cursor,
            entries,
            genesis,
            n - 1,
        ) {
            None => None,
            Some(rest) => match spec_input_stack(
                descriptors[n - 1],
                inputs,
                outputs,
                prevouts,
                n - 1,
                k,
                cursor,
                entries,
                genesis,
            ) {
                None => None,
                Some(st) => Some(rest.push(st)),
            },
        }
    }
}

/// The views of a witness stack.
pub open spec fn stack_view(s: Seq<Vec<u8>>) -> Seq<Seq<u8>> {
    s.map_values(|v: Vec<u8>| v@)
}

/// The views of all witness stacks.
pub open spec fn stacks_view(s: Seq<Vec<Vec<u8>>>) -> Seq<Seq<Seq<u8>>> {
    s.map_values(|v: Vec<Vec<u8>>| stack_view(v@))
}

/// A fully signed transaction: the model transaction with one witness
/// stack per input.
#[derive(Clone, Debug)]
pub struct SignedTransaction {
    pub inputs: Vec<TxInput>,
    pub outputs: Vec<TxOutput>,
    pub witnesses: Vec<Vec<Vec<u8>>>,
}

/// A field-for-field copy of a sequence of inputs.
fn copy_txins(v: &Vec<TxInput>) -> (r: Vec<TxInput>)
    ensures
        r@.len() == v@.len(),
        seq_view(r@) == seq_view(v@),
        forall|i: int| 0 <= i < v@.len() ==> (#[trigger] r@[i])@ == v@[i]@,
{
    let mut r: Vec<TxInput> = Vec::new();
    let n = v.len();
    let mut i: usize = 0;
    while i < n
        invariant
            n == v@.len(),
            i <= n,
            r@.len() == i,
            forall|j: int| 0 <= j < i ==> (#[trigger] r@[j])@ == v@[j]@,
        decreases n - i,
    {
        r.push(
            TxInput {
                prevout_txid: v[i].prevout_txid.clone(),
                prevout_vout: v[i].prevout_vout,
                sequence: v[i].sequence,
            },
        );
        i += 1;
    }
    proof {
        assert(seq_view(r@) =~= seq_view(v@));
    }
    r
}

/// A field-for-field copy of a sequence of outputs.
fn copy_txouts(v: &Vec<TxOutput>) -> (r: Vec<TxOutput>)
    ensures
        r@.len() == v@.len(),
        seq_view(r@) == seq_view(v@),
        forall|i: int| 0 <= i < v@.len() ==> (#[trigger] r@[i])@ == v@[i]@,
{
    let mut r: Vec<TxOutput> = Vec::new();
    let n = v.len();
    let mut i: usize = 0;
    while i < n
        invariant
            n == v@.len(),
            i <= n,
            r@.len() == i,
            forall|j: int| 0 <= j < i ==> (#[trigger] r@[j])@ == v@[j]@,
        decreases n - i,
    {
        r.push(
            TxOutput {
                asset: v[i].asset.clone(),
                value: v[i].value,
                script_pubkey: v[i].script_pubkey.clone(),
            },
        );
        i += 1;
    }
    proof {
        assert(seq_view(r@) =~= seq_view(v@));
    }
    r
}

/// The transaction builder: inputs, their spending conditions and
/// prevouts, and outputs accumulate; `sign` resolves material per input
/// and attaches witnesses in a second pass.
pub struct TransactionBuilder {
    pub inputs: Vec<TxInput>,
    pub descriptors: Vec<CommitmentOutput>,
    pub prevouts: Vec<TxOutput>,
    pub outputs: Vec<TxOutput>,
    pub network: Network,
}

impl TransactionBuilder {
    /// Well-formedness: one descriptor and one prevout per input, all
    /// descriptors well-formed, and the byte fields sized for the ledger.
    pub open spec fn wf(&self) -> bool {
        &&& self.descriptors@.len() == self.inputs@.len()
        &&& self.prevouts@.len() == self.inputs@.len()
        &&& forall|i: int| 0 <= i < self.descriptors@.len() ==> (#[trigger] self.descriptors@[i]).wf()
        &&& forall|i: int| 0 <= i < self.inputs@.len() ==> (#[trigger] self.inputs@[i]).prevout_txid@.len() == 32
        &&& forall|i: int| 0 <= i < self.outputs@.len() ==> (#[trigger] self.outputs@[i]).asset@.len() == 32
        &&& forall|i: int| 0 <= i < self.prevouts@.len() ==> (#[trigger] self.prevouts@[i]).asset@.len() == 32
    }

    /// An empty builder for a network.
    pub fn new(network: Network) -> (r: TransactionBuilder)
        ensures
            r.wf(),
            r.inputs@.len() == 0,
            r.descriptors@.len() == 0,
            r.prevouts@.len() == 0,
            r.outputs@.len() == 0,
            r.network == network,
    {
        TransactionBuilder {
            inputs: Vec::new(),
            descriptors: Vec::new(),
            prevouts: Vec::new(),
            outputs: Vec::new(),
            network,
        }
    }

    /// Add one input with its spending condition and prevout.
    pub fn add_input(&mut self, input: Input)
        requires
            old(self).wf(),
            input.descriptor.wf(),
            input.input.prevout_txid@.len() == 32,
            input.prevout.asset@.len() == 32,
        ensures
            final(self).wf(),
            final(self).inputs@ == old(self).inputs@.push(input.input),
            final(self).descriptors@ == old(self).descriptors@.push(input.descriptor),
            final(self).prevouts@ == old(self).prevouts@.push(input.prevout),
            final(self).outputs@ == old(self).outputs@,
            final(self).network == old(self).network,
    {
        self.inputs.push(input.input);
        self.descriptors.push(input.descriptor);
        self.prevouts.push(input.prevout);
    }

    /// Add one output.
    pub fn add_output(&mut self, output: TxOutput)
        requires
            old(self).wf(),
            output.asset@.len() == 32,
        ensures
            final(self).wf(),
            final(self).outputs@ == old(self).outputs@.push(output),
            final(self).inputs@ == old(self).inputs@,
            final(self).descriptors@ == old(self).descriptors@,
            final(self).prevouts@ == old(self).prevouts@,
            final(self).network == old(self).network,
    {
        self.outputs.push(output);
    }

    /// Add the explicit fee output: the output with an empty script
    /// carrying the fee amount in the network's pegged asset.
    pub fn add_fee(&mut self, amount: u64)
        requires
            old(self).wf(),
        ensures
            final(self).wf(),
            final(self).outputs@.len() == old(self).outputs@.len() + 1,
            seq_view(final(self).outputs@) == seq_view(old(self).outputs@).push(
                TxOutputV {
                    asset: spec_bitcoin_id(old(self).network),
                    value: amount,
                    script_pubkey: Seq::empty(),
                },
            ),
            final(self).inputs@ == old(self).inputs@,
            final(self).descriptors@ == old(self).descriptors@,
            final(self).prevouts@ == old(self).prevouts@,
            final(self).network == old(self).network,
    {
        let asset = self.network.bitcoin_id();
        let output = TxOutput { asset, value: amount, script_pubkey: Vec::new() };
        let ghost go = output;
        self.outputs.push(output);
        proof {
            assert(seq_view(self.outputs@) =~= seq_view(old(self).outputs@).push(go@));
            assert(go@ == (TxOutputV {
                asset: spec_bitcoin_id(old(self).network),
                value: amount,
                script_pubkey: Seq::empty(),
            }));
        }
    }

    /// Sign every input against the wallet, in input order: a keyed input
    /// gets a key-path signature over the cached signature hash; an opaque
    /// input gets its stored witness, leaf script and control block. If
    /// any input lacks its material, the whole signing fails and no
    /// partial transaction is returned. Witnesses are attached in a second
    /// pass, after all hashes are computed.
    pub fn sign(&self, state: &State) -> (r: Option<SignedTransaction>)
        requires
            self.wf(),
            state.wf(),
        ensures
            match r {
                Some(tx) => {
                    &&& match spec_sign_stacks(
                        seq_view(self.descriptors@),
                        seq_view(self.inputs@),
                        seq_view(self.outputs@),
                        seq_view(self.prevouts@),
                        state.xpriv,
                        state.next_index,
                        state.assembly.entries@,
                        spec_genesis_hash(state.network),
                        self.descriptors@.len() as int,
                    ) {
                        Some(stacks) => stacks_view(tx.witnesses@) == stacks,
                        None => false,
                    }
                    &&& seq_view(tx.inputs@) == seq_view(self.inputs@)
                    &&& seq_view(tx.outputs@) == seq_view(self.outputs@)
                    &&& tx.witnesses@.len() == self.inputs@.len()
                },
                None => spec_sign_stacks(
                    seq_view(self.descriptors@),
                    seq_view(self.inputs@),
                    seq_view(self.outputs@),
                    seq_view(self.prevouts@),
                    state.xpriv,
                    state.next_index,
                    state.assembly.entries@,
                    spec_genesis_hash(state.network),
                    self.descriptors@.len() as int,
                ) is None,
            },
    {
        let ghost gdescriptors = seq_view(self.descriptors@);
        let ghost ginputs = seq_view(self.inputs@);
        let ghost goutputs = seq_view(self.outputs@);
        let ghost gprevouts = seq_view(self.prevouts@);
        let ghost ggenesis = spec_genesis_hash(state.network);
        let genesis = state.network().genesis_hash();
        let mut hasher = SighashComputer::new(
            copy_txins(&self.inputs),
            copy_txouts(&self.outputs),
            copy_txouts(&self.prevouts),
        );
        let n = self.descriptors.len();
        let mut witnesses: Vec<Vec<Vec<u8>>> = Vec::new();
        let mut i: usize = 0;
        while i < n
            invariant
                self.wf(),
                state.wf(),
                n == self.descriptors@.len(),
                i <= n,
                witnesses@.len() == i,
                gdescriptors == seq_view(self.descriptors@),
                ginputs == seq_view(self.inputs@),
                goutputs == seq_view(self.outputs@),
                gprevouts == seq_view(self.prevouts@),
                genesis@ == ggenesis,
                ggenesis == spec_genesis_hash(state.network),
                genesis@.len() == 32,
                hasher.spec_inputs() == ginputs,
                hasher.spec_outputs() == goutputs,
                hasher.spec_prevouts() == gprevouts,
                spec_sign_stacks(
                    gdescriptors,
                    ginputs,
                    goutputs,
                    gprevouts,
                    state.xpriv,
                    state.next_index,
                    state.assembly.entries@,
                    ggenesis,
                    i as int,
                ) == Some(stacks_view(witnesses@)),
            decreases n - i,
        {
            let ghost gprefix = stacks_view(witnesses@);
            let stack: Vec<Vec<u8>> = match &self.descriptors[i] {
                CommitmentOutput::Keyed { internal_key } => {
                    let kp = match state.get_keypair(internal_key) {
                        Some(kp) => kp,
                        None => {
                            proof {
                                assert(spec_input_stack(
                                    gdescriptors[i as int],
                                    ginputs,
                                    goutputs,
                                    gprevouts,
                                    i as int,
                                    state.xpriv,
                                    state.next_index,
                                    state.assembly.entries@,
                                    ggenesis,
                                ) is None);
                                lemma_sign_stacks_none(
                                    gdescriptors,
                                    ginputs,
                                    goutputs,
                                    gprevouts,
                                    state.xpriv,
                                    state.next_index,
                                    state.assembly.entries@,
                                    ggenesis,
                                    i as int + 1,
                                    n as int,
                                );
                            }
                            return None;
                        },
                    };
                    let sighash = hasher.key_spend_sighash(i, &genesis);
                    let mut sig = schnorr_sign(&kp.secret, &sighash);
                    sig.push(1u8);
                    let item = sig;
                    let stack: Vec<Vec<u8>> = vec![item];
                    stack
                },
                CommitmentOutput::Opaque { root } => {
                    let w = match state.assembly().get_satisfaction(root) {
                        Some(w) => w,
                        None => {
                            proof {
                                assert(spec_input_stack(
                                    gdescriptors[i as int],
                                    ginputs,
                                    goutputs,
                                    gprevouts,
                                    i as int,
                                    state.xpriv,
                                    state.next_index,
                                    state.assembly.entries@,
                                    ggenesis,
                                ) is None);
                                lemma_sign_stacks_none(
                                    gdescriptors,
                                    ginputs,
                                    goutputs,
                                    gprevouts,
                                    state.xpriv,
                                    state.next_index,
                                    state.assembly.entries@,
                                    ggenesis,
                                    i as int + 1,
                                    n as int,
                                );
                            }
                            return None;
                        },
                    };
                    let internal = unspendable_x_bytes();
                    let cb = taproot_control_block(&internal, root);
                    let stack: Vec<Vec<u8>> = vec![w.witness, w.program, root.clone(), cb];
                    stack
                },
            };
            proof {
                assert(spec_input_stack(
                    gdescriptors[i as int],
                    ginputs,
                    goutputs,
                    gprevouts,
                    i as int,
                    state.xpriv,
                    state.next_index,
                    state.assembly.entries@,
                    ggenesis,
                ) == Some(stack_view(stack@)));
            }
            witnesses.push(stack);
            proof {
                assert(stacks_view(witnesses@) =~= gprefix.push(
                    stack_view(witnesses@[witnesses@.len() - 1]@),
                ));
            }
            i += 1;
        }
        Some(
            SignedTransaction {
                inputs: copy_txins(&self.inputs),
                outputs: copy_txouts(&self.outputs),
                witnesses,
            },
        )
    }
}

/// Once one input's material is missing, signing fails for every longer
/// prefix too.
pub proof fn lemma_sign_stacks_none(
    descriptors: Seq<CommitmentOutputV>,
    inputs: Seq<TxInputV>,
    outputs: Seq<TxOutputV>,
    prevouts: Seq<TxOutputV>,
    k: DescriptorSecretKey,
    cursor: u32,
    entries: Seq<AssemblyEntry>,
    genesis: Seq<u8>,
    m: int,
    n: int,
)
    requires
        0 < m <= n,
        spec_sign_stacks(descriptors, inputs, outputs, prevouts, k, cursor, entries, genesis, m)
            is None,
    ensures
        spec_sign_stacks(descriptors, inputs, outputs, prevouts, k, cursor, entries, genesis, n)
            is None,
    decreases n - m,
{
    if m < n {
        lemma_sign_stacks_none(
            descriptors,
            inputs,
            outputs,
            prevouts,
            k,
            cursor,
            entries,
            genesis,
            m + 1,
            n,
        );
    }
}

/// Signing is deterministic: for one transaction model and one wallet
/// state, any two successful signings carry the same witness stacks,
/// because the stacks are a function of the models alone.
pub proof fn lemma_signing_deterministic(
    t1: SignedTransaction,
    t2: SignedTransaction,
    descriptors: Seq<CommitmentOutputV>,
    inputs: Seq<TxInputV>,
    outputs: Seq<TxOutputV>,
    prevouts: Seq<TxOutputV>,
    k: DescriptorSecretKey,
    cursor: u32,
    entries: Seq<AssemblyEntry>,
    genesis: Seq<u8>,
    n: int,
)
    requires
        spec_sign_stacks(descriptors, inputs, outputs, prevouts, k, cursor, entries, genesis, n)
            == Some(stacks_view(t1.witnesses@)),
        spec_sign_stacks(descriptors, inputs, outputs, prevouts, k, cursor, entries, genesis, n)
            == Some(stacks_view(t2.witnesses@)),
    ensures
        stacks_view(t1.witnesses@) == stacks_view(t2.witnesses@),
{
}


// ---------------------------------------------------------------------------
// The whole spend: select, build, sign.
// ---------------------------------------------------------------------------

/// Whether an unspent output is shaped for spending: a well-formed
/// spending condition and a 32-byte transaction id.
pub open spec fn utxo_form_ok(u: Utxo) -> bool {
    u.descriptor.wf() && u.outpoint.txid@.len() == 32
}

/// The spending-condition values of a sequence of unspent outputs.
pub open spec fn utxo_descriptor_views(s: Seq<Utxo>) -> Seq<CommitmentOutputV> {
    s.map_values(|u: Utxo| u.descriptor@)
}

/// The prevout values of a sequence of unspent outputs in the given asset.
pub open spec fn utxo_prevout_views(s: Seq<Utxo>, asset: Seq<u8>) -> Seq<TxOutputV> {
    s.map_values(
        |u: Utxo| TxOutputV {
            asset: asset,
            value: u.amount,
            script_pubkey: u.descriptor.spec_script_pubkey(),
        },
    )
}

/// The input records of a planned spend of the given unspent outputs:
/// each references its outpoint with the maximal sequence number.
pub open spec fn spec_spend_inputs(utxos: Seq<Utxo>) -> Seq<TxInputV> {
    utxos.map_values(
        |u: Utxo| TxInputV {
            prevout_txid: u.outpoint.txid@,
            prevout_vout: u.outpoint.vout,
            sequence: u32::MAX,
        },
    )
}

/// The three outputs of a planned spend: the payment, the change and the
/// explicit (empty-script) fee output, all in the network's pegged asset.
pub open spec fn spec_spend_outputs(
    n: Network,
    amount: u64,
    change: u64,
    fee: u64,
    pay_spk: Seq<u8>,
    change_spk: Seq<u8>,
) -> Seq<TxOutputV> {
    seq![
        TxOutputV { asset: spec_bitcoin_id(n), value: amount, script_pubkey: pay_spk },
        TxOutputV { asset: spec_bitcoin_id(n), value: change, script_pubkey: change_spk },
        TxOutputV { asset: spec_bitcoin_id(n), value: fee, script_pubkey: Seq::empty() },
    ]
}

/// The witness-stack resolution of the whole planned spend against the
/// wallet before the spend: the first `k` unspent outputs are selected,
/// the change pays the child key at the pre-spend cursor, and the signer
/// runs under the advanced cursor. Nothing if any input lacks material.
pub open spec fn spec_spend_stacks(st: State, utxos: Seq<Utxo>, send_to: Payment, k: int) -> Option<
    Seq<Seq<Seq<u8>>>,
> {
    let sel = utxos.take(k);
    let target = send_to.amount + st.fee;
    let total = spec_total(sel);
    spec_sign_stacks(
        utxo_descriptor_views(sel),
        spec_spend_inputs(sel),
        spec_spend_outputs(
            st.network,
            send_to.amount,
            (total - target) as u64,
            st.fee,
            addr_spk_of(send_to.address@).unwrap(),
            spk_of(spec_child_pubkey_x(st.xpriv, st.next_index), None),
        ),
        utxo_prevout_views(sel, spec_bitcoin_id(st.network)),
        st.xpriv,
        ((st.next_index + 1) as u32),
        st.assembly.entries@,
        spec_genesis_hash(st.network),
        k,
    )
}

/// Build and sign a payment out of the given unspent outputs: derive a
/// fresh change output, select coins first-fit to cover amount plus fee,
/// emit the payment, the change and the explicit fee output, and sign
/// every input. The remote round-trips (scanning for the outputs and
/// broadcasting the result) happen outside this core.
pub fn send_to_address(state: &mut State, utxo_set: UtxoSet, send_to: Payment) -> (r: Result<
    SignedTransaction,
    Error,
>)
    requires
        old(state).wf(),
    ensures
        final(state).wf(),
        final(state).xpriv == old(state).xpriv,
        final(state).assembly == old(state).assembly,
        final(state).fee == old(state).fee,
        final(state).network == old(state).network,
        final(state).rpc == old(state).rpc,
        match r {
            Ok(tx) => {
                let k = tx.inputs@.len() as int;
                let target = send_to.amount + old(state).fee;
                let total = spec_total(utxo_set.0@.take(k));
                &&& old(state).next_index < crate::keys::HARDENED_BOUNDARY
                &&& final(state).next_index == old(state).next_index + 1
                &&& spec_total(utxo_set.0@) <= u64::MAX
                &&& target <= u64::MAX
                &&& spec_total(utxo_set.0@) >= target
                &&& k <= utxo_set.0@.len()
                &&& total >= target
                &&& forall|j: int| 0 <= j < k ==> spec_total(#[trigger] utxo_set.0@.take(j)) < target
                &&& forall|j: int|
                    0 <= j < k ==> (#[trigger] tx.inputs@[j])@ == (TxInputV {
                        prevout_txid: utxo_set.0@[j].outpoint.txid@,
                        prevout_vout: utxo_set.0@[j].outpoint.vout,
                        sequence: u32::MAX,
                    })
                &&& tx.outputs@.len() == 3
                &&& addr_spk_of(send_to.address@) matches Some(pay_spk) && tx.outputs@[0]@ == (
                TxOutputV {
                    asset: spec_bitcoin_id(old(state).network),
                    value: send_to.amount,
                    script_pubkey: pay_spk,
                })
                &&& tx.outputs@[1]@.asset == spec_bitcoin_id(old(state).network)
                &&& tx.outputs@[1]@.value == total - target
                &&& tx.outputs@[2]@ == (TxOutputV {
                    asset: spec_bitcoin_id(old(state).network),
                    value: old(state).fee,
                    script_pubkey: Seq::empty(),
                })
                &&& total == send_to.amount + tx.outputs@[1]@.value + old(state).fee
                &&& match spec_spend_stacks(*old(state), utxo_set.0@, send_to, k) {
                    Some(stacks) => stacks_view(tx.witnesses@) == stacks,
                    None => false,
                }
            },
            Err(e) => match e {
                Error::IndexExhausted(_) => old(state).next_index
                    >= crate::keys::HARDENED_BOUNDARY && *final(state) == *old(state),
                Error::Derivation | Error::InvalidChildIndex(_) => old(state).next_index
                    < crate::keys::HARDENED_BOUNDARY && final(state).next_index == old(
                    state,
                ).next_index + 1 && !spec_child_ok(old(state).xpriv, old(state).next_index),
                Error::CouldNotParse(d) => {
                    &&& old(state).next_index < crate::keys::HARDENED_BOUNDARY
                    &&& final(state).next_index == old(state).next_index + 1
                    &&& ((d@ == "malformed unspent output"@ && (exists|j: int|
                        0 <= j < utxo_set.0@.len() && !utxo_form_ok(#[trigger] utxo_set.0@[j])))
                        || (d@ == "amounts overflow"@ && spec_total(utxo_set.0@) > u64::MAX) || (
                    d@ == "malformed address"@ && addr_spk_of(send_to.address@) is None))
                },
                Error::NotEnoughFunds => old(state).next_index < crate::keys::HARDENED_BOUNDARY
                    && final(state).next_index == old(state).next_index + 1 && spec_total(
                    utxo_set.0@,
                ) < send_to.amount + old(state).fee,
                Error::CouldNotSatisfy => {
                    &&& old(state).next_index < crate::keys::HARDENED_BOUNDARY
                    &&& final(state).next_index == old(state).next_index + 1
                    &&& spec_total(utxo_set.0@) >= send_to.amount + old(state).fee
                    &&& addr_spk_of(send_to.address@) is Some
                    &&& exists|kk: int|
                        {
                            &&& 0 <= kk <= utxo_set.0@.len()
                            &&& spec_total(utxo_set.0@.take(kk)) >= send_to.amount + old(
                                state,
                            ).fee
                            &&& forall|j: int|
                                0 <= j < kk ==> spec_total(#[trigger] utxo_set.0@.take(j))
                                    < send_to.amount + old(state).fee
                            &&& (#[trigger] spec_spend_stacks(
                                *old(state),
                                utxo_set.0@,
                                send_to,
                                kk,
                            )) is None
                        }
                },
                _ => false,
            },
        },
{
    let ghost gold = *state;
    let change_descriptor = match state.next_child_descriptor() {
        Ok(out) => out,
        Err(e) => {
            return Err(e);
        },
    };
    let n = utxo_set.0.len();
    let mut i: usize = 0;
    while i < n
        invariant
            n == utxo_set.0@.len(),
            i <= n,
            forall|j: int| 0 <= j < i ==> utxo_form_ok(#[trigger] utxo_set.0@[j]),
            state.wf(),
            state.xpriv == old(state).xpriv,
            state.assembly == old(state).assembly,
            state.fee == old(state).fee,
            state.rpc == old(state).rpc,
            state.network == old(state).network,
            state.next_index == old(state).next_index + 1,
            old(state).next_index < crate::keys::HARDENED_BOUNDARY,
        decreases n - i,
    {
        if !output_wf_check(&utxo_set.0[i].descriptor) || utxo_set.0[i].outpoint.txid.len() != 32 {
            proof {
                assert(!utxo_form_ok(utxo_set.0@[i as int]));
            }
            return Err(Error::CouldNotParse(String::from_str("malformed unspent output")));
        }
        i += 1;
    }
    if utxo_set.checked_total().is_none() {
        return Err(Error::CouldNotParse(String::from_str("amounts overflow")));
    }
    let fee = state.fee();
    let target = match send_to.amount.checked_add(fee) {
        Some(t) => t,
        None => {
            return Err(Error::NotEnoughFunds);
        },
    };
    let (selection, available) = match utxo_set.select_coins(target) {
        Some(sel) => sel,
        None => {
            return Err(Error::NotEnoughFunds);
        },
    };
    let ghost gselection = selection.0@;
    let ghost k = selection.0@.len() as int;
    let network = state.network();
    let bitcoin_id = network.bitcoin_id();
    let payment_out = match send_to.to_output(bitcoin_id.clone()) {
        Ok(o) => o,
        Err(e) => {
            return Err(e);
        },
    };
    let change_spk = script_pubkey(&change_descriptor);
    let change_out = TxOutput {
        asset: bitcoin_id.clone(),
        value: available - send_to.amount - fee,
        script_pubkey: change_spk,
    };
    proof {
        assert forall|t: int| 0 <= t < gselection.len() implies utxo_form_ok(
            #[trigger] gselection[t],
        ) by {
            assert(gselection[t].eqv(&utxo_set.0@[t]));
            lemma_eqv_props(&gselection[t].descriptor, &utxo_set.0@[t].descriptor);
            assert(utxo_form_ok(utxo_set.0@[t]));
        }
    }
    let mut builder = TransactionBuilder::new(network);
    let inputs = selection.into_inputs(bitcoin_id);
    let m = inputs.len();
    let mut j: usize = 0;
    while j < m
        invariant
            m == inputs@.len(),
            m == gselection.len(),
            builder.wf(),
            builder.network == network,
            builder.inputs@.len() == j,
            builder.outputs@.len() == 0,
            j <= m,
            forall|t: int|
                0 <= t < m ==> {
                    let u = gselection[t];
                    let inp = #[trigger] inputs@[t];
                    &&& inp.descriptor.eqv(&u.descriptor)
                    &&& inp.descriptor.wf()
                    &&& inp.input@ == (TxInputV {
                        prevout_txid: u.outpoint.txid@,
                        prevout_vout: u.outpoint.vout,
                        sequence: u32::MAX,
                    })
                    &&& inp.prevout@ == (TxOutputV {
                        asset: spec_bitcoin_id(network),
                        value: u.amount,
                        script_pubkey: u.descriptor.spec_script_pubkey(),
                    })
                },
            forall|t: int| 0 <= t < m ==> utxo_form_ok(#[trigger] gselection[t]),
            forall|t: int| #![trigger builder.inputs@[t]]
                0 <= t < j ==> builder.inputs@[t]@ == inputs@[t].input@,
            forall|t: int| #![trigger builder.descriptors@[t]]
                0 <= t < j ==> builder.descriptors@[t]@ == inputs@[t].descriptor@,
            forall|t: int| #![trigger builder.prevouts@[t]]
                0 <= t < j ==> builder.prevouts@[t]@ == inputs@[t].prevout@,
        decreases m - j,
    {
        let inp = &inputs[j];
        let input = Input {
            descriptor: copy_output(&inp.descriptor),
            input: TxInput {
                prevout_txid: inp.input.prevout_txid.clone(),
                prevout_vout: inp.input.prevout_vout,
                sequence: inp.input.sequence,
            },
            prevout: TxOutput {
                asset: inp.prevout.asset.clone(),
                value: inp.prevout.value,
                script_pubkey: inp.prevout.script_pubkey.clone(),
            },
        };
        proof {
            lemma_eqv_props(&input.descriptor, &inputs@[j as int].descriptor);
            crate::outputs::lemma_eqv_view(&input.descriptor, &inputs@[j as int].descriptor);
            assert(input.input@ == inputs@[j as int].input@);
            assert(input.prevout@ == inputs@[j as int].prevout@);
            assert(input.input.prevout_txid@.len() == 32);
            assert(input.prevout.asset@.len() == 32);
        }
        builder.add_input(input);
        proof {
            assert(builder.inputs@[j as int]@ == inputs@[j as int].input@);
            assert(builder.descriptors@[j as int]@ == inputs@[j as int].descriptor@);
            assert(builder.prevouts@[j as int]@ == inputs@[j as int].prevout@);
        }
        j += 1;
    }
    let ghost gpayment = payment_out;
    let ghost gchange = change_out;
    builder.add_output(payment_out);
    builder.add_output(change_out);
    builder.add_fee(fee);
    let ghost gtarget = send_to.amount + gold.fee;
    let ghost gtotal = spec_total(utxo_set.0@.take(k));
    proof {
        assert(builder.outputs@.len() == 3);
        assert(seq_view(builder.outputs@)[0] == gpayment@);
        assert(seq_view(builder.outputs@)[1] == gchange@);
        assert(seq_view(builder.outputs@)[2] == (TxOutputV {
            asset: spec_bitcoin_id(gold.network),
            value: fee,
            script_pubkey: Seq::empty(),
        }));
        assert(seq_view(builder.descriptors@) =~= utxo_descriptor_views(utxo_set.0@.take(k))) by {
            assert forall|t: int| 0 <= t < k implies seq_view(builder.descriptors@)[t]
                == utxo_descriptor_views(utxo_set.0@.take(k))[t] by {
                assert(builder.descriptors@[t]@ == inputs@[t].descriptor@);
                assert(inputs@[t].descriptor.eqv(&gselection[t].descriptor));
                crate::outputs::lemma_eqv_view(&inputs@[t].descriptor, &gselection[t].descriptor);
                assert(gselection[t].eqv(&utxo_set.0@[t]));
                crate::outputs::lemma_eqv_view(
                    &gselection[t].descriptor,
                    &utxo_set.0@[t].descriptor,
                );
                assert(utxo_set.0@.take(k)[t] == utxo_set.0@[t]);
            }
        }
        assert(seq_view(builder.prevouts@) =~= utxo_prevout_views(
            utxo_set.0@.take(k),
            spec_bitcoin_id(gold.network),
        )) by {
            assert forall|t: int| 0 <= t < k implies seq_view(builder.prevouts@)[t]
                == utxo_prevout_views(utxo_set.0@.take(k), spec_bitcoin_id(gold.network))[t] by {
                assert(builder.prevouts@[t]@ == inputs@[t].prevout@);
                assert(gselection[t].eqv(&utxo_set.0@[t]));
                lemma_eqv_props(&gselection[t].descriptor, &utxo_set.0@[t].descriptor);
                assert(utxo_set.0@.take(k)[t] == utxo_set.0@[t]);
            }
        }
        assert(seq_view(builder.inputs@) =~= spec_spend_inputs(utxo_set.0@.take(k))) by {
            assert forall|t: int| 0 <= t < k implies seq_view(builder.inputs@)[t]
                == spec_spend_inputs(utxo_set.0@.take(k))[t] by {
                assert(builder.inputs@[t]@ == inputs@[t].input@);
                assert(gselection[t].eqv(&utxo_set.0@[t]));
                assert(utxo_set.0@.take(k)[t] == utxo_set.0@[t]);
            }
        }
        assert(gtotal == available as int);
        assert(gchange@.value == (gtotal - gtarget) as u64);
        assert(gchange@.script_pubkey == spk_of(
            spec_child_pubkey_x(gold.xpriv, gold.next_index),
            None,
        ));
        assert(gpayment@.script_pubkey == addr_spk_of(send_to.address@).unwrap());
        assert(seq_view(builder.outputs@) =~= spec_spend_outputs(
            gold.network,
            send_to.amount,
            (gtotal - gtarget) as u64,
            gold.fee,
            addr_spk_of(send_to.address@).unwrap(),
            spk_of(spec_child_pubkey_x(gold.xpriv, gold.next_index), None),
        ));
        assert(state.next_index == ((gold.next_index + 1) as u32));
        assert(builder.descriptors@.len() == k);
        assert(spec_spend_stacks(gold, utxo_set.0@, send_to, k) == spec_sign_stacks(
            seq_view(builder.descriptors@),
            seq_view(builder.inputs@),
            seq_view(builder.outputs@),
            seq_view(builder.prevouts@),
            state.xpriv,
            state.next_index,
            state.assembly.entries@,
            spec_genesis_hash(state.network),
            k,
        ));
    }
    let tx = match builder.sign(state) {
        Some(tx) => tx,
        None => {
            proof {
                assert(spec_spend_stacks(gold, utxo_set.0@, send_to, k) is None);
                assert(exists|kk: int|
                    {
                        &&& 0 <= kk <= utxo_set.0@.len()
                        &&& spec_total(utxo_set.0@.take(kk)) >= send_to.amount + gold.fee
                        &&& forall|j: int|
                            0 <= j < kk ==> spec_total(#[trigger] utxo_set.0@.take(j))
                                < send_to.amount + gold.fee
                        &&& (#[trigger] spec_spend_stacks(gold, utxo_set.0@, send_to, kk))
                            is None
                    }) by {
                    assert(0 <= k <= utxo_set.0@.len());
                    assert(spec_total(utxo_set.0@.take(k)) >= send_to.amount + gold.fee);
                    assert(spec_spend_stacks(gold, utxo_set.0@, send_to, k) is None);
                }
            }
            return Err(Error::CouldNotSatisfy);
        },
    };
    proof {
        assert(seq_view(tx.outputs@) =~= seq_view(builder.outputs@));
        assert(seq_view(tx.outputs@).len() == tx.outputs@.len());
        assert(seq_view(builder.outputs@).len() == builder.outputs@.len());
        assert(tx.outputs@.len() == 3);
        assert forall|t: int| 0 <= t < 3 implies (#[trigger] tx.outputs@[t])@
            == seq_view(builder.outputs@)[t] by {
            assert(seq_view(tx.outputs@)[t] == tx.outputs@[t]@);
        }
        assert(tx.outputs@[0]@ == gpayment@);
        assert(tx.outputs@[1]@ == gchange@);
        assert(seq_view(tx.inputs@) =~= seq_view(builder.inputs@));
        assert(seq_view(tx.inputs@).len() == tx.inputs@.len());
        assert(seq_view(builder.inputs@).len() == builder.inputs@.len());
        assert(tx.inputs@.len() == k);
        assert forall|t: int| 0 <= t < k implies (#[trigger] tx.inputs@[t])@ == (TxInputV {
            prevout_txid: utxo_set.0@[t].outpoint.txid@,
            prevout_vout: utxo_set.0@[t].outpoint.vout,
            sequence: u32::MAX,
        }) by {
            assert(seq_view(tx.inputs@)[t] == tx.inputs@[t]@);
            assert(seq_view(builder.inputs@)[t] == builder.inputs@[t]@);
            assert(tx.inputs@[t]@ == builder.inputs@[t]@);
            assert(builder.inputs@[t]@ == inputs@[t].input@);
            assert(gselection[t].eqv(&utxo_set.0@[t]));
        }
        assert(spec_spend_stacks(gold, utxo_set.0@, send_to, k) matches Some(stacks)
            && stacks_view(tx.witnesses@) == stacks);
    }
    Ok(tx)
}

} // verus!
