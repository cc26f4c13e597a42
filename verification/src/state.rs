use vstd::prelude::*;

use crate::error::Error;
use crate::keys::{
    derive_succeeds, derived_secret_of, is_valid_secret, negated_secret_of, pubkey_of,
    secret_to_public, spec_child_path, DescriptorSecretKey, KeyPair, XOnlyPublicKey,
    HARDENED_BOUNDARY,
};
use crate::network::Network;
use crate::outputs::{
    address_of, copy_output, lemma_eqv_view, script_pubkey, simplicity_pk, CommitmentOutput,
    CommitmentOutputV,
};
use crate::registry::{spec_partition_roots, AssemblySet};
use crate::rpc::{spec_default_connection, Connection};
use crate::util::{bytes_eq, sub_bytes};

verus! {

// ---------------------------------------------------------------------------
// Spec-level description of child keys and key lookup.
// ---------------------------------------------------------------------------

/// The even-y compressed form of an x-only key: prefix byte 2 before the x
/// coordinate.
pub open spec fn spec_lift_even(x: Seq<u8>) -> Seq<u8> {
    seq![2u8] + x
}

/// Whether the child of the root key at `index` can be derived.
pub open spec fn spec_child_ok(k: DescriptorSecretKey, index: u32) -> bool {
    &&& spec_child_path(k, index) is Some
    &&& derive_succeeds(k.seed@, spec_child_path(k, index).unwrap())
}

/// The child secret key of the root key at `index`.
pub open spec fn spec_child_secret(k: DescriptorSecretKey, index: u32) -> Seq<u8> {
    derived_secret_of(k.seed@, spec_child_path(k, index).unwrap())
}

/// The compressed child public key of the root key at `index`.
pub open spec fn spec_child_pubkey(k: DescriptorSecretKey, index: u32) -> Seq<u8> {
    pubkey_of(spec_child_secret(k, index))
}

/// The x-only child public key of the root key at `index`.
pub open spec fn spec_child_pubkey_x(k: DescriptorSecretKey, index: u32) -> Seq<u8> {
    spec_child_pubkey(k, index).skip(1)
}

/// Whether the child key at `i` matches the x-only target: directly (the
/// child's public key is the even-y lift of the target), negated (the
/// negated child matches, because x-only normalization may flip the sign of
/// the derived key), or not at all.
pub open spec fn spec_hit(k: DescriptorSecretKey, i: u32, target: Seq<u8>) -> Option<bool> {
    let sk = spec_child_secret(k, i);
    if pubkey_of(sk) == spec_lift_even(target) {
        Some(false)
    } else if pubkey_of(negated_secret_of(sk)) == spec_lift_even(target) {
        Some(true)
    } else {
        None
    }
}

/// The secret key that a hit at `i` yields: the child secret itself, or its
/// negation when only the negated key matches.
pub open spec fn spec_hit_secret(k: DescriptorSecretKey, i: u32, negated: bool) -> Seq<u8> {
    if negated {
        negated_secret_of(spec_child_secret(k, i))
    } else {
        spec_child_secret(k, i)
    }
}

/// Key lookup is complete: when every child below the cursor can be
/// derived and the scan from `j` reports no match, no index from `j` on
/// matches the target, directly or through the negated (odd-y) twin.
pub proof fn lemma_lookup_complete(k: DescriptorSecretKey, j: u32, n: u32, target: Seq<u8>)
    requires
        j <= n,
        spec_lookup_from(k, j, n, target) is None,
        forall|i: u32| i < n ==> spec_child_ok(k, i),
    ensures
        forall|i: u32| j <= i < n ==> #[trigger] spec_hit(k, i, target) is None,
    decreases n - j,
{
    if j < n {
        assert(spec_child_ok(k, j));
        assert(spec_hit(k, j, target) is None);
        lemma_lookup_complete(k, (j + 1) as u32, n, target);
    }
}

/// The first index in `i .. n` whose child key matches the target, with
/// the sign of the match; nothing if no index matches, and nothing from the
/// first index whose child cannot be derived (the scan stops there).
pub open spec fn spec_lookup_from(
    k: DescriptorSecretKey,
    i: u32,
    n: u32,
    target: Seq<u8>,
) -> Option<(u32, bool)>
    decreases n - i,
    when i <= n
{
    if i >= n {
        None
    } else if !spec_child_ok(k, i) {
        None
    } else {
        match spec_hit(k, i, target) {
            Some(neg) => Some((i, neg)),
            None => spec_lookup_from(k, (i + 1) as u32, n, target),
        }
    }
}

// ---------------------------------------------------------------------------
// Copy helpers.
// ---------------------------------------------------------------------------

/// A field-for-field copy of the root key.
pub fn copy_root_key(k: &DescriptorSecretKey) -> (r: DescriptorSecretKey)
    ensures
        r.seed@ == k.seed@,
        r.path@ == k.path@,
        r.wildcard == k.wildcard,
{
    DescriptorSecretKey { seed: k.seed.clone(), path: k.path.clone(), wildcard: k.wildcard }
}

// ---------------------------------------------------------------------------
// The wallet state.
// ---------------------------------------------------------------------------

/// The persisted wallet aggregate: the root key material (logically one
/// root pair), the keyed-output derivation cursor, the assembly registry,
/// the fee, the remote endpoint and the network selector.
#[derive(Clone, Debug)]
pub struct State {
    pub xpriv: DescriptorSecretKey,
    pub next_index: u32,
    pub assembly: AssemblySet,
    pub fee: u64,
    pub rpc: Connection,
    pub network: Network,
}

impl State {
    /// Well-formedness: the cursor never passes the hardened boundary and
    /// the registry is well-formed.
    pub open spec fn wf(&self) -> bool {
        self.next_index <= HARDENED_BOUNDARY && self.assembly.wf()
    }

    /// The root key.
    pub open spec fn spec_xpriv(&self) -> DescriptorSecretKey {
        self.xpriv
    }

    /// The derivation cursor.
    pub open spec fn spec_next_index(&self) -> u32 {
        self.next_index
    }

    /// The registry.
    pub open spec fn spec_assembly(&self) -> AssemblySet {
        self.assembly
    }

    /// The fee in the smallest unit.
    pub open spec fn spec_fee(&self) -> u64 {
        self.fee
    }

    /// The network selector.
    pub open spec fn spec_network(&self) -> Network {
        self.network
    }

    /// A fresh wallet around a root key: cursor zero, empty registry,
    /// default fee, the default loopback endpoint, testnet.
    pub fn new(xpriv: DescriptorSecretKey) -> (r: State)
        ensures
            r.wf(),
            r.xpriv == xpriv,
            r.next_index == 0,
            r.assembly.entries@.len() == 0,
            r.fee == 1000,
            spec_default_connection(&r.rpc),
            r.network == Network::Testnet,
    {
        State {
            xpriv,
            next_index: 0,
            assembly: AssemblySet::new(),
            fee: 1000,
            rpc: Connection::default(),
            network: Network::Testnet,
        }
    }

    /// Rebuild a wallet from its persisted parts.
    pub fn from_parts(
        xpriv: DescriptorSecretKey,
        next_index: u32,
        assembly: AssemblySet,
        fee: u64,
        rpc: Connection,
        network: Network,
    ) -> (r: Result<State, Error>)
        requires
            assembly.wf(),
        ensures
            match r {
                Ok(s) => s.wf() && s.xpriv == xpriv && s.next_index == next_index && s.assembly
                    == assembly && s.fee == fee && s.network == network && next_index
                    <= HARDENED_BOUNDARY,
                Err(e) => next_index > HARDENED_BOUNDARY && (e matches Error::InvalidChildIndex(i)
                    && i == next_index),
            },
    {
        if next_index > HARDENED_BOUNDARY {
            return Err(Error::InvalidChildIndex(next_index));
        }
        Ok(State { xpriv, next_index, assembly, fee, rpc, network })
    }

    /// Hand out the next child index and advance the cursor; fails with
    /// `IndexExhausted` once the hardened boundary bit would be set.
    fn take_next_index(&mut self) -> (r: Result<u32, Error>)
        requires
            old(self).wf(),
        ensures
            final(self).wf(),
            final(self).xpriv == old(self).xpriv,
            final(self).assembly == old(self).assembly,
            final(self).fee == old(self).fee,
            final(self).rpc == old(self).rpc,
            final(self).network == old(self).network,
            match r {
                Ok(i) => old(self).next_index < HARDENED_BOUNDARY && i == old(self).next_index
                    && final(self).next_index == old(self).next_index + 1,
                Err(e) => old(self).next_index >= HARDENED_BOUNDARY && *final(self) == *old(self)
                    && (e matches Error::IndexExhausted(n) && n == old(self).next_index),
            },
    {
        let index = self.next_index;
        if index & HARDENED_BOUNDARY == 0 {
            proof {
                assert(index < HARDENED_BOUNDARY) by (bit_vector)
                    requires
                        index & 0x8000_0000u32 == 0,
                ;
            }
            self.next_index = index + 1;
            Ok(index)
        } else {
            proof {
                assert(index >= HARDENED_BOUNDARY) by (bit_vector)
                    requires
                        index & 0x8000_0000u32 != 0,
                ;
            }
            Err(Error::IndexExhausted(index))
        }
    }

    /// The keyed output of the child key at `index`, without moving the
    /// cursor.
    pub fn derive_child_output(&self, index: u32) -> (r: Result<CommitmentOutput, Error>)
        ensures
            match r {
                Ok(out) => spec_child_ok(self.xpriv, index) && (out matches
                    CommitmentOutput::Keyed { internal_key } && internal_key.bytes@
                    == spec_child_pubkey_x(self.xpriv, index)) && out.wf(),
                Err(e) => match e {
                    Error::InvalidChildIndex(_) => spec_child_path(self.xpriv, index) is None,
                    Error::Derivation => spec_child_path(self.xpriv, index) is Some
                        && !derive_succeeds(
                        self.xpriv.seed@,
                        spec_child_path(self.xpriv, index).unwrap(),
                    ),
                    _ => false,
                },
            },
    {
        let child = match copy_root_key(&self.xpriv).at_derivation_index(index) {
            Ok(c) => c,
            Err(e) => {
                return Err(e);
            },
        };
        let sk = match child.to_private_key() {
            Ok(sk) => sk,
            Err(e) => {
                return Err(e);
            },
        };
        let p = match secret_to_public(&sk) {
            Some(p) => p,
            None => {
                return Err(Error::Derivation);
            },
        };
        let x = sub_bytes(p.as_slice(), 1, 33);
        proof {
            assert(x@ == p@.skip(1));
        }
        Ok(simplicity_pk(XOnlyPublicKey { bytes: x }))
    }

    /// The keyed output of the next child key; advances the cursor. Fails
    /// with `IndexExhausted` at the hardened boundary and with `Derivation`
    /// if the key library fails.
    pub fn next_child_descriptor(&mut self) -> (r: Result<CommitmentOutput, Error>)
        requires
            old(self).wf(),
        ensures
            final(self).wf(),
            final(self).xpriv == old(self).xpriv,
            final(self).assembly == old(self).assembly,
            final(self).fee == old(self).fee,
            final(self).rpc == old(self).rpc,
            final(self).network == old(self).network,
            match r {
                Ok(out) => old(self).next_index < HARDENED_BOUNDARY && final(self).next_index
                    == old(self).next_index + 1 && spec_child_ok(old(self).xpriv, old(self).next_index)
                    && (out matches CommitmentOutput::Keyed { internal_key } && internal_key.bytes@
                    == spec_child_pubkey_x(old(self).xpriv, old(self).next_index)) && out.wf(),
                Err(e) => match e {
                    Error::IndexExhausted(n) => old(self).next_index >= HARDENED_BOUNDARY
                        && *final(self) == *old(self) && n == old(self).next_index,
                    Error::InvalidChildIndex(_) | Error::Derivation => old(self).next_index
                        < HARDENED_BOUNDARY && final(self).next_index == old(self).next_index + 1
                        && !spec_child_ok(old(self).xpriv, old(self).next_index),
                    _ => false,
                },
            },
    {
        let index = match self.take_next_index() {
            Ok(i) => i,
            Err(e) => {
                return Err(e);
            },
        };
        self.derive_child_output(index)
    }

    /// The keyed outputs of all child keys below the cursor, in index
    /// order.
    pub fn child_descriptors(&self) -> (r: Result<Vec<CommitmentOutput>, Error>)
        requires
            self.wf(),
        ensures
            r is Ok <==> (forall|i: u32| i < self.next_index ==> spec_child_ok(self.xpriv, i)),
            match r {
                Ok(v) => v@.len() == self.next_index && forall|i: int|
                    0 <= i < v@.len() ==> spec_child_ok(self.xpriv, i as u32) && ((
                    #[trigger] v@[i]) matches CommitmentOutput::Keyed { internal_key }
                        && internal_key.bytes@ == spec_child_pubkey_x(self.xpriv, i as u32))
                        && v@[i].wf(),
                Err(e) => (exists|i: u32| i < self.next_index && !spec_child_ok(self.xpriv, i))
                    && e is Derivation,
            },
    {
        let mut v: Vec<CommitmentOutput> = Vec::new();
        let n = self.next_index;
        let mut i: u32 = 0;
        while i < n
            invariant
                self.wf(),
                n == self.next_index,
                i <= n,
                v@.len() == i,
                forall|j: int|
                    0 <= j < i ==> spec_child_ok(self.xpriv, j as u32) && ((#[trigger] v@[j])
                        matches CommitmentOutput::Keyed { internal_key } && internal_key.bytes@
                        == spec_child_pubkey_x(self.xpriv, j as u32)) && v@[j].wf(),
            decreases n - i,
        {
            let out = match self.derive_child_output(i) {
                Ok(out) => out,
                Err(_) => {
                    proof {
                        assert(!spec_child_ok(self.xpriv, i));
                        assert(exists|j: u32| j < self.next_index && !spec_child_ok(self.xpriv, j))
                            by {
                            assert(i < self.next_index && !spec_child_ok(self.xpriv, i));
                        }
                    }
                    return Err(Error::Derivation);
                },
            };
            v.push(out);
            i += 1;
        }
        proof {
            assert forall|ii: u32| ii < self.next_index implies spec_child_ok(
                self.xpriv,
                ii,
            ) by {
                assert((#[trigger] v@[ii as int]) matches CommitmentOutput::Keyed {
                    internal_key,
                });
            }
        }
        Ok(v)
    }

    /// Find the keypair of a derived public key by scanning every index
    /// below the cursor. Each candidate is tested twice: as derived, and
    /// negated — x-only keys are normalized to even y, and the secret key
    /// from naive derivation may correspond to the odd-y twin. Returns
    /// nothing if no index matches (or if the key library fails).
    pub fn get_keypair(&self, key: &XOnlyPublicKey) -> (r: Option<KeyPair>)
        requires
            self.wf(),
        ensures
            match r {
                Some(kp) => {
                    &&& is_valid_secret(kp.secret@)
                    &&& kp.public@ == pubkey_of(kp.secret@)
                    &&& kp.public@ == spec_lift_even(key.bytes@)
                    &&& match spec_lookup_from(
                        self.spec_xpriv(),
                        0,
                        self.spec_next_index(),
                        key.bytes@,
                    ) {
                        Some(hit) => kp.secret@ == spec_hit_secret(
                            self.spec_xpriv(),
                            hit.0,
                            hit.1,
                        ),
                        None => false,
                    }
                },
                None => spec_lookup_from(
                    self.spec_xpriv(),
                    0,
                    self.spec_next_index(),
                    key.bytes@,
                ) is None,
            },
    {
        let mut target = vec![2u8];
        let mut x = key.bytes.clone();
        target.append(&mut x);
        proof {
            assert(target@ =~= spec_lift_even(key.bytes@));
        }
        let n = self.next_index;
        let mut i: u32 = 0;
        while i < n
            invariant
                self.wf(),
                n == self.spec_next_index(),
                i <= n,
                target@ == spec_lift_even(key.bytes@),
                spec_lookup_from(self.spec_xpriv(), 0, n, key.bytes@) == spec_lookup_from(
                    self.spec_xpriv(),
                    i,
                    n,
                    key.bytes@,
                ),
            decreases n - i,
        {
            let ck = copy_root_key(&self.xpriv);
            let ghost gck = ck;
            proof {
                assert(spec_child_path(gck, i) == spec_child_path(self.xpriv, i));
            }
            let child = match ck.at_derivation_index(i) {
                Ok(c) => c,
                Err(_) => {
                    proof {
                        assert(!spec_child_ok(self.xpriv, i));
                        assert(spec_lookup_from(self.xpriv, i, n, key.bytes@) is None);
                    }
                    return None;
                },
            };
            proof {
                assert(spec_child_path(self.xpriv, i) == Some(child.path@));
            }
            let sk = match child.to_private_key() {
                Ok(sk) => sk,
                Err(_) => {
                    proof {
                        assert(!derive_succeeds(self.xpriv.seed@, child.path@));
                        assert(!spec_child_ok(self.xpriv, i));
                        assert(spec_lookup_from(self.xpriv, i, n, key.bytes@) is None);
                    }
                    return None;
                },
            };
            proof {
                assert(spec_child_ok(self.xpriv, i));
                assert(sk@ == spec_child_secret(self.xpriv, i));
            }
            let p = match secret_to_public(&sk) {
                Some(p) => p,
                None => {
                    proof {
                        assert(false);
                    }
                    return None;
                },
            };
            if bytes_eq(p.as_slice(), target.as_slice()) {
                proof {
                    assert(spec_hit(self.xpriv, i, key.bytes@) == Some(false));
                    assert(spec_lookup_from(self.xpriv, i, n, key.bytes@) == Some((i, false)));
                    assert(sk@ == spec_hit_secret(self.xpriv, i, false));
                }
                return Some(KeyPair { secret: sk, public: p });
            }
            let neg = crate::keys::negate_secret(&sk);
            let np = match secret_to_public(&neg) {
                Some(np) => np,
                None => {
                    proof {
                        assert(false);
                    }
                    return None;
                },
            };
            if bytes_eq(np.as_slice(), target.as_slice()) {
                proof {
                    assert(pubkey_of(sk@) != spec_lift_even(key.bytes@));
                    assert(spec_hit(self.xpriv, i, key.bytes@) == Some(true));
                    assert(spec_lookup_from(self.xpriv, i, n, key.bytes@) == Some((i, true)));
                    assert(neg@ == spec_hit_secret(self.xpriv, i, true));
                }
                return Some(KeyPair { secret: neg, public: np });
            }
            proof {
                assert(spec_hit(self.xpriv, i, key.bytes@) is None);
                assert(spec_lookup_from(self.xpriv, i, n, key.bytes@) == spec_lookup_from(
                    self.xpriv,
                    (i + 1) as u32,
                    n,
                    key.bytes@,
                ));
            }
            i += 1;
        }
        proof {
            assert(spec_lookup_from(self.xpriv, i, n, key.bytes@) is None);
        }
        None
    }

    /// The address of the next child key's keyed output; advances the
    /// cursor.
    pub fn next_address(&mut self) -> (r: Result<String, Error>)
        requires
            old(self).wf(),
        ensures
            final(self).wf(),
            final(self).xpriv == old(self).xpriv,
            final(self).assembly == old(self).assembly,
            final(self).fee == old(self).fee,
            final(self).rpc == old(self).rpc,
            final(self).network == old(self).network,
            match r {
                Ok(a) => old(self).next_index < HARDENED_BOUNDARY
                    && final(self).next_index == old(self).next_index + 1 && a@ == address_of(
                    spec_child_pubkey_x(old(self).xpriv, old(self).next_index),
                    None,
                    old(self).network == Network::Regtest,
                ),
                Err(e) => match e {
                    Error::IndexExhausted(n) => old(self).next_index >= HARDENED_BOUNDARY
                        && *final(self) == *old(self) && n == old(self).next_index,
                    Error::InvalidChildIndex(_) | Error::Derivation => old(self).next_index
                        < HARDENED_BOUNDARY && final(self).next_index == old(self).next_index + 1
                        && !spec_child_ok(old(self).xpriv, old(self).next_index),
                    _ => false,
                },
            },
    {
        let network = self.network;
        let out = match self.next_child_descriptor() {
            Ok(out) => out,
            Err(e) => {
                return Err(e);
            },
        };
        Ok(crate::outputs::address(&out, network))
    }

    /// The registry.
    pub fn assembly(&self) -> (r: &AssemblySet)
        ensures
            r == self.spec_assembly(),
    {
        &self.assembly
    }

    /// The registry, for mutation.
    pub fn assembly_mut(&mut self) -> (r: &mut AssemblySet)
        ensures
            *r == old(self).spec_assembly(),
            final(self).spec_assembly() == *final(r),
            final(self).xpriv == old(self).xpriv,
            final(self).next_index == old(self).next_index,
            final(self).fee == old(self).fee,
            final(self).rpc == old(self).rpc,
            final(self).network == old(self).network,
    {
        &mut self.assembly
    }

    /// The fee in the smallest unit.
    pub fn fee(&self) -> (r: u64)
        ensures
            r == self.spec_fee(),
    {
        self.fee
    }

    /// Set the fee.
    pub fn set_fee(&mut self, fee: u64)
        ensures
            final(self).fee == fee,
            final(self).xpriv == old(self).xpriv,
            final(self).next_index == old(self).next_index,
            final(self).assembly == old(self).assembly,
            final(self).rpc == old(self).rpc,
            final(self).network == old(self).network,
    {
        self.fee = fee;
    }

    /// The remote endpoint.
    pub fn rpc(&self) -> (r: &Connection)
        ensures
            r == self.rpc,
    {
        &self.rpc
    }

    /// Set the remote endpoint.
    pub fn set_rpc(&mut self, rpc: Connection)
        ensures
            final(self).rpc == rpc,
            final(self).xpriv == old(self).xpriv,
            final(self).next_index == old(self).next_index,
            final(self).assembly == old(self).assembly,
            final(self).fee == old(self).fee,
            final(self).network == old(self).network,
    {
        self.rpc = rpc;
    }

    /// The network selector.
    pub fn network(&self) -> (r: Network)
        ensures
            r == self.spec_network(),
    {
        self.network
    }

    /// Set the network selector.
    pub fn set_network(&mut self, network: Network)
        ensures
            final(self).network == network,
            final(self).xpriv == old(self).xpriv,
            final(self).next_index == old(self).next_index,
            final(self).assembly == old(self).assembly,
            final(self).fee == old(self).fee,
            final(self).rpc == old(self).rpc,
    {
        self.network = network;
    }

    /// The outputs this wallet can spend (all child keys below the cursor
    /// and every spendable program root), each paired with its output
    /// script. The remote scan is queried with exactly these scripts.
    pub fn scan_targets(&self) -> (r: Result<Vec<(CommitmentOutput, Vec<u8>)>, Error>)
        requires
            self.wf(),
        ensures
            r is Ok <==> (forall|i: u32|
                i < self.next_index ==> spec_child_ok(self.xpriv, i)),
            match r {
                Ok(v) => {
                    &&& v@.len() == self.next_index + spec_partition_roots(
                        self.assembly.entries@,
                        true,
                    ).len()
                    &&& forall|i: int|
                        0 <= i < self.next_index ==> {
                            let p = #[trigger] v@[i];
                            &&& p.0@ == (CommitmentOutputV::Keyed {
                                internal_key: spec_child_pubkey_x(self.xpriv, i as u32),
                            })
                            &&& p.0.wf()
                            &&& p.1@ == p.0.spec_script_pubkey()
                        }
                    &&& forall|j: int|
                        0 <= j < spec_partition_roots(self.assembly.entries@, true).len() ==> {
                            let p = #[trigger] v@[self.next_index + j];
                            &&& p.0@ == (CommitmentOutputV::Opaque {
                                root: spec_partition_roots(self.assembly.entries@, true)[j],
                            })
                            &&& p.0.wf()
                            &&& p.1@ == p.0.spec_script_pubkey()
                        }
                },
                Err(e) => (exists|i: u32| i < self.next_index && !spec_child_ok(self.xpriv, i))
                    && e is Derivation,
            },
    {
        let children = match self.child_descriptors() {
            Ok(v) => v,
            Err(e) => {
                return Err(e);
            },
        };
        let mut v: Vec<(CommitmentOutput, Vec<u8>)> = Vec::new();
        let n = children.len();
        let mut i: usize = 0;
        while i < n
            invariant
                self.wf(),
                n == children@.len(),
                n == self.next_index,
                i <= n,
                v@.len() == i,
                forall|j: int| 0 <= j < n ==> (#[trigger] children@[j]).wf(),
                forall|j: int|
                    0 <= j < n ==> ((#[trigger] children@[j]) matches CommitmentOutput::Keyed {
                        internal_key,
                    } && internal_key.bytes@ == spec_child_pubkey_x(self.xpriv, j as u32)),
                forall|j: int|
                    0 <= j < i ==> {
                        let p = #[trigger] v@[j];
                        &&& p.0@ == (CommitmentOutputV::Keyed {
                            internal_key: spec_child_pubkey_x(self.xpriv, j as u32),
                        })
                        &&& p.0.wf()
                        &&& p.1@ == p.0.spec_script_pubkey()
                    },
            decreases n - i,
        {
            let out = copy_output(&children[i]);
            proof {
                crate::outputs::lemma_eqv_props(&out, &children@[i as int]);
                lemma_eqv_view(&out, &children@[i as int]);
            }
            let spk = script_pubkey(&out);
            v.push((out, spk));
            i += 1;
        }
        let spendable = self.assembly.spendable_descriptors();
        let m = spendable.len();
        let mut j: usize = 0;
        while j < m
            invariant
                self.wf(),
                n == self.next_index,
                m == spendable@.len(),
                m == spec_partition_roots(self.assembly.entries@, true).len(),
                j <= m,
                v@.len() == n + j,
                forall|k: int| 0 <= k < m ==> (#[trigger] spendable@[k]).wf(),
                forall|k: int|
                    0 <= k < m ==> ((#[trigger] spendable@[k]) matches CommitmentOutput::Opaque {
                        root,
                    } && root@ == spec_partition_roots(self.assembly.entries@, true)[k]),
                forall|k: int|
                    0 <= k < n ==> {
                        let p = #[trigger] v@[k];
                        &&& p.0@ == (CommitmentOutputV::Keyed {
                            internal_key: spec_child_pubkey_x(self.xpriv, k as u32),
                        })
                        &&& p.0.wf()
                        &&& p.1@ == p.0.spec_script_pubkey()
                    },
                forall|k: int|
                    0 <= k < j ==> {
                        let p = #[trigger] v@[n + k];
                        &&& p.0@ == (CommitmentOutputV::Opaque {
                            root: spec_partition_roots(self.assembly.entries@, true)[k],
                        })
                        &&& p.0.wf()
                        &&& p.1@ == p.0.spec_script_pubkey()
                    },
            decreases m - j,
        {
            let out = copy_output(&spendable[j]);
            proof {
                crate::outputs::lemma_eqv_props(&out, &spendable@[j as int]);
                lemma_eqv_view(&out, &spendable@[j as int]);
            }
            let spk = script_pubkey(&out);
            v.push((out, spk));
            j += 1;
        }
        Ok(v)
    }

    /// The locked outputs (program roots without a witness), each paired
    /// with its output script.
    pub fn locked_targets(&self) -> (r: Vec<(CommitmentOutput, Vec<u8>)>)
        requires
            self.wf(),
        ensures
            r@.len() == spec_partition_roots(self.assembly.entries@, false).len(),
            forall|i: int|
                0 <= i < r@.len() ==> {
                    let p = #[trigger] r@[i];
                    &&& p.0@ == (CommitmentOutputV::Opaque {
                        root: spec_partition_roots(self.assembly.entries@, false)[i],
                    })
                    &&& p.0.wf()
                    &&& p.1@ == p.0.spec_script_pubkey()
                },
    {
        let locked = self.assembly.locked_descriptors();
        let mut v: Vec<(CommitmentOutput, Vec<u8>)> = Vec::new();
        let m = locked.len();
        let mut j: usize = 0;
        while j < m
            invariant
                self.wf(),
                m == locked@.len(),
                m == spec_partition_roots(self.assembly.entries@, false).len(),
                j <= m,
                v@.len() == j,
                forall|k: int| 0 <= k < m ==> (#[trigger] locked@[k]).wf(),
                forall|k: int|
                    0 <= k < m ==> ((#[trigger] locked@[k]) matches CommitmentOutput::Opaque {
                        root,
                    } && root@ == spec_partition_roots(self.assembly.entries@, false)[k]),
                forall|k: int|
                    0 <= k < j ==> {
                        let p = #[trigger] v@[k];
                        &&& p.0@ == (CommitmentOutputV::Opaque {
                            root: spec_partition_roots(self.assembly.entries@, false)[k],
                        })
                        &&& p.0.wf()
                        &&& p.1@ == p.0.spec_script_pubkey()
                    },
            decreases m - j,
        {
            let out = copy_output(&locked[j]);
            proof {
                crate::outputs::lemma_eqv_props(&out, &locked@[j as int]);
                lemma_eqv_view(&out, &locked@[j as int]);
            }
            let spk = script_pubkey(&out);
            v.push((out, spk));
            j += 1;
        }
        v
    }
}

// ---------------------------------------------------------------------------
// Unspent outputs.
// ---------------------------------------------------------------------------

/// A reference to an output of an earlier transaction.
#[derive(Clone, Debug)]
pub struct OutPoint {
    pub txid: Vec<u8>,
    pub vout: u32,
}

/// An unspent output the wallet can select: the spending condition it is
/// locked to, its amount, and where it sits on the ledger.
#[derive(Clone, Debug)]
pub struct Utxo {
    pub descriptor: CommitmentOutput,
    pub amount: u64,
    pub outpoint: OutPoint,
}

impl Utxo {
    /// Whether two unspent outputs carry the same data.
    pub open spec fn eqv(&self, other: &Utxo) -> bool {
        self.descriptor.eqv(&other.descriptor) && self.amount == other.amount
            && self.outpoint.txid@ == other.outpoint.txid@ && self.outpoint.vout
            == other.outpoint.vout
    }
}

/// A field-for-field copy of an unspent output.
pub fn copy_utxo(u: &Utxo) -> (r: Utxo)
    ensures
        r.eqv(u),
        u.eqv(&r),
{
    Utxo {
        descriptor: copy_output(&u.descriptor),
        amount: u.amount,
        outpoint: OutPoint { txid: u.outpoint.txid.clone(), vout: u.outpoint.vout },
    }
}

/// A set of unspent outputs, in scan-result order.
#[derive(Clone, Debug)]
pub struct UtxoSet(pub Vec<Utxo>);

} // verus!
