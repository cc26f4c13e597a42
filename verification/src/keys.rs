use vstd::prelude::*;

use crate::error::Error;

verus! {

// ---------------------------------------------------------------------------
// Names for the results of the deterministic key library. Each value below is
// a function of the named arguments alone, in every process and on every
// machine.
// ---------------------------------------------------------------------------

/// The 32 secret-key bytes that extended-key derivation produces from a
/// master seed and a derivation path (raw child numbers; the top bit marks a
/// hardened step).
pub uninterp spec fn derived_secret_of(seed: Seq<u8>, path: Seq<u32>) -> Seq<u8>;

/// Whether extended-key derivation succeeds on the given seed and path.
pub uninterp spec fn derive_succeeds(seed: Seq<u8>, path: Seq<u32>) -> bool;

/// The 33-byte compressed public key of a valid secret key.
pub uninterp spec fn pubkey_of(secret: Seq<u8>) -> Seq<u8>;

/// Whether 32 bytes are the x coordinate of a curve point, so that they
/// parse as an x-only public key.
pub uninterp spec fn is_valid_xonly(x: Seq<u8>) -> bool;

/// Whether 32 bytes are a valid secret-key scalar.
pub uninterp spec fn is_valid_secret(secret: Seq<u8>) -> bool;

/// The negation of a valid secret key; its public key is the negated point,
/// which has the same x coordinate and the opposite y parity.
pub uninterp spec fn negated_secret_of(secret: Seq<u8>) -> Seq<u8>;

/// The 64-byte deterministic Schnorr signature of a 32-byte message under a
/// valid secret key.
pub uninterp spec fn schnorr_sig_of(secret: Seq<u8>, msg: Seq<u8>) -> Seq<u8>;

// ---------------------------------------------------------------------------
// Trusted wrappers around the key library.
// ---------------------------------------------------------------------------

/// Relies on `bitcoin::bip32::Xpriv::new_master` and `Xpriv::derive_priv`:
/// the derived secret bytes depend only on the seed and the path (the
/// network tag only affects serialization, never key material), and a key
/// held by the library is a valid scalar.
#[verifier::external_body]
pub(crate) fn bip32_derive(seed: &Vec<u8>, path: &Vec<u32>) -> (r: Result<Vec<u8>, Error>)
    ensures
        r is Ok <==> derive_succeeds(seed@, path@),
        r matches Ok(sk) ==> sk@ == derived_secret_of(seed@, path@) && sk@.len() == 32
            && is_valid_secret(sk@),
        r matches Err(e) ==> e is Derivation,
{
    let xprv = match bitcoin::bip32::Xpriv::new_master(bitcoin::NetworkKind::Test, seed.as_slice())
    {
        Ok(x) => x,
        Err(_) => return Err(Error::Derivation),
    };
    let steps: Vec<bitcoin::bip32::ChildNumber> =
        path.iter().map(|n| bitcoin::bip32::ChildNumber::from(*n)).collect();
    let secp = bitcoin::secp256k1::Secp256k1::new();
    match xprv.derive_priv(&secp, &steps) {
        Ok(child) => Ok(child.to_priv().inner.secret_bytes().to_vec()),
        Err(_) => Err(Error::Derivation),
    }
}

/// Relies on `secp256k1::SecretKey::from_slice` (accepts exactly the valid
/// scalars) and `secp256k1::PublicKey::from_secret_key` with compressed SEC
/// serialization: one prefix byte (2 for even y, 3 for odd y) followed by
/// the 32-byte x coordinate, which is the x coordinate of a curve point.
#[verifier::external_body]
pub(crate) fn secret_to_public(secret: &Vec<u8>) -> (r: Option<Vec<u8>>)
    ensures
        r is Some <==> is_valid_secret(secret@),
        r matches Some(p) ==> p@ == pubkey_of(secret@) && p@.len() == 33 && (p@[0] == 2 || p@[0]
            == 3) && is_valid_xonly(p@.skip(1)),
{
    let sk = match bitcoin::secp256k1::SecretKey::from_slice(secret.as_slice()) {
        Ok(sk) => sk,
        Err(_) => return None,
    };
    let secp = bitcoin::secp256k1::Secp256k1::new();
    let pk = bitcoin::secp256k1::PublicKey::from_secret_key(&secp, &sk);
    Some(pk.serialize().to_vec())
}

/// Relies on `secp256k1::SecretKey::negate`: the negation of a valid secret
/// key is a valid secret key.
#[verifier::external_body]
pub(crate) fn negate_secret(secret: &Vec<u8>) -> (r: Vec<u8>)
    requires
        is_valid_secret(secret@),
    ensures
        r@ == negated_secret_of(secret@),
        r@.len() == 32,
        is_valid_secret(r@),
{
    let sk = bitcoin::secp256k1::SecretKey::from_slice(secret.as_slice())
        .expect("valid secret key");
    sk.negate().secret_bytes().to_vec()
}

/// Relies on `secp256k1::Secp256k1::sign_schnorr_no_aux_rand`: BIP340
/// signing with the deterministic nonce and no auxiliary randomness, so the
/// signature depends only on the secret key and the message.
#[verifier::external_body]
pub(crate) fn schnorr_sign(secret: &Vec<u8>, msg: &Vec<u8>) -> (r: Vec<u8>)
    requires
        is_valid_secret(secret@),
        msg@.len() == 32,
    ensures
        r@ == schnorr_sig_of(secret@, msg@),
        r@.len() == 64,
{
    let secp = bitcoin::secp256k1::Secp256k1::new();
    let kp = bitcoin::secp256k1::Keypair::from_seckey_slice(&secp, secret.as_slice())
        .expect("valid secret key");
    let m = bitcoin::secp256k1::Message::from_digest_slice(msg.as_slice())
        .expect("32-byte message");
    secp.sign_schnorr_no_aux_rand(&m, &kp).as_ref().to_vec()
}

/// Relies on the operating-system random number generator re-exported by the
/// secp library. Nothing is promised of the value beyond its length.
#[verifier::external_body]
pub(crate) fn random_seed() -> (r: Vec<u8>)
    ensures
        r@.len() == 32,
{
    let mut seed = [0u8; 32];
    bitcoin::secp256k1::rand::RngCore::fill_bytes(
        &mut bitcoin::secp256k1::rand::rngs::OsRng,
        &mut seed,
    );
    seed.to_vec()
}

// ---------------------------------------------------------------------------
// Key types of the wallet.
// ---------------------------------------------------------------------------

/// A key type that offers the fixed unspendable (nothing-up-my-sleeve)
/// public point: a key whose discrete log nobody knows, used as the internal
/// key of opaque-program outputs so that their key-path spend is neutralized.
pub trait UnspendableKey: Sized {
    /// Whether a value is the fixed unspendable point, in the type's own
    /// encoding.
    spec fn spec_is_unspendable(&self) -> bool;

    fn unspendable() -> (r: Self)
        ensures
            r.spec_is_unspendable(),
    ;
}

/// The x coordinate of the unspendable public point.
pub open spec fn spec_unspendable_x() -> Seq<u8> {
    seq![
        0x50u8, 0x92, 0x9b, 0x74, 0xc1, 0xa0, 0x49, 0x54, 0xb7, 0x8b, 0x4b, 0x60, 0x35, 0xe9,
        0x7a, 0x5e, 0x07, 0x8a, 0x5a, 0x0f, 0x28, 0xec, 0x96, 0xd5, 0x47, 0xbf, 0xee, 0x9a,
        0xce, 0x80, 0x3a, 0xc0,
    ]
}

/// The 32 bytes of the unspendable x-only public key.
///
/// Relies on `secp256k1::XOnlyPublicKey::from_slice`: the fixed
/// nothing-up-my-sleeve x coordinate parses as a valid point, so the bytes
/// handed out are a valid x-only key.
#[verifier::external_body]
pub fn unspendable_x_bytes() -> (r: Vec<u8>)
    ensures
        r@ == spec_unspendable_x(),
        r@.len() == 32,
        is_valid_xonly(r@),
{
    let bytes: [u8; 32] = [
        0x50, 0x92, 0x9b, 0x74, 0xc1, 0xa0, 0x49, 0x54, 0xb7, 0x8b, 0x4b, 0x60, 0x35, 0xe9,
        0x7a, 0x5e, 0x07, 0x8a, 0x5a, 0x0f, 0x28, 0xec, 0x96, 0xd5, 0x47, 0xbf, 0xee, 0x9a,
        0xce, 0x80, 0x3a, 0xc0,
    ];
    let key = bitcoin::secp256k1::XOnlyPublicKey::from_slice(&bytes)
        .expect("unspendable pubkey is valid");
    key.serialize().to_vec()
}

/// An x-only public key: the 32-byte x coordinate of a point with even y.
#[derive(Clone, Debug)]
pub struct XOnlyPublicKey {
    pub bytes: Vec<u8>,
}

impl XOnlyPublicKey {
    /// Well-formedness: exactly 32 bytes, the x coordinate of a point.
    pub open spec fn wf(&self) -> bool {
        self.bytes@.len() == 32 && is_valid_xonly(self.bytes@)
    }
}

impl UnspendableKey for XOnlyPublicKey {
    /// The unspendable point as its raw x coordinate.
    open spec fn spec_is_unspendable(&self) -> bool {
        self.bytes@ == spec_unspendable_x()
    }

    fn unspendable() -> (r: Self) {
        XOnlyPublicKey { bytes: unspendable_x_bytes() }
    }
}

/// A compressed public key: one parity prefix byte followed by the x
/// coordinate.
#[derive(Clone, Debug)]
pub struct PublicKey {
    pub bytes: Vec<u8>,
}

impl PublicKey {
    /// Well-formedness: exactly 33 bytes with a compressed-SEC prefix.
    pub open spec fn wf(&self) -> bool {
        self.bytes@.len() == 33 && (self.bytes@[0] == 2 || self.bytes@[0] == 3)
    }
}

impl UnspendableKey for PublicKey {
    /// The unspendable point in compressed form: the even-y prefix byte
    /// before the x coordinate.
    open spec fn spec_is_unspendable(&self) -> bool {
        self.bytes@ == seq![2u8] + spec_unspendable_x()
    }

    fn unspendable() -> (r: Self) {
        let mut bytes: Vec<u8> = Vec::new();
        bytes.push(2u8);
        let mut x = unspendable_x_bytes();
        bytes.append(&mut x);
        proof {
            assert(bytes@ =~= seq![2u8] + spec_unspendable_x());
        }
        PublicKey { bytes }
    }
}

/// A spendable keypair: a valid secret key together with its compressed
/// public key.
#[derive(Clone, Debug)]
pub struct KeyPair {
    pub secret: Vec<u8>,
    pub public: Vec<u8>,
}

impl KeyPair {
    /// Well-formedness: the public key is the image of the valid secret key.
    pub open spec fn wf(&self) -> bool {
        is_valid_secret(self.secret@) && self.public@ == pubkey_of(self.secret@)
            && self.secret@.len() == 32 && self.public@.len() == 33
    }
}

/// Wildcard mode of a root key: whether child derivation appends no step, an
/// unhardened step, or a hardened step.
#[derive(Clone, Copy, Debug, PartialEq, Eq, Structural)]
pub enum Wildcard {
    Fixed,
    Unhardened,
    Hardened,
}

/// The boundary between unhardened and hardened child numbers: indices at or
/// above it are reserved.
pub const HARDENED_BOUNDARY: u32 = 0x8000_0000;

/// The wallet's root secret-key material: a master seed, a derivation path
/// prefix, and a wildcard mode that says how a child index extends the path.
#[derive(Clone, Debug)]
pub struct DescriptorSecretKey {
    pub seed: Vec<u8>,
    pub path: Vec<u32>,
    pub wildcard: Wildcard,
}

/// The fixed derivation-path prefix of a wallet root key: three hardened
/// steps, `84'/0'/0'`.
pub open spec fn spec_root_prefix() -> Seq<u32> {
    seq![0x8000_0054u32, 0x8000_0000u32, 0x8000_0000u32]
}

/// The path of the child of `k` at `index`: the parent path itself in fixed
/// mode, the path extended by the (unhardened or hardened) child number
/// otherwise; nothing if the index reaches the hardened boundary.
pub open spec fn spec_child_path(k: DescriptorSecretKey, index: u32) -> Option<Seq<u32>> {
    match k.wildcard {
        Wildcard::Fixed => Some(k.path@),
        Wildcard::Unhardened => if index < HARDENED_BOUNDARY {
            Some(k.path@.push(index))
        } else {
            None
        },
        Wildcard::Hardened => if index < HARDENED_BOUNDARY {
            Some(k.path@.push(index | HARDENED_BOUNDARY))
        } else {
            None
        },
    }
}

impl DescriptorSecretKey {
    /// A root key deterministically derived from a seed: the fixed hardened
    /// prefix with an unhardened wildcard.
    pub fn from_seed(seed: &Vec<u8>) -> (r: Result<Self, Error>)
        ensures
            r matches Ok(k) ==> k.seed@ == seed@ && k.path@ == spec_root_prefix() && k.wildcard
                == Wildcard::Unhardened,
            r is Ok,
    {
        let path: Vec<u32> = vec![0x8000_0054u32, 0x8000_0000u32, 0x8000_0000u32];
        proof {
            assert(path@ =~= spec_root_prefix());
        }
        Ok(DescriptorSecretKey { seed: seed.clone(), path, wildcard: Wildcard::Unhardened })
    }

    /// A root key from a fresh 32-byte seed drawn from the system RNG.
    pub fn random() -> (r: Result<Self, Error>)
        ensures
            r matches Ok(k) ==> k.path@ == spec_root_prefix() && k.wildcard
                == Wildcard::Unhardened && k.seed@.len() == 32,
            r is Ok,
    {
        let seed = random_seed();
        Self::from_seed(&seed)
    }

    /// The root key specialized to one child index, per the wildcard mode.
    /// Fails with `InvalidChildIndex` exactly when the index would require a
    /// step at or beyond the hardened boundary.
    pub fn at_derivation_index(self, index: u32) -> (r: Result<Self, Error>)
        ensures
            match r {
                Ok(c) => spec_child_path(self, index) == Some(c.path@) && c.seed@ == self.seed@
                    && c.wildcard == self.wildcard,
                Err(e) => spec_child_path(self, index) is None && (e matches
                    Error::InvalidChildIndex(i) && i == index),
            },
    {
        match self.wildcard {
            Wildcard::Fixed => Ok(self),
            Wildcard::Unhardened => {
                if index < HARDENED_BOUNDARY {
                    let mut path = self.path;
                    path.push(index);
                    Ok(DescriptorSecretKey { seed: self.seed, path, wildcard: self.wildcard })
                } else {
                    Err(Error::InvalidChildIndex(index))
                }
            },
            Wildcard::Hardened => {
                if index < HARDENED_BOUNDARY {
                    let mut path = self.path;
                    path.push(index | HARDENED_BOUNDARY);
                    Ok(DescriptorSecretKey { seed: self.seed, path, wildcard: self.wildcard })
                } else {
                    Err(Error::InvalidChildIndex(index))
                }
            },
        }
    }

    /// The secret key at this key's full derivation path.
    pub fn to_private_key(&self) -> (r: Result<Vec<u8>, Error>)
        ensures
            r is Ok <==> derive_succeeds(self.seed@, self.path@),
            r matches Ok(sk) ==> sk@ == derived_secret_of(self.seed@, self.path@) && sk@.len()
                == 32 && is_valid_secret(sk@),
            r matches Err(e) ==> e is Derivation,
    {
        bip32_derive(&self.seed, &self.path)
    }
}

} // verus!
