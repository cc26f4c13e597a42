use vstd::prelude::*;
use vstd::string::StringExecFns;
use vstd::string::StringSliceAdditionalSpecFns;

use crate::util::bytes_eq;

verus! {

/// Address-encoding parameter table of the address library.
#[verifier::external_type_specification]
#[verifier::external_body]
pub struct ExAddressParams(elements::AddressParams);

/// The two supported networks. All network-dependent values (address
/// encoding parameters, the pegged asset identifier, the genesis-block hash
/// used in signature hashing) are compile-time constants keyed by this tag.
#[derive(Clone, Copy, Debug, PartialEq, Eq, Structural)]
pub enum Network {
    Regtest,
    Testnet,
}

/// Asset identifier of the pegged asset on the regtest network
/// (inner bytes, in natural order, not the reversed display order).
pub open spec fn spec_regtest_bitcoin_id() -> Seq<u8> {
    seq![
        0x23u8, 0x0f, 0x4f, 0x5d, 0x4b, 0x7c, 0x6f, 0xa8, 0x45, 0x80, 0x6e, 0xe4, 0xf6, 0x77,
        0x13, 0x45, 0x9e, 0x1b, 0x69, 0xe8, 0xe6, 0x0f, 0xce, 0xe2, 0xe4, 0x94, 0x0c, 0x7a,
        0x0d, 0x5d, 0xe1, 0xb2,
    ]
}

/// Genesis-block hash of the regtest network (raw bytes).
pub open spec fn spec_regtest_genesis_hash() -> Seq<u8> {
    seq![
        0x7du8, 0xa0, 0xac, 0x2b, 0x49, 0x32, 0xe9, 0x50, 0x1c, 0x0e, 0x19, 0x2d, 0xfa, 0x8b,
        0x4e, 0x6d, 0xdd, 0x80, 0x15, 0x62, 0xf8, 0x46, 0xbd, 0x04, 0x58, 0x4b, 0xbf, 0xa6,
        0xbd, 0x77, 0x95, 0x20,
    ]
}

/// Asset identifier of the pegged asset on the testnet network
/// (inner bytes, in natural order, not the reversed display order).
pub open spec fn spec_testnet_bitcoin_id() -> Seq<u8> {
    seq![
        0xe8u8, 0x0b, 0x7c, 0x83, 0x59, 0xd7, 0xbd, 0x72, 0x2e, 0xd7, 0xfc, 0x91, 0x35, 0x5a,
        0x63, 0x46, 0x2f, 0x17, 0xc6, 0x90, 0x4e, 0xac, 0x8f, 0x1b, 0x3a, 0xcc, 0x1b, 0xe1,
        0x01, 0x95, 0x28, 0xd0,
    ]
}

/// Genesis-block hash of the testnet network (raw bytes).
pub open spec fn spec_testnet_genesis_hash() -> Seq<u8> {
    seq![
        0x40u8, 0x8d, 0x4c, 0x48, 0xac, 0x8c, 0x9c, 0x88, 0xaa, 0x16, 0x5b, 0x68, 0x46, 0x04,
        0xf7, 0x5c, 0x7e, 0x5b, 0xde, 0xde, 0xb8, 0x23, 0xad, 0xc7, 0xf8, 0x43, 0x0e, 0x4b,
        0x01, 0x4a, 0xdb, 0xfb,
    ]
}

/// The pegged-asset identifier of the given network.
pub open spec fn spec_bitcoin_id(n: Network) -> Seq<u8> {
    match n {
        Network::Regtest => spec_regtest_bitcoin_id(),
        Network::Testnet => spec_testnet_bitcoin_id(),
    }
}

/// The genesis-block hash of the given network.
pub open spec fn spec_genesis_hash(n: Network) -> Seq<u8> {
    match n {
        Network::Regtest => spec_regtest_genesis_hash(),
        Network::Testnet => spec_testnet_genesis_hash(),
    }
}

/// The ASCII name of the given network, as bytes.
pub open spec fn spec_network_name(n: Network) -> Seq<u8> {
    match n {
        Network::Regtest => seq![114u8, 101, 103, 116, 101, 115, 116],
        Network::Testnet => seq![116u8, 101, 115, 116, 110, 101, 116],
    }
}

impl Network {
    /// Inner bytes of the pegged-asset identifier, in natural byte order
    /// (displays of asset identifiers reverse the bytes).
    pub fn bitcoin_id(self) -> (r: Vec<u8>)
        ensures
            r@ == spec_bitcoin_id(self),
            r@.len() == 32,
    {
        match self {
            Network::Regtest => {
                let r: Vec<u8> = vec![
                    0x23u8, 0x0f, 0x4f, 0x5d, 0x4b, 0x7c, 0x6f, 0xa8, 0x45, 0x80, 0x6e, 0xe4,
                    0xf6, 0x77, 0x13, 0x45, 0x9e, 0x1b, 0x69, 0xe8, 0xe6, 0x0f, 0xce, 0xe2,
                    0xe4, 0x94, 0x0c, 0x7a, 0x0d, 0x5d, 0xe1, 0xb2,
                ];
                proof {
                    assert(r@ =~= spec_regtest_bitcoin_id());
                }
                r
            },
            Network::Testnet => {
                let r: Vec<u8> = vec![
                    0xe8u8, 0x0b, 0x7c, 0x83, 0x59, 0xd7, 0xbd, 0x72, 0x2e, 0xd7, 0xfc, 0x91,
                    0x35, 0x5a, 0x63, 0x46, 0x2f, 0x17, 0xc6, 0x90, 0x4e, 0xac, 0x8f, 0x1b,
                    0x3a, 0xcc, 0x1b, 0xe1, 0x01, 0x95, 0x28, 0xd0,
                ];
                proof {
                    assert(r@ =~= spec_testnet_bitcoin_id());
                }
                r
            },
        }
    }

    /// Raw bytes of the network's genesis-block hash.
    pub fn genesis_hash(self) -> (r: Vec<u8>)
        ensures
            r@ == spec_genesis_hash(self),
            r@.len() == 32,
    {
        match self {
            Network::Regtest => {
                let r: Vec<u8> = vec![
                    0x7du8, 0xa0, 0xac, 0x2b, 0x49, 0x32, 0xe9, 0x50, 0x1c, 0x0e, 0x19, 0x2d,
                    0xfa, 0x8b, 0x4e, 0x6d, 0xdd, 0x80, 0x15, 0x62, 0xf8, 0x46, 0xbd, 0x04,
                    0x58, 0x4b, 0xbf, 0xa6, 0xbd, 0x77, 0x95, 0x20,
                ];
                proof {
                    assert(r@ =~= spec_regtest_genesis_hash());
                }
                r
            },
            Network::Testnet => {
                let r: Vec<u8> = vec![
                    0x40u8, 0x8d, 0x4c, 0x48, 0xac, 0x8c, 0x9c, 0x88, 0xaa, 0x16, 0x5b, 0x68,
                    0x46, 0x04, 0xf7, 0x5c, 0x7e, 0x5b, 0xde, 0xde, 0xb8, 0x23, 0xad, 0xc7,
                    0xf8, 0x43, 0x0e, 0x4b, 0x01, 0x4a, 0xdb, 0xfb,
                ];
                proof {
                    assert(r@ =~= spec_testnet_genesis_hash());
                }
                r
            },
        }
    }

    /// The address-encoding parameter table of this network.
    ///
    /// Relies on `elements::AddressParams`: the parameter tables are
    /// compile-time constants of the address library; only the bech32 prefix
    /// matters for the taproot addresses this wallet produces.
    #[verifier::external_body]
    pub fn address_params(self) -> &'static elements::AddressParams {
        match self {
            Network::Regtest => &elements::AddressParams::ELEMENTS,
            Network::Testnet => &elements::AddressParams::LIQUID_TESTNET,
        }
    }

    /// Parse a network name; the two accepted names are `regtest` and
    /// `testnet`.
    pub fn from_name(s: &str) -> (r: Option<Network>)
        ensures
            match r {
                Some(n) => s.spec_bytes() == spec_network_name(n),
                None => s.spec_bytes() != spec_network_name(Network::Regtest) && s.spec_bytes()
                    != spec_network_name(Network::Testnet),
            },
    {
        let regtest: Vec<u8> = vec![114u8, 101, 103, 116, 101, 115, 116];
        let testnet: Vec<u8> = vec![116u8, 101, 115, 116, 110, 101, 116];
        proof {
            assert(regtest@ =~= spec_network_name(Network::Regtest));
            assert(testnet@ =~= spec_network_name(Network::Testnet));
        }
        if bytes_eq(s.as_bytes(), regtest.as_slice()) {
            Some(Network::Regtest)
        } else if bytes_eq(s.as_bytes(), testnet.as_slice()) {
            Some(Network::Testnet)
        } else {
            None
        }
    }

    /// The network's name, as `from_name` accepts it.
    pub fn name(self) -> (r: String)
        ensures
            self == Network::Regtest ==> r@ == "regtest"@,
            self == Network::Testnet ==> r@ == "testnet"@,
    {
        match self {
            Network::Regtest => String::from_str("regtest"),
            Network::Testnet => String::from_str("testnet"),
        }
    }
}

} // verus!
