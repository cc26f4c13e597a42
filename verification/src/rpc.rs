use vstd::prelude::*;
use vstd::string::{StrSliceExecFns, StringExecFns};

use crate::error::Error;
use crate::outputs::{copy_output, CommitmentOutput};
use crate::state::{OutPoint, Utxo, UtxoSet};
use crate::util::bytes_eq;

verus! {

/// The configuration of the remote full-node endpoint: address, user and
/// optional password. Plain settable data; the transport lives outside the
/// core.
#[derive(Clone, Debug)]
pub struct Connection {
    pub url: String,
    pub user: String,
    pub pass: Option<String>,
}

/// The default endpoint: the loopback node with default credentials.
pub open spec fn spec_default_connection(c: &Connection) -> bool {
    &&& c.url@ == "localhost:18443"@
    &&& c.user@ == "user"@
    &&& c.pass matches Some(p) && p@ == "pass"@
}

impl Default for Connection {
    /// The loopback endpoint with default credentials.
    fn default() -> (r: Connection)
        ensures
            spec_default_connection(&r),
    {
        Connection {
            url: String::from_str("localhost:18443"),
            user: String::from_str("user"),
            pass: Some(String::from_str("pass")),
        }
    }
}

impl Connection {
    /// A printable description of the endpoint: `user@url`, and the
    /// password masked as one `*` per character.
    pub fn describe(&self) -> (r: String)
        ensures
            match self.pass {
                None => r@ == self.user@ + "@"@ + self.url@,
                Some(p) => r@ == self.user@ + "@"@ + self.url@ + " with password "@ + Seq::new(
                    p@.len(),
                    |i: int| '*',
                ),
            },
    {
        let mut s = String::new();
        s.append(self.user.as_str());
        s.append("@");
        s.append(self.url.as_str());
        match &self.pass {
            None => {},
            Some(p) => {
                s.append(" with password ");
                let ghost base = s@;
                let n = p.as_str().unicode_len();
                let mut i: usize = 0;
                while i < n
                    invariant
                        i <= n,
                        s@ == base + Seq::new(i as nat, |j: int| '*'),
                    decreases n - i,
                {
                    s.append("*");
                    proof {
                        reveal_strlit("*");
                        assert(s@ =~= base + Seq::new((i + 1) as nat, |j: int| '*'));
                    }
                    i += 1;
                }
                proof {
                    assert(Seq::new(0 as nat, |j: int| '*') =~= Seq::<char>::empty());
                    assert(n == p@.len());
                }
            },
        }
        s
    }
}

/// One unspent output as the remote scan reports it: amount, locking
/// script, and position on the ledger.
#[derive(Clone, Debug)]
pub struct Unspent {
    pub amount: u64,
    pub script_pub_key: Vec<u8>,
    pub txid: Vec<u8>,
    pub vout: u32,
}

/// The index of the first queried output whose script equals `spk`.
fn find_target(targets: &Vec<(CommitmentOutput, Vec<u8>)>, spk: &Vec<u8>) -> (r: Option<usize>)
    ensures
        match r {
            Some(j) => j < targets@.len() && targets@[j as int].1@ == spk@ && (forall|k: int|
                0 <= k < j ==> (#[trigger] targets@[k]).1@ != spk@),
            None => forall|k: int| 0 <= k < targets@.len() ==> (#[trigger] targets@[k]).1@ != spk@,
        },
{
    let n = targets.len();
    let mut j: usize = 0;
    while j < n
        invariant
            n == targets@.len(),
            j <= n,
            forall|k: int| 0 <= k < j ==> (#[trigger] targets@[k]).1@ != spk@,
        decreases n - j,
    {
        if bytes_eq(targets[j].1.as_slice(), spk.as_slice()) {
            return Some(j);
        }
        j += 1;
    }
    None
}

/// Map each scan result back to the queried output it pays, by exact
/// script match against the first matching target. A result whose script
/// was never queried is a fault of the query round-trip and fails the whole
/// mapping; the scan echoes only scripts it was given.
pub fn match_unspents(targets: &Vec<(CommitmentOutput, Vec<u8>)>, unspents: &Vec<Unspent>) -> (r:
    Result<UtxoSet, Error>)
    ensures
        match r {
            Ok(set) => set.0@.len() == unspents@.len() && forall|i: int|
                0 <= i < unspents@.len() ==> {
                    let u = #[trigger] set.0@[i];
                    &&& u.amount == unspents@[i].amount
                    &&& u.outpoint.txid@ == unspents@[i].txid@
                    &&& u.outpoint.vout == unspents@[i].vout
                    &&& exists|j: int|
                        {
                            &&& 0 <= j < targets@.len()
                            &&& (#[trigger] targets@[j]).1@ == unspents@[i].script_pub_key@
                            &&& forall|k: int|
                                0 <= k < j ==> (#[trigger] targets@[k]).1@
                                    != unspents@[i].script_pub_key@
                            &&& u.descriptor.eqv(&targets@[j].0)
                        }
                },
            Err(_) => exists|i: int|
                0 <= i < unspents@.len() && forall|k: int|
                    0 <= k < targets@.len() ==> (#[trigger] targets@[k]).1@ != (
                    #[trigger] unspents@[i]).script_pub_key@,
        },
{
    let mut utxos: Vec<Utxo> = Vec::new();
    let n = unspents.len();
    let mut i: usize = 0;
    while i < n
        invariant
            n == unspents@.len(),
            i <= n,
            utxos@.len() == i,
            forall|ii: int|
                0 <= ii < i ==> {
                    let u = #[trigger] utxos@[ii];
                    &&& u.amount == unspents@[ii].amount
                    &&& u.outpoint.txid@ == unspents@[ii].txid@
                    &&& u.outpoint.vout == unspents@[ii].vout
                    &&& exists|j: int|
                        {
                            &&& 0 <= j < targets@.len()
                            &&& (#[trigger] targets@[j]).1@ == unspents@[ii].script_pub_key@
                            &&& forall|k: int|
                                0 <= k < j ==> (#[trigger] targets@[k]).1@
                                    != unspents@[ii].script_pub_key@
                            &&& u.descriptor.eqv(&targets@[j].0)
                        }
                },
        decreases n - i,
    {
        let j = match find_target(targets, &unspents[i].script_pub_key) {
            Some(j) => j,
            None => {
                return Err(
                    Error::CouldNotParse(
                        String::from_str("scan result does not match any queried script"),
                    ),
                );
            },
        };
        let u = Utxo {
            descriptor: copy_output(&targets[j].0),
            amount: unspents[i].amount,
            outpoint: OutPoint { txid: unspents[i].txid.clone(), vout: unspents[i].vout },
        };
        utxos.push(u);
        i += 1;
    }
    Ok(UtxoSet(utxos))
}

} // verus!
