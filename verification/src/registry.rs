use vstd::prelude::*;

use crate::error::Error;
use crate::keys::spec_unspendable_x;
use crate::network::Network;
use crate::outputs::{address, address_of, simplicity_asm, CommitmentOutput};
use crate::util::bytes_eq;
use crate::witness::{witness_parses, SerdeWitnessNode};

verus! {

/// One registered program root and, if the root is spendable, its unlocking
/// witness.
#[derive(Clone, Debug)]
pub struct AssemblyEntry {
    pub root: Vec<u8>,
    pub satisfaction: Option<SerdeWitnessNode>,
}

/// The registry of known program roots: each root is wrapped as an
/// opaque-program output and optionally carries a finalized unlocking
/// witness. A root with a witness is spendable; one without is locked.
#[derive(Clone, Debug)]
pub struct AssemblySet {
    pub entries: Vec<AssemblyEntry>,
}

impl AssemblySet {
    /// Well-formedness: every root is 32 bytes, no root is registered
    /// twice, and every stored witness fits the text frame.
    pub open spec fn wf(&self) -> bool {
        (forall|i: int|
            0 <= i < self.entries@.len() ==> (#[trigger] self.entries@[i]).root@.len() == 32 && (
            match self.entries@[i].satisfaction {
                Some(w) => w.program@.len() <= u32::MAX,
                None => true,
            })) && (forall|i: int, j: int|
            0 <= i < j < self.entries@.len() ==> (#[trigger] self.entries@[i]).root@ != (
            #[trigger] self.entries@[j]).root@)
    }

    /// Whether a root is registered.
    pub open spec fn spec_contains(&self, root: Seq<u8>) -> bool {
        exists|i: int| 0 <= i < self.entries@.len() && (#[trigger] self.entries@[i]).root@ == root
    }

    /// An empty registry.
    pub fn new() -> (r: AssemblySet)
        ensures
            r.entries@.len() == 0,
            r.wf(),
    {
        AssemblySet { entries: Vec::new() }
    }

    /// All registered roots, in registration order.
    pub fn iter(&self) -> (r: Vec<Vec<u8>>)
        ensures
            r@.len() == self.entries@.len(),
            forall|i: int| 0 <= i < r@.len() ==> (#[trigger] r@[i])@ == self.entries@[i].root@,
    {
        let mut r: Vec<Vec<u8>> = Vec::new();
        let n = self.entries.len();
        let mut i: usize = 0;
        while i < n
            invariant
                n == self.entries@.len(),
                i <= n,
                r@.len() == i,
                forall|j: int| 0 <= j < i ==> (#[trigger] r@[j])@ == self.entries@[j].root@,
            decreases n - i,
        {
            r.push(self.entries[i].root.clone());
            i += 1;
        }
        r
    }

    /// Whether the root is registered.
    pub fn contains(&self, cmr: &Vec<u8>) -> (r: bool)
        ensures
            r == self.spec_contains(cmr@),
    {
        let n = self.entries.len();
        let mut i: usize = 0;
        while i < n
            invariant
                n == self.entries@.len(),
                i <= n,
                forall|j: int| 0 <= j < i ==> (#[trigger] self.entries@[j]).root@ != cmr@,
            decreases n - i,
        {
            if bytes_eq(self.entries[i].root.as_slice(), cmr.as_slice()) {
                return true;
            }
            i += 1;
        }
        false
    }

    /// The index of the entry holding the root, if the root is registered.
    fn find(&self, cmr: &Vec<u8>) -> (r: Option<usize>)
        ensures
            match r {
                Some(i) => i < self.entries@.len() && self.entries@[i as int].root@ == cmr@,
                None => !self.spec_contains(cmr@),
            },
    {
        let n = self.entries.len();
        let mut i: usize = 0;
        while i < n
            invariant
                n == self.entries@.len(),
                i <= n,
                forall|j: int| 0 <= j < i ==> (#[trigger] self.entries@[j]).root@ != cmr@,
            decreases n - i,
        {
            if bytes_eq(self.entries[i].root.as_slice(), cmr.as_slice()) {
                return Some(i);
            }
            i += 1;
        }
        None
    }

    /// Register a root. Returns whether the root is newly added; inserting
    /// a root that is already registered changes nothing and returns false.
    pub fn insert(&mut self, cmr: Vec<u8>) -> (r: bool)
        requires
            old(self).wf(),
            cmr@.len() == 32,
        ensures
            final(self).wf(),
            r == !old(self).spec_contains(cmr@),
            r ==> final(self).entries@ == old(self).entries@.push(
                AssemblyEntry { root: cmr, satisfaction: None },
            ),
            !r ==> *final(self) == *old(self),
            final(self).spec_contains(cmr@),
    {
        if self.contains(&cmr) {
            false
        } else {
            let ghost old_entries = self.entries@;
            let entry = AssemblyEntry { root: cmr, satisfaction: None };
            let ghost e = entry;
            self.entries.push(entry);
            proof {
                assert(self.entries@ == old_entries.push(e));
                assert forall|i: int, j: int| 0 <= i < j < self.entries@.len() implies (
                #[trigger] self.entries@[i]).root@ != (#[trigger] self.entries@[j]).root@ by {
                    if j == self.entries@.len() - 1 {
                        assert(!old(self).spec_contains(e.root@));
                        assert(old_entries[i].root@ != e.root@);
                    }
                }
                assert(self.entries@[self.entries@.len() - 1].root@ == e.root@);
            }
            true
        }
    }

    /// The address of the opaque-program output of a registered root on the
    /// given network; nothing for an unregistered root.
    pub fn get_address(&self, cmr: &Vec<u8>, network: Network) -> (r: Option<String>)
        requires
            self.wf(),
        ensures
            r is Some <==> self.spec_contains(cmr@),
            r matches Some(a) ==> a@ == address_of(
                spec_unspendable_x(),
                Some(cmr@),
                network == Network::Regtest,
            ),
    {
        match self.find(cmr) {
            None => None,
            Some(i) => {
                let output = simplicity_asm(self.entries[i].root.clone());
                proof {
                    assert(output.wf());
                    assert(output.spec_leaf() == Some(cmr@));
                }
                Some(address(&output, network))
            },
        }
    }

    /// The stored unlocking witness of a root, if the root is spendable.
    pub fn get_satisfaction(&self, cmr: &Vec<u8>) -> (r: Option<SerdeWitnessNode>)
        ensures
            match r {
                Some(w) => spec_satisfaction(self.entries@, cmr@) == Some(
                    (w.program@, w.witness@),
                ),
                None => spec_satisfaction(self.entries@, cmr@) is None,
            },
    {
        let n = self.entries.len();
        let mut i: usize = 0;
        proof {
            assert(self.entries@.skip(0) =~= self.entries@);
        }
        while i < n
            invariant
                n == self.entries@.len(),
                i <= n,
                spec_satisfaction(self.entries@, cmr@) == spec_satisfaction(
                    self.entries@.skip(i as int),
                    cmr@,
                ),
            decreases n - i,
        {
            proof {
                assert(self.entries@.skip(i as int)[0] == self.entries@[i as int]);
                assert(self.entries@.skip(i as int).drop_first() =~= self.entries@.skip(i + 1));
            }
            if bytes_eq(self.entries[i].root.as_slice(), cmr.as_slice()) {
                match &self.entries[i].satisfaction {
                    Some(w) => {
                        return Some(
                            SerdeWitnessNode {
                                program: w.program.clone(),
                                witness: w.witness.clone(),
                            },
                        );
                    },
                    None => {
                        return None;
                    },
                }
            }
            i += 1;
        }
        None
    }

    /// Store the unlocking witness of a registered root, handed over as the
    /// canonical byte encodings of a finalized program. An inconsistent
    /// pair fails with `Finalize`; an unregistered root fails with
    /// `UnknownAssembly`. A witness stored earlier for the root is replaced
    /// and returned, never silently dropped.
    pub fn insert_satisfaction(&mut self, cmr: &Vec<u8>, program: Vec<u8>, witness: Vec<u8>) -> (r:
        Result<Option<SerdeWitnessNode>, Error>)
        requires
            old(self).wf(),
        ensures
            final(self).wf(),
            match r {
                Ok(prev) => {
                    &&& witness_parses(program@, witness@)
                    &&& program@.len() <= u32::MAX
                    &&& old(self).spec_contains(cmr@)
                    &&& final(self).entries@.len() == old(self).entries@.len()
                    &&& forall|i: int|
                        0 <= i < old(self).entries@.len() && (#[trigger] old(self).entries@[i]).root@
                            != cmr@ ==> final(self).entries@[i] == old(self).entries@[i]
                    &&& exists|i: int|
                        {
                            &&& 0 <= i < old(self).entries@.len()
                            &&& (#[trigger] old(self).entries@[i]).root@ == cmr@
                            &&& match (prev, old(self).entries@[i].satisfaction) {
                                (Some(pw), Some(ow)) => pw.program@ == ow.program@ && pw.witness@
                                    == ow.witness@,
                                (None, None) => true,
                                _ => false,
                            }
                            &&& final(self).entries@[i].root@ == cmr@
                            &&& match final(self).entries@[i].satisfaction {
                                Some(w) => w.program@ == program@ && w.witness@ == witness@,
                                None => false,
                            }
                        }
                },
                Err(e) => {
                    &&& *final(self) == *old(self)
                    &&& match e {
                        Error::Finalize(_) => !witness_parses(program@, witness@)
                            || program@.len() > u32::MAX,
                        Error::UnknownAssembly(root) => witness_parses(program@, witness@)
                            && program@.len() <= u32::MAX && !old(self).spec_contains(cmr@)
                            && root@ == cmr@,
                        _ => false,
                    }
                },
            },
    {
        let w = match SerdeWitnessNode::new(program, witness) {
            Ok(w) => w,
            Err(e) => {
                return Err(e);
            },
        };
        let i = match self.find(cmr) {
            Some(i) => i,
            None => {
                return Err(Error::UnknownAssembly(cmr.clone()));
            },
        };
        let prev = match &self.entries[i].satisfaction {
            Some(w0) => Some(
                SerdeWitnessNode { program: w0.program.clone(), witness: w0.witness.clone() },
            ),
            None => None,
        };
        let root = self.entries[i].root.clone();
        let new_entry = AssemblyEntry { root, satisfaction: Some(w) };
        self.entries[i] = new_entry;
        Ok(prev)
    }

    /// The opaque-program outputs of all spendable roots (witness present),
    /// in registration order.
    pub fn spendable_descriptors(&self) -> (r: Vec<CommitmentOutput>)
        requires
            self.wf(),
        ensures
            forall|i: int| 0 <= i < r@.len() ==> (#[trigger] r@[i]).wf(),
            r@.len() == spec_partition_roots(self.entries@, true).len(),
            forall|i: int|
                0 <= i < r@.len() ==> ((#[trigger] r@[i]) matches CommitmentOutput::Opaque { root }
                    && root@ == spec_partition_roots(self.entries@, true)[i]),
    {
        self.partition(true)
    }

    /// The opaque-program outputs of all locked roots (witness absent), in
    /// registration order.
    pub fn locked_descriptors(&self) -> (r: Vec<CommitmentOutput>)
        requires
            self.wf(),
        ensures
            forall|i: int| 0 <= i < r@.len() ==> (#[trigger] r@[i]).wf(),
            r@.len() == spec_partition_roots(self.entries@, false).len(),
            forall|i: int|
                0 <= i < r@.len() ==> ((#[trigger] r@[i]) matches CommitmentOutput::Opaque { root }
                    && root@ == spec_partition_roots(self.entries@, false)[i]),
    {
        self.partition(false)
    }

    /// The opaque outputs of the roots whose witness presence equals
    /// `spendable`.
    fn partition(&self, spendable: bool) -> (r: Vec<CommitmentOutput>)
        requires
            self.wf(),
        ensures
            forall|i: int| 0 <= i < r@.len() ==> (#[trigger] r@[i]).wf(),
            r@.len() == spec_partition_roots(self.entries@, spendable).len(),
            forall|i: int|
                0 <= i < r@.len() ==> ((#[trigger] r@[i]) matches CommitmentOutput::Opaque { root }
                    && root@ == spec_partition_roots(self.entries@, spendable)[i]),
    {
        let mut r: Vec<CommitmentOutput> = Vec::new();
        let n = self.entries.len();
        let mut i: usize = 0;
        while i < n
            invariant
                self.wf(),
                n == self.entries@.len(),
                i <= n,
                r@.len() == spec_partition_roots(self.entries@.take(i as int), spendable).len(),
                forall|j: int| 0 <= j < r@.len() ==> (#[trigger] r@[j]).wf(),
                forall|j: int|
                    0 <= j < r@.len() ==> ((#[trigger] r@[j]) matches CommitmentOutput::Opaque {
                        root,
                    } && root@ == spec_partition_roots(
                        self.entries@.take(i as int),
                        spendable,
                    )[j]),
            decreases n - i,
        {
            proof {
                assert(self.entries@.take(i + 1 as int).drop_last() =~= self.entries@.take(
                    i as int,
                ));
                assert(self.entries@.take(i + 1 as int).last() == self.entries@[i as int]);
            }
            let keep = match &self.entries[i].satisfaction {
                Some(_) => spendable,
                None => !spendable,
            };
            if keep {
                proof {
                    assert(self.entries@[i as int].root@.len() == 32);
                }
                r.push(simplicity_asm(self.entries[i].root.clone()));
            }
            i += 1;
        }
        proof {
            assert(self.entries@.take(n as int) =~= self.entries@);
        }
        r
    }
}

/// The stored witness of the first entry holding the root, as its
/// (program, witness) byte pair; nothing if the root is unregistered or
/// locked.
pub open spec fn spec_satisfaction(entries: Seq<AssemblyEntry>, root: Seq<u8>) -> Option<
    (Seq<u8>, Seq<u8>),
>
    decreases entries.len(),
{
    if entries.len() == 0 {
        None
    } else if entries[0].root@ == root {
        match entries[0].satisfaction {
            Some(w) => Some((w.program@, w.witness@)),
            None => None,
        }
    } else {
        spec_satisfaction(entries.drop_first(), root)
    }
}

/// The roots of the entries whose witness presence equals `spendable`, in
/// order.
pub open spec fn spec_partition_roots(entries: Seq<AssemblyEntry>, spendable: bool) -> Seq<
    Seq<u8>,
>
    decreases entries.len(),
{
    if entries.len() == 0 {
        Seq::empty()
    } else {
        let rest = spec_partition_roots(entries.drop_last(), spendable);
        if (entries.last().satisfaction is Some) == spendable {
            rest.push(entries.last().root@)
        } else {
            rest
        }
    }
}

/// Registration is idempotent in effect: once a root stands in the
/// registry, it is contained, and everything contained before an insertion
/// is still contained after it. Together with the contract of `insert`
/// (which returns true exactly on the first insertion, false and no change
/// on a repeat), inserting the same root twice returns true then false and
/// leaves the root contained.
pub proof fn lemma_insert_idempotent(s1: AssemblySet, s2: AssemblySet, e: AssemblyEntry)
    requires
        s2.entries@ == s1.entries@.push(e),
    ensures
        s2.spec_contains(e.root@),
        forall|r: Seq<u8>| s1.spec_contains(r) ==> s2.spec_contains(r),
{
    assert(s2.entries@[s2.entries@.len() - 1].root@ == e.root@);
    assert forall|r: Seq<u8>| s1.spec_contains(r) implies s2.spec_contains(r) by {
        let i = choose|i: int|
            0 <= i < s1.entries@.len() && (#[trigger] s1.entries@[i]).root@ == r;
        assert(s2.entries@[i].root@ == r);
    }
}

} // verus!
