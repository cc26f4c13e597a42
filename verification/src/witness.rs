use vstd::prelude::*;
use vstd::string::StringExecFns;

use vstd::bytes::{
    lemma_auto_spec_u32_to_from_le_bytes, spec_u32_from_le_bytes, spec_u32_to_le_bytes,
    u32_from_le_bytes, u32_to_le_bytes,
};

use crate::error::Error;
use crate::util::sub_bytes;

verus! {

// ---------------------------------------------------------------------------
// Names for the results of the witness codec. Each value is a function of
// the named arguments alone.
// ---------------------------------------------------------------------------

/// The standard (padded) base64 encoding of a byte string.
pub uninterp spec fn b64_of(bytes: Seq<u8>) -> Seq<char>;

/// Whether a program/witness byte pair decodes as a finalized program for
/// the Elements jet family.
pub uninterp spec fn witness_parses(program: Seq<u8>, witness: Seq<u8>) -> bool;

// ---------------------------------------------------------------------------
// Trusted wrappers around base64 and the program codec.
// ---------------------------------------------------------------------------

/// Relies on base64's standard engine with canonical padding: the encoding
/// is a deterministic, injective function of the bytes.
#[verifier::external_body]
pub(crate) fn base64_encode(bytes: &Vec<u8>) -> (r: String)
    ensures
        r@ == b64_of(bytes@),
        forall|other: Seq<u8>| b64_of(other) == r@ ==> other == bytes@,
{
    base64::Engine::encode(&base64::engine::general_purpose::STANDARD, bytes.as_slice())
}

/// Relies on base64's standard engine with canonical padding and no trailing
/// bits: decoding accepts exactly the canonical encodings, and returns the
/// unique preimage.
#[verifier::external_body]
pub(crate) fn base64_decode(s: &str) -> (r: Option<Vec<u8>>)
    ensures
        r matches Some(b) ==> s@ == b64_of(b@) && (forall|other: Seq<u8>|
            b64_of(other) == s@ ==> other == b@),
        r is None ==> forall|b: Seq<u8>| s@ != b64_of(b),
{
    match base64::Engine::decode(&base64::engine::general_purpose::STANDARD, s) {
        Ok(b) => Some(b),
        Err(_) => None,
    }
}

/// Relies on `simplicity::RedeemNode::decode` for the Elements jet family:
/// whether a program/witness byte pair decodes is a function of the bytes
/// alone.
#[verifier::external_body]
pub(crate) fn witness_decodes(program: &Vec<u8>, witness: &Vec<u8>) -> (r: bool)
    ensures
        r == witness_parses(program@, witness@),
{
    let p = simplicity::BitIter::new(program.clone().into_iter());
    let w = simplicity::BitIter::new(witness.clone().into_iter());
    simplicity::RedeemNode::decode::<_, _, simplicity::jet::Elements>(p, w).is_ok()
}

// ---------------------------------------------------------------------------
// Framing of the (program, witness) pair into one self-describing blob.
// ---------------------------------------------------------------------------

/// One blob holding both encodings: a 4-byte little-endian length of the
/// program part, the program part, then the witness part.
pub open spec fn spec_frame(program: Seq<u8>, witness: Seq<u8>) -> Seq<u8> {
    spec_u32_to_le_bytes(program.len() as u32) + program + witness
}

/// The inverse of `spec_frame`: nothing if the blob is shorter than its
/// header says.
pub open spec fn spec_unframe(blob: Seq<u8>) -> Option<(Seq<u8>, Seq<u8>)> {
    if blob.len() < 4 {
        None
    } else {
        let n = spec_u32_from_le_bytes(blob.subrange(0, 4)) as int;
        if blob.len() - 4 < n {
            None
        } else {
            Some((blob.subrange(4, 4 + n), blob.subrange(4 + n, blob.len() as int)))
        }
    }
}

/// Framing loses nothing: a framed pair always unframes to itself.
pub proof fn lemma_frame_round_trip(program: Seq<u8>, witness: Seq<u8>)
    requires
        program.len() <= u32::MAX,
    ensures
        spec_unframe(spec_frame(program, witness)) == Some((program, witness)),
{
    lemma_auto_spec_u32_to_from_le_bytes();
    let blob = spec_frame(program, witness);
    let header = spec_u32_to_le_bytes(program.len() as u32);
    assert(header.len() == 4);
    assert(blob.subrange(0, 4) =~= header);
    assert(spec_u32_from_le_bytes(blob.subrange(0, 4)) == program.len() as u32);
    let n = program.len() as int;
    assert(blob.subrange(4, 4 + n) =~= program);
    assert(blob.subrange(4 + n, blob.len() as int) =~= witness);
}

/// Frame a program/witness pair into one blob.
pub fn frame(program: &Vec<u8>, witness: &Vec<u8>) -> (r: Vec<u8>)
    requires
        program@.len() <= u32::MAX,
    ensures
        r@ == spec_frame(program@, witness@),
{
    let mut out = u32_to_le_bytes(program.len() as u32);
    let mut p = program.clone();
    let mut w = witness.clone();
    out.append(&mut p);
    out.append(&mut w);
    proof {
        assert(out@ =~= spec_frame(program@, witness@));
    }
    out
}

/// Split a blob into its program and witness parts.
pub fn unframe(blob: &Vec<u8>) -> (r: Option<(Vec<u8>, Vec<u8>)>)
    ensures
        match r {
            Some(pair) => spec_unframe(blob@) == Some((pair.0@, pair.1@)),
            None => spec_unframe(blob@) is None,
        },
{
    if blob.len() < 4 {
        return None;
    }
    let header = sub_bytes(blob.as_slice(), 0, 4);
    let n32 = u32_from_le_bytes(header.as_slice());
    let n = n32 as usize;
    if blob.len() - 4 < n {
        return None;
    }
    let program = sub_bytes(blob.as_slice(), 4, 4 + n);
    let witness = sub_bytes(blob.as_slice(), 4 + n, blob.len());
    Some((program, witness))
}

// ---------------------------------------------------------------------------
// The finalized unlocking witness.
// ---------------------------------------------------------------------------

/// A finalized unlocking witness: the canonical program and witness byte
/// encodings of a finalized program. Two witnesses are the same exactly
/// when their encodings are the same.
#[derive(Clone, Debug)]
pub struct SerdeWitnessNode {
    pub program: Vec<u8>,
    pub witness: Vec<u8>,
}

impl SerdeWitnessNode {
    /// Well-formedness: the byte pair decodes as a finalized program, and
    /// the program part fits the frame header.
    pub open spec fn wf(&self) -> bool {
        witness_parses(self.program@, self.witness@) && self.program@.len() <= u32::MAX
    }

    /// An unlocking witness from the canonical byte encodings of a
    /// finalized program, as the program parser hands them over. Fails with
    /// `Finalize` exactly when the pair does not decode as a finalized
    /// program; the program's real semantics are never checked here.
    pub fn new(program: Vec<u8>, witness: Vec<u8>) -> (r: Result<SerdeWitnessNode, Error>)
        ensures
            match r {
                Ok(w) => w.wf() && w.program@ == program@ && w.witness@ == witness@,
                Err(e) => (!witness_parses(program@, witness@) || program@.len() > u32::MAX) && e
                    is Finalize,
            },
    {
        if program.len() > 0xFFFF_FFFFusize {
            return Err(Error::Finalize(String::from_str("program encoding is too long")));
        }
        if !witness_decodes(&program, &witness) {
            return Err(Error::Finalize(
                String::from_str("byte pair does not decode as a finalized program"),
            ));
        }
        Ok(SerdeWitnessNode { program, witness })
    }

    /// The witness as one self-describing text blob: the framed byte pair,
    /// base64-encoded.
    pub fn encode_to_string(&self) -> (r: String)
        requires
            self.program@.len() <= u32::MAX,
        ensures
            r@ == b64_of(spec_frame(self.program@, self.witness@)),
    {
        let blob = frame(&self.program, &self.witness);
        base64_encode(&blob)
    }

    /// Decode a witness from its text blob. Fails with a parse error on
    /// invalid base64, a short blob, or a byte pair that does not decode as
    /// a finalized program. On success, the result is the one witness whose
    /// encoding is the input.
    pub fn from_str(s: &str) -> (r: Result<SerdeWitnessNode, Error>)
        ensures
            r is Ok <==> exists|p: Seq<u8>, ww: Seq<u8>|
                s@ == b64_of(#[trigger] spec_frame(p, ww)) && p.len() <= u32::MAX
                    && witness_parses(p, ww),
            match r {
                Ok(w) => w.wf() && s@ == b64_of(spec_frame(w.program@, w.witness@)) && (forall|
                    p: Seq<u8>,
                    ww: Seq<u8>,
                |
                    b64_of(#[trigger] spec_frame(p, ww)) == s@ && p.len() <= u32::MAX ==> p
                        == w.program@ && ww == w.witness@),
                Err(e) => e is CouldNotParse,
            },
    {
        let blob = match base64_decode(s) {
            Some(b) => b,
            None => {
                return Err(Error::CouldNotParse(String::from_str("invalid base64")));
            },
        };
        let (p, w) = match unframe(&blob) {
            Some(pair) => pair,
            None => {
                proof {
                    assert forall|pp: Seq<u8>, ww: Seq<u8>|
                        b64_of(#[trigger] spec_frame(pp, ww)) != s@ || pp.len() > u32::MAX by {
                        if pp.len() <= u32::MAX && b64_of(spec_frame(pp, ww)) == s@ {
                            assert(spec_frame(pp, ww) == blob@);
                            lemma_frame_round_trip(pp, ww);
                        }
                    }
                }
                return Err(Error::CouldNotParse(String::from_str("truncated witness blob")));
            },
        };
        if !witness_decodes(&p, &w) {
            proof {
                assert forall|pp: Seq<u8>, ww: Seq<u8>|
                    b64_of(#[trigger] spec_frame(pp, ww)) != s@ || pp.len() > u32::MAX
                        || witness_parses(pp, ww) == witness_parses(p@, w@) by {
                    if pp.len() <= u32::MAX && b64_of(spec_frame(pp, ww)) == s@ {
                        assert(spec_frame(pp, ww) == blob@);
                        lemma_frame_round_trip(pp, ww);
                        assert(pp == p@ && ww == w@);
                    }
                }
            }
            return Err(
                Error::CouldNotParse(String::from_str("blob does not decode as a program")),
            );
        }
        proof {
            if blob@.len() >= 4 {
                let hn = spec_u32_from_le_bytes(blob@.subrange(0, 4)) as int;
                assert(p@.len() <= u32::MAX);
            }
            assert forall|pp: Seq<u8>, ww: Seq<u8>|
                b64_of(#[trigger] spec_frame(pp, ww)) == s@ && pp.len() <= u32::MAX implies pp
                == p@ && ww == w@ by {
                assert(spec_frame(pp, ww) == blob@);
                lemma_frame_round_trip(pp, ww);
            }
            assert(s@ == b64_of(spec_frame(p@, w@))) by {
                assert(spec_unframe(blob@) == Some((p@, w@)));
                assert(blob@ =~= spec_frame(p@, w@)) by {
                    lemma_unframe_frame(blob@);
                }
            }
            assert(s@ == b64_of(spec_frame(p@, w@)) && p@.len() <= u32::MAX && witness_parses(
                p@,
                w@,
            ));
        }
        Ok(SerdeWitnessNode { program: p, witness: w })
    }
}

/// A blob that unframes is the frame of its parts.
pub proof fn lemma_unframe_frame(blob: Seq<u8>)
    requires
        spec_unframe(blob) is Some,
    ensures
        blob == spec_frame(
            spec_unframe(blob).unwrap().0,
            spec_unframe(blob).unwrap().1,
        ),
        spec_unframe(blob).unwrap().0.len() <= u32::MAX,
{
    lemma_auto_spec_u32_to_from_le_bytes();
    let n32 = spec_u32_from_le_bytes(blob.subrange(0, 4));
    let n = n32 as int;
    let p = blob.subrange(4, 4 + n);
    let w = blob.subrange(4 + n, blob.len() as int);
    assert(p.len() == n);
    assert(spec_u32_to_le_bytes(p.len() as u32) == blob.subrange(0, 4));
    assert(spec_frame(p, w) =~= blob);
}

} // verus!
