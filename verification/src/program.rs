//! The program container: a compiled bytecode sequence packaged with a
//! SHA3-256 content digest and a runtime-assigned identifier. A container is
//! persisted as a flat byte record — digest, word count, then the 64-bit
//! bytecode words in little-endian order — and a load recomputes the digest
//! and refuses a record whose stored digest disagrees.

use vstd::bytes::{
    lemma_auto_spec_u64_to_from_le_bytes, spec_u64_from_le_bytes, spec_u64_to_le_bytes,
    u64_from_le_bytes, u64_to_le_bytes,
};
use vstd::prelude::*;
use vstd::slice::slice_subrange;

use tiny_keccak::Hasher;
use tiny_keccak::Sha3;

verus! {

/// Error returned when a persisted program cannot be loaded.
#[derive(Debug)]
pub enum Error {
    /// The byte source could not be read at all.
    NotFound,
    /// The bytes do not parse as a serialized program record.
    Malformed,
    /// The stored digest does not equal the digest of the stored bytecode.
    WrongSum,
}

/// The SHA3-256 digest of a byte sequence, as tiny_keccak computes it.
pub uninterp spec fn sha3_of(data: Seq<u8>) -> Seq<u8>;

/// Relies on tiny_keccak's `Sha3::v256` hasher: the 32-byte digest is a
/// function of the input bytes alone.
#[verifier::external_body]
fn sha3_256(data: &[u8]) -> (r: Vec<u8>)
    ensures
        r@ == sha3_of(data@),
        r@.len() == 32,
{
    let mut sha3 = Sha3::v256();
    sha3.update(data);
    let mut out = [0u8; 32];
    sha3.finalize(&mut out);
    out.to_vec()
}

/// The byte image of a bytecode sequence: each 64-bit word in little-endian
/// order, in program order. This is what the content digest is taken over.
pub open spec fn words_bytes(ws: Seq<u64>) -> Seq<u8>
    decreases ws.len(),
{
    if ws.len() == 0 {
        Seq::empty()
    } else {
        spec_u64_to_le_bytes(ws[0]) + words_bytes(ws.drop_first())
    }
}

pub proof fn lemma_words_bytes_len(ws: Seq<u64>)
    ensures
        words_bytes(ws).len() == 8 * ws.len(),
    decreases ws.len(),
{
    lemma_auto_spec_u64_to_from_le_bytes();
    if ws.len() > 0 {
        lemma_words_bytes_len(ws.drop_first());
    }
}

pub proof fn lemma_words_bytes_snoc(ws: Seq<u64>, w: u64)
    ensures
        words_bytes(ws.push(w)) == words_bytes(ws) + spec_u64_to_le_bytes(w),
    decreases ws.len(),
{
    if ws.len() == 0 {
        reveal_with_fuel(words_bytes, 2);
        assert(ws.push(w).drop_first() =~= Seq::<u64>::empty());
        assert(words_bytes(ws.push(w)) =~= words_bytes(ws) + spec_u64_to_le_bytes(w));
    } else {
        lemma_words_bytes_snoc(ws.drop_first(), w);
        assert(ws.push(w).drop_first() =~= ws.drop_first().push(w));
        assert(ws.push(w)[0] == ws[0]);
        assert(words_bytes(ws.push(w)) == spec_u64_to_le_bytes(ws[0]) + (words_bytes(
            ws.drop_first(),
        ) + spec_u64_to_le_bytes(w)));
        assert(words_bytes(ws.push(w)) =~= words_bytes(ws) + spec_u64_to_le_bytes(w));
    }
}

/// Turn a bytecode sequence into its byte image.
fn words_to_bytes(ws: &Vec<u64>) -> (r: Vec<u8>)
    ensures
        r@ == words_bytes(ws@),
{
    let mut out: Vec<u8> = Vec::new();
    let mut i: usize = 0;
    while i < ws.len()
        invariant
            i <= ws@.len(),
            out@ == words_bytes(ws@.take(i as int)),
        decreases ws@.len() - i,
    {
        let mut chunk = u64_to_le_bytes(ws[i]);
        out.append(&mut chunk);
        proof {
            assert(ws@.take(i + 1) =~= ws@.take(i as int).push(ws@[i as int]));
            lemma_words_bytes_snoc(ws@.take(i as int), ws@[i as int]);
        }
        i = i + 1;
    }
    proof {
        assert(ws@.take(ws@.len() as int) =~= ws@);
    }
    out
}

/// A Program is a collection of executable instructions packaged with the
/// digest that guards them. Instructions are encoded as 64-bit unsigned
/// integers: the top 6 bits of each word are the opcode ordinal, and the
/// remaining 58 bits hold the operands, whose layout depends on the opcode.
pub struct Program {
    /// The ID assigned to this program at run time by the VM. It is never
    /// persisted; a load always resets it.
    pub runtime_id: u64,
    /// The SHA3-256 digest of the byte image of the bytecode.
    pub hash: Vec<u8>,
    /// The bytecode defining the program.
    pub bytecode: Vec<u64>,
}

impl Program {
    /// The container's integrity invariant: the embedded digest is the
    /// digest of the bytecode it travels with.
    pub open spec fn wf(&self) -> bool {
        &&& self.hash@.len() == 32
        &&& self.hash@ == sha3_of(words_bytes(self.bytecode@))
    }

    /// An empty program: no bytecode, digest of the empty image.
    pub fn new() -> (p: Program)
        ensures
            p.wf(),
            p.bytecode@ == Seq::<u64>::empty(),
            p.runtime_id == 0,
    {
        let bytecode: Vec<u64> = Vec::new();
        let image = words_to_bytes(&bytecode);
        let hash = sha3_256(image.as_slice());
        Program { runtime_id: 0, hash, bytecode }
    }

    /// Package a bytecode sequence with its freshly computed digest.
    pub fn from_bytecode(bytecode: Vec<u64>) -> (p: Program)
        ensures
            p.wf(),
            p.bytecode@ == bytecode@,
            p.runtime_id == 0,
    {
        let image = words_to_bytes(&bytecode);
        let hash = sha3_256(image.as_slice());
        Program { runtime_id: 0, hash, bytecode }
    }

    /// Recompute the digest of the bytecode and compare it against the
    /// embedded one.
    pub fn check_hash(&self) -> (r: bool)
        ensures
            r == (self.hash@ == sha3_of(words_bytes(self.bytecode@))),
    {
        let image = words_to_bytes(&self.bytecode);
        let fresh = sha3_256(image.as_slice());
        bytes_equal(fresh.as_slice(), self.hash.as_slice())
    }

    /// Serialize the program to its persisted byte record: the 32 digest
    /// bytes, the word count as 8 little-endian bytes, then the bytecode's
    /// byte image. The runtime identifier is not persisted.
    pub fn to_bytes(&self) -> (r: Vec<u8>)
        ensures
            r@ == spec_serialize(self.hash@, self.bytecode@),
    {
        let mut out: Vec<u8> = Vec::new();
        let mut hash_copy = clone_bytes(&self.hash);
        out.append(&mut hash_copy);
        let mut count = u64_to_le_bytes(self.bytecode.len() as u64);
        out.append(&mut count);
        let mut image = words_to_bytes(&self.bytecode);
        out.append(&mut image);
        out
    }
}

/// Compare two byte strings.
fn bytes_equal(a: &[u8], b: &[u8]) -> (r: bool)
    ensures
        r == (a@ == b@),
{
    if a.len() != b.len() {
        return false;
    }
    let mut i: usize = 0;
    while i < a.len()
        invariant
            i <= a@.len(),
            a@.len() == b@.len(),
            forall|j: int| 0 <= j < i ==> a@[j] == b@[j],
        decreases a@.len() - i,
    {
        if a[i] != b[i] {
            return false;
        }
        i = i + 1;
    }
    proof {
        assert(a@ =~= b@);
    }
    true
}

/// Copy a byte vector.
fn clone_bytes(v: &Vec<u8>) -> (r: Vec<u8>)
    ensures
        r@ == v@,
{
    let mut out: Vec<u8> = Vec::new();
    let mut i: usize = 0;
    while i < v.len()
        invariant
            i <= v@.len(),
            out@ == v@.take(i as int),
        decreases v@.len() - i,
    {
        out.push(v[i]);
        proof {
            assert(v@.take(i + 1) =~= v@.take(i as int).push(v@[i as int]));
        }
        i = i + 1;
    }
    proof {
        assert(v@.take(v@.len() as int) =~= v@);
    }
    out
}

/// The persisted byte record of a program: digest, word count, byte image.
pub open spec fn spec_serialize(hash: Seq<u8>, ws: Seq<u64>) -> Seq<u8> {
    hash + spec_u64_to_le_bytes(ws.len() as u64) + words_bytes(ws)
}

/// Parse a byte sequence as consecutive little-endian 64-bit words.
pub open spec fn parse_words(d: Seq<u8>) -> Seq<u64>
    decreases d.len(),
{
    if d.len() < 8 {
        Seq::empty()
    } else {
        seq![spec_u64_from_le_bytes(d.subrange(0, 8))] + parse_words(d.skip(8))
    }
}

/// Parse a persisted record into its digest and bytecode, if the bytes have
/// the record's exact shape.
pub open spec fn spec_deserialize(d: Seq<u8>) -> Option<(Seq<u8>, Seq<u64>)> {
    if d.len() >= 40 {
        let h = d.subrange(0, 32);
        let n = spec_u64_from_le_bytes(d.subrange(32, 40));
        let ws = parse_words(d.skip(40));
        if d.len() == 40 + 8 * (ws.len() as int) && n == ws.len() {
            Some((h, ws))
        } else {
            None
        }
    } else {
        None
    }
}

/// What loading a persisted record yields: the digest and bytecode when the
/// record parses and the recomputed digest agrees, and the exact error
/// otherwise.
pub open spec fn spec_load(d: Seq<u8>) -> Result<(Seq<u8>, Seq<u64>), Error> {
    match spec_deserialize(d) {
        Option::None => Err(Error::Malformed),
        Option::Some((h, ws)) => {
            if h == sha3_of(words_bytes(ws)) {
                Ok((h, ws))
            } else {
                Err(Error::WrongSum)
            }
        },
    }
}

/// Load a program from its persisted byte record, recomputing the digest and
/// comparing it against the stored one. The runtime identifier of a loaded
/// program is always zero.
pub fn load(data: &[u8]) -> (r: Result<Program, Error>)
    ensures
        match r {
            Ok(p) => {
                &&& spec_load(data@) == Ok::<_, Error>((p.hash@, p.bytecode@))
                &&& p.wf()
                &&& p.runtime_id == 0
            },
            Err(e) => spec_load(data@) == Err::<(Seq<u8>, Seq<u64>), _>(e),
        },
{
    if data.len() < 40 {
        return Err(Error::Malformed);
    }
    let hash_slice = slice_subrange(data, 0, 32);
    let hash = slice_to_vec_u8(hash_slice);
    let n64 = u64_from_le_bytes(slice_subrange(data, 32, 40));

    let mut words: Vec<u64> = Vec::new();
    let mut offset: usize = 40;
    while offset <= data.len() - 8
        invariant
            40 <= offset <= data@.len(),
            data@.len() >= 40,
            offset == 40 + 8 * words@.len(),
            parse_words(data@.skip(40)) == words@ + parse_words(data@.skip(offset as int)),
        decreases data@.len() - offset,
    {
        let w = u64_from_le_bytes(slice_subrange(data, offset, offset + 8));
        proof {
            let rest = data@.skip(offset as int);
            assert(rest.subrange(0, 8) =~= data@.subrange(offset as int, offset + 8));
            assert(rest.skip(8) =~= data@.skip(offset + 8));
            assert(parse_words(rest) =~= seq![spec_u64_from_le_bytes(rest.subrange(0, 8))]
                + parse_words(rest.skip(8)));
            assert(words@ + parse_words(rest) =~= words@.push(
                spec_u64_from_le_bytes(data@.subrange(offset as int, offset + 8)),
            ) + parse_words(data@.skip(offset + 8)));
        }
        words.push(w);
        offset = offset + 8;
    }
    if offset != data.len() {
        // one to seven trailing bytes: not a whole word
        proof {
            assert(parse_words(data@.skip(offset as int)) =~= Seq::<u64>::empty());
            assert(parse_words(data@.skip(40)) =~= words@);
            lemma_words_bytes_len(words@);
        }
        return Err(Error::Malformed);
    }
    proof {
        assert(parse_words(data@.skip(offset as int)) =~= Seq::<u64>::empty());
        assert(parse_words(data@.skip(40)) =~= words@);
    }
    if n64 != words.len() as u64 {
        return Err(Error::Malformed);
    }
    let image = words_to_bytes(&words);
    let fresh = sha3_256(image.as_slice());
    if !bytes_equal(fresh.as_slice(), hash.as_slice()) {
        return Err(Error::WrongSum);
    }
    Ok(Program { runtime_id: 0, hash, bytecode: words })
}

/// Copy a byte slice into a vector.
fn slice_to_vec_u8(s: &[u8]) -> (r: Vec<u8>)
    ensures
        r@ == s@,
{
    let mut out: Vec<u8> = Vec::new();
    let mut i: usize = 0;
    while i < s.len()
        invariant
            i <= s@.len(),
            out@ == s@.take(i as int),
        decreases s@.len() - i,
    {
        out.push(s[i]);
        proof {
            assert(s@.take(i + 1) =~= s@.take(i as int).push(s@[i as int]));
        }
        i = i + 1;
    }
    proof {
        assert(s@.take(s@.len() as int) =~= s@);
    }
    out
}

/// Parsing the byte image of a bytecode sequence gives back that sequence.
pub proof fn lemma_parse_words_round_trip(ws: Seq<u64>)
    ensures
        parse_words(words_bytes(ws)) == ws,
    decreases ws.len(),
{
    lemma_auto_spec_u64_to_from_le_bytes();
    lemma_words_bytes_len(ws);
    if ws.len() == 0 {
        assert(parse_words(words_bytes(ws)) =~= ws);
    } else {
        let d = words_bytes(ws);
        lemma_words_bytes_len(ws.drop_first());
        assert(d.subrange(0, 8) =~= spec_u64_to_le_bytes(ws[0]));
        assert(d.skip(8) =~= words_bytes(ws.drop_first()));
        lemma_parse_words_round_trip(ws.drop_first());
        assert(parse_words(words_bytes(ws)) =~= ws);
    }
}

/// Persisting a well-formed program and loading the record back yields the
/// same digest and the identical bytecode sequence, and the digest
/// verification succeeds.
pub proof fn lemma_save_load_round_trip(hash: Seq<u8>, ws: Seq<u64>)
    requires
        hash.len() == 32,
        ws.len() <= u64::MAX,
        hash == sha3_of(words_bytes(ws)),
    ensures
        spec_load(spec_serialize(hash, ws)) == Ok::<_, Error>((hash, ws)),
{
    lemma_auto_spec_u64_to_from_le_bytes();
    lemma_words_bytes_len(ws);
    let d = spec_serialize(hash, ws);
    assert(d.subrange(0, 32) =~= hash);
    assert(d.subrange(32, 40) =~= spec_u64_to_le_bytes(ws.len() as u64));
    assert(d.skip(40) =~= words_bytes(ws));
    lemma_parse_words_round_trip(ws);
}

} // verus!
