//! The delta engine: block signatures, deltas against a signature, and
//! applying a delta to the data the signature was taken from. The rolling
//! checksum and the delta format are those of the `fast_rsync` crate; this
//! module fixes the parameters, guards the calls and names the errors.

use vstd::prelude::*;

verus! {

/// Bytes per signed block.
pub const BLOCK_SIZE: u32 = 1024;

/// Bytes of strong hash kept per block.
pub const CRYPTO_HASH_SIZE: u32 = 8;

/// Longest strong hash the engine can keep per block.
pub const MAX_CRYPTO_HASH_SIZE: u32 = 16;

/// A signature starts with its kind, block size and hash size, four bytes
/// each.
pub const SIGNATURE_HEADER: usize = 12;

/// Bytes of rolling checksum per block.
pub const BLOCK_CHECKSUM: usize = 4;

/// Marks a signature whose strong hash is MD4.
pub const MD4_MAGIC: u32 = 0x7273_0136;

/// Marks a signature whose strong hash is BLAKE2, which cannot be diffed
/// against.
pub const BLAKE2_MAGIC: u32 = 0x7273_0137;

/// Why the engine gave no result.
#[derive(Debug, Clone, Copy, PartialEq, Eq, Structural)]
pub enum DeltaError {
    /// The signature is malformed or of a kind that deltas cannot be
    /// computed against.
    SignatureParse,
    /// The delta is not a well-formed instruction stream.
    DeltaMalformed,
    /// The delta is well formed but does not apply to this data.
    ApplyFailed,
}

/// What `fast_rsync::apply` found wrong with a delta.
#[derive(Debug, Clone, Copy, PartialEq, Eq, Structural)]
pub enum ApplyFault {
    WrongMagic,
    UnexpectedEof,
    OutputLimit,
    CopyOutOfBounds,
    CopyZero,
    UnknownCommand,
    TrailingData,
    Io,
}

#[verifier::external_type_specification]
#[verifier::external_body]
pub struct ExSignature(fast_rsync::Signature);

#[verifier::external_type_specification]
#[verifier::external_body]
pub struct ExSignatureParseError(fast_rsync::SignatureParseError);

#[verifier::external_type_specification]
#[verifier::external_body]
pub struct ExDiffError(fast_rsync::DiffError);

/// The serialized signature that `fast_rsync::Signature::calculate` gives
/// for `data` with the given block and hash sizes.
pub uninterp spec fn signature_of(data: Seq<u8>, block_size: u32, crypto_hash_size: u32) -> Seq<u8>;

/// The serialized form that a parsed signature holds.
pub uninterp spec fn signature_content(signature: fast_rsync::Signature) -> Seq<u8>;

/// The delta that `fast_rsync::diff` writes for `data` against the
/// signature with serialized form `signature`.
pub uninterp spec fn delta_of(signature: Seq<u8>, data: Seq<u8>) -> Seq<u8>;

/// What `fast_rsync::apply` gives for `delta` on `base`: the rebuilt data,
/// or what it found wrong.
pub uninterp spec fn applied(base: Seq<u8>, delta: Seq<u8>) -> Result<Seq<u8>, ApplyFault>;

/// The big-endian 32-bit number at `at`.
pub open spec fn be32(b: Seq<u8>, at: int) -> nat {
    (b[at] as nat) * 0x100_0000 + (b[at + 1] as nat) * 0x1_0000 + (b[at + 2] as nat) * 0x100
        + b[at + 3] as nat
}

/// A signature that has its header and a whole number of block entries,
/// each a checksum and a hash of the size the header gives.
pub open spec fn signature_parses(s: Seq<u8>) -> bool {
    &&& s.len() >= SIGNATURE_HEADER
    &&& (be32(s, 0) == MD4_MAGIC || be32(s, 0) == BLAKE2_MAGIC)
    &&& (s.len() - SIGNATURE_HEADER) % (BLOCK_CHECKSUM + be32(s, 8)) as int == 0
}

/// A signature of the one kind that deltas are computed against: MD4, with
/// at most sixteen bytes of hash.
pub open spec fn signature_diffable(s: Seq<u8>) -> bool {
    be32(s, 0) == MD4_MAGIC && be32(s, 8) <= MAX_CRYPTO_HASH_SIZE
}

/// A signature that a delta can be computed against: it parses, its hash
/// is MD4 of at most sixteen bytes, and its blocks are not empty.
pub open spec fn signature_usable(s: Seq<u8>) -> bool {
    &&& signature_parses(s)
    &&& be32(s, 0) == MD4_MAGIC
    &&& be32(s, 4) > 0
    &&& be32(s, 8) <= MAX_CRYPTO_HASH_SIZE
}

/// The error that a fault of `fast_rsync::apply` is reported as: faults of
/// the instruction stream itself are `DeltaMalformed`, faults that depend
/// on the data it is applied to are `ApplyFailed`.
pub open spec fn fault_error(f: ApplyFault) -> DeltaError {
    match f {
        ApplyFault::WrongMagic => DeltaError::DeltaMalformed,
        ApplyFault::UnexpectedEof => DeltaError::DeltaMalformed,
        ApplyFault::UnknownCommand => DeltaError::DeltaMalformed,
        ApplyFault::TrailingData => DeltaError::DeltaMalformed,
        ApplyFault::CopyZero => DeltaError::DeltaMalformed,
        ApplyFault::CopyOutOfBounds => DeltaError::ApplyFailed,
        ApplyFault::OutputLimit => DeltaError::ApplyFailed,
        ApplyFault::Io => DeltaError::ApplyFailed,
    }
}

/// What applying `delta` to `old_data` comes to.
pub open spec fn apply_outcome(old_data: Seq<u8>, delta: Seq<u8>) -> Result<Seq<u8>, DeltaError> {
    match applied(old_data, delta) {
        Ok(data) => Ok(data),
        Err(f) => Err(fault_error(f)),
    }
}

/// `fast_rsync::Signature::calculate` followed by `into_serialized`: the
/// signature of `data`. It starts with the MD4 marker, the block size and
/// the hash size, and holds one checksum and hash per block after that.
/// The call panics on a zero block size and on a hash size above sixteen.
#[verifier::external_body]
fn block_signature(data: &[u8], block_size: u32, crypto_hash_size: u32) -> (r: Vec<u8>)
    requires
        block_size > 0,
        crypto_hash_size <= MAX_CRYPTO_HASH_SIZE,
    ensures
        r@ == signature_of(data@, block_size, crypto_hash_size),
        r@.len() >= SIGNATURE_HEADER,
        be32(r@, 0) == MD4_MAGIC,
        be32(r@, 4) == block_size,
        be32(r@, 8) == crypto_hash_size,
        (r@.len() - SIGNATURE_HEADER) % (BLOCK_CHECKSUM + crypto_hash_size) as int == 0,
{
    let options = fast_rsync::SignatureOptions { block_size, crypto_hash_size };
    fast_rsync::Signature::calculate(data, options).into_serialized()
}

/// `fast_rsync::Signature::deserialize`: accepts exactly the byte strings
/// that have a header of a known kind and whole block entries, and keeps
/// them as they are.
#[verifier::external_body]
fn parse_signature(bytes: Vec<u8>) -> (r: Result<fast_rsync::Signature, fast_rsync::SignatureParseError>)
    requires
        bytes@.len() >= SIGNATURE_HEADER ==> be32(bytes@, 8) <= MAX_CRYPTO_HASH_SIZE,
    ensures
        r is Ok <==> signature_parses(bytes@),
        r matches Ok(s) ==> signature_content(s) == bytes@,
{
    fast_rsync::Signature::deserialize(bytes)
}

/// `fast_rsync::diff` on the indexed signature, writing into a fresh
/// vector: the delta of `data` against `signature`. It refuses signatures
/// that are not MD4 or whose hash is longer than sixteen bytes, and does
/// not return on some signatures with a zero block size.
#[verifier::external_body]
fn diff_against(signature: &fast_rsync::Signature, data: &[u8]) -> (r: Result<Vec<u8>, fast_rsync::DiffError>)
    requires
        signature_parses(signature_content(*signature)),
        be32(signature_content(*signature), 4) > 0,
    ensures
        r is Ok <==> signature_diffable(signature_content(*signature)),
        r matches Ok(d) ==> d@ == delta_of(signature_content(*signature), data@),
{
    let mut out: Vec<u8> = Vec::new();
    fast_rsync::diff(&signature.index(), data, &mut out).map(|_| out)
}

/// `fast_rsync::apply` into a fresh vector: the data that `delta` rebuilds
/// from `base`, or the fault it stopped at.
#[verifier::external_body]
fn patch(base: &[u8], delta: &[u8]) -> (r: Result<Vec<u8>, ApplyFault>)
    ensures
        match applied(base@, delta@) {
            Ok(data) => r matches Ok(got) && got@ == data,
            Err(f) => r == Err::<Vec<u8>, ApplyFault>(f),
        },
{
    let mut out: Vec<u8> = Vec::new();
    match fast_rsync::apply(base, delta, &mut out) {
        Ok(()) => Ok(out),
        Err(fast_rsync::ApplyError::WrongMagic { .. }) => Err(ApplyFault::WrongMagic),
        Err(fast_rsync::ApplyError::UnexpectedEof { .. }) => Err(ApplyFault::UnexpectedEof),
        Err(fast_rsync::ApplyError::OutputLimit { .. }) => Err(ApplyFault::OutputLimit),
        Err(fast_rsync::ApplyError::CopyOutOfBounds { .. }) => Err(ApplyFault::CopyOutOfBounds),
        Err(fast_rsync::ApplyError::CopyZero) => Err(ApplyFault::CopyZero),
        Err(fast_rsync::ApplyError::UnknownCommand { .. }) => Err(ApplyFault::UnknownCommand),
        Err(fast_rsync::ApplyError::TrailingData { .. }) => Err(ApplyFault::TrailingData),
        Err(fast_rsync::ApplyError::Io(_)) => Err(ApplyFault::Io),
    }
}

/// The big-endian 32-bit number at `at`.
fn read_be32(buf: &[u8], at: usize) -> (n: u32)
    requires
        at + 4 <= buf@.len(),
    ensures
        n == be32(buf@, at as int),
{
    let b0: u32 = buf[at] as u32;
    let b1: u32 = buf[at + 1] as u32;
    let b2: u32 = buf[at + 2] as u32;
    let b3: u32 = buf[at + 3] as u32;
    b0 * 0x100_0000 + b1 * 0x1_0000 + b2 * 0x100 + b3
}

/// The error that an apply fault is reported as.
pub fn classify_fault(f: ApplyFault) -> (e: DeltaError)
    ensures
        e == fault_error(f),
{
    match f {
        ApplyFault::WrongMagic => DeltaError::DeltaMalformed,
        ApplyFault::UnexpectedEof => DeltaError::DeltaMalformed,
        ApplyFault::UnknownCommand => DeltaError::DeltaMalformed,
        ApplyFault::TrailingData => DeltaError::DeltaMalformed,
        ApplyFault::CopyZero => DeltaError::DeltaMalformed,
        ApplyFault::CopyOutOfBounds => DeltaError::ApplyFailed,
        ApplyFault::OutputLimit => DeltaError::ApplyFailed,
        ApplyFault::Io => DeltaError::ApplyFailed,
    }
}

/// The signature of the receiver's current content, with blocks of
/// `BLOCK_SIZE` bytes and `CRYPTO_HASH_SIZE` bytes of strong hash each.
/// It never fails, and a delta can always be computed against it.
pub fn calculate_signature(data: &[u8]) -> (r: Result<Vec<u8>, DeltaError>)
    ensures
        r matches Ok(sig) && sig@ == signature_of(data@, BLOCK_SIZE, CRYPTO_HASH_SIZE)
            && signature_usable(sig@),
{
    Ok(block_signature(data, BLOCK_SIZE, CRYPTO_HASH_SIZE))
}

/// The delta that turns the data behind `signature_data` into `new_data`.
/// It is computed exactly when the signature is usable; any other
/// signature is `SignatureParse`.
pub fn calculate_delta(signature_data: &[u8], new_data: &[u8]) -> (r: Result<Vec<u8>, DeltaError>)
    ensures
        signature_usable(signature_data@) ==> (r matches Ok(delta) && delta@ == delta_of(
            signature_data@,
            new_data@,
        )),
        !signature_usable(signature_data@) ==> r == Err::<Vec<u8>, DeltaError>(
            DeltaError::SignatureParse,
        ),
{
    if signature_data.len() < SIGNATURE_HEADER {
        return Err(DeltaError::SignatureParse);
    }
    let block_size: u32 = read_be32(signature_data, 4);
    let hash_size: u32 = read_be32(signature_data, 8);
    if block_size == 0 || hash_size > MAX_CRYPTO_HASH_SIZE {
        return Err(DeltaError::SignatureParse);
    }
    let signature = match parse_signature(vstd::slice::slice_to_vec(signature_data)) {
        Ok(s) => s,
        Err(_) => { return Err(DeltaError::SignatureParse); },
    };
    match diff_against(&signature, new_data) {
        Ok(delta) => Ok(delta),
        Err(_) => Err(DeltaError::SignatureParse),
    }
}

/// The data that `delta` rebuilds from `old_data`. A fault of the delta
/// itself is `DeltaMalformed`; a delta that does not fit `old_data` is
/// `ApplyFailed`. `old_data` is left as it is either way.
pub fn apply_delta(old_data: &[u8], delta: &[u8]) -> (r: Result<Vec<u8>, DeltaError>)
    ensures
        match apply_outcome(old_data@, delta@) {
            Ok(data) => r matches Ok(got) && got@ == data,
            Err(e) => r == Err::<Vec<u8>, DeltaError>(e),
        },
{
    match patch(old_data, delta) {
        Ok(data) => Ok(data),
        Err(f) => Err(classify_fault(f)),
    }
}

} // verus!
