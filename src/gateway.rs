//! The gateway: the three operations that callers invoke, and the errors they
//! report.
use vstd::prelude::*;
use zk_disorder::ZKProof;
use crate::cipher::{decrypt_block, encrypt_block, opened_block, sealed_block};
use crate::codec::{decode_proof, parse_proof, proof_view};
use crate::trace_check::{proof_accepted, run_trace_check};

verus! {

/// The accounts an operation is given: none, since no operation reads or
/// writes stored state.
pub struct Access {}

/// Why a call failed.
#[derive(Clone, Copy, Debug, PartialEq, Eq, Structural)]
pub enum ErrorCode {
    /// The proof bytes are not exactly one encoded proof.
    InvalidData,
    /// The proof decoded, but its trace does not verify.
    ChaosVerificationFailed,
}

/// Checks a decoded proof; on success hands back its commitment root, the
/// value the success record carries.
pub fn verify_decoded(proof: &ZKProof) -> (r: Result<[u8; 32], ErrorCode>)
    ensures
        proof_accepted(proof_view(*proof)) ==> r == Ok::<[u8; 32], ErrorCode>(proof.merkle_root),
        !proof_accepted(proof_view(*proof)) ==> r == Err::<[u8; 32], ErrorCode>(
            ErrorCode::ChaosVerificationFailed,
        ),
{
    if proof.merkle_proofs.len() < proof.revealed_steps.len() {
        return Err(ErrorCode::ChaosVerificationFailed);
    }
    if run_trace_check(proof) {
        Ok(proof.merkle_root)
    } else {
        Err(ErrorCode::ChaosVerificationFailed)
    }
}

/// Decodes `proof_data` and verifies the proof it holds; on success hands back
/// the proof's commitment root. Decoding comes first: bytes that are not
/// exactly one encoded proof are reported as such, never as a failed check.
pub fn verify_proof(_ctx: &Access, proof_data: Vec<u8>) -> (r: Result<[u8; 32], ErrorCode>)
    ensures
        parse_proof(proof_data@) is None <==> r == Err::<[u8; 32], ErrorCode>(
            ErrorCode::InvalidData,
        ),
        parse_proof(proof_data@) is Some ==> {
            let v = parse_proof(proof_data@)->Some_0;
            &&& proof_accepted(v) ==> r is Ok && r->Ok_0@ == v.root
            &&& !proof_accepted(v) ==> r == Err::<[u8; 32], ErrorCode>(
                ErrorCode::ChaosVerificationFailed,
            )
        },
{
    match decode_proof(proof_data.as_slice()) {
        Err(_) => Err(ErrorCode::InvalidData),
        Ok(proof) => verify_decoded(&proof),
    }
}

/// Seals one block under a cipher state built from `key` and `iv` for this
/// call alone.
pub fn encrypt_sim(_ctx: &Access, key: [u64; 2], iv: [u64; 2], plaintext: [u64; 2]) -> (r: Result<
    [u64; 2],
    ErrorCode,
>)
    ensures
        r is Ok,
        r->Ok_0@ == sealed_block(key@, iv@, plaintext@),
{
    Ok(encrypt_block(key, iv, plaintext))
}

/// Opens one block under a cipher state built from `key` and `iv` for this
/// call alone.
pub fn decrypt_sim(_ctx: &Access, key: [u64; 2], iv: [u64; 2], ciphertext: [u64; 2]) -> (r: Result<
    [u64; 2],
    ErrorCode,
>)
    ensures
        r is Ok,
        r->Ok_0@ == opened_block(key@, iv@, ciphertext@),
{
    Ok(decrypt_block(key, iv, ciphertext))
}

} // verus!
