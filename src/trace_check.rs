//! The verifier adapter: the cut-and-choose trace check of a decoded proof.
use vstd::prelude::*;
use zk_disorder::ZKProof;
use crate::codec::{proof_view, ProofView};

verus! {

/// Whether the trace check accepts a proof with this root, these revealed
/// steps and these Merkle paths.
pub uninterp spec fn trace_verifies(
    root: Seq<u8>,
    steps: Seq<(u32, Seq<u64>, Seq<u64>)>,
    paths: Seq<Seq<Seq<u8>>>,
) -> bool;

/// Whether a decoded proof is valid: it carries a Merkle path for every
/// revealed step, and its trace passes the check.
pub open spec fn proof_accepted(v: ProofView) -> bool {
    v.paths.len() >= v.steps.len() && trace_verifies(v.root, v.steps, v.paths)
}

/// Relies on `ZKProof::verify` of zk_disorder: its answer is a function of the
/// proof's fields alone (hashing and the sponge permutation are deterministic).
/// It reads the Merkle path at the position of each revealed step it reaches,
/// so a proof with fewer paths than steps is kept out.
#[verifier::external_body]
pub(crate) fn run_trace_check(proof: &ZKProof) -> (r: bool)
    requires
        proof.merkle_proofs.len() >= proof.revealed_steps.len(),
    ensures
        r == trace_verifies(
            proof_view(*proof).root,
            proof_view(*proof).steps,
            proof_view(*proof).paths,
        ),
{
    proof.verify()
}

} // verus!
