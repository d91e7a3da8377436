//! The codec: the byte layout of a cut-and-choose proof, and its decoding.
//!
//! A proof is laid out as its 32-byte commitment root; a little-endian `u32`
//! count of revealed steps, each a `u32` step index and two sponge states of
//! four little-endian `u64` words (68 bytes a step); then a `u32` count of
//! Merkle paths, each a `u32` count of 32-byte sibling hashes followed by the
//! hashes. Nothing may follow the last path.
use vstd::prelude::*;
use zk_disorder::{StateSnapshot, ZKProof};

verus! {

#[verifier::external_type_specification]
pub struct ExStateSnapshot(StateSnapshot);

#[verifier::external_type_specification]
pub struct ExZKProof(ZKProof);

#[verifier::external_type_specification]
#[verifier::external_body]
pub struct ExIoError(std::io::Error);

/// A proof as plain values: its commitment root, its revealed steps (index,
/// state before, state after) and one Merkle path per step.
pub struct ProofView {
    pub root: Seq<u8>,
    pub steps: Seq<(u32, Seq<u64>, Seq<u64>)>,
    pub paths: Seq<Seq<Seq<u8>>>,
}

/// The plain values that a decoded proof holds.
pub open spec fn proof_view(p: ZKProof) -> ProofView {
    ProofView {
        root: p.merkle_root@,
        steps: p.revealed_steps@.map_values(
            |s: (u32, StateSnapshot, StateSnapshot)| (s.0, s.1.s@, s.2.s@),
        ),
        paths: p.merkle_proofs@.map_values(
            |path: Vec<[u8; 32]>| path@.map_values(|h: [u8; 32]| h@),
        ),
    }
}

/// The number that the `n` bytes of `b` from `start` on give, least
/// significant byte first.
pub open spec fn le_value(b: Seq<u8>, start: int, n: nat) -> nat
    decreases n,
{
    if n == 0 {
        0
    } else {
        b[start] as nat + 256 * le_value(b, start + 1, (n - 1) as nat)
    }
}

/// The `u32` count that starts at `pos`.
pub open spec fn count_at(b: Seq<u8>, pos: int) -> nat {
    le_value(b, pos, 4)
}

/// The sponge state of four `u64` words that starts at `pos`.
pub open spec fn state_at(b: Seq<u8>, pos: int) -> Seq<u64> {
    Seq::new(4, |i: int| le_value(b, pos + 8 * i, 8) as u64)
}

/// The revealed step that starts at `pos`.
pub open spec fn step_at(b: Seq<u8>, pos: int) -> (u32, Seq<u64>, Seq<u64>) {
    (le_value(b, pos, 4) as u32, state_at(b, pos + 4), state_at(b, pos + 36))
}

/// The list of revealed steps that starts at `pos`, with the position after it.
pub open spec fn parse_steps(b: Seq<u8>, pos: int) -> Option<(Seq<(u32, Seq<u64>, Seq<u64>)>, int)> {
    if 0 <= pos && pos + 4 <= b.len() && pos + 4 + 68 * count_at(b, pos) <= b.len() {
        let n = count_at(b, pos);
        Some((Seq::new(n, |i: int| step_at(b, pos + 4 + 68 * i)), pos + 4 + 68 * n))
    } else {
        None
    }
}

/// The Merkle path that starts at `pos`, with the position after it.
pub open spec fn parse_path(b: Seq<u8>, pos: int) -> Option<(Seq<Seq<u8>>, int)> {
    if 0 <= pos && pos + 4 <= b.len() && pos + 4 + 32 * count_at(b, pos) <= b.len() {
        let n = count_at(b, pos);
        Some((Seq::new(n, |j: int| b.subrange(pos + 4 + 32 * j, pos + 36 + 32 * j)), pos + 4 + 32 * n))
    } else {
        None
    }
}

/// The `n` Merkle paths that start at `pos`, with the position after them.
pub open spec fn parse_paths(b: Seq<u8>, pos: int, n: nat) -> Option<(Seq<Seq<Seq<u8>>>, int)>
    decreases n,
{
    if n == 0 {
        Some((Seq::empty(), pos))
    } else {
        match parse_path(b, pos) {
            None => None,
            Some((path, next)) => match parse_paths(b, next, (n - 1) as nat) {
                None => None,
                Some((rest, end)) => Some((seq![path] + rest, end)),
            },
        }
    }
}

/// The proof that `b` encodes, if `b` is exactly one encoded proof.
pub open spec fn parse_proof(b: Seq<u8>) -> Option<ProofView> {
    if b.len() < 32 {
        None
    } else {
        match parse_steps(b, 32) {
            None => None,
            Some((steps, after_steps)) => if after_steps + 4 <= b.len() {
                match parse_paths(b, after_steps + 4, count_at(b, after_steps)) {
                    Some((paths, end)) => if end == b.len() {
                        Some(ProofView { root: b.subrange(0, 32), steps, paths })
                    } else {
                        None
                    },
                    None => None,
                }
            } else {
                None
            },
        }
    }
}

/// Whether `b` and `c` hold the same bytes below `end`.
pub open spec fn same_prefix(b: Seq<u8>, c: Seq<u8>, end: int) -> bool {
    &&& 0 <= end <= b.len()
    &&& end <= c.len()
    &&& forall|i: int| 0 <= i < end ==> b[i] == c[i]
}

proof fn lemma_le_value_local(b: Seq<u8>, c: Seq<u8>, start: int, n: nat, end: int)
    requires
        same_prefix(b, c, end),
        0 <= start,
        start + n <= end,
    ensures
        le_value(b, start, n) == le_value(c, start, n),
    decreases n,
{
    if n > 0 {
        lemma_le_value_local(b, c, start + 1, (n - 1) as nat, end);
    }
}

proof fn lemma_state_local(b: Seq<u8>, c: Seq<u8>, pos: int, end: int)
    requires
        same_prefix(b, c, end),
        0 <= pos,
        pos + 32 <= end,
    ensures
        state_at(b, pos) == state_at(c, pos),
{
    assert forall|i: int| 0 <= i < 4 implies #[trigger] le_value(b, pos + 8 * i, 8) == le_value(
        c,
        pos + 8 * i,
        8,
    ) by {
        lemma_le_value_local(b, c, pos + 8 * i, 8, end);
    }
    assert(state_at(b, pos) =~= state_at(c, pos));
}

proof fn lemma_steps_local(b: Seq<u8>, c: Seq<u8>, pos: int)
    requires
        parse_steps(b, pos) is Some,
        same_prefix(b, c, parse_steps(b, pos)->Some_0.1),
    ensures
        parse_steps(c, pos) == parse_steps(b, pos),
{
    let end = parse_steps(b, pos)->Some_0.1;
    lemma_le_value_local(b, c, pos, 4, end);
    let n = count_at(b, pos);
    assert forall|i: int| 0 <= i < n implies #[trigger] step_at(b, pos + 4 + 68 * i) == step_at(
        c,
        pos + 4 + 68 * i,
    ) by {
        let q = pos + 4 + 68 * i;
        assert(q + 68 <= pos + 4 + 68 * n) by (nonlinear_arith)
            requires
                q == pos + 4 + 68 * i,
                i < n,
        ;
        assert(0 <= q) by (nonlinear_arith)
            requires
                q == pos + 4 + 68 * i,
                0 <= i,
                0 <= pos,
        ;
        lemma_le_value_local(b, c, q, 4, end);
        lemma_state_local(b, c, q + 4, end);
        lemma_state_local(b, c, q + 36, end);
    }
    assert(Seq::new(n, |i: int| step_at(b, pos + 4 + 68 * i)) =~= Seq::new(
        n,
        |i: int| step_at(c, pos + 4 + 68 * i),
    ));
}

proof fn lemma_path_local(b: Seq<u8>, c: Seq<u8>, pos: int)
    requires
        parse_path(b, pos) is Some,
        same_prefix(b, c, parse_path(b, pos)->Some_0.1),
    ensures
        parse_path(c, pos) == parse_path(b, pos),
{
    let end = parse_path(b, pos)->Some_0.1;
    lemma_le_value_local(b, c, pos, 4, end);
    let n = count_at(b, pos);
    assert forall|j: int| 0 <= j < n implies #[trigger] b.subrange(pos + 4 + 32 * j, pos + 36 + 32 * j)
        == c.subrange(pos + 4 + 32 * j, pos + 36 + 32 * j) by {
        let q = pos + 4 + 32 * j;
        assert(q + 32 <= pos + 4 + 32 * n) by (nonlinear_arith)
            requires
                q == pos + 4 + 32 * j,
                j < n,
        ;
        assert(0 <= q) by (nonlinear_arith)
            requires
                q == pos + 4 + 32 * j,
                0 <= j,
                0 <= pos,
        ;
        assert(b.subrange(q, q + 32) =~= c.subrange(q, q + 32));
    }
    assert(Seq::new(n, |j: int| b.subrange(pos + 4 + 32 * j, pos + 36 + 32 * j)) =~= Seq::new(
        n,
        |j: int| c.subrange(pos + 4 + 32 * j, pos + 36 + 32 * j),
    ));
}

proof fn lemma_paths_bounds(b: Seq<u8>, pos: int, n: nat)
    requires
        parse_paths(b, pos, n) is Some,
    ensures
        pos <= parse_paths(b, pos, n)->Some_0.1,
        pos <= b.len() ==> parse_paths(b, pos, n)->Some_0.1 <= b.len(),
    decreases n,
{
    if n > 0 {
        let next = parse_path(b, pos)->Some_0.1;
        lemma_paths_bounds(b, next, (n - 1) as nat);
    }
}

proof fn lemma_paths_local(b: Seq<u8>, c: Seq<u8>, pos: int, n: nat)
    requires
        parse_paths(b, pos, n) is Some,
        same_prefix(b, c, parse_paths(b, pos, n)->Some_0.1),
    ensures
        parse_paths(c, pos, n) == parse_paths(b, pos, n),
    decreases n,
{
    if n > 0 {
        let next = parse_path(b, pos)->Some_0.1;
        lemma_paths_bounds(b, next, (n - 1) as nat);
        lemma_path_local(b, c, pos);
        lemma_paths_local(b, c, next, (n - 1) as nat);
    }
}

/// Bytes that agree with an encoded proof `b` on all of its length decode if
/// and only if they end where `b` ends.
proof fn lemma_proof_local(b: Seq<u8>, c: Seq<u8>)
    requires
        parse_proof(b) is Some,
        same_prefix(b, c, b.len() as int),
    ensures
        parse_proof(c) is Some <==> c.len() == b.len(),
{
    let (steps, after_steps) = parse_steps(b, 32)->Some_0;
    lemma_steps_local(b, c, 32);
    lemma_le_value_local(b, c, after_steps, 4, b.len() as int);
    lemma_paths_local(b, c, after_steps + 4, count_at(b, after_steps));
}

/// An encoded proof cut short anywhere does not decode.
pub proof fn lemma_truncated_proof_rejected(b: Seq<u8>, k: int)
    requires
        parse_proof(b) is Some,
        0 <= k < b.len(),
    ensures
        parse_proof(b.subrange(0, k)) is None,
{
    let t = b.subrange(0, k);
    if parse_proof(t) is Some {
        lemma_proof_local(t, b);
    }
}

/// An encoded proof followed by any further bytes does not decode.
pub proof fn lemma_trailing_bytes_rejected(b: Seq<u8>, extra: Seq<u8>)
    requires
        parse_proof(b) is Some,
        extra.len() > 0,
    ensures
        parse_proof(b + extra) is None,
{
    lemma_proof_local(b, b + extra);
}

/// Relies on `borsh::from_slice::<ZKProof>`: the derived decoding reads the
/// fields in declaration order (fixed arrays as their elements, integers little
/// endian, each `Vec` as a `u32` count and its elements), fails on input that
/// ends early, and `from_slice` fails where bytes are left over.
#[verifier::external_body]
pub(crate) fn decode_proof(bytes: &[u8]) -> (r: Result<ZKProof, std::io::Error>)
    ensures
        r is Ok <==> parse_proof(bytes@) is Some,
        r is Ok ==> parse_proof(bytes@) == Some(proof_view(r->Ok_0)),
{
    borsh::from_slice::<ZKProof>(bytes)
}

} // verus!
