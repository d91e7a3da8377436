use disorderd::gateway::{decrypt_sim, encrypt_sim, verify_decoded, verify_proof, Access, ErrorCode};
use zk_disorder::ZKProof;

fn encoded(proof: &ZKProof) -> Vec<u8> {
    borsh::to_vec(proof).unwrap()
}

#[test]
fn encrypt_then_decrypt_gives_plaintext_back() {
    let ctx = Access {};
    let c = encrypt_sim(&ctx, [1, 2], [3, 4], [5, 6]).unwrap();
    assert_eq!(decrypt_sim(&ctx, [1, 2], [3, 4], c), Ok([5, 6]));
}

#[test]
fn encrypt_masks_block_with_iv() {
    let ctx = Access {};
    assert_eq!(encrypt_sim(&ctx, [1, 2], [3, 4], [5, 6]), Ok([6, 2]));
    assert_eq!(encrypt_sim(&ctx, [9, 9], [3, 4], [5, 6]), Ok([6, 2]));
    assert_eq!(encrypt_sim(&ctx, [0, 0], [u64::MAX, 0], [0, 7]), Ok([u64::MAX, 7]));
}

#[test]
fn decrypt_unmasks_block_with_iv() {
    let ctx = Access {};
    assert_eq!(decrypt_sim(&ctx, [1, 2], [3, 4], [6, 2]), Ok([5, 6]));
    assert_eq!(decrypt_sim(&ctx, [1, 2], [0xff, 0], [0x0f, 1]), Ok([0xf0, 1]));
}

#[test]
fn round_trip_on_extreme_words() {
    let ctx = Access {};
    let key = [u64::MAX, 0];
    let iv = [0x0123_4567_89ab_cdef, u64::MAX];
    for p in [[0u64, 0], [u64::MAX, u64::MAX], [1, 1 << 63]] {
        let c = encrypt_sim(&ctx, key, iv, p).unwrap();
        assert_eq!(decrypt_sim(&ctx, key, iv, c), Ok(p));
    }
}

#[test]
fn encrypt_twice_gives_same_block() {
    let ctx = Access {};
    let a = encrypt_sim(&ctx, [11, 22], [33, 44], [55, 66]);
    let b = encrypt_sim(&ctx, [11, 22], [33, 44], [55, 66]);
    assert_eq!(a, b);
}

#[test]
fn earlier_call_does_not_change_later_one() {
    let ctx = Access {};
    let alone = encrypt_sim(&ctx, [7, 8], [9, 10], [11, 12]);
    let _ = encrypt_sim(&ctx, [1, 2], [3, 4], [5, 6]);
    let after = encrypt_sim(&ctx, [7, 8], [9, 10], [11, 12]);
    assert_eq!(alone, after);
}

#[test]
fn empty_proof_is_invalid_data() {
    assert_eq!(verify_proof(&Access {}, vec![]), Err(ErrorCode::InvalidData));
}

#[test]
fn garbage_proof_is_invalid_data() {
    assert_eq!(verify_proof(&Access {}, vec![0xAB; 10]), Err(ErrorCode::InvalidData));
    // a root followed by a step count far larger than the input
    let mut bytes = vec![0u8; 32];
    bytes.extend_from_slice(&[0xff, 0xff, 0xff, 0xff]);
    assert_eq!(verify_proof(&Access {}, bytes), Err(ErrorCode::InvalidData));
}

#[test]
fn valid_proof_is_accepted_with_its_root() {
    let proof = ZKProof::prove([1, 2], [3, 4]);
    let root = proof.merkle_root;
    assert_eq!(verify_proof(&Access {}, encoded(&proof)), Ok(root));
}

#[test]
fn truncated_valid_proof_is_invalid_data() {
    let bytes = encoded(&ZKProof::prove([5, 6], [7, 8]));
    for cut in [0, 1, 31, 32, 36, bytes.len() / 2, bytes.len() - 1] {
        assert_eq!(
            verify_proof(&Access {}, bytes[..cut].to_vec()),
            Err(ErrorCode::InvalidData)
        );
    }
}

#[test]
fn valid_proof_with_trailing_byte_is_invalid_data() {
    let mut bytes = encoded(&ZKProof::prove([5, 6], [7, 8]));
    bytes.push(0);
    assert_eq!(verify_proof(&Access {}, bytes), Err(ErrorCode::InvalidData));
}

#[test]
fn tampered_step_fails_verification() {
    let mut proof = ZKProof::prove([1, 2], [3, 4]);
    proof.revealed_steps[0].2.s[0] ^= 1;
    assert_eq!(
        verify_proof(&Access {}, encoded(&proof)),
        Err(ErrorCode::ChaosVerificationFailed)
    );
}

#[test]
fn tampered_root_fails_verification() {
    let mut proof = ZKProof::prove([1, 2], [3, 4]);
    proof.merkle_root[0] ^= 0x80;
    assert_eq!(
        verify_proof(&Access {}, encoded(&proof)),
        Err(ErrorCode::ChaosVerificationFailed)
    );
}

#[test]
fn proof_missing_merkle_paths_fails_verification() {
    let mut proof = ZKProof::prove([1, 2], [3, 4]);
    proof.merkle_proofs.truncate(1);
    assert_eq!(
        verify_proof(&Access {}, encoded(&proof)),
        Err(ErrorCode::ChaosVerificationFailed)
    );
}

#[test]
fn proof_without_steps_fails_verification() {
    let proof = ZKProof { merkle_root: [0; 32], revealed_steps: vec![], merkle_proofs: vec![] };
    let bytes = encoded(&proof);
    assert_eq!(bytes.len(), 40);
    assert_eq!(verify_proof(&Access {}, bytes), Err(ErrorCode::ChaosVerificationFailed));
}

#[test]
fn decoded_proof_verdicts() {
    let proof = ZKProof::prove([9, 8], [7, 6]);
    assert_eq!(verify_decoded(&proof), Ok(proof.merkle_root));
    let mut bad = ZKProof::prove([9, 8], [7, 6]);
    bad.revealed_steps[1].1.s[3] = bad.revealed_steps[1].1.s[3].wrapping_add(1);
    assert_eq!(verify_decoded(&bad), Err(ErrorCode::ChaosVerificationFailed));
}
