use syncr::sync_utils::{
    apply_delta, calculate_delta, calculate_signature, classify_fault, ApplyFault, DeltaError,
};

fn pattern(len: usize, seed: u32) -> Vec<u8> {
    let mut state = seed;
    (0..len)
        .map(|_| {
            state = state.wrapping_mul(1_664_525).wrapping_add(1_013_904_223);
            (state >> 24) as u8
        })
        .collect()
}

fn round_trip(old: &[u8], new: &[u8]) -> Vec<u8> {
    let sig = calculate_signature(old).unwrap();
    let delta = calculate_delta(&sig, new).unwrap();
    assert_eq!(apply_delta(old, &delta).unwrap(), new);
    delta
}

#[test]
fn applying_the_delta_rebuilds_the_new_data() {
    round_trip(b"", b"");
    round_trip(b"", b"hello\n");
    round_trip(b"hello\n", b"");
    round_trip(b"hello\n", b"hello\n");
    round_trip(b"hello\n", b"hello world\n");
    let old = pattern(10_000, 1);
    let mut new = old.clone();
    new.splice(5_000..5_010, pattern(700, 2));
    new.extend_from_slice(&pattern(33, 3));
    round_trip(&old, &new);
    round_trip(&new, &old);
    round_trip(&pattern(1024, 4), &pattern(1024, 5));
    round_trip(&pattern(1023, 4), &pattern(1025, 4));
}

#[test]
fn a_delta_of_a_small_change_is_smaller_than_the_file() {
    let old = pattern(64 * 1024, 7);
    let mut new = old.clone();
    new[40_000] ^= 0x55;
    let delta = round_trip(&old, &new);
    assert!(delta.len() < new.len());
    assert!(delta.len() < 4096);
}

#[test]
fn the_signature_has_the_fixed_block_and_hash_sizes() {
    let sig = calculate_signature(&pattern(3000, 9)).unwrap();
    assert_eq!(&sig[0..4], &[0x72, 0x73, 0x01, 0x36]);
    assert_eq!(&sig[4..8], &1024u32.to_be_bytes());
    assert_eq!(&sig[8..12], &8u32.to_be_bytes());
    assert_eq!(sig.len(), 12 + 3 * (4 + 8));
    assert_eq!(calculate_signature(b"").unwrap().len(), 12);
    assert_ne!(calculate_signature(b"a").unwrap(), calculate_signature(b"b").unwrap());
}

#[test]
fn the_delta_depends_on_both_inputs() {
    let sig = calculate_signature(b"hello\n").unwrap();
    let one = calculate_delta(&sig, b"hello world\n").unwrap();
    let two = calculate_delta(&sig, b"goodbye\n").unwrap();
    assert_ne!(one, two);
    assert_ne!(one, sig);
    assert_ne!(one, b"hello world\n".to_vec());
    assert_eq!(&one[0..4], &[0x72, 0x73, 0x02, 0x36]);
}

#[test]
fn unusable_signatures_are_signature_errors() {
    let good = calculate_signature(&pattern(2048, 1)).unwrap();
    let data = pattern(100, 2);
    assert!(calculate_delta(&good, &data).is_ok());
    assert_eq!(calculate_delta(&[], &data), Err(DeltaError::SignatureParse));
    assert_eq!(calculate_delta(&good[..11], &data), Err(DeltaError::SignatureParse));
    assert_eq!(calculate_delta(&good[..good.len() - 1], &data), Err(DeltaError::SignatureParse));
    let mut wrong_magic = good.clone();
    wrong_magic[3] = 0x35;
    assert_eq!(calculate_delta(&wrong_magic, &data), Err(DeltaError::SignatureParse));
    let mut blake = good.clone();
    blake[3] = 0x37;
    assert_eq!(calculate_delta(&blake, &data), Err(DeltaError::SignatureParse));
    let mut zero_block = good.clone();
    zero_block[4..8].copy_from_slice(&0u32.to_be_bytes());
    assert_eq!(calculate_delta(&zero_block, &data), Err(DeltaError::SignatureParse));
    let mut long_hash = good[..12].to_vec();
    long_hash[8..12].copy_from_slice(&17u32.to_be_bytes());
    assert_eq!(calculate_delta(&long_hash, &data), Err(DeltaError::SignatureParse));
    let mut huge_hash = good[..12].to_vec();
    huge_hash[8..12].copy_from_slice(&u32::MAX.to_be_bytes());
    assert_eq!(calculate_delta(&huge_hash, &data), Err(DeltaError::SignatureParse));
    // A header alone is the signature of no data at all.
    assert!(calculate_delta(&good[..12], &data).is_ok());
}

#[test]
fn faulty_deltas_are_told_apart() {
    let old = b"hello\n";
    assert_eq!(apply_delta(old, &[]), Err(DeltaError::DeltaMalformed));
    assert_eq!(apply_delta(old, &[0, 0, 0, 0, 0]), Err(DeltaError::DeltaMalformed));
    let magic = [0x72, 0x73, 0x02, 0x36];
    let with = |tail: &[u8]| {
        let mut d = magic.to_vec();
        d.extend_from_slice(tail);
        d
    };
    assert_eq!(apply_delta(old, &with(&[0])), Ok(vec![]));
    assert_eq!(apply_delta(old, &with(&[])), Err(DeltaError::DeltaMalformed));
    assert_eq!(apply_delta(old, &with(&[0, 1])), Err(DeltaError::DeltaMalformed));
    assert_eq!(apply_delta(old, &with(&[0x60, 0])), Err(DeltaError::DeltaMalformed));
    assert_eq!(apply_delta(old, &with(&[0x45, 0, 0, 0])), Err(DeltaError::DeltaMalformed));
    assert_eq!(apply_delta(old, &with(&[2, b'h', b'i', 0])), Ok(b"hi".to_vec()));
    assert_eq!(apply_delta(old, &with(&[0x45, 1, 3, 0])), Ok(b"ell".to_vec()));
    assert_eq!(apply_delta(old, &with(&[0x45, 4, 3, 0])), Err(DeltaError::ApplyFailed));
}

#[test]
fn faults_map_to_the_two_error_kinds() {
    let malformed = [
        ApplyFault::WrongMagic,
        ApplyFault::UnexpectedEof,
        ApplyFault::UnknownCommand,
        ApplyFault::TrailingData,
        ApplyFault::CopyZero,
    ];
    for f in malformed {
        assert_eq!(classify_fault(f), DeltaError::DeltaMalformed);
    }
    for f in [ApplyFault::CopyOutOfBounds, ApplyFault::OutputLimit, ApplyFault::Io] {
        assert_eq!(classify_fault(f), DeltaError::ApplyFailed);
    }
}
