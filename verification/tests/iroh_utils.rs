use syncr::iroh_utils::{init_secret_key, load_secret_key, IrohUtilsError};

#[test]
fn thirty_two_bytes_are_a_key() {
    let bytes: Vec<u8> = (0..32).collect();
    let key = load_secret_key(Ok(bytes.clone())).unwrap();
    assert_eq!(key.to_vec(), bytes);
}

#[test]
fn other_lengths_are_load_errors() {
    for len in [0usize, 1, 31, 33, 64] {
        assert_eq!(
            load_secret_key(Ok(vec![7; len])),
            Err(IrohUtilsError::SecretKeyLoadError("Invalid secret key length".to_string()))
        );
    }
}

#[test]
fn a_failed_read_is_a_load_error_with_its_reason() {
    assert_eq!(
        load_secret_key(Err("No such file or directory (os error 2)".to_string())),
        Err(IrohUtilsError::SecretKeyLoadError("No such file or directory (os error 2)".to_string()))
    );
}

#[test]
fn a_key_is_written_only_when_none_is_in_place() {
    let fresh = [9u8; 32];
    assert_eq!(init_secret_key(Ok(vec![1; 32]), fresh), None);
    assert_eq!(init_secret_key(Ok(vec![1; 31]), fresh), Some(fresh));
    assert_eq!(init_secret_key(Err("missing".to_string()), fresh), Some(fresh));
}
