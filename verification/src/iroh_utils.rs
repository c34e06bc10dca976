//! The local identity's secret key as it sits on disk: exactly 32 bytes
//! of raw key material. A driver reads and writes the file; this module
//! decides what the bytes are worth.

use vstd::prelude::*;

verus! {

/// Bytes of a secret key.
pub const SECRET_KEY_LEN: usize = 32;

#[derive(Debug, Clone, PartialEq, Eq)]
pub enum IrohUtilsError {
    /// A fresh key could not be put in place.
    SecretKeyGenerationError(String),
    /// There is no usable key in place.
    SecretKeyLoadError(String),
}

/// The text of the error for a key file of the wrong length.
pub open spec fn bad_length_text() -> Seq<char> {
    "Invalid secret key length"@
}

/// What reading the key file came to, as plain values.
pub open spec fn read_view(read: Result<Vec<u8>, String>) -> Result<Seq<u8>, Seq<char>> {
    match read {
        Ok(bytes) => Ok(bytes@),
        Err(reason) => Err(reason@),
    }
}

/// Whether what was read is a key: the read succeeded and gave exactly
/// 32 bytes.
pub open spec fn holds_key(read: Result<Seq<u8>, Seq<char>>) -> bool {
    read matches Ok(bytes) && bytes.len() == SECRET_KEY_LEN
}

/// The secret key in what was read from the key file: the 32 bytes
/// themselves. A failed read is a load error with the reason of the
/// failure; any other length is a load error too.
pub fn load_secret_key(read: Result<Vec<u8>, String>) -> (r: Result<[u8; 32], IrohUtilsError>)
    ensures
        match read {
            Ok(bytes) => if bytes@.len() == SECRET_KEY_LEN {
                r matches Ok(key) && key@ == bytes@
            } else {
                r matches Err(IrohUtilsError::SecretKeyLoadError(text)) && text@
                    == bad_length_text()
            },
            Err(reason) => r matches Err(IrohUtilsError::SecretKeyLoadError(text)) && text@
                == reason@,
        },
{
    let bytes = match read {
        Ok(bytes) => bytes,
        Err(reason) => { return Err(IrohUtilsError::SecretKeyLoadError(reason)); },
    };
    if bytes.len() != SECRET_KEY_LEN {
        return Err(IrohUtilsError::SecretKeyLoadError("Invalid secret key length".to_owned()));
    }
    let mut key: [u8; 32] = [0u8; 32];
    let mut i: usize = 0;
    while i < SECRET_KEY_LEN
        invariant
            i <= SECRET_KEY_LEN,
            bytes@.len() == SECRET_KEY_LEN,
            key@.len() == SECRET_KEY_LEN,
            forall|j: int| 0 <= j < i ==> key@[j] == bytes@[j],
        decreases SECRET_KEY_LEN - i,
    {
        key[i] = bytes[i];
        i = i + 1;
    }
    proof {
        assert(key@ =~= bytes@);
    }
    Ok(key)
}

/// What is to be written at first start: nothing when a key is in place
/// already, and the fresh key when there is none or the file does not
/// hold one.
pub fn init_secret_key(read: Result<Vec<u8>, String>, fresh: [u8; 32]) -> (r: Option<[u8; 32]>)
    ensures
        holds_key(read_view(read)) ==> r is None,
        !holds_key(read_view(read)) ==> r == Some(fresh),
{
    match load_secret_key(read) {
        Ok(_) => None,
        Err(_) => Some(fresh),
    }
}

} // verus!
