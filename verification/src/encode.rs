//! The key/value payload encoder: a total mapping from an optional key and
//! optional value to the published payload bytes.

use vstd::prelude::*;
use vstd::utf8::{decode_utf8, valid_utf8};
use crate::errors::OutputError;

verus! {

/// ASCII ':' — the separator between key and value in an encoded payload.
pub open spec fn colon_byte() -> u8 {
    58u8
}

/// Relies on `std::str::from_utf8`: it returns `Ok` exactly on valid UTF-8,
/// and the resulting string slice is the decoding of those bytes.
#[verifier::external_body]
pub(crate) fn bytes_as_str(b: &[u8]) -> (r: Option<&str>)
    ensures
        r is Some <==> valid_utf8(b@),
        r matches Some(s) ==> s@ == decode_utf8(b@),
{
    std::str::from_utf8(b).ok()
}

pub open spec fn view_opt_bytes(b: Option<&[u8]>) -> Option<Seq<u8>> {
    match b {
        Some(x) => Some(x@),
        None => None,
    }
}

/// The encoding table: `key:value` when both are present (each must be valid
/// text), `key:` as a deletion marker when only the key is present, the raw
/// value bytes when only the value is present, and an error when both are
/// absent. When both key and value are malformed, the key is reported.
pub open spec fn spec_encode_key_value(key: Option<Seq<u8>>, value: Option<Seq<u8>>) -> Result<
    Seq<u8>,
    OutputError,
> {
    match (key, value) {
        (Some(k), Some(v)) => {
            if !valid_utf8(k) {
                Err(OutputError::InvalidKey)
            } else if !valid_utf8(v) {
                Err(OutputError::InvalidValue)
            } else {
                Ok(k + seq![colon_byte()] + v)
            }
        },
        (Some(k), None) => {
            if !valid_utf8(k) {
                Err(OutputError::InvalidKey)
            } else {
                Ok(k + seq![colon_byte()])
            }
        },
        (None, Some(v)) => Ok(v),
        (None, None) => Err(OutputError::MissingKeyAndValue),
    }
}

/// Append every byte of `s` to `out`.
pub(crate) fn append_bytes(out: &mut Vec<u8>, s: &[u8])
    ensures
        final(out)@ == old(out)@ + s@,
{
    let mut i: usize = 0;
    while i < s.len()
        invariant
            0 <= i <= s@.len(),
            out@ == old(out)@ + s@.take(i as int),
        decreases s@.len() - i,
    {
        out.push(s[i]);
        proof {
            assert(old(out)@ + s@.take(i + 1) =~= (old(out)@ + s@.take(i as int)).push(
                s@[i as int],
            ));
        }
        i = i + 1;
    }
    proof {
        assert(s@.take(s@.len() as int) =~= s@);
    }
}

/// Encode an optional key and optional value into the payload bytes,
/// following [`spec_encode_key_value`] exactly.
pub fn encode_key_value(key: Option<&[u8]>, value: Option<&[u8]>) -> (r: Result<
    Vec<u8>,
    OutputError,
>)
    ensures
        match spec_encode_key_value(view_opt_bytes(key), view_opt_bytes(value)) {
            Ok(p) => r matches Ok(bytes) && bytes@ == p,
            Err(e) => r matches Err(actual) && actual == e,
        },
{
    match (key, value) {
        (Some(k), Some(v)) => {
            if bytes_as_str(k).is_none() {
                return Err(OutputError::InvalidKey);
            }
            if bytes_as_str(v).is_none() {
                return Err(OutputError::InvalidValue);
            }
            let mut payload: Vec<u8> = Vec::new();
            append_bytes(&mut payload, k);
            payload.push(58u8);
            append_bytes(&mut payload, v);
            proof {
                assert(payload@ =~= k@ + seq![colon_byte()] + v@);
            }
            Ok(payload)
        },
        (Some(k), None) => {
            if bytes_as_str(k).is_none() {
                return Err(OutputError::InvalidKey);
            }
            let mut payload: Vec<u8> = Vec::new();
            append_bytes(&mut payload, k);
            payload.push(58u8);
            proof {
                assert(payload@ =~= k@ + seq![colon_byte()]);
            }
            Ok(payload)
        },
        (None, Some(v)) => {
            let mut payload: Vec<u8> = Vec::new();
            append_bytes(&mut payload, v);
            proof {
                assert(payload@ =~= v@);
            }
            Ok(payload)
        },
        (None, None) => Err(OutputError::MissingKeyAndValue),
    }
}

} // verus!
