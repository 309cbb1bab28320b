//! Types of the bearer-credential collaborator: the error taxonomy of token
//! decoding, the signing-algorithm header, and the validity rules a decoded
//! payload is held to. The cryptographic signing itself is the external
//! collaborator's work and no concern of the broker core; what is modelled
//! here is the structure a token string must have and the checks that are
//! pure functions of their inputs.

use crate::scan::{find_byte, find_byte_at, lemma_find_byte};
use vstd::prelude::*;
use vstd::slice::{slice_subrange, slice_to_vec};

verus! {

/// Token handling errors, grouped as the callers surface them.
#[derive(Clone, Debug, PartialEq, Eq)]
pub enum Error {
    Decode(DecodeError),
    Encode(EncodeError),
    DecodeHeader(DecodeHeaderError),
}

/// Why a token string failed to decode.
#[derive(Clone, Debug, PartialEq, Eq)]
pub enum DecodeError {
    MissingHeader,
    MissingPayload,
    MissingSignature,
    InvalidJSON(String),
    InvalidEncoding(String),
    InvalidSignature,
    ValidationError(ValidationError),
}

/// Why a structurally sound token is still not acceptable.
#[derive(Clone, Copy, Debug, PartialEq, Eq, Structural)]
pub enum ValidationError {
    /// The expiry passed this many seconds ago.
    Expired { seconds: u64 },
}

/// Why a token could not be produced.
#[derive(Clone, Debug, PartialEq, Eq)]
pub enum EncodeError {
    JsonError(String),
}

/// Why the transport header carrying a token was unusable.
#[derive(Clone, Debug, PartialEq, Eq)]
pub enum DecodeHeaderError {
    MissingHeader,
    InvalidEncoding(String),
    InvalidSyntax,
    InvalidSchema(String),
}

impl Error {
    /// The HTTP status class each error group maps to: client fault for
    /// anything sent to us, server fault for a failure to encode.
    pub fn status_code(&self) -> (r: u16)
        ensures
            r == (match self {
                Error::Decode(_) => 400u16,
                Error::Encode(_) => 500u16,
                Error::DecodeHeader(_) => 400u16,
            }),
    {
        match self {
            Error::Decode(_) => 400,
            Error::Encode(_) => 500,
            Error::DecodeHeader(_) => 400,
        }
    }
}

/// The signing algorithm named in a token's header.
#[derive(Clone, Copy, Debug, PartialEq, Eq, Structural)]
#[non_exhaustive]
pub enum Algorithm {
    /// HMAC using SHA-256.
    HS256,
}

/// A token's header: which algorithm signed it.
#[derive(Clone, Copy, Debug, PartialEq, Eq, Structural)]
pub struct Header {
    pub alg: Algorithm,
}

/// The part of any payload the validity rules read: the expiry, as seconds
/// since the epoch, if the token has one.
#[derive(Clone, Copy, Debug, PartialEq, Eq, Structural)]
pub struct BasePayload {
    pub exp: Option<i64>,
}

/// Holds a decoded payload to the validity rules at time `now`: a token
/// with an expiry in the past is rejected, and says by how many seconds it
/// missed; a token without an expiry, or with one still ahead, passes.
pub fn validate(base_payload: &BasePayload, now: i64) -> (r: Result<(), ValidationError>)
    requires
        base_payload.exp matches Some(e) ==> i64::MIN <= now - e <= i64::MAX,
    ensures
        r == (match base_payload.exp {
            Some(e) => if now - e > 0 {
                Err::<(), ValidationError>(ValidationError::Expired { seconds: (now - e) as u64 })
            } else {
                Ok::<(), ValidationError>(())
            },
            None => Ok::<(), ValidationError>(()),
        }),
{
    match base_payload.exp {
        Some(e) => {
            let difference = now - e;
            if difference > 0 {
                Err(ValidationError::Expired { seconds: difference as u64 })
            } else {
                Ok(())
            }
        },
        None => Ok(()),
    }
}

/// The three dot-separated parts a token string must present: header,
/// payload, signature, anything after a fourth dot ignored. The first part
/// always exists, so a missing payload is the first absence a split can
/// report.
pub open spec fn spec_split_token(s: Seq<u8>) -> Result<(Seq<u8>, Seq<u8>, Seq<u8>), DecodeError> {
    let p = find_byte(s, 46);
    if p >= s.len() {
        Err(DecodeError::MissingPayload)
    } else {
        let rest = s.subrange(p + 1, s.len() as int);
        let q = find_byte(rest, 46);
        if q >= rest.len() {
            Err(DecodeError::MissingSignature)
        } else {
            let rest2 = rest.subrange(q + 1, rest.len() as int);
            let r = find_byte(rest2, 46);
            Ok((s.subrange(0, p), rest.subrange(0, q), rest2.subrange(0, r)))
        }
    }
}

/// Cuts a raw token string into its header, payload and signature parts,
/// or reports which part is missing.
pub fn split_token(raw: &[u8]) -> (r: Result<(Vec<u8>, Vec<u8>, Vec<u8>), DecodeError>)
    ensures
        (match r {
            Ok(parts) => spec_split_token(raw@) matches Ok(sp) && parts.0@ == sp.0 && parts.1@
                == sp.1 && parts.2@ == sp.2,
            Err(e) => spec_split_token(raw@) == Err::<(Seq<u8>, Seq<u8>, Seq<u8>), DecodeError>(e),
        }),
{
    let n = raw.len();
    proof {
        lemma_find_byte(raw@, 46);
    }
    let p = find_byte_at(raw, 46);
    if p >= n {
        return Err(DecodeError::MissingPayload);
    }
    let rest = slice_subrange(raw, p + 1, n);
    proof {
        lemma_find_byte(rest@, 46);
    }
    let q = find_byte_at(rest, 46);
    let rn = rest.len();
    if q >= rn {
        return Err(DecodeError::MissingSignature);
    }
    let rest2 = slice_subrange(rest, q + 1, rn);
    proof {
        lemma_find_byte(rest2@, 46);
    }
    let r = find_byte_at(rest2, 46);
    let header = slice_to_vec(slice_subrange(raw, 0, p));
    let payload = slice_to_vec(slice_subrange(rest, 0, q));
    let signature = slice_to_vec(slice_subrange(rest2, 0, r));
    Ok((header, payload, signature))
}

} // verus!
