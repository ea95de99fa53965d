//! Authentication core for a campus-forum backend: password and SSO
//! credential verification, durable user records, and tamper-evident,
//! encrypted session tokens.
//!
//! The library is organised along the token pipeline and the two
//! credential paths.  `jsonenc` and `claims` give the canonical claims
//! document and its strict reader; `jwt` signs and splits tokens;
//! `crypto` encrypts them; `middleware` holds the codec and the
//! per-request session gate; `password` and `iaaa` are the two
//! credential paths; `auth` is the service-facing entry point; `laws`
//! states the properties that tie them together.
pub mod api;
pub mod auth;
pub mod claims;
pub mod crypto;
pub mod errors;
pub mod hello;
pub mod iaaa;
pub mod jsonenc;
pub mod jwt;
pub mod laws;
pub mod middleware;
pub mod password;
pub mod store;

use vstd::prelude::*;
use vstd::string::StrSliceExecFns;
use vstd::utf8::encode_utf8;

verus! {

/// Fixed issuer string stamped into every session token.
pub const JWT_ISSUER: &'static str = "HoloPKU server";

/// Configured key material brought to its working size: truncated when
/// longer, padded with zero bytes when shorter.
pub open spec fn fit_bytes(s: Seq<u8>, n: int) -> Seq<u8> {
    if s.len() >= n {
        s.take(n)
    } else {
        s + Seq::new((n - s.len()) as nat, |i: int| 0u8)
    }
}

/// Brings configured key text to exactly `n` bytes.
fn fit_key_material(s: &str, n: usize) -> (r: Vec<u8>)
    ensures
        r@ == fit_bytes(encode_utf8(s@), n as int),
        r@.len() == n,
{
    let bytes = s.as_bytes_vec();
    let mut out: Vec<u8> = Vec::new();
    let mut i: usize = 0;
    while i < n
        invariant
            i <= n,
            bytes@ == encode_utf8(s@),
            out@ == fit_bytes(bytes@, n as int).take(i as int),
        decreases n - i,
    {
        if i < bytes.len() {
            out.push(bytes[i]);
        } else {
            out.push(0);
        }
        proof {
            let f = fit_bytes(bytes@, n as int);
            assert(f.take(i + 1 as int) =~= f.take(i as int).push(f[i as int]));
        }
        i = i + 1;
    }
    proof {
        assert(fit_bytes(bytes@, n as int).take(n as int) =~= fit_bytes(bytes@, n as int));
    }
    out
}

/// Is this configuration complete and well-formed: every value present
/// and the token lifetime a positive number of seconds?
pub open spec fn envs_ok(
    jwt_secret: Option<Seq<char>>,
    jwt_expire_time: Option<Seq<char>>,
    aes256key: Option<Seq<char>>,
    aes256iv: Option<Seq<char>>,
) -> bool {
    &&& jwt_secret is Some
    &&& aes256key is Some
    &&& aes256iv is Some
    &&& match jwt_expire_time {
        None => false,
        Some(t) => match crate::jsonenc::parse_u64(encode_utf8(t)) {
            None => false,
            Some(n) => n >= 1,
        },
    }
}

/// The view of one optional configuration value.
pub open spec fn env_view(v: Option<&String>) -> Option<Seq<char>> {
    match v {
        None => None,
        Some(s) => Some(s@),
    }
}

/// Checks the environment-sourced configuration and assembles the
/// token codec from it: the signing secret as given, the lifetime
/// parsed as a positive number of seconds, and the cipher key and IV
/// brought to exactly 32 and 16 bytes.  Missing or malformed
/// configuration is an internal failure: the process has no business
/// serving without its key material.
pub fn check_envs(
    jwt_secret: Option<&String>,
    jwt_expire_time: Option<&String>,
    aes256key: Option<&String>,
    aes256iv: Option<&String>,
) -> (r: Result<crate::middleware::TokenCodec, crate::errors::AuthError>)
    ensures
        r is Ok <==> envs_ok(
            env_view(jwt_secret),
            env_view(jwt_expire_time),
            env_view(aes256key),
            env_view(aes256iv),
        ),
        match r {
            Ok(codec) => {
                &&& codec.secret@ == encode_utf8(jwt_secret.unwrap()@)
                &&& Some(codec.expire_seconds) == crate::jsonenc::parse_u64(
                    encode_utf8(jwt_expire_time.unwrap()@),
                )
                &&& codec.expire_seconds >= 1
                &&& codec.key@ == fit_bytes(encode_utf8(aes256key.unwrap()@), 32)
                &&& codec.iv@ == fit_bytes(encode_utf8(aes256iv.unwrap()@), 16)
                &&& codec.wf()
            },
            Err(e) => e == crate::errors::AuthError::Internal,
        },
{
    let secret_str = match jwt_secret {
        None => {
            return Err(crate::errors::AuthError::Internal);
        },
        Some(s) => s,
    };
    let expire_str = match jwt_expire_time {
        None => {
            return Err(crate::errors::AuthError::Internal);
        },
        Some(s) => s,
    };
    let key_str = match aes256key {
        None => {
            return Err(crate::errors::AuthError::Internal);
        },
        Some(s) => s,
    };
    let iv_str = match aes256iv {
        None => {
            return Err(crate::errors::AuthError::Internal);
        },
        Some(s) => s,
    };

    let expire_bytes = expire_str.as_str().as_bytes_vec();
    let expire_seconds = match crate::jsonenc::parse_u64_range(
        expire_bytes.as_slice(),
        0,
        expire_bytes.len(),
    ) {
        None => {
            proof {
                assert(expire_bytes@.subrange(0, expire_bytes@.len() as int) =~= expire_bytes@);
            }
            return Err(crate::errors::AuthError::Internal);
        },
        Some(n) => {
            proof {
                assert(expire_bytes@.subrange(0, expire_bytes@.len() as int) =~= expire_bytes@);
            }
            n
        },
    };
    if expire_seconds == 0 {
        return Err(crate::errors::AuthError::Internal);
    }

    Ok(
        crate::middleware::TokenCodec {
            secret: secret_str.as_str().as_bytes_vec(),
            expire_seconds,
            key: fit_key_material(key_str.as_str(), 32),
            iv: fit_key_material(iv_str.as_str(), 16),
        },
    )
}

} // verus!
