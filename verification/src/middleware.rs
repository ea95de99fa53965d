//! The token codec and the per-request session gate.
//!
//! `TokenCodec` owns the process-wide key material: the signing secret,
//! the token lifetime, and the AES-256-CBC key and IV.  `issue_token`
//! builds, signs and encrypts a token; `validate_token` reverses the
//! pipeline; `authenticate` is the stateless per-request gate that also
//! enforces expiry.  Expiry is stored as a delta: a token is live at
//! `now` exactly when `now < iat + exp`, so it is expired at the
//! boundary second itself.
use crate::claims::{Claims, ClaimsView};
use crate::crypto::{aes256_cbc_dec, aes256_cbc_enc, decrypt_aes256, encrypt_aes256};
use crate::errors::AuthError;
use crate::jwt::{jwt_decode, jwt_encode, jwt_of, parse_jwt};
use vstd::prelude::*;
use vstd::string::StrSliceExecFns;
use vstd::utf8::encode_utf8;

verus! {

/// Process-wide token key material, loaded once from configuration and
/// then immutable.
pub struct TokenCodec {
    /// HMAC-SHA256 signing secret.
    pub secret: Vec<u8>,
    /// Token lifetime in seconds; the expiry claim of every issued token.
    pub expire_seconds: u64,
    /// AES-256 key, exactly 32 bytes.
    pub key: Vec<u8>,
    /// CBC initialization vector, exactly 16 bytes.
    pub iv: Vec<u8>,
}

impl TokenCodec {
    /// Key material the cipher accepts.
    pub open spec fn wf(self) -> bool {
        self.key@.len() == 32 && self.iv@.len() == 16
    }
}

/// The claims this service stamps into a token issued at `iat` for a
/// user id and email, with lifetime `ttl`.
pub open spec fn claims_for(ttl: u64, user_id: Seq<char>, email: Seq<char>, iat: u64) -> ClaimsView {
    ClaimsView {
        aud: encode_utf8(user_id),
        exp: ttl,
        iat: iat,
        iss: encode_utf8(crate::JWT_ISSUER@),
        sub: encode_utf8(email),
    }
}

/// The opaque byte string a token for claims `c` is carried as: the
/// signed serialized claims, encrypted.
pub open spec fn token_bytes(codec: TokenCodec, c: ClaimsView) -> Seq<u8> {
    aes256_cbc_enc(codec.key@, codec.iv@, jwt_of(codec.secret@, c))
}

/// The claims an opaque byte string validates to: decrypt, then check
/// the signature and read the claims; `None` when any step rejects.
pub open spec fn token_claims(codec: TokenCodec, bytes: Seq<u8>) -> Option<ClaimsView> {
    match aes256_cbc_dec(codec.key@, codec.iv@, bytes) {
        None => None,
        Some(plain) => parse_jwt(codec.secret@, plain),
    }
}

/// Whether the per-request gate admits a request carrying `token` at
/// time `now`: the token must be present, decrypt, carry a valid
/// signature and well-formed claims, and not yet have reached
/// `iat + exp`.
pub open spec fn session_accepts(codec: TokenCodec, token: Option<Seq<u8>>, now: u64) -> bool {
    match token {
        None => false,
        Some(t) => match token_claims(codec, t) {
            None => false,
            Some(c) => (now as int) < (c.iat as int) + (c.exp as int),
        },
    }
}

/// Relies on `chrono::Utc::now`: seconds since the unix epoch at the
/// moment of the call.  Nothing further is promised of the clock.
#[verifier::external_body]
pub fn now_unix_seconds() -> i64 {
    chrono::Utc::now().timestamp()
}

/// Builds the opaque session token issued at time `iat`: claims are
/// serialized, signed with the codec's secret, and encrypted with its
/// key and IV.  The token it returns validates back to exactly those
/// claims.
pub fn issue_token_at(codec: &TokenCodec, user_id: &str, email: &str, iat: u64) -> (r: Vec<u8>)
    requires
        codec.wf(),
    ensures
        r@ == token_bytes(*codec, claims_for(codec.expire_seconds, user_id@, email@, iat)),
        token_claims(*codec, r@) == Some(claims_for(codec.expire_seconds, user_id@, email@, iat)),
        r@.len() > 0 && r@.len() % 16 == 0,
{
    let claims = Claims {
        aud: user_id.as_bytes_vec(),
        exp: codec.expire_seconds,
        iat: iat,
        iss: crate::JWT_ISSUER.as_bytes_vec(),
        sub: email.as_bytes_vec(),
    };
    assert(claims@ == claims_for(codec.expire_seconds, user_id@, email@, iat));
    issue_token_for(codec, &claims)
}

/// Signs and encrypts an already-built claims value.  The token is an
/// opaque binary blob: a positive multiple of the cipher's block size,
/// with no claim content readable without the key.
pub fn issue_token_for(codec: &TokenCodec, claims: &Claims) -> (r: Vec<u8>)
    requires
        codec.wf(),
    ensures
        r@ == token_bytes(*codec, claims@),
        token_claims(*codec, r@) == Some(claims@),
        r@.len() > 0 && r@.len() % 16 == 0,
{
    let signed = jwt_encode(codec.secret.as_slice(), claims);
    let token = encrypt_aes256(codec.key.as_slice(), codec.iv.as_slice(), signed.as_slice());
    proof {
        let n = signed@.len() as int;
        assert(token@.len() == (n / 16 + 1) * 16);
        assert((n / 16 + 1) * 16 % 16 == 0 && (n / 16 + 1) * 16 >= 16) by (nonlinear_arith)
            requires
                n >= 0,
        ;
    }
    token
}

/// Builds an opaque session token issued at the current clock second
/// (clamped to the epoch if the clock reads before it).
pub fn issue_token(codec: &TokenCodec, user_id: &str, email: &str) -> (r: Vec<u8>)
    requires
        codec.wf(),
    ensures
        exists|iat: u64|
            r@ == token_bytes(
                *codec,
                #[trigger] claims_for(codec.expire_seconds, user_id@, email@, iat),
            ) && token_claims(*codec, r@) == Some(
                claims_for(codec.expire_seconds, user_id@, email@, iat),
            ),
        r@.len() > 0 && r@.len() % 16 == 0,
{
    let t = now_unix_seconds();
    let iat: u64 = if t < 0 {
        0
    } else {
        t as u64
    };
    let r = issue_token_at(codec, user_id, email, iat);
    proof {
        assert(r@ == token_bytes(
            *codec,
            claims_for(codec.expire_seconds, user_id@, email@, iat),
        ));
    }
    r
}

/// Decrypts a token and checks its signature and claims, yielding the
/// claims exactly when the whole pipeline accepts.  Expiry is not
/// checked here: the expiry claim is a delta, and the caller re-derives
/// the absolute expiry.
pub fn validate_token(codec: &TokenCodec, token: &[u8]) -> (r: Result<Claims, AuthError>)
    requires
        codec.wf(),
    ensures
        match r {
            Ok(c) => token_claims(*codec, token@) == Some(c@),
            Err(e) => token_claims(*codec, token@) is None && e == AuthError::Unauthenticated,
        },
{
    let plain = match decrypt_aes256(codec.key.as_slice(), codec.iv.as_slice(), token) {
        None => {
            return Err(AuthError::Unauthenticated);
        },
        Some(p) => p,
    };
    match jwt_decode(codec.secret.as_slice(), plain.as_slice()) {
        None => Err(AuthError::Unauthenticated),
        Some(c) => Ok(c),
    }
}

/// The per-request session gate.  Runs once per inbound call, before
/// any business logic: a missing, undecryptable, forged, malformed or
/// expired token is rejected as `Unauthenticated`; otherwise the claims
/// pass through.
pub fn authenticate(codec: &TokenCodec, token: Option<&Vec<u8>>, now: u64) -> (r: Result<
    Claims,
    AuthError,
>)
    requires
        codec.wf(),
    ensures
        match r {
            Ok(c) => {
                &&& token is Some
                &&& token_claims(*codec, token.unwrap()@) == Some(c@)
                &&& (now as int) < (c.iat as int) + (c.exp as int)
                &&& session_accepts(*codec, spec_token_view(token), now)
            },
            Err(e) => !session_accepts(*codec, spec_token_view(token), now) && e
                == AuthError::Unauthenticated,
        },
{
    let bytes = match token {
        None => {
            return Err(AuthError::Unauthenticated);
        },
        Some(b) => b,
    };
    let claims = match validate_token(codec, bytes.as_slice()) {
        Err(_) => {
            return Err(AuthError::Unauthenticated);
        },
        Ok(c) => c,
    };
    // expired exactly when now >= iat + exp; the sum cannot be formed in
    // 64 bits when exp is near the maximum, and then no clock reading
    // reaches it
    if claims.exp <= u64::MAX - claims.iat {
        if now >= claims.iat + claims.exp {
            return Err(AuthError::Unauthenticated);
        }
    }
    Ok(claims)
}

/// The byte view of an optional borrowed token.
pub open spec fn spec_token_view(token: Option<&Vec<u8>>) -> Option<Seq<u8>> {
    match token {
        None => None,
        Some(b) => Some(b@),
    }
}

} // verus!
