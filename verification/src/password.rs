//! The local-password credential path: hashing and verification of
//! passwords with a salted adaptive hash, and the login and
//! registration flows built on them.
use crate::api::{LoginRequest, LoginResponse, LoginResponseView, RegisterRequest, RegisterResponse};
use crate::claims::{Claims, ClaimsView};
use crate::errors::AuthError;
use crate::jsonenc::{dec_of, push_u64};
use crate::middleware::{issue_token_for, token_bytes, TokenCodec};
use crate::store::{has_username, LoginProvider, UserStore, UserView};
use vstd::prelude::*;
use vstd::string::StrSliceExecFns;
use vstd::utf8::encode_utf8;

verus! {

/// Cost factor of the adaptive hash, fixed for the deployment.
pub const BCRYPT_COST: u32 = 10;

/// The full outcome of bcrypt verification for a password against a
/// stored hash: `Some(b)` when verification ran and answered `b`,
/// `None` when bcrypt rejected the stored hash as unusable.  The
/// outcome is a function of the two strings alone; the `None` case in
/// fact depends only on the hash (its shape, base64 fields and cost
/// range), never on the password.
pub uninterp spec fn bcrypt_verdict(password: Seq<char>, hash: Seq<char>) -> Option<bool>;

/// Whether bcrypt verification accepts `password` against `hash`, that
/// is, whether `bcrypt::verify` returns `Ok(true)` for the pair.
pub open spec fn bcrypt_accepts(password: Seq<char>, hash: Seq<char>) -> bool {
    bcrypt_verdict(password, hash) == Some(true)
}

/// Relies on `bcrypt::verify`: deterministic in password and hash; it
/// errors exactly when the stored hash is malformed (wrong shape,
/// invalid base64 fields, or a cost outside the allowed range), and
/// otherwise re-derives the hash and compares.
#[verifier::external_body]
fn bcrypt_verify_call(password: &str, hash: &str) -> (r: Result<bool, ()>)
    ensures
        match r {
            Ok(b) => bcrypt_verdict(password@, hash@) == Some(b),
            Err(_) => bcrypt_verdict(password@, hash@) is None,
        },
{
    match bcrypt::verify(password, hash) {
        Ok(b) => Ok(b),
        Err(_) => Err(()),
    }
}

/// Relies on `bcrypt::hash`: the salt is drawn fresh, so nothing ties
/// the result to earlier calls, but every hash it returns is
/// well-formed and verifies against the password it was computed from.
#[verifier::external_body]
fn bcrypt_hash_call(password: &str, cost: u32) -> (r: Result<String, ()>)
    ensures
        match r {
            Ok(h) => bcrypt_verdict(password@, h@) == Some(true),
            Err(_) => true,
        },
{
    match bcrypt::hash(password, cost) {
        Ok(h) => Ok(h),
        Err(_) => Err(()),
    }
}

/// Verifies a supplied password against a stored hash.  A missing or
/// malformed stored hash is a corrupted credential record, reported as
/// its own failure and never as a plain mismatch.
pub fn verify_password(stored_hash: Option<&String>, supplied_password: &str) -> (r: Result<
    bool,
    AuthError,
>)
    ensures
        match r {
            Ok(b) => stored_hash is Some && bcrypt_verdict(
                supplied_password@,
                stored_hash.unwrap()@,
            ) == Some(b),
            Err(e) => e == AuthError::Internal && (stored_hash is None || bcrypt_verdict(
                supplied_password@,
                stored_hash.unwrap()@,
            ) is None),
        },
{
    let hash = match stored_hash {
        None => {
            return Err(AuthError::Internal);
        },
        Some(h) => h,
    };
    match bcrypt_verify_call(supplied_password, hash.as_str()) {
        Ok(b) => Ok(b),
        Err(_) => Err(AuthError::Internal),
    }
}

/// Hashes a plaintext password with the fixed cost factor.  A failure
/// of the underlying primitive is reported, never swallowed.
pub fn hash_password(plaintext: &str) -> (r: Result<String, AuthError>)
    ensures
        match r {
            Ok(h) => bcrypt_verdict(plaintext@, h@) == Some(true),
            Err(e) => e == AuthError::Internal,
        },
{
    match bcrypt_hash_call(plaintext, BCRYPT_COST) {
        Ok(h) => Ok(h),
        Err(_) => Err(AuthError::Internal),
    }
}

/// The claims a login for user `u` at time `now` stamps into the
/// session token: audience is the user id in decimal, subject the
/// user's email or empty, expiry the configured lifetime.
pub open spec fn login_claims(codec: TokenCodec, u: UserView, now: u64) -> ClaimsView {
    ClaimsView {
        aud: dec_of(u.id as u64),
        exp: codec.expire_seconds,
        iat: now,
        iss: encode_utf8(crate::JWT_ISSUER@),
        sub: match u.email {
            Some(e) => encode_utf8(e),
            None => Seq::<u8>::empty(),
        },
    }
}

/// The response a successful login for user `u` at time `now` returns.
pub open spec fn login_success_view(codec: TokenCodec, u: UserView, now: u64) -> LoginResponseView {
    LoginResponseView {
        success: true,
        user: Some(u),
        token: token_bytes(codec, login_claims(codec, u, now)),
    }
}

/// Everything password login promises: an unknown username is
/// `NotFound`, and exactly then; a record without a hash, or with one
/// bcrypt rejects as unusable, is a corrupted credential (`Internal`);
/// a well-formed mismatch is `Unauthenticated`, and nothing else; an
/// accepted password succeeds with the exact response
/// `login_success_view` describes.
pub open spec fn password_login_post(
    codec: TokenCodec,
    store: Seq<UserView>,
    username: Seq<char>,
    password: Seq<char>,
    now: u64,
    r: Result<LoginResponse, AuthError>,
) -> bool {
    &&& (r is Ok ==> has_username(store, username))
    &&& (!has_username(store, username) <==> r == Err::<LoginResponse, AuthError>(
        AuthError::NotFound,
    ))
    &&& forall|i: int|
        0 <= i < store.len() && (#[trigger] store[i]).username == username ==> {
            let u = store[i];
            &&& (u.password is None ==> r == Err::<LoginResponse, AuthError>(AuthError::Internal))
            &&& match u.password {
                Some(h) => {
                    &&& bcrypt_verdict(password, h) is None ==> r == Err::<
                        LoginResponse,
                        AuthError,
                    >(AuthError::Internal)
                    &&& bcrypt_verdict(password, h) == Some(false) ==> r == Err::<
                        LoginResponse,
                        AuthError,
                    >(AuthError::Unauthenticated)
                    &&& bcrypt_verdict(password, h) == Some(true) ==> (r matches Ok(resp) && resp@
                        == login_success_view(codec, u, now))
                },
                None => true,
            }
        }
}

/// Password login: find the user, verify the password against the
/// stored hash, and issue a session token.
pub fn login_password(store: &UserStore, codec: &TokenCodec, req: &LoginRequest, now: u64) -> (r:
    Result<LoginResponse, AuthError>)
    requires
        store.wf(),
        codec.wf(),
    ensures
        password_login_post(*codec, store@, req.username@, req.password@, now, r),
{
    let idx = match store.find_by_username(&req.username) {
        None => {
            return Err(AuthError::NotFound);
        },
        Some(i) => i,
    };
    let user = store.get(idx);
    let ghost uv = store@[idx as int];
    proof {
        assert forall|i: int|
            0 <= i < store@.len() && (#[trigger] store@[i]).username == req.username@ implies store@[i]
            == uv by {
            if i != idx as int {
                assert(store@[i].username != store@[idx as int].username);
            }
        }
    }

    let verified = match verify_password(user.password.as_ref(), req.password.as_str()) {
        Err(_) => {
            return Err(AuthError::Internal);
        },
        Ok(b) => b,
    };
    if !verified {
        return Err(AuthError::Unauthenticated);
    }

    let mut aud: Vec<u8> = Vec::new();
    push_u64(&mut aud, user.id as u64);
    let sub: Vec<u8> = match &user.email {
        Some(e) => e.as_str().as_bytes_vec(),
        None => Vec::new(),
    };
    let claims = Claims {
        aud,
        exp: codec.expire_seconds,
        iat: now,
        iss: crate::JWT_ISSUER.as_bytes_vec(),
        sub,
    };
    assert(claims@ == login_claims(*codec, uv, now));
    let token = issue_token_for(codec, &claims);
    Ok(LoginResponse { success: true, user: Some(user), token })
}

/// Everything password registration promises: a taken username fails
/// with `AlreadyExists`, and exactly then; any failure leaves the store
/// unchanged; success appends exactly one record, carrying the next
/// free id, the username doubling as nickname, and a hash that
/// verifies against the registered password.
pub open spec fn register_password_post(
    old_store: Seq<UserView>,
    old_next_id: i32,
    new_store: Seq<UserView>,
    username: Seq<char>,
    password: Seq<char>,
    email: Seq<char>,
    now: i64,
    r: Result<RegisterResponse, AuthError>,
) -> bool {
    &&& (has_username(old_store, username) <==> r == Err::<RegisterResponse, AuthError>(
        AuthError::AlreadyExists,
    ))
    &&& (r is Err ==> new_store == old_store)
    &&& (r matches Err(e) ==> (e == AuthError::AlreadyExists || e == AuthError::Internal))
    &&& (!has_username(old_store, username) && old_next_id == i32::MAX ==> r == Err::<
        RegisterResponse,
        AuthError,
    >(AuthError::Internal))
    &&& (r matches Ok(resp) ==> {
        &&& resp.success == true
        &&& resp.message@ == "created success"@
        &&& exists|h: Seq<char>|
            #[trigger] bcrypt_accepts(password, h) && new_store == old_store.push(
                UserView {
                    id: old_next_id,
                    username: username,
                    email: Some(email),
                    login_provider: LoginProvider::Password,
                    nickname: username,
                    password: Some(h),
                    created_at: now,
                    updated_at: None,
                },
            )
    })
}

/// The store-facing half of registration, taking the already-computed
/// password hash.  Here success is owed: on a fresh username with an
/// id still free, registration succeeds, and exactly then — the hash
/// is an argument, so no outside call stands between this contract and
/// the store.
pub fn register_password_hashed(
    store: &mut UserStore,
    username: &String,
    email: &String,
    hashed_password: String,
    now: i64,
) -> (r: Result<RegisterResponse, AuthError>)
    requires
        old(store).wf(),
    ensures
        final(store).wf(),
        r is Ok <==> (!has_username(old(store)@, username@) && old(store).next_id < i32::MAX),
        has_username(old(store)@, username@) <==> r == Err::<RegisterResponse, AuthError>(
            AuthError::AlreadyExists,
        ),
        r is Err ==> (final(store)@ == old(store)@ && (r == Err::<RegisterResponse, AuthError>(
            AuthError::AlreadyExists,
        ) || r == Err::<RegisterResponse, AuthError>(AuthError::Internal))),
        r matches Ok(resp) ==> {
            &&& resp.success == true
            &&& resp.message@ == "created success"@
            &&& final(store)@ == old(store)@.push(
                UserView {
                    id: old(store).next_id,
                    username: username@,
                    email: Some(email@),
                    login_provider: LoginProvider::Password,
                    nickname: username@,
                    password: Some(hashed_password@),
                    created_at: now,
                    updated_at: None,
                },
            )
        },
{
    match store.insert_new_user(
        username.clone(),
        Some(email.clone()),
        LoginProvider::Password,
        username.clone(),
        Some(hashed_password),
        now,
    ) {
        Ok(_) => Ok(RegisterResponse { success: true, message: ("created success").to_owned() }),
        Err(e) => Err(e),
    }
}

/// Password registration: reject a taken username with `AlreadyExists`
/// (the first duplicate check; the store's uniqueness constraint backs
/// it), hash the password, and hand the hash to
/// `register_password_hashed`, which owes the insertion.
pub fn register_password(store: &mut UserStore, req: &RegisterRequest, now: i64) -> (r: Result<
    RegisterResponse,
    AuthError,
>)
    requires
        old(store).wf(),
    ensures
        final(store).wf(),
        register_password_post(
            old(store)@,
            old(store).next_id,
            final(store)@,
            req.username@,
            req.password@,
            req.email@,
            now,
            r,
        ),
{
    match store.find_by_username(&req.username) {
        Some(_) => {
            return Err(AuthError::AlreadyExists);
        },
        None => {},
    }
    let hashed = match hash_password(req.password.as_str()) {
        Err(_) => {
            return Err(AuthError::Internal);
        },
        Ok(h) => h,
    };
    let ghost hview = hashed@;
    match register_password_hashed(store, &req.username, &req.email, hashed, now) {
        Ok(resp) => {
            proof {
                assert(bcrypt_accepts(req.password@, hview));
            }
            Ok(resp)
        },
        Err(_) => Err(AuthError::Internal),
    }
}

} // verus!
