//! The properties that tie the components together, stated over the
//! same spec functions the components' contracts use.
use crate::api::RegisterResponse;
use crate::claims::ClaimsView;
use crate::crypto::aes256_cbc_dec;
use crate::errors::AuthError;
use crate::iaaa::iaaa_login_post;
use crate::jsonenc::find_byte;
use crate::jwt::{b64url_of, hs256_sig, parse_jwt, DOT, HEADER_JSON};
use crate::middleware::{session_accepts, token_claims, TokenCodec};
use crate::password::{bcrypt_accepts, bcrypt_verdict, password_login_post, register_password_post};
use crate::store::{has_username, UserView};
use vstd::prelude::*;

verus! {

/// A token that validates to claims issued at `iat` with lifetime
/// `exp` is admitted by the session gate at exactly the times before
/// `iat + exp`, and rejected from that boundary second on.
pub proof fn lemma_token_validity_window(codec: TokenCodec, token: Seq<u8>, c: ClaimsView, t: u64)
    requires
        token_claims(codec, token) == Some(c),
    ensures
        session_accepts(codec, Some(token), t) <==> (t as int) < (c.iat as int) + (c.exp as int),
{
}

/// The whole integrity pipeline of a decrypted token: it splits at two
/// dots, carries the fixed header, and its third part is the HMAC
/// signature of the first two under the server secret.
pub open spec fn jwt_integrity_checked(secret: Seq<u8>, s: Seq<u8>) -> bool {
    match find_byte(s, DOT) {
        None => false,
        Some(i) => match find_byte(s.skip(i + 1), DOT) {
            None => false,
            Some(jrel) => {
                let j = i + 1 + jrel;
                s.take(i) == b64url_of(HEADER_JSON@) && s.skip(j + 1) == hs256_sig(
                    secret,
                    s.take(j),
                )
            },
        },
    }
}

/// A request the session gate admits carries a token that decrypts
/// under the server key, and whose decryption passes the signature
/// check against the server secret.  A tampered token can thus only be
/// admitted by also defeating the padding check and the signature
/// comparison; nothing is ever admitted unchecked.
pub proof fn lemma_acceptance_requires_integrity(codec: TokenCodec, token: Seq<u8>, now: u64)
    requires
        session_accepts(codec, Some(token), now),
    ensures
        aes256_cbc_dec(codec.key@, codec.iv@, token) is Some,
        jwt_integrity_checked(
            codec.secret@,
            aes256_cbc_dec(codec.key@, codec.iv@, token).unwrap(),
        ),
{
    let plain = aes256_cbc_dec(codec.key@, codec.iv@, token).unwrap();
    assert(parse_jwt(codec.secret@, plain) is Some);
}

/// Registering a username a second time fails with `AlreadyExists` and
/// changes nothing, whatever the first registration stored.
pub proof fn lemma_duplicate_registration_rejected(
    s0: Seq<UserView>,
    id0: i32,
    s1: Seq<UserView>,
    username: Seq<char>,
    password: Seq<char>,
    email: Seq<char>,
    t0: i64,
    resp: RegisterResponse,
    id1: i32,
    s2: Seq<UserView>,
    password2: Seq<char>,
    email2: Seq<char>,
    t1: i64,
    r2: Result<RegisterResponse, AuthError>,
)
    requires
        register_password_post(s0, id0, s1, username, password, email, t0, Ok(resp)),
        register_password_post(s1, id1, s2, username, password2, email2, t1, r2),
    ensures
        r2 == Err::<RegisterResponse, AuthError>(AuthError::AlreadyExists),
        s2 == s1,
{
    let h = choose|h: Seq<char>|
        #[trigger] bcrypt_accepts(password, h) && s1 == s0.push(
            UserView {
                id: id0,
                username: username,
                email: Some(email),
                login_provider: crate::store::LoginProvider::Password,
                nickname: username,
                password: Some(h),
                created_at: t0,
                updated_at: None,
            },
        );
    assert(s1[s0.len() as int].username == username);
    assert(has_username(s1, username));
}

/// A login with a wrong password is never a success: a well-formed
/// mismatch fails exactly with `Unauthenticated`, and a record whose
/// stored credential is missing or unusable fails exactly with
/// `Internal`, never by letting the caller in.
pub proof fn lemma_wrong_password_rejected(
    codec: TokenCodec,
    store: Seq<UserView>,
    username: Seq<char>,
    password: Seq<char>,
    now: u64,
    r: Result<crate::api::LoginResponse, AuthError>,
    i: int,
)
    requires
        password_login_post(codec, store, username, password, now, r),
        0 <= i < store.len(),
        store[i].username == username,
        match store[i].password {
            Some(h) => !bcrypt_accepts(password, h),
            None => true,
        },
    ensures
        r is Err,
        match store[i].password {
            Some(h) => match bcrypt_verdict(password, h) {
                Some(_) => r == Err::<crate::api::LoginResponse, AuthError>(
                    AuthError::Unauthenticated,
                ),
                None => r == Err::<crate::api::LoginResponse, AuthError>(AuthError::Internal),
            },
            None => r == Err::<crate::api::LoginResponse, AuthError>(AuthError::Internal),
        },
{
    match store[i].password {
        Some(h) => {
            match bcrypt_verdict(password, h) {
                Some(b) => {
                    assert(!b);
                    assert(bcrypt_verdict(password, h) == Some(false));
                },
                None => {},
            }
        },
        None => {},
    }
}

/// A login with an unknown username fails with `NotFound`.
pub proof fn lemma_unknown_username_not_found(
    codec: TokenCodec,
    store: Seq<UserView>,
    username: Seq<char>,
    password: Seq<char>,
    now: u64,
    r: Result<crate::api::LoginResponse, AuthError>,
)
    requires
        password_login_post(codec, store, username, password, now, r),
        !has_username(store, username),
    ensures
        r == Err::<crate::api::LoginResponse, AuthError>(AuthError::NotFound),
{
}

/// How many records carry a username.
pub open spec fn count_username(s: Seq<UserView>, name: Seq<char>) -> int
    decreases s.len(),
{
    if s.len() == 0 {
        0
    } else {
        (if s[0].username == name {
            1int
        } else {
            0int
        }) + count_username(s.skip(1), name)
    }
}

proof fn lemma_count_push(s: Seq<UserView>, u: UserView, name: Seq<char>)
    ensures
        count_username(s.push(u), name) == count_username(s, name) + (if u.username == name {
            1int
        } else {
            0int
        }),
    decreases s.len(),
{
    if s.len() == 0 {
        assert(s.push(u)[0] == u);
        assert(s.push(u).skip(1) =~= Seq::<UserView>::empty());
        assert(count_username(Seq::<UserView>::empty(), name) == 0);
    } else {
        assert(s.push(u)[0] == s[0]);
        assert(s.push(u).skip(1) =~= s.skip(1).push(u));
        lemma_count_push(s.skip(1), u, name);
    }
}

proof fn lemma_count_zero(s: Seq<UserView>, name: Seq<char>)
    requires
        !has_username(s, name),
    ensures
        count_username(s, name) == 0,
    decreases s.len(),
{
    if s.len() > 0 {
        assert(s[0].username != name);
        assert(!has_username(s.skip(1), name)) by {
            if has_username(s.skip(1), name) {
                let i = choose|i: int|
                    0 <= i < s.skip(1).len() && s.skip(1)[i].username == name;
                assert(s[i + 1].username == name);
            }
        }
        lemma_count_zero(s.skip(1), name);
    }
}

/// A first SSO login with a fresh external identity succeeds and
/// creates exactly one record for it, and a second login with the same
/// identity — in whatever order the two were serialized by the store —
/// creates nothing further and succeeds against the same record.
pub proof fn lemma_sso_provisions_once(
    codec: TokenCodec,
    s0: Seq<UserView>,
    id0: i32,
    s1: Seq<UserView>,
    info: crate::iaaa::IAAAUserInfoView,
    now1: u64,
    r1: Result<crate::api::LoginResponse, AuthError>,
    id1: i32,
    s2: Seq<UserView>,
    now2: u64,
    r2: Result<crate::api::LoginResponse, AuthError>,
)
    requires
        !has_username(s0, info.identity_id),
        id0 < i32::MAX,
        iaaa_login_post(codec, s0, id0, s1, true, info, now1, r1),
        iaaa_login_post(codec, s1, id1, s2, true, info, now2, r2),
    ensures
        r1 is Ok,
        count_username(s1, info.identity_id) == 1,
        s2 == s1,
        r2 is Ok,
{
    let u = crate::iaaa::sso_new_user_view(id0, info, now1 as i64);
    assert(s1 == s0.push(u));
    lemma_count_zero(s0, info.identity_id);
    lemma_count_push(s0, u, info.identity_id);
    assert(s1[s0.len() as int] == u);
    assert(has_username(s1, info.identity_id));
    assert(r2 is Ok) by {
        assert(s1[s0.len() as int].username == info.identity_id);
    }
}

} // verus!
