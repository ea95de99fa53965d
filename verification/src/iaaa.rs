//! The external single-sign-on path: the canonical validation request,
//! its keyed digest, and login with auto-provisioning from a verified
//! assertion.
//!
//! The HTTP round trip to the provider is I/O and lives outside this
//! library; what stands here is everything around it: the exact query
//! string and digest the provider expects, and the resolution of a
//! verified assertion to a durable user record.
use crate::api::LoginResponse;
use crate::claims::Claims;
use crate::errors::AuthError;
use crate::jsonenc::push_u64;
use crate::middleware::{issue_token_for, TokenCodec};
use crate::password::login_success_view;
use crate::store::{has_username, LoginProvider, UserStore, UserView};
use std::fmt::Write;
use vstd::prelude::*;
use vstd::string::{StringExecFns, StrSliceExecFns};

verus! {

/// The provider's validation endpoint.
pub const VALIDATE_ENDPOINT: &'static str = "https://iaaa.pku.edu.cn/iaaa/svc/token/validate.do";

/// The identity assertion the provider returns for a valid token.  Only
/// `identity_id` and `name` are used downstream; the rest is opaque
/// metadata carried through.
#[derive(Debug)]
pub struct IAAAUserInfo {
    pub name: String,
    pub status: String,
    pub identity_id: String,
    pub dept_id: String,
    pub dept: String,
    pub identity_type: String,
    pub detail_type: String,
    pub identity_status: String,
    pub campus: String,
}

pub ghost struct IAAAUserInfoView {
    pub name: Seq<char>,
    pub status: Seq<char>,
    pub identity_id: Seq<char>,
    pub dept_id: Seq<char>,
    pub dept: Seq<char>,
    pub identity_type: Seq<char>,
    pub detail_type: Seq<char>,
    pub identity_status: Seq<char>,
    pub campus: Seq<char>,
}

impl View for IAAAUserInfo {
    type V = IAAAUserInfoView;

    open spec fn view(&self) -> IAAAUserInfoView {
        IAAAUserInfoView {
            name: self.name@,
            status: self.status@,
            identity_id: self.identity_id@,
            dept_id: self.dept_id@,
            dept: self.dept@,
            identity_type: self.identity_type@,
            detail_type: self.detail_type@,
            identity_status: self.identity_status@,
            campus: self.campus@,
        }
    }
}

/// The provider's validation envelope.
#[derive(Debug)]
pub struct IAAAValidateResponse {
    pub success: bool,
    pub err_code: String,
    pub err_msg: String,
    pub user_info: IAAAUserInfo,
}

impl IAAAValidateResponse {
    /// Whether the provider accepted the token.
    pub fn is_success(&self) -> (r: bool)
        ensures
            r == self.success,
    {
        self.success
    }
}

/// A fixed sample assertion, the shape a validation answer takes.
pub fn example_iaaa_validate_response() -> (r: IAAAValidateResponse)
    ensures
        r.success == true,
        r.err_code@ == ""@,
        r.err_msg@ == ""@,
        r.user_info.name@ == "Tom"@,
        r.user_info.identity_id@ == "2200088888"@,
        r.user_info.campus@ == "pku"@,
{
    IAAAValidateResponse {
        success: true,
        err_code: ("").to_owned(),
        err_msg: ("").to_owned(),
        user_info: IAAAUserInfo {
            name: ("Tom").to_owned(),
            status: ("Present").to_owned(),
            identity_id: ("2200088888").to_owned(),
            dept_id: ("example").to_owned(),
            dept: ("example").to_owned(),
            identity_type: ("example").to_owned(),
            detail_type: ("example").to_owned(),
            identity_status: ("example").to_owned(),
            campus: ("pku").to_owned(),
        },
    }
}

/// Hex digest of the message under MD5, used as the provider's keyed
/// request digest.  A function of the message alone.
pub uninterp spec fn md5_hex(msg: Seq<char>) -> Seq<char>;

/// Relies on `md5::compute` and its `LowerHex` rendering: 16 digest
/// bytes written as 32 lower-case hex characters, a function of the
/// message alone.
#[verifier::external_body]
fn md5_hash(msg: &String) -> (r: String)
    ensures
        r@ == md5_hex(msg@),
        r@.len() == 32,
{
    let digest = md5::compute(msg.as_bytes());
    let mut out = String::new();
    let _ = write!(out, "{:x}", digest);
    out
}

/// The canonical query string the provider validates:
/// `appId=<id>&remoteAddr=<ip>&token=<token>`.
pub open spec fn sso_payload(app_id: Seq<char>, remote_addr: Seq<char>, token: Seq<char>) -> Seq<
    char,
> {
    "appId="@ + app_id + "&remoteAddr="@ + remote_addr + "&token="@ + token
}

/// The full validation URL: the endpoint, the canonical query string,
/// and the keyed digest of query string plus application key as
/// `msgAbs`.
pub open spec fn sso_validate_url_spec(
    app_id: Seq<char>,
    remote_addr: Seq<char>,
    token: Seq<char>,
    app_key: Seq<char>,
) -> Seq<char> {
    VALIDATE_ENDPOINT@ + "?"@ + sso_payload(app_id, remote_addr, token) + "&msgAbs="@ + md5_hex(
        sso_payload(app_id, remote_addr, token) + app_key,
    )
}

/// Builds the provider's validation URL for one request.
pub fn sso_validate_url(app_id: &str, remote_addr: &str, token: &str, app_key: &str) -> (r: String)
    ensures
        r@ == sso_validate_url_spec(app_id@, remote_addr@, token@, app_key@),
{
    let mut payload = String::new();
    payload.append("appId=");
    payload.append(app_id);
    payload.append("&remoteAddr=");
    payload.append(remote_addr);
    payload.append("&token=");
    payload.append(token);
    assert(payload@ == sso_payload(app_id@, remote_addr@, token@));

    let mut keyed = payload.clone();
    keyed.append(app_key);
    let sign = md5_hash(&keyed);

    let mut url = String::new();
    url.append(VALIDATE_ENDPOINT);
    url.append("?");
    url.append(payload.as_str());
    url.append("&msgAbs=");
    url.append(sign.as_str());
    url
}

/// The record auto-provisioned for a first SSO login: the external
/// identity id doubles as username, the display name as nickname, no
/// email and no password.
pub open spec fn sso_new_user_view(id: i32, info: IAAAUserInfoView, created_at: i64) -> UserView {
    UserView {
        id: id,
        username: info.identity_id,
        email: None,
        login_provider: LoginProvider::Iaaa,
        nickname: info.name,
        password: None,
        created_at: created_at,
        updated_at: None,
    }
}

/// Everything SSO login promises.  A rejected assertion is
/// `Unauthenticated` and changes nothing.  An accepted one resolves
/// the external identity id to a user record — reusing an existing
/// record with the store unchanged, or provisioning exactly one new
/// record on first login — and succeeds with the user and a fresh
/// session token whenever an id is still free; the one possible store
/// failure, an exhausted id space, is also answered `Unauthenticated`,
/// since every SSO login failure collapses to one generic outcome for
/// the caller.
pub open spec fn iaaa_login_post(
    codec: TokenCodec,
    old_store: Seq<UserView>,
    old_next_id: i32,
    new_store: Seq<UserView>,
    success: bool,
    info: IAAAUserInfoView,
    now: u64,
    r: Result<LoginResponse, AuthError>,
) -> bool {
    &&& (!success ==> (r == Err::<LoginResponse, AuthError>(AuthError::Unauthenticated)
        && new_store == old_store))
    &&& (success && has_username(old_store, info.identity_id) ==> {
        &&& new_store == old_store
        &&& forall|i: int|
            0 <= i < old_store.len() && (#[trigger] old_store[i]).username == info.identity_id
                ==> (r matches Ok(out) && out@ == login_success_view(codec, old_store[i], now))
    })
    &&& (success && !has_username(old_store, info.identity_id) ==> {
        &&& (old_next_id < i32::MAX ==> {
            let u = sso_new_user_view(old_next_id, info, now as i64);
            &&& r matches Ok(out) && out@ == login_success_view(codec, u, now)
            &&& new_store == old_store.push(u)
        })
        &&& (old_next_id == i32::MAX ==> (r == Err::<LoginResponse, AuthError>(
            AuthError::Unauthenticated,
        ) && new_store == old_store))
    })
}

/// SSO login from a verified provider assertion, resolving or
/// auto-provisioning the user and issuing a session token, with
/// exactly the promises of `iaaa_login_post`.
pub fn login_iaaa(
    store: &mut UserStore,
    codec: &TokenCodec,
    resp: &IAAAValidateResponse,
    now: u64,
) -> (r: Result<LoginResponse, AuthError>)
    requires
        old(store).wf(),
        codec.wf(),
    ensures
        final(store).wf(),
        iaaa_login_post(
            *codec,
            old(store)@,
            old(store).next_id,
            final(store)@,
            resp.success,
            resp.user_info@,
            now,
            r,
        ),
{
    if !resp.is_success() {
        return Err(AuthError::Unauthenticated);
    }
    let ghost before = store@;
    let idx = match store.find_by_username(&resp.user_info.identity_id) {
        Some(i) => i,
        None => match store.insert_new_user(
            resp.user_info.identity_id.clone(),
            None,
            LoginProvider::Iaaa,
            resp.user_info.name.clone(),
            None,
            now as i64,
        ) {
            Ok(i) => i,
            Err(_) => {
                return Err(AuthError::Unauthenticated);
            },
        },
    };
    let user = store.get(idx);
    let ghost uv = store@[idx as int];
    proof {
        if has_username(before, resp.user_info.identity_id@) {
            assert forall|i: int|
                0 <= i < before.len() && (#[trigger] before[i]).username
                    == resp.user_info.identity_id@ implies before[i] == uv by {
                if i != idx as int {
                    assert(before[i].username != before[idx as int].username);
                }
            }
        }
    }

    let mut aud: Vec<u8> = Vec::new();
    push_u64(&mut aud, user.id as u64);
    let sub: Vec<u8> = match &user.email {
        Some(e) => e.as_str().as_bytes_vec(),
        None => Vec::new(),
    };
    let claims = Claims {
        aud,
        exp: codec.expire_seconds,
        iat: now,
        iss: crate::JWT_ISSUER.as_bytes_vec(),
        sub,
    };
    assert(claims@ == crate::password::login_claims(*codec, uv, now));
    let token = issue_token_for(codec, &claims);
    Ok(LoginResponse { success: true, user: Some(user), token })
}

} // verus!
