//! The service-facing authentication entry points: login and register,
//! dispatched over the identity-provider variant.
//!
//! Request-shape validation runs before anything else touches the
//! store or the network: a malformed request fails fast with
//! `InvalidArgument`.  The SSO round trip itself is I/O and is carried
//! out by the caller, who hands the provider's answer — or its absence
//! — to `login`.
use crate::api::{LoginRequest, LoginRequestView, LoginResponse, RegisterRequest, RegisterResponse};
use crate::api::{spec_provider_of, provider_of};
use crate::errors::AuthError;
use crate::iaaa::{iaaa_login_post, login_iaaa, IAAAValidateResponse};
use crate::middleware::TokenCodec;
use crate::password::{login_password, password_login_post, register_password,
    register_password_post};
use crate::store::{LoginProvider, UserStore};
use vstd::prelude::*;

verus! {

/// The authentication service: the user store, the token key material,
/// and the credentials this deployment holds with the SSO provider.
pub struct AuthService {
    pub store: UserStore,
    pub codec: TokenCodec,
    /// Application id registered with the SSO provider.
    pub iaaa_id: String,
    /// Application key shared with the SSO provider.
    pub iaaa_key: String,
}

/// Whether a login request has the shape its provider requires: SSO
/// needs a non-empty external token and a non-empty caller address;
/// the password provider needs a non-empty username and password; an
/// unknown provider code is never valid.
pub open spec fn login_request_valid(req: LoginRequestView) -> bool {
    match spec_provider_of(req.auth_provider) {
        None => false,
        Some(LoginProvider::Iaaa) => req.iaaa_token.len() > 0 && (req.ip_address matches Some(ip)
            && ip.len() > 0),
        Some(LoginProvider::Password) => req.username.len() > 0 && req.password.len() > 0,
    }
}

impl AuthService {
    pub open spec fn wf(self) -> bool {
        self.store.wf() && self.codec.wf()
    }

    /// Checks the request shape for its provider, before any store or
    /// network work.
    pub fn validate_login_request(req: &LoginRequest) -> (r: bool)
        ensures
            r == login_request_valid(req@),
    {
        match provider_of(req.auth_provider) {
            None => false,
            Some(LoginProvider::Iaaa) => {
                if req.iaaa_token.as_str().is_empty() {
                    return false;
                }
                match &req.ip_address {
                    None => false,
                    Some(ip) => !ip.as_str().is_empty(),
                }
            },
            Some(LoginProvider::Password) => !req.username.as_str().is_empty()
                && !req.password.as_str().is_empty(),
        }
    }

    /// Login, dispatched over the provider variant.
    ///
    /// A malformed request fails with `InvalidArgument` before the
    /// store is consulted.  The password path runs entirely here.  For
    /// the SSO path the caller performs the provider round trip first
    /// and passes the answer; `None` means the provider could not be
    /// consulted, which fails closed as `Unauthenticated`.
    pub fn login(
        &mut self,
        req: &LoginRequest,
        sso_answer: Option<&IAAAValidateResponse>,
        now: u64,
    ) -> (r: Result<LoginResponse, AuthError>)
        requires
            old(self).wf(),
        ensures
            final(self).wf(),
            final(self).codec == old(self).codec,
            !login_request_valid(req@) ==> (r == Err::<LoginResponse, AuthError>(
                AuthError::InvalidArgument,
            ) && final(self).store@ == old(self).store@),
            login_request_valid(req@) && spec_provider_of(req.auth_provider) == Some(
                LoginProvider::Password,
            ) ==> {
                &&& final(self).store@ == old(self).store@
                &&& password_login_post(
                    old(self).codec,
                    old(self).store@,
                    req.username@,
                    req.password@,
                    now,
                    r,
                )
            },
            login_request_valid(req@) && spec_provider_of(req.auth_provider) == Some(
                LoginProvider::Iaaa,
            ) ==> match sso_answer {
                None => (r == Err::<LoginResponse, AuthError>(AuthError::Unauthenticated)
                    && final(self).store@ == old(self).store@),
                Some(resp) => iaaa_login_post(
                    old(self).codec,
                    old(self).store@,
                    old(self).store.next_id,
                    final(self).store@,
                    resp.success,
                    resp.user_info@,
                    now,
                    r,
                ),
            },
    {
        if !Self::validate_login_request(req) {
            return Err(AuthError::InvalidArgument);
        }
        match provider_of(req.auth_provider) {
            Some(LoginProvider::Iaaa) => match sso_answer {
                None => Err(AuthError::Unauthenticated),
                Some(resp) => login_iaaa(&mut self.store, &self.codec, resp, now),
            },
            Some(LoginProvider::Password) => login_password(&self.store, &self.codec, req, now),
            None => Err(AuthError::InvalidArgument),
        }
    }

    /// Registration: only the password provider registers explicitly.
    /// An SSO registration attempt is rejected outright, since SSO
    /// identities are provisioned implicitly on first login; an unknown
    /// provider code is malformed.
    pub fn register(&mut self, req: &RegisterRequest, now: i64) -> (r: Result<
        RegisterResponse,
        AuthError,
    >)
        requires
            old(self).wf(),
        ensures
            final(self).wf(),
            final(self).codec == old(self).codec,
            spec_provider_of(req.auth_provider) is None ==> (r == Err::<
                RegisterResponse,
                AuthError,
            >(AuthError::InvalidArgument) && final(self).store@ == old(self).store@),
            spec_provider_of(req.auth_provider) == Some(LoginProvider::Iaaa) ==> (r == Err::<
                RegisterResponse,
                AuthError,
            >(AuthError::Unavailable) && final(self).store@ == old(self).store@),
            spec_provider_of(req.auth_provider) == Some(LoginProvider::Password)
                ==> register_password_post(
                old(self).store@,
                old(self).store.next_id,
                final(self).store@,
                req.username@,
                req.password@,
                req.email@,
                now,
                r,
            ),
    {
        match provider_of(req.auth_provider) {
            None => Err(AuthError::InvalidArgument),
            Some(LoginProvider::Iaaa) => Err(AuthError::Unavailable),
            Some(LoginProvider::Password) => register_password(&mut self.store, req, now),
        }
    }
}

} // verus!
