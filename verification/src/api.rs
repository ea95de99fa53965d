//! Request and response shapes of the authentication service.
use crate::store::{LoginProvider, User, UserView};
use vstd::prelude::*;

verus! {

/// Wire code of the SSO provider.
pub const PROVIDER_IAAA: i32 = 0;

/// Wire code of the local password provider.
pub const PROVIDER_PASSWORD: i32 = 1;

/// The provider a wire code names, if any.
pub open spec fn spec_provider_of(code: i32) -> Option<LoginProvider> {
    if code == PROVIDER_IAAA {
        Some(LoginProvider::Iaaa)
    } else if code == PROVIDER_PASSWORD {
        Some(LoginProvider::Password)
    } else {
        None
    }
}

/// Decodes a wire provider code.
#[verifier::when_used_as_spec(spec_provider_of)]
pub fn provider_of(code: i32) -> (r: Option<LoginProvider>)
    ensures
        r == spec_provider_of(code),
{
    if code == PROVIDER_IAAA {
        Some(LoginProvider::Iaaa)
    } else if code == PROVIDER_PASSWORD {
        Some(LoginProvider::Password)
    } else {
        None
    }
}

/// A login request.  The SSO path uses `iaaa_token` and `ip_address`;
/// the password path uses `username` and `password`.
#[derive(Debug)]
pub struct LoginRequest {
    pub auth_provider: i32,
    pub iaaa_token: String,
    pub username: String,
    pub password: String,
    /// Required for SSO authentication, absent for password logins.
    pub ip_address: Option<String>,
}

pub ghost struct LoginRequestView {
    pub auth_provider: i32,
    pub iaaa_token: Seq<char>,
    pub username: Seq<char>,
    pub password: Seq<char>,
    pub ip_address: Option<Seq<char>>,
}

impl View for LoginRequest {
    type V = LoginRequestView;

    open spec fn view(&self) -> LoginRequestView {
        LoginRequestView {
            auth_provider: self.auth_provider,
            iaaa_token: self.iaaa_token@,
            username: self.username@,
            password: self.password@,
            ip_address: match self.ip_address {
                Some(ip) => Some(ip@),
                None => None,
            },
        }
    }
}

/// A successful login: the user record and the opaque session token,
/// an encrypted binary blob with no structure visible to the client.
#[derive(Debug)]
pub struct LoginResponse {
    pub success: bool,
    pub user: Option<User>,
    pub token: Vec<u8>,
}

pub ghost struct LoginResponseView {
    pub success: bool,
    pub user: Option<UserView>,
    pub token: Seq<u8>,
}

impl View for LoginResponse {
    type V = LoginResponseView;

    open spec fn view(&self) -> LoginResponseView {
        LoginResponseView {
            success: self.success,
            user: match self.user {
                Some(ref u) => Some(u@),
                None => None,
            },
            token: self.token@,
        }
    }
}

/// A registration request; only the password provider registers
/// explicitly.
#[derive(Debug)]
pub struct RegisterRequest {
    pub auth_provider: i32,
    pub username: String,
    pub password: String,
    pub email: String,
}

pub ghost struct RegisterRequestView {
    pub auth_provider: i32,
    pub username: Seq<char>,
    pub password: Seq<char>,
    pub email: Seq<char>,
}

impl View for RegisterRequest {
    type V = RegisterRequestView;

    open spec fn view(&self) -> RegisterRequestView {
        RegisterRequestView {
            auth_provider: self.auth_provider,
            username: self.username@,
            password: self.password@,
            email: self.email@,
        }
    }
}

/// The outcome of a successful registration.
#[derive(Debug)]
pub struct RegisterResponse {
    pub success: bool,
    pub message: String,
}

} // verus!
