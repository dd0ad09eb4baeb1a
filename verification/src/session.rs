//! The session that an account restores.

use crate::account::Account;
use crate::account::UserId;
use vstd::prelude::*;

verus! {

/// Whose session it is, and on which device.
#[derive(Debug, PartialEq, Eq)]
pub struct SessionMeta {
    pub user_id: UserId,
    pub device_id: String,
}

/// The tokens of a session.
#[derive(Debug, PartialEq, Eq)]
pub struct SessionTokens {
    pub access_token: String,
    pub refresh_token: Option<String>,
}

/// A session of the native Matrix authentication.
#[derive(Debug, PartialEq, Eq)]
pub struct MatrixSession {
    pub meta: SessionMeta,
    pub tokens: SessionTokens,
}

/// The user's part of an OAuth session.
#[derive(Debug, PartialEq, Eq)]
pub struct UserSession {
    pub meta: SessionMeta,
    pub tokens: SessionTokens,
}

/// A session of the OAuth authentication.
#[derive(Debug, PartialEq, Eq)]
pub struct OAuthSession {
    pub client_id: String,
    pub user: UserSession,
}

/// A session of either authentication.
#[derive(Debug, PartialEq, Eq)]
pub enum AuthSession {
    Matrix(MatrixSession),
    OAuth(OAuthSession),
}

/// The session of an account: of OAuth where the account has a client id, else a native one.
pub open spec fn session_of(account: Account) -> AuthSession {
    let meta = SessionMeta {
        user_id: account.data.user_id,
        device_id: account.secure_data.device_id,
    };
    let tokens = SessionTokens {
        access_token: account.secure_data.access_token,
        refresh_token: account.secure_data.refresh_token,
    };
    match account.secure_data.client_id {
        Some(client_id) => AuthSession::OAuth(
            OAuthSession { client_id, user: UserSession { meta, tokens } },
        ),
        None => AuthSession::Matrix(MatrixSession { meta, tokens }),
    }
}

impl From<Account> for AuthSession {
    fn from(account: Account) -> (session: AuthSession) {
        let meta = SessionMeta {
            user_id: account.data.user_id,
            device_id: account.secure_data.device_id,
        };
        let tokens = SessionTokens {
            access_token: account.secure_data.access_token,
            refresh_token: account.secure_data.refresh_token,
        };
        match account.secure_data.client_id {
            Some(client_id) => AuthSession::OAuth(
                OAuthSession { client_id, user: UserSession { meta, tokens } },
            ),
            None => AuthSession::Matrix(MatrixSession { meta, tokens }),
        }
    }
}

impl vstd::std_specs::convert::FromSpecImpl<Account> for AuthSession {
    open spec fn obeys_from_spec() -> bool {
        true
    }

    open spec fn from_spec(account: Account) -> AuthSession {
        session_of(account)
    }
}

} // verus!
