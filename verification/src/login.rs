//! Logging in: to the active account, or to a new one.

use crate::account::active_account;
use crate::account::listed;
use crate::account::load_account_list;
use crate::account::only_active;
use crate::account::server_part;
use crate::account::Account;
use crate::account::AccountData;
use crate::account::SecureAccountData;
use crate::account::UserId;
use crate::files::is_credential;
use crate::files::AccountFile;
use crate::orphans::begun_sweep;
use crate::orphans::remove_orphaned_accounts;
use crate::orphans::sweep_step;
use crate::orphans::RemoveOrphanedAccounts;
use crate::orphans::Sweeping;
use crate::request::AccountError;
use crate::request::Progress;
use crate::request::Reply;
use crate::request::Request;
use crate::save::begun_creation;
use crate::save::save_new_account;
use crate::save::Saving;
use crate::session::session_of;
use crate::session::AuthSession;
use crate::vault::generate_account_credentials;
use crate::vault::opens;
use crate::vault::unseal;
use crate::vault::OpenError;
use vstd::prelude::*;
use vstd::string::*;

verus! {

/// A thing that a login asks for.
#[derive(Debug, PartialEq, Eq)]
pub enum LoginRequest {
    /// Something of the disk, the keyring or the file format. Answered by `Storage`.
    Storage(Request),
    /// See to it that the account folder exists. Answered by `Done`.
    CreateFolder,
    /// Build a client for the homeserver `server` that has its store in the folder of the account
    /// kept under `id`, encrypted with `passphrase`. Answered by `Done`.
    BuildClient { server: String, id: String, passphrase: String },
    /// Have the client restore a session. Answered by `Done`.
    RestoreSession(AuthSession),
    /// Log the client in. Answered by `LoggedIn`.
    LogIn(LoginMethod),
}

/// How to log in to a new account.
#[derive(Debug, PartialEq, Eq)]
pub enum LoginMethod {
    Username { username: String, password: String },
    /// Through the user's browser.
    Sso,
}

/// What a homeserver answers to a login.
#[derive(Debug, PartialEq, Eq)]
pub struct LoginResponse {
    pub user_id: UserId,
    pub access_token: String,
    pub refresh_token: Option<String>,
    pub device_id: String,
}

/// The answer to a request of a login.
#[derive(Debug)]
pub enum LoginReply<E> {
    Storage(Reply<E>),
    Done,
    LoggedIn(LoginResponse),
    Failed(E),
}

impl<E> LoginReply<E> {
    /// The failure that the reply means to a login that cannot go on with it.
    pub open spec fn failure(self) -> AccountError<E> {
        match self {
            LoginReply::Failed(error) => AccountError::Outside(error),
            LoginReply::Storage(reply) => reply.failure(),
            _ => AccountError::UnexpectedReply,
        }
    }

    pub fn into_failure(self) -> (error: AccountError<E>)
        ensures
            error == self.failure(),
    {
        match self {
            LoginReply::Failed(error) => AccountError::Outside(error),
            LoginReply::Storage(reply) => reply.into_failure(),
            _ => AccountError::UnexpectedReply,
        }
    }
}

/// What came of a login to the active account.
#[derive(Debug, PartialEq, Eq)]
pub enum LoginOutcome {
    /// The client has restored its session.
    LoggedIn,
    /// No account is active.
    NoActiveAccount,
}

/// How far a login to the active account has come.
#[derive(Debug, PartialEq, Eq)]
pub enum Login {
    /// First, what is left of other accounts is removed.
    Sweeping(RemoveOrphanedAccounts),
    ReadingAccounts,
    ReadingPassphrase { account: AccountData },
    ReadingSecureData { account: AccountData, passphrase: String },
    DecodingSecureData { account: AccountData, passphrase: String },
    BuildingClient { loaded: Account },
    RestoringSession,
}

/// A login to the active account, under way.
pub type LoggingIn<E> = Progress<Login, LoginRequest, Result<LoginOutcome, AccountError<E>>>;

/// Begins to log in to the active account.
pub fn login<E>() -> (out: LoggingIn<E>)
    ensures
        login_after_sweep(begun_sweep(), out),
{
    login_swept(remove_orphaned_accounts())
}

/// Goes on with the sweep, or, when it is over, with the login.
fn login_swept<E>(sweeping: Sweeping) -> (out: LoggingIn<E>)
    ensures
        login_after_sweep(sweeping, out),
{
    match sweeping {
        Progress::Ask { state, request } => Progress::Ask {
            state: Login::Sweeping(state),
            request: LoginRequest::Storage(request),
        },
        Progress::Finished(_) => Progress::Ask {
            state: Login::ReadingAccounts,
            request: LoginRequest::Storage(Request::ReadAccounts),
        },
    }
}

/// Whether `out` asks what the sweep asks, or, when it is over, for the list of accounts.
pub open spec fn login_after_sweep<E>(sweeping: Sweeping, out: LoggingIn<E>) -> bool {
    match sweeping {
        Progress::Ask { state, request } => out == LoggingIn::<E>::Ask {
            state: Login::Sweeping(state),
            request: LoginRequest::Storage(request),
        },
        Progress::Finished(_) => out == LoggingIn::<E>::Ask {
            state: Login::ReadingAccounts,
            request: LoginRequest::Storage(Request::ReadAccounts),
        },
    }
}

/// Goes on with the secure data decrypted.
pub fn login_opened<E>(
    account: AccountData,
    passphrase: String,
    opened: Result<Vec<u8>, OpenError>,
) -> (out: LoggingIn<E>)
    ensures
        out == opened_login::<E>(account, passphrase, opened),
{
    match opened {
        Ok(plaintext) => Progress::Ask {
            state: Login::DecodingSecureData { account, passphrase },
            request: LoginRequest::Storage(Request::DecodeSecureData(plaintext)),
        },
        Err(error) => Progress::Finished(Err(AccountError::Decrypt(error))),
    }
}

/// A login, with the secure data decrypted.
pub open spec fn opened_login<E>(
    account: AccountData,
    passphrase: String,
    opened: Result<Vec<u8>, OpenError>,
) -> LoggingIn<E> {
    match opened {
        Ok(plaintext) => Progress::Ask {
            state: Login::DecodingSecureData { account, passphrase },
            request: LoginRequest::Storage(Request::DecodeSecureData(plaintext)),
        },
        Err(error) => Progress::Finished(Err(AccountError::Decrypt(error))),
    }
}

/// Whether `out` is how a login goes on from `state` with `reply`.
pub open spec fn login_step<E>(state: Login, reply: LoginReply<E>, out: LoggingIn<E>) -> bool {
    let failed = LoggingIn::<E>::Finished(Err(reply.failure()));
    match state {
        Login::Sweeping(sweep) => match reply {
            LoginReply::Storage(reply) => exists|sweeping: Sweeping|
                sweep_step(sweep, reply, sweeping) && #[trigger] login_after_sweep(sweeping, out),
            _ => out == failed,
        },
        Login::ReadingAccounts => match reply {
            LoginReply::Storage(Reply::Accounts(found)) => if exists|at: int|
                only_active(listed(found), at) {
                &&& out matches Progress::Ask {
                    state: Login::ReadingPassphrase { account },
                    request,
                }
                &&& exists|at: int| #[trigger]
                    only_active(listed(found), at) && listed(found)[at] == account
                &&& request == LoginRequest::Storage(Request::ReadPassphrase(account.id))
            } else {
                out == LoggingIn::<E>::Finished(Ok(LoginOutcome::NoActiveAccount))
            },
            _ => out == failed,
        },
        Login::ReadingPassphrase { account } => match reply {
            LoginReply::Storage(Reply::Text(passphrase)) => out == LoggingIn::<E>::Ask {
                state: Login::ReadingSecureData { account, passphrase },
                request: LoginRequest::Storage(
                    Request::ReadFile(AccountFile::Secure(account.id)),
                ),
            },
            _ => out == failed,
        },
        Login::ReadingSecureData { account, passphrase } => match reply {
            LoginReply::Storage(Reply::Bytes(sealed)) => exists|
                opened: Result<Vec<u8>, OpenError>,
            |
                opens(sealed@, passphrase@, opened) && out == #[trigger] opened_login::<E>(
                    account,
                    passphrase,
                    opened,
                ),
            _ => out == failed,
        },
        Login::DecodingSecureData { account, passphrase } => match reply {
            LoginReply::Storage(Reply::SecureData(data)) => {
                &&& out matches Progress::Ask {
                    state: Login::BuildingClient { loaded },
                    request: LoginRequest::BuildClient { server, id, passphrase: passphrase_now },
                }
                &&& loaded == Account { data: account, secure_data: data }
                &&& account.user_id@.contains(':')
                &&& server@ == server_part(account.user_id@)
                &&& id == account.id
                &&& passphrase_now == passphrase
            },
            _ => out == failed,
        },
        Login::BuildingClient { loaded } => match reply {
            LoginReply::Done => out == LoggingIn::<E>::Ask {
                state: Login::RestoringSession,
                request: LoginRequest::RestoreSession(session_of(loaded)),
            },
            _ => out == failed,
        },
        Login::RestoringSession => match reply {
            LoginReply::Done => out == LoggingIn::<E>::Finished(Ok(LoginOutcome::LoggedIn)),
            _ => out == failed,
        },
    }
}

impl Login {
    /// Goes on with the answer to the last request.
    pub fn resume<E>(self, reply: LoginReply<E>) -> (out: LoggingIn<E>)
        ensures
            login_step(self, reply, out),
    {
        match self {
            Login::Sweeping(sweep) => match reply {
                LoginReply::Storage(reply) => login_swept(sweep.resume(reply)),
                reply => Progress::Finished(Err(reply.into_failure())),
            },
            Login::ReadingAccounts => match reply {
                LoginReply::Storage(Reply::Accounts(found)) => {
                    let list = load_account_list(found);
                    match active_account(list.accounts.as_slice()) {
                        Some(account) => {
                            let account = account.clone();
                            let request = Request::ReadPassphrase(account.id.clone());
                            Progress::Ask {
                                state: Login::ReadingPassphrase { account },
                                request: LoginRequest::Storage(request),
                            }
                        },
                        None => Progress::Finished(Ok(LoginOutcome::NoActiveAccount)),
                    }
                },
                reply => Progress::Finished(Err(reply.into_failure())),
            },
            Login::ReadingPassphrase { account } => match reply {
                LoginReply::Storage(Reply::Text(passphrase)) => {
                    let file = AccountFile::Secure(account.id.clone());
                    Progress::Ask {
                        state: Login::ReadingSecureData { account, passphrase },
                        request: LoginRequest::Storage(Request::ReadFile(file)),
                    }
                },
                reply => Progress::Finished(Err(reply.into_failure())),
            },
            Login::ReadingSecureData { account, passphrase } => match reply {
                LoginReply::Storage(Reply::Bytes(sealed)) => {
                    let opened = unseal(sealed.as_slice(), passphrase.as_str());
                    login_opened(account, passphrase, opened)
                },
                reply => Progress::Finished(Err(reply.into_failure())),
            },
            Login::DecodingSecureData { account, passphrase } => match reply {
                LoginReply::Storage(Reply::SecureData(secure_data)) => {
                    let server = account.user_id.server_name();
                    let id = account.id.clone();
                    Progress::Ask {
                        state: Login::BuildingClient {
                            loaded: Account { data: account, secure_data },
                        },
                        request: LoginRequest::BuildClient { server, id, passphrase },
                    }
                },
                reply => Progress::Finished(Err(reply.into_failure())),
            },
            Login::BuildingClient { loaded } => match reply {
                LoginReply::Done => Progress::Ask {
                    state: Login::RestoringSession,
                    request: LoginRequest::RestoreSession(AuthSession::from(loaded)),
                },
                reply => Progress::Finished(Err(reply.into_failure())),
            },
            Login::RestoringSession => match reply {
                LoginReply::Done => Progress::Finished(Ok(LoginOutcome::LoggedIn)),
                reply => Progress::Finished(Err(reply.into_failure())),
            },
        }
    }
}

/// How far a login to a new account has come.
#[derive(Debug, PartialEq, Eq)]
pub enum NewLogin {
    /// First, what is left of other accounts is removed.
    Sweeping { sweep: RemoveOrphanedAccounts, homeserver: String, method: LoginMethod },
    CreatingFolder { homeserver: String, method: LoginMethod, id: String, passphrase: String },
    BuildingClient { method: LoginMethod, id: String, passphrase: String },
    LoggingIn { id: String, passphrase: String },
}

/// A login to a new account, under way. In the end the client is logged in, and the account is
/// still to be kept.
pub type NewlyLoggingIn<E> = Progress<NewLogin, LoginRequest, Result<Saving<E>, AccountError<E>>>;

/// Begins to log in by username and password.
pub fn login_username<E>(homeserver: String, username: String, password: String) -> (out:
    NewlyLoggingIn<E>)
    ensures
        out == begun_username_login::<E>(homeserver, username, password),
{
    begin_login(homeserver, LoginMethod::Username { username, password })
}

/// Begins to log in through the user's browser.
pub fn login_sso<E>(homeserver: String) -> (out: NewlyLoggingIn<E>)
    ensures
        out == begun_sso_login::<E>(homeserver),
{
    begin_login(homeserver, LoginMethod::Sso)
}

fn begin_login<E>(homeserver: String, method: LoginMethod) -> (out: NewlyLoggingIn<E>)
    ensures
        out == begun_login::<E>(homeserver, method),
{
    Progress::Ask {
        state: NewLogin::Sweeping {
            sweep: RemoveOrphanedAccounts::ReadingAccounts,
            homeserver,
            method,
        },
        request: LoginRequest::Storage(Request::ReadAccounts),
    }
}

/// A login to a new account, at its begin: that of the sweep.
pub open spec fn begun_login<E>(homeserver: String, method: LoginMethod) -> NewlyLoggingIn<E> {
    Progress::Ask {
        state: NewLogin::Sweeping { sweep: begun_sweep()->state, homeserver, method },
        request: LoginRequest::Storage(begun_sweep()->request),
    }
}

/// A login by username and password, at its begin.
pub open spec fn begun_username_login<E>(
    homeserver: String,
    username: String,
    password: String,
) -> NewlyLoggingIn<E> {
    begun_login(homeserver, LoginMethod::Username { username, password })
}

/// A login through the user's browser, at its begin.
pub open spec fn begun_sso_login<E>(homeserver: String) -> NewlyLoggingIn<E> {
    begun_login(homeserver, LoginMethod::Sso)
}

/// Goes on with the id and the passphrase of the new account.
pub fn login_with_credentials<E>(
    homeserver: String,
    method: LoginMethod,
    credentials: (String, String),
) -> (out: NewlyLoggingIn<E>)
    ensures
        out == credentialed_login::<E>(homeserver, method, credentials),
{
    let (id, passphrase) = credentials;
    Progress::Ask {
        state: NewLogin::CreatingFolder { homeserver, method, id, passphrase },
        request: LoginRequest::CreateFolder,
    }
}

/// A login to a new account, with its id and its passphrase.
pub open spec fn credentialed_login<E>(
    homeserver: String,
    method: LoginMethod,
    credentials: (String, String),
) -> NewlyLoggingIn<E> {
    Progress::Ask {
        state: NewLogin::CreatingFolder {
            homeserver,
            method,
            id: credentials.0,
            passphrase: credentials.1,
        },
        request: LoginRequest::CreateFolder,
    }
}

/// Whether `out` asks what the sweep asks, or, when it is over, goes on with an id and a
/// passphrase, whichever were drawn.
pub open spec fn new_login_after_sweep<E>(
    sweeping: Sweeping,
    homeserver: String,
    method: LoginMethod,
    out: NewlyLoggingIn<E>,
) -> bool {
    match sweeping {
        Progress::Ask { state, request } => out == NewlyLoggingIn::<E>::Ask {
            state: NewLogin::Sweeping { sweep: state, homeserver, method },
            request: LoginRequest::Storage(request),
        },
        Progress::Finished(_) => exists|credentials: (String, String)|
            is_credential(credentials.0@) && is_credential(credentials.1@) && out
                == #[trigger] credentialed_login::<E>(homeserver, method, credentials),
    }
}

/// Whether `out` is how a login to a new account goes on from `state` with `reply`.
pub open spec fn new_login_step<E>(
    state: NewLogin,
    reply: LoginReply<E>,
    out: NewlyLoggingIn<E>,
) -> bool {
    let failed = NewlyLoggingIn::<E>::Finished(Err(reply.failure()));
    match state {
        NewLogin::Sweeping { sweep, homeserver, method } => match reply {
            LoginReply::Storage(reply) => exists|sweeping: Sweeping|
                sweep_step(sweep, reply, sweeping) && #[trigger] new_login_after_sweep(
                    sweeping,
                    homeserver,
                    method,
                    out,
                ),
            _ => out == failed,
        },
        NewLogin::CreatingFolder { homeserver, method, id, passphrase } => match reply {
            LoginReply::Done => out == NewlyLoggingIn::<E>::Ask {
                state: NewLogin::BuildingClient { method, id, passphrase },
                request: LoginRequest::BuildClient { server: homeserver, id, passphrase },
            },
            _ => out == failed,
        },
        NewLogin::BuildingClient { method, id, passphrase } => match reply {
            LoginReply::Done => out == NewlyLoggingIn::<E>::Ask {
                state: NewLogin::LoggingIn { id, passphrase },
                request: LoginRequest::LogIn(method),
            },
            _ => out == failed,
        },
        NewLogin::LoggingIn { id, passphrase } => match reply {
            LoginReply::LoggedIn(response) => out == NewlyLoggingIn::<E>::Finished(
                Ok(
                    begun_creation::<E>(
                        id,
                        response.user_id,
                        SecureAccountData {
                            access_token: response.access_token,
                            refresh_token: response.refresh_token,
                            device_id: response.device_id,
                            client_id: None,
                            expiration: None,
                        },
                        passphrase,
                    ),
                ),
            ),
            _ => out == failed,
        },
    }
}

impl NewLogin {
    /// Goes on with the answer to the last request.
    pub fn resume<E>(self, reply: LoginReply<E>) -> (out: NewlyLoggingIn<E>)
        ensures
            new_login_step(self, reply, out),
    {
        match self {
            NewLogin::Sweeping { sweep, homeserver, method } => match reply {
                LoginReply::Storage(reply) => {
                    let sweeping = sweep.resume(reply);
                    let ghost swept = sweeping;
                    let out = match sweeping {
                        Progress::Ask { state, request } => Progress::Ask {
                            state: NewLogin::Sweeping { sweep: state, homeserver, method },
                            request: LoginRequest::Storage(request),
                        },
                        Progress::Finished(_) => login_with_credentials(
                            homeserver,
                            method,
                            generate_account_credentials(),
                        ),
                    };
                    assert(new_login_after_sweep(swept, homeserver, method, out));
                    out
                },
                reply => Progress::Finished(Err(reply.into_failure())),
            },
            NewLogin::CreatingFolder { homeserver, method, id, passphrase } => match reply {
                LoginReply::Done => {
                    let request = LoginRequest::BuildClient {
                        server: homeserver,
                        id: id.clone(),
                        passphrase: passphrase.clone(),
                    };
                    Progress::Ask {
                        state: NewLogin::BuildingClient { method, id, passphrase },
                        request,
                    }
                },
                reply => Progress::Finished(Err(reply.into_failure())),
            },
            NewLogin::BuildingClient { method, id, passphrase } => match reply {
                LoginReply::Done => Progress::Ask {
                    state: NewLogin::LoggingIn { id, passphrase },
                    request: LoginRequest::LogIn(method),
                },
                reply => Progress::Finished(Err(reply.into_failure())),
            },
            NewLogin::LoggingIn { id, passphrase } => match reply {
                LoginReply::LoggedIn(response) => {
                    let secure_data = SecureAccountData::new(
                        response.access_token,
                        response.refresh_token,
                        response.device_id,
                        None,
                    );
                    Progress::Finished(
                        Ok(save_new_account(id, response.user_id, secure_data, passphrase)),
                    )
                },
                reply => Progress::Finished(Err(reply.into_failure())),
            },
        }
    }
}

/// The words for a user who is to log in at `url`.
pub open spec fn sso_words(url: Seq<char>, opened: bool) -> Seq<char> {
    if opened {
        "Go to the opened website to authenticate"@
    } else {
        "Navigate to "@ + url + " in a browser of choice"@
    }
}

/// What to tell a user who is to log in at `url`: whether their browser shows it, or they have to
/// go there themselves.
pub fn sso_message(url: &str, opened: bool) -> (message: String)
    ensures
        message@ == sso_words(url@, opened),
{
    if opened {
        "Go to the opened website to authenticate".to_owned()
    } else {
        "Navigate to ".to_owned().concat(url).concat(" in a browser of choice")
    }
}

} // verus!
