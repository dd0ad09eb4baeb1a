//! Keeping the tokens of an account, and when they expire, up to date.

use crate::account::first_of_user;
use crate::account::has_user;
use crate::account::listed;
use crate::account::load_account_list;
use crate::account::with_tokens;
use crate::account::AccountData;
use crate::files::AccountFile;
use crate::request::AccountError;
use crate::request::Progress;
use crate::request::Reply;
use crate::request::Request;
use crate::vault::opens;
use crate::vault::seal;
use crate::vault::seals;
use crate::vault::unseal;
use crate::vault::OpenError;
use vstd::prelude::*;

verus! {

/// The tokens and the expiration to put in the place of those kept; `None` leaves one as it is.
#[derive(Debug, PartialEq, Eq)]
pub struct TokenUpdate {
    pub access_token: Option<String>,
    pub refresh_token: Option<Option<String>>,
    pub expiration: Option<Option<u64>>,
}

/// How far an update has come.
#[derive(Debug, PartialEq, Eq)]
pub enum UpdateAccountConfig {
    ReadingAccounts { user_id: String, update: TokenUpdate },
    ReadingPassphrase { id: String, update: TokenUpdate },
    ReadingSecureData { id: String, passphrase: String, update: TokenUpdate },
    DecodingSecureData { id: String, passphrase: String, update: TokenUpdate },
    EncodingSecureData { id: String, passphrase: String },
    WritingSecureData { id: String },
    RenamingSecureData,
}

/// An update, under way.
pub type Updating<E> = Progress<UpdateAccountConfig, Request, Result<(), AccountError<E>>>;

/// Begins to replace tokens, and their expiration, of the account of `user_id`.
pub fn update_account_config<E>(
    user_id: String,
    access_token: Option<String>,
    refresh_token: Option<Option<String>>,
    expiration: Option<Option<u64>>,
) -> (out: Updating<E>)
    ensures
        out == begun_token_update::<E>(user_id, access_token, refresh_token, expiration),
{
    Progress::Ask {
        state: UpdateAccountConfig::ReadingAccounts {
            user_id,
            update: TokenUpdate { access_token, refresh_token, expiration },
        },
        request: Request::ReadAccounts,
    }
}

/// An update of the tokens and the expiration that are given, at its begin.
pub open spec fn begun_token_update<E>(
    user_id: String,
    access_token: Option<String>,
    refresh_token: Option<Option<String>>,
    expiration: Option<Option<u64>>,
) -> Updating<E> {
    begun_update(user_id, TokenUpdate { access_token, refresh_token, expiration })
}

/// An update, at its begin.
pub open spec fn begun_update<E>(user_id: String, update: TokenUpdate) -> Updating<E> {
    Progress::Ask {
        state: UpdateAccountConfig::ReadingAccounts { user_id, update },
        request: Request::ReadAccounts,
    }
}

/// Whether `id` is the one under which the first account of `user` is kept.
pub open spec fn kept_under(accounts: Seq<AccountData>, user: Seq<char>, id: String) -> bool {
    exists|at: int| #[trigger] first_of_user(accounts, user, at) && accounts[at].id == id
}

/// Goes on with the secure data decrypted.
pub fn update_opened<E>(
    id: String,
    passphrase: String,
    update: TokenUpdate,
    opened: Result<Vec<u8>, OpenError>,
) -> (out: Updating<E>)
    ensures
        out == opened_update::<E>(id, passphrase, update, opened),
{
    match opened {
        Ok(plaintext) => Progress::Ask {
            state: UpdateAccountConfig::DecodingSecureData { id, passphrase, update },
            request: Request::DecodeSecureData(plaintext),
        },
        Err(error) => Progress::Finished(Err(AccountError::Decrypt(error))),
    }
}

/// An update, with the secure data decrypted.
pub open spec fn opened_update<E>(
    id: String,
    passphrase: String,
    update: TokenUpdate,
    opened: Result<Vec<u8>, OpenError>,
) -> Updating<E> {
    match opened {
        Ok(plaintext) => Progress::Ask {
            state: UpdateAccountConfig::DecodingSecureData { id, passphrase, update },
            request: Request::DecodeSecureData(plaintext),
        },
        Err(error) => Progress::Finished(Err(AccountError::Decrypt(error))),
    }
}

/// Goes on with the new secure data encrypted.
pub fn update_sealed<E>(
    id: String,
    sealed: Result<Vec<u8>, age::EncryptError>,
) -> (out: Updating<E>)
    ensures
        out == sealed_update::<E>(id, sealed),
{
    match sealed {
        Ok(sealed) => {
            let file = AccountFile::SecureTemp(id.clone());
            Progress::Ask {
                state: UpdateAccountConfig::WritingSecureData { id },
                request: Request::WriteFile(file, sealed),
            }
        },
        Err(error) => Progress::Finished(Err(AccountError::Encrypt(error))),
    }
}

/// An update, with the new secure data encrypted.
pub open spec fn sealed_update<E>(
    id: String,
    sealed: Result<Vec<u8>, age::EncryptError>,
) -> Updating<E> {
    match sealed {
        Ok(sealed) => Progress::Ask {
            state: UpdateAccountConfig::WritingSecureData { id },
            request: Request::WriteFile(AccountFile::SecureTemp(id), sealed),
        },
        Err(error) => Progress::Finished(Err(AccountError::Encrypt(error))),
    }
}

/// Whether `out` is how an update goes on from `state` with `reply`.
pub open spec fn update_step<E>(
    state: UpdateAccountConfig,
    reply: Reply<E>,
    out: Updating<E>,
) -> bool {
    let failed = Updating::<E>::Finished(Err(reply.failure()));
    match state {
        UpdateAccountConfig::ReadingAccounts { user_id, update } => match reply {
            Reply::Accounts(found) => if has_user(listed(found), user_id@) {
                &&& out matches Progress::Ask {
                    state: UpdateAccountConfig::ReadingPassphrase { id, update: update_now },
                    request,
                }
                &&& kept_under(listed(found), user_id@, id)
                &&& update_now == update
                &&& request == Request::ReadPassphrase(id)
            } else {
                out == Updating::<E>::Finished(Err(AccountError::UserNotFound(user_id)))
            },
            _ => out == failed,
        },
        UpdateAccountConfig::ReadingPassphrase { id, update } => match reply {
            Reply::Text(passphrase) => out == Updating::<E>::Ask {
                state: UpdateAccountConfig::ReadingSecureData { id, passphrase, update },
                request: Request::ReadFile(AccountFile::Secure(id)),
            },
            _ => out == failed,
        },
        UpdateAccountConfig::ReadingSecureData { id, passphrase, update } => match reply {
            Reply::Bytes(sealed) => exists|opened: Result<Vec<u8>, OpenError>|
                opens(sealed@, passphrase@, opened) && out == #[trigger] opened_update::<E>(
                    id,
                    passphrase,
                    update,
                    opened,
                ),
            _ => out == failed,
        },
        UpdateAccountConfig::DecodingSecureData { id, passphrase, update } => match reply {
            Reply::SecureData(data) => out == Updating::<E>::Ask {
                state: UpdateAccountConfig::EncodingSecureData { id, passphrase },
                request: Request::EncodeSecureData(
                    with_tokens(
                        data,
                        update.access_token,
                        update.refresh_token,
                        update.expiration,
                    ),
                ),
            },
            _ => out == failed,
        },
        UpdateAccountConfig::EncodingSecureData { id, passphrase } => match reply {
            Reply::Bytes(plaintext) => exists|sealed: Result<Vec<u8>, age::EncryptError>|
                seals(plaintext@, passphrase@, sealed) && out == #[trigger] sealed_update::<E>(
                    id,
                    sealed,
                ),
            _ => out == failed,
        },
        UpdateAccountConfig::WritingSecureData { id } => match reply {
            Reply::Done => out == Updating::<E>::Ask {
                state: UpdateAccountConfig::RenamingSecureData,
                request: Request::Rename(AccountFile::SecureTemp(id), AccountFile::Secure(id)),
            },
            _ => out == failed,
        },
        UpdateAccountConfig::RenamingSecureData => match reply {
            Reply::Done => out == Updating::<E>::Finished(Ok(())),
            _ => out == failed,
        },
    }
}

impl UpdateAccountConfig {
    /// Goes on with the answer to the last request.
    pub fn resume<E>(self, reply: Reply<E>) -> (out: Updating<E>)
        ensures
            update_step(self, reply, out),
    {
        match self {
            UpdateAccountConfig::ReadingAccounts { user_id, update } => match reply {
                Reply::Accounts(found) => {
                    let list = load_account_list(found);
                    match list.position_of(user_id.as_str()) {
                        Some(at) => {
                            let id = list.accounts[at].id.clone();
                            assert(first_of_user(list@, user_id@, at as int));
                            assert(has_user(list@, user_id@));
                            let request = Request::ReadPassphrase(id.clone());
                            Progress::Ask {
                                state: UpdateAccountConfig::ReadingPassphrase { id, update },
                                request,
                            }
                        },
                        None => Progress::Finished(Err(AccountError::UserNotFound(user_id))),
                    }
                },
                reply => Progress::Finished(Err(reply.into_failure())),
            },
            UpdateAccountConfig::ReadingPassphrase { id, update } => match reply {
                Reply::Text(passphrase) => {
                    let request = Request::ReadFile(AccountFile::Secure(id.clone()));
                    Progress::Ask {
                        state: UpdateAccountConfig::ReadingSecureData { id, passphrase, update },
                        request,
                    }
                },
                reply => Progress::Finished(Err(reply.into_failure())),
            },
            UpdateAccountConfig::ReadingSecureData { id, passphrase, update } => match reply {
                Reply::Bytes(sealed) => {
                    let opened = unseal(sealed.as_slice(), passphrase.as_str());
                    update_opened(id, passphrase, update, opened)
                },
                reply => Progress::Finished(Err(reply.into_failure())),
            },
            UpdateAccountConfig::DecodingSecureData { id, passphrase, update } => match reply {
                Reply::SecureData(mut data) => {
                    data.replace_tokens(
                        update.access_token,
                        update.refresh_token,
                        update.expiration,
                    );
                    Progress::Ask {
                        state: UpdateAccountConfig::EncodingSecureData { id, passphrase },
                        request: Request::EncodeSecureData(data),
                    }
                },
                reply => Progress::Finished(Err(reply.into_failure())),
            },
            UpdateAccountConfig::EncodingSecureData { id, passphrase } => match reply {
                Reply::Bytes(plaintext) => {
                    let sealed = seal(plaintext.as_slice(), passphrase.as_str());
                    update_sealed(id, sealed)
                },
                reply => Progress::Finished(Err(reply.into_failure())),
            },
            UpdateAccountConfig::WritingSecureData { id } => match reply {
                Reply::Done => {
                    let from = AccountFile::SecureTemp(id.clone());
                    let to = AccountFile::Secure(id);
                    Progress::Ask {
                        state: UpdateAccountConfig::RenamingSecureData,
                        request: Request::Rename(from, to),
                    }
                },
                reply => Progress::Finished(Err(reply.into_failure())),
            },
            UpdateAccountConfig::RenamingSecureData => match reply {
                Reply::Done => Progress::Finished(Ok(())),
                reply => Progress::Finished(Err(reply.into_failure())),
            },
        }
    }
}

} // verus!
