//! Giving up an account.

use crate::account::has_user;
use crate::account::first_of_user;
use crate::account::listed;
use crate::account::load_account_list;
use crate::account::without_id;
use crate::account::AccountList;
use crate::files::AccountFile;
use crate::request::Progress;
use crate::request::Reply;
use crate::request::Request;
use crate::update::kept_under;
use vstd::prelude::*;

verus! {

/// How far the removal of an account has come.
#[derive(Debug, PartialEq, Eq)]
pub enum RemoveAccountConfig {
    ReadingAccounts { user_id: String },
    LookingForStore { id: String, accounts: AccountList },
    LookingForSecureData { id: String, accounts: AccountList },
    OpeningKeyring { id: String, accounts: AccountList },
    RemovingStore { id: String, accounts: AccountList },
    RemovingSecureData { id: String, accounts: AccountList },
    DeletingPassphrase { id: String, accounts: AccountList },
    EncodingAccounts,
    WritingAccounts,
}

/// The removal of an account, under way.
pub type Removing = Progress<RemoveAccountConfig, Request, ()>;

/// Begins to remove the account of `user_id`, with all that is kept of it.
///
/// Nothing is removed where not all of it is there; what fails of the removal itself is passed
/// over.
pub fn remove_account_config(user_id: String) -> (out: Removing)
    ensures
        out == begun_removal(user_id),
{
    Progress::Ask {
        state: RemoveAccountConfig::ReadingAccounts { user_id },
        request: Request::ReadAccounts,
    }
}

/// The removal of an account, at its begin.
pub open spec fn begun_removal(user_id: String) -> Removing {
    Progress::Ask {
        state: RemoveAccountConfig::ReadingAccounts { user_id },
        request: Request::ReadAccounts,
    }
}

/// Whether `out` is how the removal of an account goes on from `state` with `reply`.
pub open spec fn remove_step<E>(
    state: RemoveAccountConfig,
    reply: Reply<E>,
    out: Removing,
) -> bool {
    let stopped = Removing::Finished(());
    match state {
        RemoveAccountConfig::ReadingAccounts { user_id } => match reply {
            Reply::Accounts(found) => if has_user(listed(found), user_id@) {
                &&& out matches Progress::Ask {
                    state: RemoveAccountConfig::LookingForStore { id, accounts },
                    request,
                }
                &&& kept_under(listed(found), user_id@, id)
                &&& accounts@ == listed(found)
                &&& request == Request::LookFor(AccountFile::Store(id))
            } else {
                out == stopped
            },
            _ => out == stopped,
        },
        RemoveAccountConfig::LookingForStore { id, accounts } => match reply {
            Reply::Exists(true) => out == Removing::Ask {
                state: RemoveAccountConfig::LookingForSecureData { id, accounts },
                request: Request::LookFor(AccountFile::Secure(id)),
            },
            _ => out == stopped,
        },
        RemoveAccountConfig::LookingForSecureData { id, accounts } => match reply {
            Reply::Exists(true) => out == Removing::Ask {
                state: RemoveAccountConfig::OpeningKeyring { id, accounts },
                request: Request::OpenKeyring(id),
            },
            _ => out == stopped,
        },
        RemoveAccountConfig::OpeningKeyring { id, accounts } => match reply {
            Reply::Done => out == Removing::Ask {
                state: RemoveAccountConfig::RemovingStore { id, accounts },
                request: Request::RemoveFolder(AccountFile::Store(id)),
            },
            _ => out == stopped,
        },
        RemoveAccountConfig::RemovingStore { id, accounts } => out == Removing::Ask {
            state: RemoveAccountConfig::RemovingSecureData { id, accounts },
            request: Request::RemoveFile(AccountFile::Secure(id)),
        },
        RemoveAccountConfig::RemovingSecureData { id, accounts } => out == Removing::Ask {
            state: RemoveAccountConfig::DeletingPassphrase { id, accounts },
            request: Request::DeletePassphrase(id),
        },
        RemoveAccountConfig::DeletingPassphrase { id, accounts } => {
            &&& out matches Progress::Ask {
                state: RemoveAccountConfig::EncodingAccounts,
                request: Request::EncodeAccounts(list),
            }
            &&& list@ == without_id(accounts@, id@)
        },
        RemoveAccountConfig::EncodingAccounts => match reply {
            Reply::Bytes(users) => out == Removing::Ask {
                state: RemoveAccountConfig::WritingAccounts,
                request: Request::WriteFile(AccountFile::Users, users),
            },
            _ => out == stopped,
        },
        RemoveAccountConfig::WritingAccounts => out == stopped,
    }
}

impl RemoveAccountConfig {
    /// Goes on with the answer to the last request.
    pub fn resume<E>(self, reply: Reply<E>) -> (out: Removing)
        ensures
            remove_step(self, reply, out),
    {
        match self {
            RemoveAccountConfig::ReadingAccounts { user_id } => match reply {
                Reply::Accounts(found) => {
                    let accounts = load_account_list(found);
                    match accounts.position_of(user_id.as_str()) {
                        Some(at) => {
                            let id = accounts.accounts[at].id.clone();
                            assert(first_of_user(accounts@, user_id@, at as int));
                            assert(has_user(accounts@, user_id@));
                            let request = Request::LookFor(AccountFile::Store(id.clone()));
                            Progress::Ask {
                                state: RemoveAccountConfig::LookingForStore { id, accounts },
                                request,
                            }
                        },
                        None => Progress::Finished(()),
                    }
                },
                _ => Progress::Finished(()),
            },
            RemoveAccountConfig::LookingForStore { id, accounts } => match reply {
                Reply::Exists(true) => {
                    let request = Request::LookFor(AccountFile::Secure(id.clone()));
                    Progress::Ask {
                        state: RemoveAccountConfig::LookingForSecureData { id, accounts },
                        request,
                    }
                },
                _ => Progress::Finished(()),
            },
            RemoveAccountConfig::LookingForSecureData { id, accounts } => match reply {
                Reply::Exists(true) => {
                    let request = Request::OpenKeyring(id.clone());
                    Progress::Ask {
                        state: RemoveAccountConfig::OpeningKeyring { id, accounts },
                        request,
                    }
                },
                _ => Progress::Finished(()),
            },
            RemoveAccountConfig::OpeningKeyring { id, accounts } => match reply {
                Reply::Done => {
                    let request = Request::RemoveFolder(AccountFile::Store(id.clone()));
                    Progress::Ask {
                        state: RemoveAccountConfig::RemovingStore { id, accounts },
                        request,
                    }
                },
                _ => Progress::Finished(()),
            },
            RemoveAccountConfig::RemovingStore { id, accounts } => {
                let request = Request::RemoveFile(AccountFile::Secure(id.clone()));
                Progress::Ask {
                    state: RemoveAccountConfig::RemovingSecureData { id, accounts },
                    request,
                }
            },
            RemoveAccountConfig::RemovingSecureData { id, accounts } => {
                let request = Request::DeletePassphrase(id.clone());
                Progress::Ask {
                    state: RemoveAccountConfig::DeletingPassphrase { id, accounts },
                    request,
                }
            },
            RemoveAccountConfig::DeletingPassphrase { id, mut accounts } => {
                accounts.remove_id(id.as_str());
                Progress::Ask {
                    state: RemoveAccountConfig::EncodingAccounts,
                    request: Request::EncodeAccounts(accounts),
                }
            },
            RemoveAccountConfig::EncodingAccounts => match reply {
                Reply::Bytes(users) => Progress::Ask {
                    state: RemoveAccountConfig::WritingAccounts,
                    request: Request::WriteFile(AccountFile::Users, users),
                },
                _ => Progress::Finished(()),
            },
            RemoveAccountConfig::WritingAccounts => Progress::Finished(()),
        }
    }
}

} // verus!
