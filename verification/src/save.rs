//! Keeping a new account: its secure data, its place in the list and its passphrase, or, where
//! one of them fails, nothing of it.

use crate::account::added_to;
use crate::account::listed;
use crate::account::load_account_list;
use crate::account::AccountData;
use crate::account::AccountList;
use crate::account::SecureAccountData;
use crate::account::UserId;
use crate::files::AccountFile;
use crate::request::AccountError;
use crate::request::Progress;
use crate::request::Reply;
use crate::request::Request;
use crate::vault::seal;
use crate::vault::seals;
use vstd::prelude::*;

verus! {

/// What has to be cleaned up where the creation of an account fails.
#[derive(Debug, PartialEq, Eq)]
pub struct AccountCreationGuard {
    /// The id under which the account is to be kept.
    pub id: String,
    pub backup_created: bool,
    pub keyring_created: bool,
    pub committed: bool,
}

impl AccountCreationGuard {
    pub fn new(id: String) -> (guard: AccountCreationGuard)
        ensures
            guard == (AccountCreationGuard {
                id,
                backup_created: false,
                keyring_created: false,
                committed: false,
            }),
    {
        AccountCreationGuard {
            id,
            backup_created: false,
            keyring_created: false,
            committed: false,
        }
    }

    /// Keeps what was created.
    pub fn commit(&mut self)
        ensures
            *final(self) == (AccountCreationGuard { committed: true, ..*old(self) }),
    {
        self.committed = true;
    }

    /// What is left to do at the end: the temporary files always go; all else of the account
    /// goes, and the list of accounts comes back, unless the creation was committed.
    pub open spec fn cleanup_requests(&self) -> Seq<Request> {
        let temporary = seq![
            Request::RemoveFile(AccountFile::SecureTemp(self.id)),
            Request::RemoveFile(AccountFile::UsersTemp),
            Request::RemoveFile(AccountFile::BackupTemp),
        ];
        let created = seq![
            Request::RemoveFile(AccountFile::Secure(self.id)),
            Request::RemoveFolder(AccountFile::Store(self.id)),
        ];
        let list = if self.backup_created {
            seq![Request::Rename(AccountFile::Backup, AccountFile::Users)]
        } else {
            seq![]
        };
        let passphrase = if self.keyring_created {
            seq![Request::DeletePassphrase(self.id)]
        } else {
            seq![]
        };
        if self.committed {
            temporary
        } else {
            temporary + created + list + passphrase
        }
    }

    pub fn cleanup(&self) -> (requests: Vec<Request>)
        ensures
            requests@ == self.cleanup_requests(),
    {
        let mut requests: Vec<Request> = Vec::new();
        requests.push(Request::RemoveFile(AccountFile::SecureTemp(self.id.clone())));
        requests.push(Request::RemoveFile(AccountFile::UsersTemp));
        requests.push(Request::RemoveFile(AccountFile::BackupTemp));
        if !self.committed {
            requests.push(Request::RemoveFile(AccountFile::Secure(self.id.clone())));
            requests.push(Request::RemoveFolder(AccountFile::Store(self.id.clone())));
            if self.backup_created {
                requests.push(Request::Rename(AccountFile::Backup, AccountFile::Users));
            }
            if self.keyring_created {
                requests.push(Request::DeletePassphrase(self.id.clone()));
            }
        }
        assert(requests@ =~= self.cleanup_requests());
        requests
    }
}

/// The account that is being created.
#[derive(Debug, PartialEq, Eq)]
pub struct NewAccount {
    /// Its entry in the list of accounts.
    pub data: AccountData,
    pub passphrase: String,
}

/// How far the creation of an account has come.
#[derive(Debug)]
pub enum SaveNewAccount<E> {
    EncodingSecureData { new: NewAccount },
    OpeningKeyring { new: NewAccount, sealed: Vec<u8> },
    ReadingAccounts { new: NewAccount, guard: AccountCreationGuard, sealed: Vec<u8> },
    EncodingBackup {
        new: NewAccount,
        guard: AccountCreationGuard,
        sealed: Vec<u8>,
        accounts: AccountList,
    },
    WritingBackup {
        new: NewAccount,
        guard: AccountCreationGuard,
        sealed: Vec<u8>,
        accounts: AccountList,
    },
    RenamingBackup {
        new: NewAccount,
        guard: AccountCreationGuard,
        sealed: Vec<u8>,
        accounts: AccountList,
    },
    EncodingAccounts { new: NewAccount, guard: AccountCreationGuard, sealed: Vec<u8> },
    WritingSecureData { new: NewAccount, guard: AccountCreationGuard, users: Vec<u8> },
    RenamingSecureData { new: NewAccount, guard: AccountCreationGuard, users: Vec<u8> },
    WritingUsers { new: NewAccount, guard: AccountCreationGuard },
    RenamingUsers { new: NewAccount, guard: AccountCreationGuard },
    StoringPassphrase { guard: AccountCreationGuard },
    RemovingBackup { guard: AccountCreationGuard },
    CleaningUp {
        guard: AccountCreationGuard,
        pending: Vec<Request>,
        outcome: Result<(), AccountError<E>>,
    },
}

/// The creation of an account, under way.
pub type Saving<E> = Progress<SaveNewAccount<E>, Request, Result<(), AccountError<E>>>;

/// Begins to keep a new account, which becomes the only active one.
pub fn save_new_account<E>(
    id: String,
    user_id: UserId,
    secure_data: SecureAccountData,
    encryption_passphrase: String,
) -> (out: Saving<E>)
    ensures
        out == begun_creation::<E>(id, user_id, secure_data, encryption_passphrase),
{
    let data = AccountData { id, user_id, active: true };
    let new = NewAccount { data, passphrase: encryption_passphrase };
    Progress::Ask {
        state: SaveNewAccount::EncodingSecureData { new },
        request: Request::EncodeSecureData(secure_data),
    }
}

/// The creation of the account of `user_id` as the active one, at its begin.
pub open spec fn begun_creation<E>(
    id: String,
    user_id: UserId,
    secure_data: SecureAccountData,
    encryption_passphrase: String,
) -> Saving<E> {
    begun_save(
        NewAccount {
            data: AccountData { id, user_id, active: true },
            passphrase: encryption_passphrase,
        },
        secure_data,
    )
}

/// The creation of an account, at its begin.
pub open spec fn begun_save<E>(new: NewAccount, secure_data: SecureAccountData) -> Saving<E> {
    Progress::Ask {
        state: SaveNewAccount::EncodingSecureData { new },
        request: Request::EncodeSecureData(secure_data),
    }
}

/// Goes on with the secure data encrypted.
pub fn save_sealed<E>(
    new: NewAccount,
    sealed: Result<Vec<u8>, age::EncryptError>,
) -> (out: Saving<E>)
    ensures
        out == sealed_save::<E>(new, sealed),
{
    match sealed {
        Ok(sealed) => {
            let id = new.data.id.clone();
            Progress::Ask {
                state: SaveNewAccount::OpeningKeyring { new, sealed },
                request: Request::OpenKeyring(id),
            }
        },
        Err(error) => Progress::Finished(Err(AccountError::Encrypt(error))),
    }
}

/// The creation of an account, with its secure data encrypted.
pub open spec fn sealed_save<E>(
    new: NewAccount,
    sealed: Result<Vec<u8>, age::EncryptError>,
) -> Saving<E> {
    match sealed {
        Ok(sealed) => Progress::Ask {
            state: SaveNewAccount::OpeningKeyring { new, sealed },
            request: Request::OpenKeyring(new.data.id),
        },
        Err(error) => Progress::Finished(Err(AccountError::Encrypt(error))),
    }
}

/// Ends the creation of an account: what `guard` holds ready is done, and then `outcome` is it.
pub fn clean_up<E>(
    guard: AccountCreationGuard,
    outcome: Result<(), AccountError<E>>,
) -> (out: Saving<E>)
    ensures
        cleans_up(guard, outcome, out),
{
    let mut pending = guard.cleanup();
    let request = pending.remove(0);
    assert(seq![request] + pending@ =~= guard.cleanup_requests());
    Progress::Ask { state: SaveNewAccount::CleaningUp { guard, pending, outcome }, request }
}

/// Whether `out` is the first request of the clean-up, with the others still to come.
pub open spec fn cleans_up<E>(
    guard: AccountCreationGuard,
    outcome: Result<(), AccountError<E>>,
    out: Saving<E>,
) -> bool {
    &&& out matches Progress::Ask {
        state: SaveNewAccount::CleaningUp { guard: guard_now, pending, outcome: outcome_now },
        request,
    }
    &&& seq![request] + pending@ == guard.cleanup_requests()
    &&& guard_now == guard
    &&& outcome_now == outcome
}

/// Whether `out` is how the creation of an account goes on from `state` with `reply`.
pub open spec fn save_step<E>(state: SaveNewAccount<E>, reply: Reply<E>, out: Saving<E>) -> bool {
    match state {
        SaveNewAccount::EncodingSecureData { new } => match reply {
            Reply::Bytes(plaintext) => exists|sealed: Result<Vec<u8>, age::EncryptError>|
                seals(plaintext@, new.passphrase@, sealed) && out == #[trigger] sealed_save::<E>(
                    new,
                    sealed,
                ),
            _ => out == Saving::<E>::Finished(Err(reply.failure())),
        },
        SaveNewAccount::OpeningKeyring { new, sealed } => match reply {
            Reply::Done => out == Saving::<E>::Ask {
                state: SaveNewAccount::ReadingAccounts {
                    new,
                    guard: AccountCreationGuard {
                        id: new.data.id,
                        backup_created: false,
                        keyring_created: false,
                        committed: false,
                    },
                    sealed,
                },
                request: Request::ReadAccounts,
            },
            _ => out == Saving::<E>::Finished(Err(reply.failure())),
        },
        SaveNewAccount::ReadingAccounts { new, guard, sealed } => match reply {
            Reply::Accounts(found) => {
                &&& out matches Progress::Ask {
                    state: SaveNewAccount::EncodingBackup {
                        new: new_now,
                        guard: guard_now,
                        sealed: sealed_now,
                        accounts,
                    },
                    request: Request::EncodeAccounts(backup),
                }
                &&& new_now == new
                &&& guard_now == guard
                &&& sealed_now == sealed
                &&& accounts@ == listed(found)
                &&& backup@ == listed(found)
            },
            _ => cleans_up(guard, Err(reply.failure()), out),
        },
        SaveNewAccount::EncodingBackup { new, guard, sealed, accounts } => match reply {
            Reply::Bytes(backup) => out == Saving::<E>::Ask {
                state: SaveNewAccount::WritingBackup { new, guard, sealed, accounts },
                request: Request::WriteFile(AccountFile::BackupTemp, backup),
            },
            _ => cleans_up(guard, Err(reply.failure()), out),
        },
        SaveNewAccount::WritingBackup { new, guard, sealed, accounts } => match reply {
            Reply::Done => out == Saving::<E>::Ask {
                state: SaveNewAccount::RenamingBackup { new, guard, sealed, accounts },
                request: Request::Rename(AccountFile::BackupTemp, AccountFile::Backup),
            },
            _ => cleans_up(guard, Err(reply.failure()), out),
        },
        SaveNewAccount::RenamingBackup { new, guard, sealed, accounts } => match reply {
            Reply::Done => {
                &&& out matches Progress::Ask {
                    state: SaveNewAccount::EncodingAccounts {
                        new: new_now,
                        guard: guard_now,
                        sealed: sealed_now,
                    },
                    request: Request::EncodeAccounts(users),
                }
                &&& new_now == new
                &&& guard_now == AccountCreationGuard { backup_created: true, ..guard }
                &&& sealed_now == sealed
                &&& users@ == added_to(accounts@, new.data)
            },
            _ => cleans_up(guard, Err(reply.failure()), out),
        },
        SaveNewAccount::EncodingAccounts { new, guard, sealed } => match reply {
            Reply::Bytes(users) => out == Saving::<E>::Ask {
                state: SaveNewAccount::WritingSecureData { new, guard, users },
                request: Request::WriteFile(AccountFile::SecureTemp(new.data.id), sealed),
            },
            _ => cleans_up(guard, Err(reply.failure()), out),
        },
        SaveNewAccount::WritingSecureData { new, guard, users } => match reply {
            Reply::Done => out == Saving::<E>::Ask {
                state: SaveNewAccount::RenamingSecureData { new, guard, users },
                request: Request::Rename(
                    AccountFile::SecureTemp(new.data.id),
                    AccountFile::Secure(new.data.id),
                ),
            },
            _ => cleans_up(guard, Err(reply.failure()), out),
        },
        SaveNewAccount::RenamingSecureData { new, guard, users } => match reply {
            Reply::Done => out == Saving::<E>::Ask {
                state: SaveNewAccount::WritingUsers { new, guard },
                request: Request::WriteFile(AccountFile::UsersTemp, users),
            },
            _ => cleans_up(guard, Err(reply.failure()), out),
        },
        SaveNewAccount::WritingUsers { new, guard } => match reply {
            Reply::Done => out == Saving::<E>::Ask {
                state: SaveNewAccount::RenamingUsers { new, guard },
                request: Request::Rename(AccountFile::UsersTemp, AccountFile::Users),
            },
            _ => cleans_up(guard, Err(reply.failure()), out),
        },
        SaveNewAccount::RenamingUsers { new, guard } => match reply {
            Reply::Done => out == Saving::<E>::Ask {
                state: SaveNewAccount::StoringPassphrase { guard },
                request: Request::StorePassphrase(new.data.id, new.passphrase),
            },
            _ => cleans_up(guard, Err(reply.failure()), out),
        },
        SaveNewAccount::StoringPassphrase { guard } => match reply {
            Reply::Done => out == Saving::<E>::Ask {
                state: SaveNewAccount::RemovingBackup {
                    guard: AccountCreationGuard { keyring_created: true, ..guard },
                },
                request: Request::RemoveFile(AccountFile::Backup),
            },
            _ => cleans_up(guard, Err(reply.failure()), out),
        },
        SaveNewAccount::RemovingBackup { guard } => cleans_up(
            AccountCreationGuard { committed: true, ..guard },
            Ok(()),
            out,
        ),
        SaveNewAccount::CleaningUp { guard, pending, outcome } => if pending@.len() == 0 {
            out == Saving::<E>::Finished(outcome)
        } else {
            &&& out matches Progress::Ask {
                state: SaveNewAccount::CleaningUp {
                    guard: guard_now,
                    pending: left,
                    outcome: outcome_now,
                },
                request,
            }
            &&& seq![request] + left@ == pending@
            &&& guard_now == guard
            &&& outcome_now == outcome
        },
    }
}

impl<E> SaveNewAccount<E> {
    /// The guard over what was created so far. Before there is one nothing was created, and once
    /// its clean-up is begun it guards no more.
    pub open spec fn guarded(&self) -> Option<AccountCreationGuard> {
        match self {
            SaveNewAccount::EncodingSecureData { .. } => None,
            SaveNewAccount::OpeningKeyring { .. } => None,
            SaveNewAccount::ReadingAccounts { guard, .. } => Some(*guard),
            SaveNewAccount::EncodingBackup { guard, .. } => Some(*guard),
            SaveNewAccount::WritingBackup { guard, .. } => Some(*guard),
            SaveNewAccount::RenamingBackup { guard, .. } => Some(*guard),
            SaveNewAccount::EncodingAccounts { guard, .. } => Some(*guard),
            SaveNewAccount::WritingSecureData { guard, .. } => Some(*guard),
            SaveNewAccount::RenamingSecureData { guard, .. } => Some(*guard),
            SaveNewAccount::WritingUsers { guard, .. } => Some(*guard),
            SaveNewAccount::RenamingUsers { guard, .. } => Some(*guard),
            SaveNewAccount::StoringPassphrase { guard } => Some(*guard),
            SaveNewAccount::RemovingBackup { guard } => Some(*guard),
            SaveNewAccount::CleaningUp { .. } => None,
        }
    }

    fn guard(&self) -> (guard: Option<&AccountCreationGuard>)
        ensures
            match guard {
                Some(guard) => self.guarded() == Some(*guard),
                None => self.guarded() is None,
            },
    {
        match self {
            SaveNewAccount::EncodingSecureData { .. } => None,
            SaveNewAccount::OpeningKeyring { .. } => None,
            SaveNewAccount::ReadingAccounts { guard, .. } => Some(guard),
            SaveNewAccount::EncodingBackup { guard, .. } => Some(guard),
            SaveNewAccount::WritingBackup { guard, .. } => Some(guard),
            SaveNewAccount::RenamingBackup { guard, .. } => Some(guard),
            SaveNewAccount::EncodingAccounts { guard, .. } => Some(guard),
            SaveNewAccount::WritingSecureData { guard, .. } => Some(guard),
            SaveNewAccount::RenamingSecureData { guard, .. } => Some(guard),
            SaveNewAccount::WritingUsers { guard, .. } => Some(guard),
            SaveNewAccount::RenamingUsers { guard, .. } => Some(guard),
            SaveNewAccount::StoringPassphrase { guard } => Some(guard),
            SaveNewAccount::RemovingBackup { guard } => Some(guard),
            SaveNewAccount::CleaningUp { .. } => None,
        }
    }

    /// What is to be done where the creation is broken off here, without an answer to the last
    /// request: all that the guard holds ready.
    pub open spec fn abandoned_requests(&self) -> Seq<Request> {
        match self.guarded() {
            Some(guard) => guard.cleanup_requests(),
            None => seq![],
        }
    }

    pub fn abandon(&self) -> (requests: Vec<Request>)
        ensures
            requests@ == self.abandoned_requests(),
    {
        match self.guard() {
            Some(guard) => guard.cleanup(),
            None => Vec::new(),
        }
    }

    /// Goes on with the answer to the last request.
    pub fn resume(self, reply: Reply<E>) -> (out: Saving<E>)
        ensures
            save_step(self, reply, out),
    {
        match self {
            SaveNewAccount::EncodingSecureData { new } => match reply {
                Reply::Bytes(plaintext) => {
                    let sealed = seal(plaintext.as_slice(), new.passphrase.as_str());
                    save_sealed(new, sealed)
                },
                reply => Progress::Finished(Err(reply.into_failure())),
            },
            SaveNewAccount::OpeningKeyring { new, sealed } => match reply {
                Reply::Done => {
                    let guard = AccountCreationGuard::new(new.data.id.clone());
                    Progress::Ask {
                        state: SaveNewAccount::ReadingAccounts { new, guard, sealed },
                        request: Request::ReadAccounts,
                    }
                },
                reply => Progress::Finished(Err(reply.into_failure())),
            },
            SaveNewAccount::ReadingAccounts { new, guard, sealed } => match reply {
                Reply::Accounts(found) => {
                    let accounts = load_account_list(found);
                    let backup = accounts.clone();
                    Progress::Ask {
                        state: SaveNewAccount::EncodingBackup { new, guard, sealed, accounts },
                        request: Request::EncodeAccounts(backup),
                    }
                },
                reply => clean_up(guard, Err(reply.into_failure())),
            },
            SaveNewAccount::EncodingBackup { new, guard, sealed, accounts } => match reply {
                Reply::Bytes(backup) => Progress::Ask {
                    state: SaveNewAccount::WritingBackup { new, guard, sealed, accounts },
                    request: Request::WriteFile(AccountFile::BackupTemp, backup),
                },
                reply => clean_up(guard, Err(reply.into_failure())),
            },
            SaveNewAccount::WritingBackup { new, guard, sealed, accounts } => match reply {
                Reply::Done => Progress::Ask {
                    state: SaveNewAccount::RenamingBackup { new, guard, sealed, accounts },
                    request: Request::Rename(AccountFile::BackupTemp, AccountFile::Backup),
                },
                reply => clean_up(guard, Err(reply.into_failure())),
            },
            SaveNewAccount::RenamingBackup { new, mut guard, sealed, mut accounts } => match reply {
                Reply::Done => {
                    guard.backup_created = true;
                    // The new account is to be the active one.
                    accounts.add(new.data.clone());
                    Progress::Ask {
                        state: SaveNewAccount::EncodingAccounts { new, guard, sealed },
                        request: Request::EncodeAccounts(accounts),
                    }
                },
                reply => clean_up(guard, Err(reply.into_failure())),
            },
            SaveNewAccount::EncodingAccounts { new, guard, sealed } => match reply {
                Reply::Bytes(users) => {
                    let file = AccountFile::SecureTemp(new.data.id.clone());
                    Progress::Ask {
                        state: SaveNewAccount::WritingSecureData { new, guard, users },
                        request: Request::WriteFile(file, sealed),
                    }
                },
                reply => clean_up(guard, Err(reply.into_failure())),
            },
            SaveNewAccount::WritingSecureData { new, guard, users } => match reply {
                Reply::Done => {
                    let from = AccountFile::SecureTemp(new.data.id.clone());
                    let to = AccountFile::Secure(new.data.id.clone());
                    Progress::Ask {
                        state: SaveNewAccount::RenamingSecureData { new, guard, users },
                        request: Request::Rename(from, to),
                    }
                },
                reply => clean_up(guard, Err(reply.into_failure())),
            },
            SaveNewAccount::RenamingSecureData { new, guard, users } => match reply {
                Reply::Done => Progress::Ask {
                    state: SaveNewAccount::WritingUsers { new, guard },
                    request: Request::WriteFile(AccountFile::UsersTemp, users),
                },
                reply => clean_up(guard, Err(reply.into_failure())),
            },
            SaveNewAccount::WritingUsers { new, guard } => match reply {
                Reply::Done => Progress::Ask {
                    state: SaveNewAccount::RenamingUsers { new, guard },
                    request: Request::Rename(AccountFile::UsersTemp, AccountFile::Users),
                },
                reply => clean_up(guard, Err(reply.into_failure())),
            },
            SaveNewAccount::RenamingUsers { new, guard } => match reply {
                Reply::Done => Progress::Ask {
                    state: SaveNewAccount::StoringPassphrase { guard },
                    request: Request::StorePassphrase(new.data.id, new.passphrase),
                },
                reply => clean_up(guard, Err(reply.into_failure())),
            },
            SaveNewAccount::StoringPassphrase { mut guard } => match reply {
                Reply::Done => {
                    guard.keyring_created = true;
                    Progress::Ask {
                        state: SaveNewAccount::RemovingBackup { guard },
                        request: Request::RemoveFile(AccountFile::Backup),
                    }
                },
                reply => clean_up(guard, Err(reply.into_failure())),
            },
            SaveNewAccount::RemovingBackup { mut guard } => {
                guard.commit();
                clean_up(guard, Ok(()))
            },
            SaveNewAccount::CleaningUp { guard, mut pending, outcome } => {
                if pending.len() == 0 {
                    Progress::Finished(outcome)
                } else {
                    let ghost before = pending@;
                    let request = pending.remove(0);
                    assert(seq![request] + pending@ =~= before);
                    Progress::Ask {
                        state: SaveNewAccount::CleaningUp { guard, pending, outcome },
                        request,
                    }
                }
            },
        }
    }
}

} // verus!
