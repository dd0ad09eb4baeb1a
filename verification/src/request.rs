//! What the library asks of the disk, the keyring and the file format, and what it is told.
//!
//! An operation that needs them is a [`Progress`]: it asks for one thing at a time and goes on
//! with the answer.

use crate::account::AccountList;
use crate::account::SecureAccountData;
use crate::files::AccountFile;
use crate::vault::OpenError;
use vstd::prelude::*;
use vstd::string::*;

verus! {

/// A thing to be done outside the library.
#[derive(Debug, PartialEq, Eq)]
pub enum Request {
    /// Read and decode the list of accounts. Answered by `Accounts`.
    ReadAccounts,
    /// Encode a list of accounts. Answered by `Bytes`.
    EncodeAccounts(AccountList),
    /// Encode an account's secure data. Answered by `Bytes`.
    EncodeSecureData(SecureAccountData),
    /// Decode an account's secure data. Answered by `SecureData`.
    DecodeSecureData(Vec<u8>),
    /// Look whether there is such an entry. Answered by `Exists`.
    LookFor(AccountFile),
    /// Read a file. Answered by `Bytes`.
    ReadFile(AccountFile),
    /// Write a file, over what is there. Answered by `Done`.
    WriteFile(AccountFile, Vec<u8>),
    /// Give the first file the name of the second, in its place. Answered by `Done`.
    Rename(AccountFile, AccountFile),
    /// Remove a file. Answered by `Done`.
    RemoveFile(AccountFile),
    /// Remove a folder and all that is in it. Answered by `Done`.
    RemoveFolder(AccountFile),
    /// Open the keyring at the entry of the account kept under an id. Answered by `Done`.
    OpenKeyring(String),
    /// Read the passphrase of the account kept under an id. Answered by `Text`.
    ReadPassphrase(String),
    /// Store the passphrase of the account kept under an id. Answered by `Done`.
    StorePassphrase(String, String),
    /// Delete the passphrase of the account kept under an id. Answered by `Done`.
    DeletePassphrase(String),
    /// List the account folder. Answered by `Entries`.
    ListFolder,
    /// List the keyring's entries of this client. Answered by `Credentials`.
    ListKeyring,
    /// Remove the file that is at a place in the last listing of the folder. Answered by `Done`.
    RemoveListedFile(usize),
    /// Remove the folder that is at a place in the last listing. Answered by `Done`.
    RemoveListedFolder(usize),
}

/// An entry of the account folder, as a listing shows it.
#[derive(Debug, PartialEq, Eq)]
pub struct FolderEntry {
    /// The name, in the bytes of the platform's encoding.
    pub name: Vec<u8>,
    pub is_folder: bool,
    pub is_file: bool,
}

/// An entry of the keyring, as a listing shows it.
#[derive(Debug, PartialEq, Eq)]
pub struct Credential {
    pub service: String,
    pub user: String,
}

/// The answer to a request.
#[derive(Debug)]
pub enum Reply<E> {
    Done,
    /// The list of accounts; `None` where its file does not exist.
    Accounts(Option<AccountList>),
    SecureData(SecureAccountData),
    Bytes(Vec<u8>),
    Text(String),
    Exists(bool),
    Entries(Vec<FolderEntry>),
    /// The entries of the keyring; `None` for one that does not tell its service and user.
    Credentials(Vec<Option<Credential>>),
    /// The request failed.
    Failed(E),
}

/// Why an operation failed. `E` is the type of the failures outside the library.
#[derive(Debug)]
pub enum AccountError<E> {
    /// A request failed.
    Outside(E),
    /// No account is that user's.
    UserNotFound(String),
    /// The secure data was not encrypted.
    Encrypt(age::EncryptError),
    /// The secure data was not decrypted.
    Decrypt(OpenError),
    /// An answer was not one to the request.
    UnexpectedReply,
}

impl<E> AccountError<E> {
    /// The words for the error, where the library has any.
    pub open spec fn words(self) -> Option<Seq<char>> {
        match self {
            AccountError::UserNotFound(user) => Some("User not found: "@ + user@),
            _ => None,
        }
    }

    /// What to tell the user, where the library has words for it.
    pub fn message(&self) -> (message: Option<String>)
        ensures
            match message {
                Some(text) => self.words() == Some(text@),
                None => self.words() is None,
            },
    {
        match self {
            AccountError::UserNotFound(user) => {
                Some("User not found: ".to_owned().concat(user.as_str()))
            },
            _ => None,
        }
    }
}

impl<E> Reply<E> {
    /// The failure that the reply means to an operation that cannot go on with it.
    pub open spec fn failure(self) -> AccountError<E> {
        match self {
            Reply::Failed(error) => AccountError::Outside(error),
            _ => AccountError::UnexpectedReply,
        }
    }

    pub fn into_failure(self) -> (error: AccountError<E>)
        ensures
            error == self.failure(),
    {
        match self {
            Reply::Failed(error) => AccountError::Outside(error),
            _ => AccountError::UnexpectedReply,
        }
    }
}

/// An operation that is under way.
#[derive(Debug)]
pub enum Progress<S, Q, R> {
    /// It goes on from `state` with the answer to `request`.
    Ask { state: S, request: Q },
    /// It is over.
    Finished(R),
}

} // verus!
