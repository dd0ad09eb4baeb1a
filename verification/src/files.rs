//! The files that the account folder holds, and what they are called.

use vstd::prelude::*;
use vstd::string::*;
use vstd::utf8::*;

verus! {

/// An entry of the account folder.
#[derive(Debug, PartialEq, Eq)]
pub enum AccountFile {
    /// The list of accounts.
    Users,
    /// What is to become the list of accounts.
    UsersTemp,
    /// The list of accounts as it was before an account is added.
    Backup,
    /// What is to become the backup.
    BackupTemp,
    /// The encrypted data of the account kept under an id.
    Secure(String),
    /// What is to become that data.
    SecureTemp(String),
    /// The folder that holds the client's store of the account kept under an id.
    Store(String),
}

impl AccountFile {
    /// What the entry is called.
    ///
    /// A file is written to a sibling first, which has `tmp` as its extension. An id that is
    /// empty or ends a path leaves `.enc` as the whole name of the encrypted file; that is no
    /// extension, so there the sibling's is added.
    pub open spec fn name(&self) -> Seq<char> {
        match self {
            AccountFile::Users => "users.toml"@,
            AccountFile::UsersTemp => "users.tmp"@,
            AccountFile::Backup => "users.toml.backup"@,
            AccountFile::BackupTemp => "users.toml.tmp"@,
            AccountFile::Secure(id) => id@ + ".enc"@,
            AccountFile::SecureTemp(id) => if id@.len() == 0 || id@.last() == '/' {
                id@ + ".enc.tmp"@
            } else {
                id@ + ".tmp"@
            },
            AccountFile::Store(id) => id@,
        }
    }

    pub fn file_name(&self) -> (name: String)
        ensures
            name@ == self.name(),
    {
        match self {
            AccountFile::Users => "users.toml".to_owned(),
            AccountFile::UsersTemp => "users.tmp".to_owned(),
            AccountFile::Backup => "users.toml.backup".to_owned(),
            AccountFile::BackupTemp => "users.toml.tmp".to_owned(),
            AccountFile::Secure(id) => id.clone().concat(".enc"),
            AccountFile::SecureTemp(id) => {
                let length: usize = id.as_str().unicode_len();
                if length == 0 || id.as_str().get_char(length - 1) == '/' {
                    id.clone().concat(".enc.tmp")
                } else {
                    id.clone().concat(".tmp")
                }
            },
            AccountFile::Store(id) => id.clone(),
        }
    }
}

impl Clone for AccountFile {
    fn clone(&self) -> (copy: AccountFile)
        ensures
            copy == *self,
    {
        match self {
            AccountFile::Users => AccountFile::Users,
            AccountFile::UsersTemp => AccountFile::UsersTemp,
            AccountFile::Backup => AccountFile::Backup,
            AccountFile::BackupTemp => AccountFile::BackupTemp,
            AccountFile::Secure(id) => AccountFile::Secure(id.clone()),
            AccountFile::SecureTemp(id) => AccountFile::SecureTemp(id.clone()),
            AccountFile::Store(id) => AccountFile::Store(id.clone()),
        }
    }
}

/// Whether `c` is an ASCII letter or digit.
pub open spec fn alphanumeric(c: char) -> bool {
    'a' <= c <= 'z' || 'A' <= c <= 'Z' || '0' <= c <= '9'
}

/// How long an account's id and its passphrase are.
pub const CREDENTIAL_LENGTH: usize = 32;

/// Whether `text` is such as ids and passphrases are made: letters and digits, of a set length.
pub open spec fn is_credential(text: Seq<char>) -> bool {
    &&& text.len() == CREDENTIAL_LENGTH
    &&& forall|i: int| 0 <= i < text.len() ==> alphanumeric(#[trigger] text[i])
}

/// How many bytes of a file's name stand before its extensions: all before the first dot that
/// does not begin the name.
pub open spec fn prefix_length(name: Seq<u8>, length: int) -> bool {
    &&& 0 <= length <= name.len()
    &&& forall|i: int| 1 <= i < length ==> #[trigger] name[i] != 0x2e
    &&& length < name.len() ==> length >= 1 && name[length] == 0x2e
}

/// The part of a file's name that stands before its extensions, in bytes.
pub open spec fn file_prefix(name: Seq<u8>) -> Seq<u8> {
    name.take(choose|length: int| prefix_length(name, length))
}

/// Takes the extensions off a file's name.
pub fn strip_extensions(name: &mut Vec<u8>)
    ensures
        final(name)@ == file_prefix(old(name)@),
{
    let ghost whole = name@;
    let mut length: usize = if name.len() == 0 { 0 } else { 1 };
    while length < name.len() && name[length] != 0x2e
        invariant
            name@ == whole,
            length <= whole.len(),
            length == 0 ==> whole.len() == 0,
            forall|i: int| 1 <= i < length ==> #[trigger] whole[i] != 0x2e,
        decreases whole.len() - length,
    {
        length = length + 1;
    }
    proof {
        assert(prefix_length(whole, length as int));
        lemma_prefix_length_is_one(whole, length as int);
    }
    name.truncate(length);
}

/// Reads bytes as text by `String::from_utf8`: they are text where they are UTF-8, and then the
/// one that they encode.
#[verifier::external_body]
pub(crate) fn text_of(bytes: Vec<u8>) -> (text: Option<String>)
    ensures
        text is Some <==> valid_utf8(bytes@),
        text matches Some(text) ==> text@ == decode_utf8(bytes@),
{
    String::from_utf8(bytes).ok()
}

/// A name has one prefix.
pub proof fn lemma_prefix_length_is_one(name: Seq<u8>, length: int)
    requires
        prefix_length(name, length),
    ensures
        file_prefix(name) == name.take(length),
{
    let chosen = choose|length: int| prefix_length(name, length);
    assert(prefix_length(name, chosen));
    if chosen < length {
        assert(name[chosen] == 0x2e);
    } else if length < chosen {
        assert(name[length] == 0x2e);
    }
}

} // verus!
