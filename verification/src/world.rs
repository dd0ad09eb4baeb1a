//! A model of what the requests act on: the account folder, the keyring and the file format.
//!
//! The laws of the library speak of it: of every way in which the requests can turn out, failing
//! ones among them.

use crate::account::AccountData;
use crate::account::SecureAccountData;
use crate::files::AccountFile;
use crate::request::Credential;
use crate::request::FolderEntry;
use crate::request::Progress;
use crate::request::Reply;
use crate::request::Request;
use crate::vault::age_plaintext;
use vstd::prelude::*;
use vstd::utf8::*;

verus! {

/// The account folder and the keyring. Names are in bytes, and each stands for the one entry that
/// is spelled so: a path that leads out of the folder or back to itself has no place here.
#[verifier::ext_equal]
pub struct World {
    /// What each file holds.
    pub files: Map<Seq<u8>, Seq<u8>>,
    /// The folders that there are.
    pub folders: Set<Seq<u8>>,
    /// The passphrase of each entry of the keyring.
    pub keyring: Map<Seq<char>, Seq<char>>,
    /// The last listing of the folder.
    pub listing: Seq<FolderEntry>,
}

/// The file format: what the bytes of a file say, where they say anything.
pub struct Format {
    pub accounts: spec_fn(Seq<u8>) -> Option<Seq<AccountData>>,
    pub secure_data: spec_fn(Seq<u8>) -> Option<SecureAccountData>,
}

/// The name of an entry, in bytes.
pub open spec fn key(file: AccountFile) -> Seq<u8> {
    encode_utf8(file.name())
}

/// Whether `post` differs from `pre` at most in what the file `name` holds, and whether it is
/// there.
pub open spec fn but_for_file(pre: World, post: World, name: Seq<u8>) -> bool {
    &&& post.files.remove(name) == pre.files.remove(name)
    &&& post.folders == pre.folders
    &&& post.keyring == pre.keyring
    &&& post.listing == pre.listing
}

/// Whether the listing shows what is there, and all of it.
pub open spec fn shows(world: World, entries: Seq<FolderEntry>) -> bool {
    &&& forall|i: int|
        0 <= i < entries.len() ==> {
            let entry = #[trigger] entries[i];
            &&& entry.is_folder <==> world.folders.contains(entry.name@)
            &&& entry.is_file <==> world.files.contains_key(entry.name@)
        }
    &&& forall|name: Seq<u8>|
        #![trigger world.folders.contains(name)]
        #![trigger world.files.contains_key(name)]
        world.folders.contains(name) || world.files.contains_key(name) ==> exists|i: int|
            0 <= i < entries.len() && #[trigger] entries[i].name@ == name
}

/// Whether the listing shows the entries of the keyring.
pub open spec fn shows_keyring(world: World, credentials: Seq<Option<Credential>>) -> bool {
    &&& forall|i: int|
        0 <= i < credentials.len() ==> ((#[trigger] credentials[i]) matches Some(c)
            ==> world.keyring.contains_key(c.user@))
    &&& forall|user: Seq<char>|
        world.keyring.contains_key(user) ==> exists|i: int|
            0 <= i < credentials.len() && ((#[trigger] credentials[i]) matches Some(c) && c.user@
                == user)
}

/// Whether `request`, made where things stand as in `pre`, can be answered by `reply` and leave
/// them as in `post`.
pub open spec fn performs<E>(
    format: Format,
    pre: World,
    request: Request,
    reply: Reply<E>,
    post: World,
) -> bool {
    match request {
        Request::ReadAccounts => {
            let users = key(AccountFile::Users);
            &&& post == pre
            &&& match reply {
                Reply::Accounts(Some(list)) => pre.files.contains_key(users) && (format.accounts)(
                    pre.files[users],
                ) == Some(list@),
                Reply::Accounts(None) => !pre.files.contains_key(users),
                Reply::Failed(_) => true,
                _ => false,
            }
        },
        Request::EncodeAccounts(list) => post == pre && match reply {
            Reply::Bytes(bytes) => (format.accounts)(bytes@) == Some(list@),
            Reply::Failed(_) => true,
            _ => false,
        },
        Request::EncodeSecureData(data) => post == pre && match reply {
            Reply::Bytes(bytes) => (format.secure_data)(bytes@) == Some(data),
            Reply::Failed(_) => true,
            _ => false,
        },
        Request::DecodeSecureData(bytes) => post == pre && match reply {
            Reply::SecureData(data) => (format.secure_data)(bytes@) == Some(data),
            Reply::Failed(_) => true,
            _ => false,
        },
        Request::LookFor(file) => post == pre && match reply {
            Reply::Exists(exists) => exists <==> pre.files.contains_key(key(file))
                || pre.folders.contains(key(file)),
            _ => false,
        },
        Request::ReadFile(file) => post == pre && match reply {
            Reply::Bytes(bytes) => pre.files.contains_key(key(file)) && pre.files[key(file)]
                == bytes@,
            Reply::Failed(_) => true,
            _ => false,
        },
        Request::WriteFile(file, bytes) => match reply {
            Reply::Done => post == World { files: pre.files.insert(key(file), bytes@), ..pre },
            Reply::Failed(_) => but_for_file(pre, post, key(file)),
            _ => false,
        },
        Request::Rename(from, to) => match reply {
            Reply::Done => {
                &&& pre.files.contains_key(key(from))
                &&& post == World {
                    files: pre.files.remove(key(from)).insert(key(to), pre.files[key(from)]),
                    ..pre
                }
            },
            Reply::Failed(_) => post == pre,
            _ => false,
        },
        Request::RemoveFile(file) => removes_file(pre, key(file), reply, post),
        Request::RemoveFolder(file) => removes_folder(pre, key(file), reply, post),
        Request::OpenKeyring(_) => post == pre && (reply is Done || reply is Failed),
        Request::ReadPassphrase(id) => post == pre && match reply {
            Reply::Text(passphrase) => pre.keyring.contains_key(id@) && pre.keyring[id@]
                == passphrase@,
            Reply::Failed(_) => true,
            _ => false,
        },
        Request::StorePassphrase(id, passphrase) => match reply {
            Reply::Done => post == World { keyring: pre.keyring.insert(id@, passphrase@), ..pre },
            Reply::Failed(_) => post == pre,
            _ => false,
        },
        Request::DeletePassphrase(id) => match reply {
            Reply::Done => post == World { keyring: pre.keyring.remove(id@), ..pre },
            Reply::Failed(_) => post == pre,
            _ => false,
        },
        Request::ListFolder => match reply {
            Reply::Entries(entries) => shows(pre, entries@) && post == World {
                listing: entries@,
                ..pre
            },
            Reply::Failed(_) => post == pre,
            _ => false,
        },
        Request::ListKeyring => post == pre && match reply {
            Reply::Credentials(credentials) => shows_keyring(pre, credentials@),
            Reply::Failed(_) => true,
            _ => false,
        },
        Request::RemoveListedFile(at) => removes_file(
            pre,
            pre.listing[at as int].name@,
            reply,
            post,
        ),
        Request::RemoveListedFolder(at) => removes_folder(
            pre,
            pre.listing[at as int].name@,
            reply,
            post,
        ),
    }
}

/// Whether a request to remove the file `name` can be answered so.
pub open spec fn removes_file<E>(
    pre: World,
    name: Seq<u8>,
    reply: Reply<E>,
    post: World,
) -> bool {
    match reply {
        Reply::Done => post == World { files: pre.files.remove(name), ..pre },
        Reply::Failed(_) => post == pre,
        _ => false,
    }
}

/// Whether a request to remove the folder `name` can be answered so. A failure may come with
/// part of what is in the folder gone, but leaves the folder.
pub open spec fn removes_folder<E>(
    pre: World,
    name: Seq<u8>,
    reply: Reply<E>,
    post: World,
) -> bool {
    match reply {
        Reply::Done => post == World { folders: pre.folders.remove(name), ..pre },
        Reply::Failed(_) => post == pre,
        _ => false,
    }
}

/// Whether a request that takes something away did so: it fails only where there was nothing to
/// take.
pub open spec fn unhindered<E>(pre: World, request: Request, reply: Reply<E>) -> bool {
    reply is Failed ==> match request {
        Request::RemoveFile(file) => !pre.files.contains_key(key(file)),
        Request::RemoveFolder(file) => !pre.folders.contains(key(file)),
        Request::Rename(from, _) => !pre.files.contains_key(key(from)),
        Request::DeletePassphrase(id) => !pre.keyring.contains_key(id@),
        Request::RemoveListedFile(at) => !pre.files.contains_key(pre.listing[at as int].name@),
        Request::RemoveListedFolder(at) => !pre.folders.contains(pre.listing[at as int].name@),
        _ => true,
    }
}

/// A run of an operation: how far it had come at each moment, how things stood then, and the
/// answers between.
pub struct Run<S, R, E> {
    pub progress: Seq<Progress<S, Request, R>>,
    pub worlds: Seq<World>,
    pub replies: Seq<Reply<E>>,
}

/// Whether `run` is one that `step` allows: each answer is one that its request can have, and
/// `step` says how the operation goes on with it.
pub open spec fn is_run<S, R, E>(
    format: Format,
    step: spec_fn(S, Reply<E>, Progress<S, Request, R>) -> bool,
    run: Run<S, R, E>,
) -> bool {
    &&& run.progress.len() == run.replies.len() + 1
    &&& run.worlds.len() == run.replies.len() + 1
    &&& forall|i: int|
        0 <= i < run.replies.len() ==> advances(
            format,
            step,
            run.progress[i],
            run.worlds[i],
            #[trigger] run.replies[i],
            run.progress[i + 1],
            run.worlds[i + 1],
        )
}

/// Whether the operation at `progress` asks for something that `reply` answers, and goes on to
/// `then` with things standing as in `post`.
pub open spec fn advances<S, R, E>(
    format: Format,
    step: spec_fn(S, Reply<E>, Progress<S, Request, R>) -> bool,
    progress: Progress<S, Request, R>,
    pre: World,
    reply: Reply<E>,
    next: Progress<S, Request, R>,
    post: World,
) -> bool {
    &&& progress matches Progress::Ask { state, request }
    &&& performs(format, pre, request, reply, post)
    &&& step(state, reply, next)
}

/// The accounts that the folder lists; `None` where its list cannot be read.
pub open spec fn accounts_of(format: Format, world: World) -> Option<Seq<AccountData>> {
    let users = key(AccountFile::Users);
    if world.files.contains_key(users) {
        (format.accounts)(world.files[users])
    } else {
        Some(Seq::empty())
    }
}

/// The secure data that the bytes of an encrypted file hold under `passphrase`, if they do.
pub open spec fn decrypted(
    format: Format,
    sealed: Seq<u8>,
    passphrase: Seq<char>,
) -> Option<SecureAccountData> {
    match age_plaintext(sealed, passphrase) {
        Some(plaintext) => (format.secure_data)(plaintext),
        None => None,
    }
}

/// Whether `now` and `then` have the file `name` alike.
pub open spec fn same_file(now: World, then: World, name: Seq<u8>) -> bool {
    &&& now.files.contains_key(name) <==> then.files.contains_key(name)
    &&& now.files.contains_key(name) ==> now.files[name] == then.files[name]
}

/// A failed writing leaves every other file as it was.
pub proof fn lemma_but_for_file(pre: World, post: World, name: Seq<u8>)
    requires
        but_for_file(pre, post, name),
    ensures
        forall|other: Seq<u8>| other != name ==> #[trigger] same_file(post, pre, other),
{
    assert forall|other: Seq<u8>| other != name implies #[trigger] same_file(post, pre, other) by {
        assert(post.files.remove(name).contains_key(other) == pre.files.remove(name).contains_key(
            other,
        ));
        if pre.files.contains_key(other) {
            assert(post.files.remove(name)[other] == pre.files.remove(name)[other]);
        }
    }
}

/// Entries with names that differ are different entries.
pub proof fn lemma_keys_differ(one: AccountFile, other: AccountFile)
    requires
        one.name() != other.name(),
    ensures
        key(one) != key(other),
{
    encode_utf8_decode_utf8(one.name());
    encode_utf8_decode_utf8(other.name());
}

/// The list of accounts, its backup, the temporary files of both, an account's encrypted file and
/// the temporary file of that are all different files, whatever the id; but that two ids give the
/// last of them the name of another temporary file.
pub proof fn law_files_are_distinct(id: String)
    ensures
        key(AccountFile::Users) != key(AccountFile::UsersTemp),
        key(AccountFile::Users) != key(AccountFile::Backup),
        key(AccountFile::Users) != key(AccountFile::BackupTemp),
        key(AccountFile::UsersTemp) != key(AccountFile::Backup),
        key(AccountFile::UsersTemp) != key(AccountFile::BackupTemp),
        key(AccountFile::Backup) != key(AccountFile::BackupTemp),
        key(AccountFile::Secure(id)) != key(AccountFile::Users),
        key(AccountFile::Secure(id)) != key(AccountFile::UsersTemp),
        key(AccountFile::Secure(id)) != key(AccountFile::Backup),
        key(AccountFile::Secure(id)) != key(AccountFile::BackupTemp),
        key(AccountFile::SecureTemp(id)) != key(AccountFile::Secure(id)),
        key(AccountFile::SecureTemp(id)) != key(AccountFile::Users),
        key(AccountFile::SecureTemp(id)) != key(AccountFile::Backup),
        id@ != "users"@ ==> key(AccountFile::SecureTemp(id)) != key(AccountFile::UsersTemp),
        id@ != "users.toml"@ ==> key(AccountFile::SecureTemp(id)) != key(AccountFile::BackupTemp),
{
    reveal_names();
    let users = AccountFile::Users.name();
    let users_temp = AccountFile::UsersTemp.name();
    let backup = AccountFile::Backup.name();
    let backup_temp = AccountFile::BackupTemp.name();
    let secure = AccountFile::Secure(id).name();
    let secure_temp = AccountFile::SecureTemp(id).name();
    assert(secure.last() == 'c');
    assert(secure_temp.last() == 'p' && secure_temp[secure_temp.len() - 2] == 'm');
    assert(users.last() == 'l' && users_temp.last() == 'p' && backup_temp.last() == 'p');
    assert(backup.last() == 'p' && backup[15] == 'u');
    lemma_keys_differ(AccountFile::Users, AccountFile::UsersTemp);
    lemma_keys_differ(AccountFile::Users, AccountFile::Backup);
    lemma_keys_differ(AccountFile::Users, AccountFile::BackupTemp);
    lemma_keys_differ(AccountFile::UsersTemp, AccountFile::Backup);
    lemma_keys_differ(AccountFile::UsersTemp, AccountFile::BackupTemp);
    lemma_keys_differ(AccountFile::Backup, AccountFile::BackupTemp);
    lemma_keys_differ(AccountFile::Secure(id), AccountFile::Users);
    lemma_keys_differ(AccountFile::Secure(id), AccountFile::UsersTemp);
    lemma_keys_differ(AccountFile::Secure(id), AccountFile::Backup);
    lemma_keys_differ(AccountFile::Secure(id), AccountFile::BackupTemp);
    lemma_keys_differ(AccountFile::SecureTemp(id), AccountFile::Secure(id));
    lemma_keys_differ(AccountFile::SecureTemp(id), AccountFile::Users);
    lemma_keys_differ(AccountFile::SecureTemp(id), AccountFile::Backup);
    if id@.len() == 0 || id@.last() == '/' {
        assert(secure_temp[secure_temp.len() - 5] == 'c');
        assert(users_temp[4] == 's' && backup_temp[9] == 'l');
    } else {
        assert(secure_temp.take(id@.len() as int) =~= id@);
        assert(users_temp.take(5) =~= "users"@);
        assert(backup_temp.take(10) =~= "users.toml"@);
    }
    if id@ != "users"@ {
        lemma_keys_differ(AccountFile::SecureTemp(id), AccountFile::UsersTemp);
    }
    if id@ != "users.toml"@ {
        lemma_keys_differ(AccountFile::SecureTemp(id), AccountFile::BackupTemp);
    }
}

/// What the names that the library itself gives are made of.
pub proof fn reveal_names()
    ensures
        "users"@ == seq!['u', 's', 'e', 'r', 's'],
        "users.toml"@ == seq!['u', 's', 'e', 'r', 's', '.', 't', 'o', 'm', 'l'],
        "users.tmp"@ == seq!['u', 's', 'e', 'r', 's', '.', 't', 'm', 'p'],
        "users.toml.backup"@ == "users.toml"@ + seq!['.', 'b', 'a', 'c', 'k', 'u', 'p'],
        "users.toml.tmp"@ == "users.toml"@ + seq!['.', 't', 'm', 'p'],
        ".enc"@ == seq!['.', 'e', 'n', 'c'],
        ".tmp"@ == seq!['.', 't', 'm', 'p'],
        ".enc.tmp"@ == seq!['.', 'e', 'n', 'c', '.', 't', 'm', 'p'],
{
    reveal_strlit("users");
    reveal_strlit("users.toml");
    reveal_strlit("users.tmp");
    reveal_strlit("users.toml.backup");
    reveal_strlit("users.toml.tmp");
    reveal_strlit(".enc");
    reveal_strlit(".tmp");
    reveal_strlit(".enc.tmp");
    assert("users"@ =~= seq!['u', 's', 'e', 'r', 's']);
    assert("users.toml"@ =~= seq!['u', 's', 'e', 'r', 's', '.', 't', 'o', 'm', 'l']);
    assert("users.tmp"@ =~= seq!['u', 's', 'e', 'r', 's', '.', 't', 'm', 'p']);
    assert("users.toml.backup"@ =~= "users.toml"@ + seq!['.', 'b', 'a', 'c', 'k', 'u', 'p']);
    assert("users.toml.tmp"@ =~= "users.toml"@ + seq!['.', 't', 'm', 'p']);
    assert(".enc"@ =~= seq!['.', 'e', 'n', 'c']);
    assert(".tmp"@ =~= seq!['.', 't', 'm', 'p']);
    assert(".enc.tmp"@ =~= seq!['.', 'e', 'n', 'c', '.', 't', 'm', 'p']);
}

} // verus!
