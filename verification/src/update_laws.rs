//! What holds of an update of tokens, however the requests turn out.

use crate::account::first_of_user;
use crate::account::has_user;
use crate::account::with_tokens;
use crate::account::AccountData;
use crate::account::SecureAccountData;
use crate::files::AccountFile;
use crate::request::AccountError;
use crate::request::Progress;
use crate::request::Reply;
use crate::request::Request;
use crate::update::begun_token_update;
use crate::update::begun_update;
use crate::update::kept_under;
use crate::update::opened_update;
use crate::update::sealed_update;
use crate::update::update_step;
use crate::update::TokenUpdate;
use crate::update::UpdateAccountConfig;
use crate::update::Updating;
use crate::vault::age_plaintext;
use crate::vault::opens;
use crate::vault::seals;
use crate::vault::OpenError;
use crate::world::accounts_of;
use crate::world::decrypted;
use crate::world::is_run;
use crate::world::key;
use crate::world::lemma_but_for_file;
use crate::world::law_files_are_distinct;
use crate::world::lemma_keys_differ;
use crate::world::performs;
use crate::world::reveal_names;
use crate::world::same_file;
use crate::world::Format;
use crate::world::Run;
use crate::world::World;
use vstd::prelude::*;

verus! {

/// Whether `id` is the one under which the account of `user` is kept.
pub open spec fn is_account_of(format: Format, world: World, user: Seq<char>, id: String) -> bool {
    accounts_of(format, world) matches Some(accounts) && kept_under(accounts, user, id)
}

/// Whether `sealed` is the account's secure data at `start` with the new tokens in it, encrypted
/// under the account's passphrase.
pub open spec fn is_updated(
    format: Format,
    start: World,
    id: String,
    update: TokenUpdate,
    sealed: Seq<u8>,
) -> bool {
    let file = key(AccountFile::Secure(id));
    let passphrase = start.keyring[id@];
    &&& start.keyring.contains_key(id@)
    &&& start.files.contains_key(file)
    &&& decrypted(format, start.files[file], passphrase) matches Some(data)
    &&& decrypted(format, sealed, passphrase) == Some(
        with_tokens(data, update.access_token, update.refresh_token, update.expiration),
    )
}

/// Whether nothing differs from `start` but, at most, the account's encrypted file and its
/// temporary sibling.
pub open spec fn secure_data_at_most(start: World, world: World, id: String) -> bool {
    &&& forall|name: Seq<u8>|
        name != key(AccountFile::Secure(id)) && name != key(AccountFile::SecureTemp(id))
            ==> #[trigger] same_file(world, start, name)
    &&& world.folders == start.folders
    &&& world.keyring == start.keyring
}

/// What an update can have done at any moment: nothing, or the account's encrypted file is what
/// it was or holds the new tokens, and no more than its temporary sibling differs besides.
pub open spec fn updates_atomically(
    format: Format,
    start: World,
    world: World,
    user: Seq<char>,
    update: TokenUpdate,
) -> bool {
    ||| world == start
    ||| exists|id: String| #[trigger]
        is_account_of(format, start, user, id) && secure_data_at_most(start, world, id) && {
            let file = key(AccountFile::Secure(id));
            ||| same_file(world, start, file)
            ||| world.files.contains_key(file) && is_updated(
                format,
                start,
                id,
                update,
                world.files[file],
            )
        }
}

/// Whether the account's encrypted file holds the new tokens and all else is as it was; the
/// temporary sibling is gone.
pub open spec fn updated(
    format: Format,
    start: World,
    world: World,
    user: Seq<char>,
    update: TokenUpdate,
    id: String,
) -> bool {
    let file = key(AccountFile::Secure(id));
    &&& is_account_of(format, start, user, id)
    &&& secure_data_at_most(start, world, id)
    &&& world.files.contains_key(file)
    &&& is_updated(format, start, id, update, world.files[file])
    &&& !world.files.contains_key(key(AccountFile::SecureTemp(id)))
}

/// The temporary file of an account's data is no account's encrypted file, and not the list of
/// accounts, whatever the ids.
pub proof fn law_temporary_file_is_another(id: String, other: String)
    ensures
        key(AccountFile::SecureTemp(id)) != key(AccountFile::Secure(other)),
        key(AccountFile::SecureTemp(id)) != key(AccountFile::Users),
{
    reveal_names();
    let temporary = AccountFile::SecureTemp(id).name();
    assert(temporary.last() == 'p');
    assert(AccountFile::Secure(other).name().last() == 'c');
    assert(AccountFile::Users.name().last() == 'l');
    lemma_keys_differ(AccountFile::SecureTemp(id), AccountFile::Secure(other));
    lemma_keys_differ(AccountFile::SecureTemp(id), AccountFile::Users);
}

/// Whether `error` is one that an update fails with where things stand as in `start`: a request
/// failed, or the machine found the decryption too much work; or no account is the user's; or the
/// account's encrypted file does not open under its passphrase.
pub open spec fn is_update_failure<E>(
    format: Format,
    start: World,
    user_id: String,
    error: AccountError<E>,
) -> bool {
    match error {
        AccountError::Outside(_) => true,
        AccountError::Decrypt(OpenError::ExcessiveWork { .. }) => true,
        AccountError::UserNotFound(user) => {
            &&& user == user_id
            &&& accounts_of(format, start) matches Some(accounts)
            &&& !has_user(accounts, user_id@)
        },
        AccountError::Decrypt(OpenError::Unreadable(_)) => exists|id: String| #[trigger]
            is_account_of(format, start, user_id@, id) && start.keyring.contains_key(id@)
                && start.files.contains_key(key(AccountFile::Secure(id))) && age_plaintext(
                start.files[key(AccountFile::Secure(id))],
                start.keyring[id@],
            ) is None,
        _ => false,
    }
}

/// What holds at each moment of an update.
spec fn update_invariant<E>(
    format: Format,
    user_id: String,
    update: TokenUpdate,
    start: World,
    progress: Updating<E>,
    world: World,
) -> bool {
    match progress {
        Progress::Ask { state, request } => match state {
            UpdateAccountConfig::ReadingAccounts { user_id: u, update: t } => {
                &&& world == start
                &&& u == user_id && t == update
                &&& request == Request::ReadAccounts
            },
            UpdateAccountConfig::ReadingPassphrase { id, update: t } => {
                &&& world == start
                &&& t == update
                &&& is_account_of(format, start, user_id@, id)
                &&& request == Request::ReadPassphrase(id)
            },
            UpdateAccountConfig::ReadingSecureData { id, passphrase, update: t } => {
                &&& world == start
                &&& t == update
                &&& is_account_of(format, start, user_id@, id)
                &&& start.keyring.contains_key(id@) && start.keyring[id@] == passphrase@
                &&& request == Request::ReadFile(AccountFile::Secure(id))
            },
            UpdateAccountConfig::DecodingSecureData { id, passphrase, update: t } => {
                let file = key(AccountFile::Secure(id));
                &&& world == start
                &&& t == update
                &&& is_account_of(format, start, user_id@, id)
                &&& start.keyring.contains_key(id@) && start.keyring[id@] == passphrase@
                &&& start.files.contains_key(file)
                &&& (request matches Request::DecodeSecureData(plaintext) && age_plaintext(
                    start.files[file],
                    passphrase@,
                ) == Some(plaintext@))
            },
            UpdateAccountConfig::EncodingSecureData { id, passphrase } => {
                let file = key(AccountFile::Secure(id));
                &&& world == start
                &&& is_account_of(format, start, user_id@, id)
                &&& start.keyring.contains_key(id@) && start.keyring[id@] == passphrase@
                &&& start.files.contains_key(file)
                &&& decrypted(format, start.files[file], passphrase@) matches Some(data)
                &&& request == Request::EncodeSecureData(
                    with_tokens(data, update.access_token, update.refresh_token, update.expiration),
                )
            },
            UpdateAccountConfig::WritingSecureData { id } => {
                &&& world == start
                &&& is_account_of(format, start, user_id@, id)
                &&& request matches Request::WriteFile(AccountFile::SecureTemp(i), sealed)
                &&& i == id
                &&& is_updated(format, start, id, update, sealed@)
            },
            UpdateAccountConfig::RenamingSecureData => {
                &&& request matches Request::Rename(AccountFile::SecureTemp(id), to)
                &&& to == AccountFile::Secure(id)
                &&& is_account_of(format, start, user_id@, id)
                &&& secure_data_at_most(start, world, id)
                &&& same_file(world, start, key(AccountFile::Secure(id)))
                &&& is_updated(
                    format,
                    start,
                    id,
                    update,
                    world.files[key(AccountFile::SecureTemp(id))],
                )
            },
        },
        Progress::Finished(Ok(_)) => exists|id: String| #[trigger]
            updated(format, start, world, user_id@, update, id),
        Progress::Finished(Err(error)) => {
            &&& is_update_failure(format, start, user_id, error)
            &&& {
                ||| world == start
                ||| exists|id: String| #[trigger]
                    is_account_of(format, start, user_id@, id) && secure_data_at_most(
                        start,
                        world,
                        id,
                    ) && same_file(world, start, key(AccountFile::Secure(id)))
            }
        },
    }
}

/// One answer keeps what holds of an update.
proof fn lemma_update_step<E>(
    format: Format,
    user_id: String,
    update: TokenUpdate,
    start: World,
    progress: Updating<E>,
    world: World,
    reply: Reply<E>,
    next: Updating<E>,
    after: World,
)
    requires
        update_invariant(format, user_id, update, start, progress, world),
        progress matches Progress::Ask { state, request } && performs(
            format,
            world,
            request,
            reply,
            after,
        ) && update_step(state, reply, next),
    ensures
        update_invariant(format, user_id, update, start, next, after),
{
    let request = progress->request;
    match progress->state {
        UpdateAccountConfig::ReadingAccounts { .. } => {},
        UpdateAccountConfig::ReadingPassphrase { .. } => {},
        UpdateAccountConfig::ReadingSecureData { id, passphrase, update: t } => {
            if let Reply::Bytes(sealed) = reply {
                let opened = choose|opened: Result<Vec<u8>, OpenError>|
                    opens(sealed@, passphrase@, opened) && next == #[trigger] opened_update::<E>(
                        id,
                        passphrase,
                        t,
                        opened,
                    );
                assert(next == opened_update::<E>(id, passphrase, t, opened));
                assert(is_account_of(format, start, user_id@, id));
            }
        },
        UpdateAccountConfig::DecodingSecureData { .. } => {},
        UpdateAccountConfig::EncodingSecureData { id, passphrase } => {
            if let Reply::Bytes(plaintext) = reply {
                let sealed = choose|sealed: Result<Vec<u8>, age::EncryptError>|
                    seals(plaintext@, passphrase@, sealed) && next == #[trigger] sealed_update::<E>(
                        id,
                        sealed,
                    );
                assert(next == sealed_update::<E>(id, sealed));
            }
        },
        UpdateAccountConfig::WritingSecureData { id } => {
            law_temporary_file_is_another(id, id);
            if reply is Failed {
                lemma_but_for_file(world, after, key(AccountFile::SecureTemp(id)));
                assert(same_file(after, start, key(AccountFile::Secure(id))));
                assert(is_account_of(format, start, user_id@, id));
            }
        },
        UpdateAccountConfig::RenamingSecureData => {
            if let Request::Rename(AccountFile::SecureTemp(id), _) = request {
                law_temporary_file_is_another(id, id);
                assert(is_account_of(format, start, user_id@, id));
                assert forall|name: Seq<u8>|
                    name != key(AccountFile::Secure(id)) && name != key(AccountFile::SecureTemp(id))
                    implies #[trigger] same_file(after, start, name) by {
                    assert(same_file(world, start, name));
                }
                if reply is Done {
                    assert(updated(format, start, after, user_id@, update, id));
                }
            }
        },
    }
}

/// A run of an update.
pub open spec fn is_update_run<E>(
    format: Format,
    user_id: String,
    update: TokenUpdate,
    run: Run<UpdateAccountConfig, Result<(), AccountError<E>>, E>,
) -> bool {
    &&& is_run(
        format,
        |state: UpdateAccountConfig, reply: Reply<E>, next: Updating<E>|
            update_step(state, reply, next),
        run,
    )
    &&& run.progress[0] == begun_update::<E>(user_id, update)
}

proof fn lemma_update_run<E>(
    format: Format,
    user_id: String,
    update: TokenUpdate,
    run: Run<UpdateAccountConfig, Result<(), AccountError<E>>, E>,
    at: int,
)
    requires
        is_update_run(format, user_id, update, run),
        0 <= at <= run.replies.len(),
    ensures
        update_invariant(
            format,
            user_id,
            update,
            run.worlds[0],
            run.progress[at],
            run.worlds[at],
        ),
    decreases at,
{
    if at > 0 {
        let before = at - 1;
        lemma_update_run(format, user_id, update, run, before);
        let reply = run.replies[before];
        lemma_update_step(
            format,
            user_id,
            update,
            run.worlds[0],
            run.progress[before],
            run.worlds[before],
            reply,
            run.progress[at],
            run.worlds[at],
        );
    }
}

/// At every moment of an update the account's encrypted file is what it was, or holds the new
/// tokens whole: a failure never loses the old ones. Nothing that belongs to another account is
/// touched.
pub proof fn law_update_is_atomic<E>(
    format: Format,
    user_id: String,
    update: TokenUpdate,
    run: Run<UpdateAccountConfig, Result<(), AccountError<E>>, E>,
    at: int,
)
    requires
        is_update_run(format, user_id, update, run),
        0 <= at <= run.replies.len(),
    ensures
        updates_atomically(format, run.worlds[0], run.worlds[at], user_id@, update),
{
    lemma_update_run(format, user_id, update, run, at);
    let start = run.worlds[0];
    let world = run.worlds[at];
    match run.progress[at] {
        Progress::Ask {
            state: UpdateAccountConfig::RenamingSecureData,
            request: Request::Rename(AccountFile::SecureTemp(id), _),
        } => {
            assert(is_account_of(format, start, user_id@, id));
        },
        Progress::Finished(Ok(_)) => {
            let id = choose|id: String| #[trigger]
                updated(format, start, world, user_id@, update, id);
            assert(is_account_of(format, start, user_id@, id));
        },
        _ => {},
    }
}

/// An update that succeeds leaves the account's encrypted file with the new tokens in it, all else
/// of its data as it was, and changes nothing besides.
pub proof fn law_update_replaces_the_tokens<E>(
    format: Format,
    user_id: String,
    update: TokenUpdate,
    run: Run<UpdateAccountConfig, Result<(), AccountError<E>>, E>,
)
    requires
        is_update_run(format, user_id, update, run),
        run.progress.last() matches Progress::Finished(Ok(_)),
    ensures
        exists|id: String| #[trigger]
            updated(format, run.worlds[0], run.worlds.last(), user_id@, update, id),
{
    lemma_update_run(format, user_id, update, run, run.replies.len() as int);
    let world = run.worlds[run.replies.len() as int];
    let id = choose|id: String| #[trigger]
        updated(format, run.worlds[0], world, user_id@, update, id);
    assert(updated(format, run.worlds[0], run.worlds.last(), user_id@, update, id));
}

/// An update that fails loses nothing: the list of accounts, every account's encrypted file, every
/// store and the whole keyring are as they were. It fails for want of an account only where no
/// account is the user's, and cannot read the data only where they do not open under the account's
/// passphrase; in every other failure a request failed, or the machine found the work too much.
pub proof fn law_failed_update_loses_nothing<E>(
    format: Format,
    user_id: String,
    update: TokenUpdate,
    run: Run<UpdateAccountConfig, Result<(), AccountError<E>>, E>,
    error: AccountError<E>,
)
    requires
        is_update_run(format, user_id, update, run),
        run.progress.last() == Updating::<E>::Finished(Err(error)),
    ensures
        is_update_failure(format, run.worlds[0], user_id, error),
        run.worlds.last().folders == run.worlds[0].folders,
        run.worlds.last().keyring == run.worlds[0].keyring,
        same_file(run.worlds.last(), run.worlds[0], key(AccountFile::Users)),
        forall|id: String|
            same_file(
                run.worlds.last(),
                run.worlds[0],
                #[trigger] key(AccountFile::Secure(id)),
            ),
{
    let end = run.replies.len() as int;
    lemma_update_run(format, user_id, update, run, end);
    let start = run.worlds[0];
    let world = run.worlds.last();
    assert(world == run.worlds[end]);
    if world != start {
        let id = choose|id: String| #[trigger]
            is_account_of(format, start, user_id@, id) && secure_data_at_most(start, world, id)
                && same_file(world, start, key(AccountFile::Secure(id)));
        law_temporary_file_is_another(id, id);
        law_files_are_distinct(id);
        assert forall|other: String|
            same_file(world, start, #[trigger] key(AccountFile::Secure(other))) by {
            law_temporary_file_is_another(id, other);
        }
    }
}

/// Whether the account at `at` in the list is the first of `user`.
pub open spec fn is_first_of(accounts: Seq<AccountData>, user: Seq<char>, at: int) -> bool {
    &&& 0 <= at < accounts.len()
    &&& accounts[at].user_id@ == user
    &&& forall|j: int| 0 <= j < at ==> (#[trigger] accounts[j]).user_id@ != user
}

/// Whether no account in the list is the user's.
pub open spec fn is_nowhere(accounts: Seq<AccountData>, user: Seq<char>) -> bool {
    forall|j: int| 0 <= j < accounts.len() ==> (#[trigger] accounts[j]).user_id@ != user
}

/// What the encrypted file of the account at `at` in the list holds, under the passphrase that the
/// keyring has for it.
pub open spec fn secure_data_at(format: Format, world: World, at: int) -> Option<
    SecureAccountData,
> {
    match accounts_of(format, world) {
        Some(accounts) => {
            let id = accounts[at].id;
            let file = key(AccountFile::Secure(id));
            if world.keyring.contains_key(id@) && world.files.contains_key(file) {
                decrypted(format, world.files[file], world.keyring[id@])
            } else {
                None
            }
        },
        None => None,
    }
}

/// Whether `run` is one of an update of the tokens and the expiration that are given.
pub open spec fn is_token_update_run<E>(
    format: Format,
    user_id: String,
    access_token: Option<String>,
    refresh_token: Option<Option<String>>,
    expiration: Option<Option<u64>>,
    run: Run<UpdateAccountConfig, Result<(), AccountError<E>>, E>,
) -> bool {
    &&& is_run(
        format,
        |state: UpdateAccountConfig, reply: Reply<E>, next: Updating<E>|
            update_step(state, reply, next),
        run,
    )
    &&& run.progress[0] == begun_token_update::<E>(
        user_id,
        access_token,
        refresh_token,
        expiration,
    )
}

/// An update that succeeds had an account of the user to update. What the encrypted file of the
/// first of them then holds, under the passphrase that it was and is kept with, has the access
/// token, the refresh token and the expiration that were given, each where it was given and the old
/// one where it was not; a refresh token that is given as none is none. The device and the client
/// id are the old ones.
pub proof fn law_update_keeps_what_is_given<E>(
    format: Format,
    user_id: String,
    access_token: Option<String>,
    refresh_token: Option<Option<String>>,
    expiration: Option<Option<u64>>,
    run: Run<UpdateAccountConfig, Result<(), AccountError<E>>, E>,
)
    requires
        is_token_update_run(format, user_id, access_token, refresh_token, expiration, run),
        run.progress.last() matches Progress::Finished(Ok(_)),
    ensures
        accounts_of(format, run.worlds[0]) matches Some(accounts) && exists|at: int| #[trigger]
            is_first_of(accounts, user_id@, at) && {
                &&& secure_data_at(format, run.worlds[0], at) matches Some(old)
                &&& secure_data_at(format, run.worlds.last(), at) matches Some(new)
                &&& new.access_token == match access_token {
                    Some(token) => token,
                    None => old.access_token,
                }
                &&& new.refresh_token == match refresh_token {
                    Some(token) => token,
                    None => old.refresh_token,
                }
                &&& new.expiration == match expiration {
                    Some(time) => time,
                    None => old.expiration,
                }
                &&& new.device_id == old.device_id
                &&& new.client_id == old.client_id
            },
{
    let update = TokenUpdate { access_token, refresh_token, expiration };
    law_update_replaces_the_tokens(format, user_id, update, run);
    let start = run.worlds[0];
    let world = run.worlds.last();
    let id = choose|id: String| #[trigger]
        updated(format, start, world, user_id@, update, id);
    let accounts = accounts_of(format, start)->0;
    let at = choose|at: int| #[trigger]
        first_of_user(accounts, user_id@, at) && accounts[at].id == id;
    assert(is_first_of(accounts, user_id@, at));
    lemma_list_unchanged(format, start, world, id);
}

/// What touches an account's encrypted file at most leaves the list of accounts.
proof fn lemma_list_unchanged(format: Format, start: World, world: World, id: String)
    requires
        secure_data_at_most(start, world, id),
    ensures
        accounts_of(format, world) == accounts_of(format, start),
{
    law_files_are_distinct(id);
    assert(same_file(world, start, key(AccountFile::Users)));
}

/// A request that fails ends the update, with its failure and no other; and it is the only way to
/// such an end.
pub proof fn law_failed_request_fails_the_update<E>(
    format: Format,
    user_id: String,
    update: TokenUpdate,
    run: Run<UpdateAccountConfig, Result<(), AccountError<E>>, E>,
    at: int,
    error: E,
)
    requires
        is_update_run(format, user_id, update, run),
        0 <= at < run.replies.len(),
    ensures
        run.replies[at] == Reply::Failed(error) <==> run.progress[at + 1] == Updating::<
            E,
        >::Finished(Err(AccountError::Outside(error))),
{
    lemma_update_run(format, user_id, update, run, at);
    let reply = run.replies[at];
    let next = run.progress[at + 1];
    assert(update_step(run.progress[at]->state, reply, next));
    match run.progress[at]->state {
        UpdateAccountConfig::ReadingSecureData { id, passphrase, update: t } => {
            if let Reply::Bytes(sealed) = reply {
                let opened = choose|opened: Result<Vec<u8>, OpenError>|
                    opens(sealed@, passphrase@, opened) && next == #[trigger] opened_update::<E>(
                        id,
                        passphrase,
                        t,
                        opened,
                    );
                assert(next == opened_update::<E>(id, passphrase, t, opened));
            }
        },
        UpdateAccountConfig::EncodingSecureData { id, passphrase } => {
            if let Reply::Bytes(plaintext) = reply {
                let sealed = choose|sealed: Result<Vec<u8>, age::EncryptError>|
                    seals(plaintext@, passphrase@, sealed) && next == #[trigger] sealed_update::<E>(
                        id,
                        sealed,
                    );
                assert(next == sealed_update::<E>(id, sealed));
            }
        },
        _ => {},
    }
}

/// An update of which no request fails, and which comes to its end, succeeds where the user has an
/// account; unless the account's data do not open, or the machine finds that too much work. Where
/// no account is the user's it ends with that, and names the user.
pub proof fn law_update_succeeds<E>(
    format: Format,
    user_id: String,
    update: TokenUpdate,
    run: Run<UpdateAccountConfig, Result<(), AccountError<E>>, E>,
    outcome: Result<(), AccountError<E>>,
)
    requires
        is_update_run(format, user_id, update, run),
        run.progress.last() == Updating::<E>::Finished(outcome),
        forall|i: int| 0 <= i < run.replies.len() ==> !((#[trigger] run.replies[i]) is Failed),
    ensures
        accounts_of(format, run.worlds[0]) matches Some(accounts) && match outcome {
            Ok(_) => exists|at: int| #[trigger] is_first_of(accounts, user_id@, at),
            Err(AccountError::UserNotFound(user)) => user == user_id && is_nowhere(
                accounts,
                user_id@,
            ),
            Err(AccountError::Decrypt(_)) => exists|at: int| #[trigger]
                is_first_of(accounts, user_id@, at),
            _ => false,
        },
{
    let end = run.replies.len() as int;
    let start = run.worlds[0];
    lemma_update_run(format, user_id, update, run, end);
    assert(run.progress[0] is Ask);
    let last = run.replies[end - 1];
    match outcome {
        Ok(_) => {
            let id = choose|id: String| #[trigger]
                updated(format, start, run.worlds[end], user_id@, update, id);
            lemma_first_of(format, start, user_id@, id);
        },
        Err(AccountError::Outside(error)) => {
            law_failed_request_fails_the_update(format, user_id, update, run, end - 1, error);
        },
        Err(AccountError::Decrypt(_)) => {
            lemma_update_run(format, user_id, update, run, end - 1);
            let state = run.progress[end - 1]->state;
            assert(update_step(state, last, run.progress[end]));
            if let UpdateAccountConfig::ReadingSecureData { id, .. } = state {
                lemma_first_of(format, start, user_id@, id);
            } else if let UpdateAccountConfig::EncodingSecureData { id, passphrase } = state {
                if let Reply::Bytes(plaintext) = last {
                    let sealed = choose|sealed: Result<Vec<u8>, age::EncryptError>|
                        seals(plaintext@, passphrase@, sealed) && run.progress[end]
                            == #[trigger] sealed_update::<E>(id, sealed);
                    assert(run.progress[end] == sealed_update::<E>(id, sealed));
                }
            }
        },
        Err(AccountError::UserNotFound(_)) => {
            assert(is_nowhere(accounts_of(format, start)->0, user_id@));
        },
        _ => {},
    }
}

proof fn lemma_first_of(format: Format, world: World, user: Seq<char>, id: String)
    requires
        is_account_of(format, world, user, id),
    ensures
        accounts_of(format, world) matches Some(accounts) && exists|at: int| #[trigger]
            is_first_of(accounts, user, at) && accounts[at].id == id,
{
    let accounts = accounts_of(format, world)->0;
    let at = choose|at: int| #[trigger]
        first_of_user(accounts, user, at) && accounts[at].id == id;
    assert(is_first_of(accounts, user, at));
}

/// How many answers an update has had where it asks for this.
spec fn update_answers<E>(progress: Updating<E>) -> int {
    match progress {
        Progress::Ask { state, .. } => match state {
            UpdateAccountConfig::ReadingAccounts { .. } => 0,
            UpdateAccountConfig::ReadingPassphrase { .. } => 1,
            UpdateAccountConfig::ReadingSecureData { .. } => 2,
            UpdateAccountConfig::DecodingSecureData { .. } => 3,
            UpdateAccountConfig::EncodingSecureData { .. } => 4,
            UpdateAccountConfig::WritingSecureData { .. } => 5,
            UpdateAccountConfig::RenamingSecureData => 6,
        },
        Progress::Finished(_) => 7,
    }
}

/// An update ends: it asks for each of the list, the passphrase, the file, its decoding, its
/// encoding, its writing and its renaming once at most. One that succeeds has asked for all.
pub proof fn law_update_ends<E>(
    format: Format,
    user_id: String,
    update: TokenUpdate,
    run: Run<UpdateAccountConfig, Result<(), AccountError<E>>, E>,
)
    requires
        is_update_run(format, user_id, update, run),
    ensures
        run.replies.len() <= 7,
        run.progress.last() matches Progress::Finished(Ok(_)) ==> run.replies.len() == 7,
        run.replies.len() == 7 ==> run.progress.last() is Finished,
{
    lemma_update_answers(format, user_id, update, run, run.replies.len() as int);
}

proof fn lemma_update_answers<E>(
    format: Format,
    user_id: String,
    update: TokenUpdate,
    run: Run<UpdateAccountConfig, Result<(), AccountError<E>>, E>,
    at: int,
)
    requires
        is_update_run(format, user_id, update, run),
        0 <= at <= run.replies.len(),
    ensures
        at <= update_answers(run.progress[at]),
        run.progress[at] is Ask ==> at == update_answers(run.progress[at]),
        run.progress[at] matches Progress::Finished(Ok(_)) ==> at == 7,
    decreases at,
{
    if at > 0 {
        let before = at - 1;
        lemma_update_answers(format, user_id, update, run, before);
        let reply = run.replies[before];
        let next = run.progress[at];
        let state = run.progress[before]->state;
        assert(update_step(state, reply, next));
        match state {
            UpdateAccountConfig::ReadingSecureData { id, passphrase, update: t } => {
                if let Reply::Bytes(sealed) = reply {
                    let opened = choose|opened: Result<Vec<u8>, OpenError>|
                        opens(sealed@, passphrase@, opened) && next == #[trigger] opened_update::<
                            E,
                        >(id, passphrase, t, opened);
                    assert(next == opened_update::<E>(id, passphrase, t, opened));
                }
            },
            UpdateAccountConfig::EncodingSecureData { id, passphrase } => {
                if let Reply::Bytes(plaintext) = reply {
                    let sealed = choose|sealed: Result<Vec<u8>, age::EncryptError>|
                        seals(plaintext@, passphrase@, sealed) && next == #[trigger] sealed_update::<
                            E,
                        >(id, sealed);
                    assert(next == sealed_update::<E>(id, sealed));
                }
            },
            _ => {},
        }
    }
}

} // verus!
