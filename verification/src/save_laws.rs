//! What holds of the creation of an account, however the requests turn out.

use crate::account::added_to;
use crate::account::AccountData;
use crate::account::SecureAccountData;
use crate::account::UserId;
use crate::files::AccountFile;
use crate::request::AccountError;
use crate::request::Progress;
use crate::request::Reply;
use crate::request::Request;
use crate::save::begun_creation;
use crate::save::begun_save;
use crate::save::cleans_up;
use crate::save::save_step;
use crate::save::sealed_save;
use crate::save::AccountCreationGuard;
use crate::save::NewAccount;
use crate::save::SaveNewAccount;
use crate::save::Saving;
use crate::vault::seals;
use crate::world::accounts_of;
use crate::world::decrypted;
use crate::world::is_run;
use crate::world::key;
use crate::world::law_files_are_distinct;
use crate::world::lemma_but_for_file;
use crate::world::performs;
use crate::world::same_file;
use crate::world::unhindered;
use crate::world::Format;
use crate::world::Run;
use crate::world::World;
use vstd::prelude::*;

verus! {

/// Whether `file` is one that the creation of the account kept under `id` may write or remove.
pub open spec fn is_own_file(id: String, file: Seq<u8>) -> bool {
    ||| file == key(AccountFile::Users)
    ||| file == key(AccountFile::UsersTemp)
    ||| file == key(AccountFile::Backup)
    ||| file == key(AccountFile::BackupTemp)
    ||| file == key(AccountFile::Secure(id))
    ||| file == key(AccountFile::SecureTemp(id))
}

/// Whether all is as it was at `start` that is not the account's own.
pub open spec fn others_untouched(id: String, start: World, world: World) -> bool {
    &&& forall|name: Seq<u8>| !is_own_file(id, name) ==> #[trigger] same_file(world, start, name)
    &&& forall|name: Seq<u8>|
        name != key(AccountFile::Store(id)) ==> (#[trigger] world.folders.contains(name)
            <==> start.folders.contains(name))
    &&& forall|user: Seq<char>|
        user != id@ ==> (#[trigger] world.keyring.contains_key(user)
            <==> start.keyring.contains_key(user))
    &&& forall|user: Seq<char>|
        user != id@ && start.keyring.contains_key(user) ==> #[trigger] world.keyring[user]
            == start.keyring[user]
}

/// Whether the account's encrypted file holds `data` under `passphrase`.
pub open spec fn keeps_secure_data(
    format: Format,
    world: World,
    id: String,
    passphrase: Seq<char>,
    data: SecureAccountData,
) -> bool {
    let file = key(AccountFile::Secure(id));
    &&& world.files.contains_key(file)
    &&& decrypted(format, world.files[file], passphrase) == Some(data)
}

/// Whether the account is kept: listed behind the accounts of before, its data encrypted, its
/// passphrase in the keyring.
pub open spec fn kept(
    format: Format,
    start: World,
    world: World,
    new: NewAccount,
    data: SecureAccountData,
) -> bool {
    &&& accounts_of(format, start) matches Some(accounts)
    &&& accounts_of(format, world) == Some(added_to(accounts, new.data))
    &&& keeps_secure_data(format, world, new.data.id, new.passphrase@, data)
    &&& world.keyring.contains_key(new.data.id@)
    &&& world.keyring[new.data.id@] == new.passphrase@
}

/// Whether no temporary file is left.
pub open spec fn no_temporary_files(id: String, world: World) -> bool {
    &&& !world.files.contains_key(key(AccountFile::SecureTemp(id)))
    &&& !world.files.contains_key(key(AccountFile::UsersTemp))
    &&& !world.files.contains_key(key(AccountFile::BackupTemp))
}

/// Whether nothing of the account is left, and the list of accounts is what it was.
pub open spec fn rolled_back(format: Format, start: World, world: World, id: String) -> bool {
    &&& no_temporary_files(id, world)
    &&& !world.files.contains_key(key(AccountFile::Secure(id)))
    &&& !world.folders.contains(key(AccountFile::Store(id)))
    &&& accounts_of(format, world) == accounts_of(format, start)
    &&& world.keyring == start.keyring
}

/// Whether the clean-up was let do its work: what it was to take away is gone.
pub open spec fn cleanup_unhindered<E>(
    progress: Saving<E>,
    world: World,
    reply: Reply<E>,
) -> bool {
    match progress {
        Progress::Ask { state: SaveNewAccount::RemovingBackup { .. }, request } => unhindered(
            world,
            request,
            reply,
        ),
        Progress::Ask { state: SaveNewAccount::CleaningUp { .. }, request } => unhindered(
            world,
            request,
            reply,
        ),
        _ => true,
    }
}

/// Whether `guard` is the one of the account kept under `id` and no more was created than it
/// says.
spec fn guards(guard: AccountCreationGuard, id: String, backup_created: bool) -> bool {
    guard == AccountCreationGuard {
        id,
        backup_created,
        keyring_created: false,
        committed: false,
    }
}

/// Whether the backup holds the accounts of `start`.
spec fn backed_up(format: Format, start: World, world: World) -> bool {
    let backup = key(AccountFile::Backup);
    &&& accounts_of(format, start) is Some
    &&& world.files.contains_key(backup)
    &&& (format.accounts)(world.files[backup]) == accounts_of(format, start)
}

/// Whether `bytes` are the list of accounts with the new one in it.
spec fn new_list(format: Format, start: World, new: NewAccount, bytes: Seq<u8>) -> bool {
    &&& accounts_of(format, start) matches Some(accounts)
    &&& (format.accounts)(bytes) == Some(added_to(accounts, new.data))
}

/// Whether the list of accounts, the store and the keyring are as they were at `start`.
spec fn before_commit(start: World, world: World, new: NewAccount) -> bool {
    &&& others_untouched(new.data.id, start, world)
    &&& same_file(world, start, key(AccountFile::Users))
    &&& world.folders == start.folders
    &&& world.keyring == start.keyring
}

/// What holds at each moment of the creation of an account. `clean` says that the clean-up was
/// unhindered so far.
spec fn save_invariant<E>(
    format: Format,
    new: NewAccount,
    data: SecureAccountData,
    start: World,
    clean: bool,
    progress: Saving<E>,
    world: World,
) -> bool {
    let id = new.data.id;
    let accounts = accounts_of(format, start);
    &&& others_untouched(id, start, world)
    &&& match progress {
        Progress::Ask { state, request } => match state {
            SaveNewAccount::EncodingSecureData { new: n } => {
                &&& n == new
                &&& request == Request::EncodeSecureData(data)
                &&& world == start
            },
            SaveNewAccount::OpeningKeyring { new: n, sealed } => {
                &&& n == new
                &&& request == Request::OpenKeyring(id)
                &&& decrypted(format, sealed@, new.passphrase@) == Some(data)
                &&& world == start
            },
            SaveNewAccount::ReadingAccounts { new: n, guard, sealed } => {
                &&& n == new
                &&& request == Request::ReadAccounts
                &&& guards(guard, id, false)
                &&& decrypted(format, sealed@, new.passphrase@) == Some(data)
                &&& world == start
            },
            SaveNewAccount::EncodingBackup { new: n, guard, sealed, accounts: a } => {
                &&& n == new
                &&& (request matches Request::EncodeAccounts(list) && list@ == a@)
                &&& guards(guard, id, false)
                &&& decrypted(format, sealed@, new.passphrase@) == Some(data)
                &&& accounts == Some(a@)
                &&& world == start
            },
            SaveNewAccount::WritingBackup { new: n, guard, sealed, accounts: a } => {
                &&& n == new
                &&& (request matches Request::WriteFile(AccountFile::BackupTemp, bytes)
                    && (format.accounts)(bytes@) == Some(a@))
                &&& guards(guard, id, false)
                &&& decrypted(format, sealed@, new.passphrase@) == Some(data)
                &&& accounts == Some(a@)
                &&& world == start
            },
            SaveNewAccount::RenamingBackup { new: n, guard, sealed, accounts: a } => {
                &&& n == new
                &&& request == Request::Rename(AccountFile::BackupTemp, AccountFile::Backup)
                &&& guards(guard, id, false)
                &&& decrypted(format, sealed@, new.passphrase@) == Some(data)
                &&& accounts == Some(a@)
                &&& before_commit(start, world, new)
                &&& (format.accounts)(world.files[key(AccountFile::BackupTemp)]) == accounts
            },
            SaveNewAccount::EncodingAccounts { new: n, guard, sealed } => {
                &&& n == new
                &&& accounts is Some
                &&& (request matches Request::EncodeAccounts(list) && list@ == added_to(
                    accounts->0,
                    new.data,
                ))
                &&& guards(guard, id, true)
                &&& decrypted(format, sealed@, new.passphrase@) == Some(data)
                &&& before_commit(start, world, new)
                &&& backed_up(format, start, world)
            },
            SaveNewAccount::WritingSecureData { new: n, guard, users } => {
                &&& n == new
                &&& (request matches Request::WriteFile(AccountFile::SecureTemp(i), bytes) && i
                    == id && decrypted(format, bytes@, new.passphrase@) == Some(data))
                &&& guards(guard, id, true)
                &&& new_list(format, start, new, users@)
                &&& before_commit(start, world, new)
                &&& backed_up(format, start, world)
            },
            SaveNewAccount::RenamingSecureData { new: n, guard, users } => {
                &&& n == new
                &&& request == Request::Rename(
                    AccountFile::SecureTemp(id),
                    AccountFile::Secure(id),
                )
                &&& guards(guard, id, true)
                &&& new_list(format, start, new, users@)
                &&& before_commit(start, world, new)
                &&& backed_up(format, start, world)
                &&& decrypted(
                    format,
                    world.files[key(AccountFile::SecureTemp(id))],
                    new.passphrase@,
                ) == Some(data)
            },
            SaveNewAccount::WritingUsers { new: n, guard } => {
                &&& n == new
                &&& (request matches Request::WriteFile(AccountFile::UsersTemp, bytes) && new_list(
                    format,
                    start,
                    new,
                    bytes@,
                ))
                &&& guards(guard, id, true)
                &&& before_commit(start, world, new)
                &&& backed_up(format, start, world)
                &&& keeps_secure_data(format, world, id, new.passphrase@, data)
            },
            SaveNewAccount::RenamingUsers { new: n, guard } => {
                &&& n == new
                &&& request == Request::Rename(AccountFile::UsersTemp, AccountFile::Users)
                &&& guards(guard, id, true)
                &&& before_commit(start, world, new)
                &&& backed_up(format, start, world)
                &&& keeps_secure_data(format, world, id, new.passphrase@, data)
                &&& new_list(format, start, new, world.files[key(AccountFile::UsersTemp)])
            },
            SaveNewAccount::StoringPassphrase { guard } => {
                &&& request == Request::StorePassphrase(id, new.passphrase)
                &&& guards(guard, id, true)
                &&& backed_up(format, start, world)
                &&& keeps_secure_data(format, world, id, new.passphrase@, data)
                &&& world.files.contains_key(key(AccountFile::Users))
                &&& new_list(format, start, new, world.files[key(AccountFile::Users)])
                &&& world.folders == start.folders
                &&& world.keyring == start.keyring
            },
            SaveNewAccount::RemovingBackup { guard } => {
                &&& request == Request::RemoveFile(AccountFile::Backup)
                &&& guard == AccountCreationGuard {
                    id,
                    backup_created: true,
                    keyring_created: true,
                    committed: false,
                }
                &&& kept(format, start, world, new, data)
                &&& backed_up(format, start, world)
                &&& world.folders == start.folders
            },
            SaveNewAccount::CleaningUp { guard, pending, outcome } => {
                let all = guard.cleanup_requests();
                let done = all.len() - pending@.len() - 1;
                &&& guard.id == id
                &&& 0 <= done < all.len()
                &&& request == all[done]
                &&& pending@ == all.skip(done + 1)
                &&& clean ==> cleaned(format, start, world, guard, done)
                &&& if guard.committed {
                    &&& outcome is Ok
                    &&& kept(format, start, world, new, data)
                    &&& world.folders == start.folders
                } else {
                    &&& outcome matches Err(AccountError::Outside(_))
                    &&& guards(guard, id, guard.backup_created)
                    &&& world.keyring == start.keyring
                    &&& if guard.backup_created {
                        done < 6 ==> backed_up(format, start, world)
                    } else {
                        same_file(world, start, key(AccountFile::Users))
                    }
                    &&& listed_soundly(format, start, world, new)
                }
            },
        },
        Progress::Finished(Ok(_)) => {
            &&& kept(format, start, world, new, data)
            &&& world.folders == start.folders
            &&& clean ==> no_temporary_files(id, world) && !world.files.contains_key(
                key(AccountFile::Backup),
            )
        },
        Progress::Finished(Err(error)) => {
            &&& error is Outside
            &&& world.keyring == start.keyring
            &&& listed_soundly(format, start, world, new)
        },
    }
}

/// Whether the folder lists the accounts of `start`, or those with the new one.
pub open spec fn listed_soundly(
    format: Format,
    start: World,
    world: World,
    new: NewAccount,
) -> bool {
    ||| accounts_of(format, world) == accounts_of(format, start)
    ||| {
        &&& accounts_of(format, start) matches Some(accounts)
        &&& accounts_of(format, world) == Some(added_to(accounts, new.data))
    }
}

/// What an unhindered clean-up has taken away after `done` requests.
spec fn cleaned(
    format: Format,
    start: World,
    world: World,
    guard: AccountCreationGuard,
    done: int,
) -> bool {
    &&& done >= 1 ==> !world.files.contains_key(key(AccountFile::SecureTemp(guard.id)))
    &&& done >= 2 ==> !world.files.contains_key(key(AccountFile::UsersTemp))
    &&& done >= 3 ==> !world.files.contains_key(key(AccountFile::BackupTemp))
    &&& guard.committed ==> !world.files.contains_key(key(AccountFile::Backup))
    &&& done >= 4 ==> !world.files.contains_key(key(AccountFile::Secure(guard.id)))
    &&& done >= 5 ==> !world.folders.contains(key(AccountFile::Store(guard.id)))
    &&& done >= 6 && guard.backup_created ==> accounts_of(format, world) == accounts_of(
        format,
        start,
    )
}

/// Whether `request` acts on no more than what belongs to the account kept under `id`.
spec fn is_own_request(id: String, request: Request) -> bool {
    match request {
        Request::ReadAccounts => true,
        Request::EncodeAccounts(_) => true,
        Request::EncodeSecureData(_) => true,
        Request::WriteFile(file, _) => is_own_file(id, key(file)),
        Request::Rename(from, to) => is_own_file(id, key(from)) && is_own_file(id, key(to)),
        Request::RemoveFile(file) => is_own_file(id, key(file)),
        Request::RemoveFolder(file) => file == AccountFile::Store(id),
        Request::OpenKeyring(_) => true,
        Request::StorePassphrase(i, _) => i == id,
        Request::DeletePassphrase(i) => i == id,
        _ => false,
    }
}

/// Such a request leaves all else as it is.
proof fn lemma_others_untouched<E>(
    format: Format,
    id: String,
    start: World,
    pre: World,
    request: Request,
    reply: Reply<E>,
    post: World,
)
    requires
        others_untouched(id, start, pre),
        is_own_request(id, request),
        performs(format, pre, request, reply, post),
    ensures
        others_untouched(id, start, post),
{
    if let Request::WriteFile(file, _) = request {
        if reply is Failed {
            lemma_but_for_file(pre, post, key(file));
        }
    }
    assert forall|name: Seq<u8>| !is_own_file(id, name) implies #[trigger] same_file(
        post,
        start,
        name,
    ) by {
        assert(same_file(pre, start, name));
        assert(same_file(post, pre, name));
    }
    let store = key(AccountFile::Store(id));
    assert forall|name: Seq<u8>| name != store implies (#[trigger] post.folders.contains(name)
        <==> start.folders.contains(name)) by {
        assert(pre.folders.contains(name) <==> start.folders.contains(name));
        assert(post.folders.remove(store).contains(name) <==> pre.folders.remove(store).contains(
            name,
        ));
    }
}

/// Whether `out` asks for the first request of the clean-up, with the others pending.
spec fn cleanup_begun<E>(
    guard: AccountCreationGuard,
    outcome: Result<(), AccountError<E>>,
    out: Saving<E>,
) -> bool {
    let all = guard.cleanup_requests();
    &&& out matches Progress::Ask {
        state: SaveNewAccount::CleaningUp { guard: g, pending, outcome: o },
        request,
    }
    &&& g == guard
    &&& o == outcome
    &&& all.len() == pending@.len() + 1
    &&& request == all[0]
    &&& pending@ == all.skip(1)
}

/// A clean-up begins with its first request.
proof fn lemma_cleanup_begins<E>(
    guard: AccountCreationGuard,
    outcome: Result<(), AccountError<E>>,
    out: Saving<E>,
)
    requires
        cleans_up(guard, outcome, out),
    ensures
        cleanup_begun(guard, outcome, out),
{
    if let Progress::Ask { state: SaveNewAccount::CleaningUp { pending, .. }, request } = out {
        assert((seq![request] + pending@)[0] == request);
        assert((seq![request] + pending@).skip(1) =~= pending@);
    }
}

/// Whether the creation of an account, which all held of so far, goes on so.
spec fn save_goes_on<E>(
    format: Format,
    new: NewAccount,
    data: SecureAccountData,
    start: World,
    clean: bool,
    progress: Saving<E>,
    world: World,
    reply: Reply<E>,
    next: Saving<E>,
    after: World,
) -> bool {
    &&& save_invariant(format, new, data, start, clean, progress, world)
    &&& progress matches Progress::Ask { state, request }
    &&& performs(format, world, request, reply, after)
    &&& save_step(state, reply, next)
}

/// Whether the list of accounts is not yet backed up.
spec fn is_before_backup<E>(state: SaveNewAccount<E>) -> bool {
    ||| state is EncodingSecureData
    ||| state is OpeningKeyring
    ||| state is ReadingAccounts
    ||| state is EncodingBackup
    ||| state is WritingBackup
    ||| state is RenamingBackup
}

/// An answer that fails begins the clean-up, and leaves the list of accounts and its backup unless
/// it was one of these that was written.
proof fn lemma_failed_answer<E>(
    format: Format,
    progress: Saving<E>,
    world: World,
    reply: Reply<E>,
    next: Saving<E>,
    after: World,
)
    requires
        progress matches Progress::Ask { request, .. } && performs(
            format,
            world,
            request,
            reply,
            after,
        ),
    ensures
        progress->request matches Request::WriteFile(file, _) ==> reply is Failed ==> {
            &&& key(file) != key(AccountFile::Users) ==> same_file(
                after,
                world,
                key(AccountFile::Users),
            )
            &&& key(file) != key(AccountFile::Backup) ==> same_file(
                after,
                world,
                key(AccountFile::Backup),
            )
            &&& forall|other: Seq<u8>| other != key(file) ==> #[trigger] same_file(
                after,
                world,
                other,
            )
        },
        progress->state.guarded() matches Some(guard) ==> cleans_up(
            guard,
            Err(reply.failure()),
            next,
        ) ==> cleanup_begun(guard, Err(reply.failure()), next),
{
    if let Request::WriteFile(file, _) = progress->request {
        if reply is Failed {
            lemma_but_for_file(world, after, key(file));
        }
    }
    if let Some(guard) = progress->state.guarded() {
        if cleans_up(guard, Err(reply.failure()), next) {
            lemma_cleanup_begins(guard, Err(reply.failure()), next);
        }
    }
}

/// An answer that comes before the list of accounts is backed up.
#[verifier::spinoff_prover]
proof fn lemma_step_before_backup<E>(
    format: Format,
    new: NewAccount,
    data: SecureAccountData,
    start: World,
    clean: bool,
    progress: Saving<E>,
    world: World,
    reply: Reply<E>,
    next: Saving<E>,
    after: World,
)
    requires
        save_goes_on(format, new, data, start, clean, progress, world, reply, next, after),
        is_before_backup(progress->state),
    ensures
        save_invariant(
            format,
            new,
            data,
            start,
            clean && cleanup_unhindered(progress, world, reply),
            next,
            after,
        ),
{
    law_files_are_distinct(new.data.id);
    lemma_others_untouched(format, new.data.id, start, world, progress->request, reply, after);
    lemma_failed_answer(format, progress, world, reply, next, after);
    if progress->state is EncodingSecureData {
        if let Reply::Bytes(plaintext) = reply {
            let sealed = choose|sealed: Result<Vec<u8>, age::EncryptError>|
                seals(plaintext@, new.passphrase@, sealed) && next == #[trigger] sealed_save::<E>(
                    new,
                    sealed,
                );
            assert(next == sealed_save::<E>(new, sealed));
        }
    }
}

/// An answer that comes after the list of accounts is backed up, and before the clean-up.
#[verifier::spinoff_prover]
proof fn lemma_step_after_backup<E>(
    format: Format,
    new: NewAccount,
    data: SecureAccountData,
    start: World,
    clean: bool,
    progress: Saving<E>,
    world: World,
    reply: Reply<E>,
    next: Saving<E>,
    after: World,
)
    requires
        save_goes_on(format, new, data, start, clean, progress, world, reply, next, after),
        !is_before_backup(progress->state),
        !(progress->state is CleaningUp),
    ensures
        save_invariant(
            format,
            new,
            data,
            start,
            clean && cleanup_unhindered(progress, world, reply),
            next,
            after,
        ),
{
    law_files_are_distinct(new.data.id);
    lemma_others_untouched(format, new.data.id, start, world, progress->request, reply, after);
    lemma_failed_answer(format, progress, world, reply, next, after);
    if let SaveNewAccount::RemovingBackup { guard } = progress->state {
        lemma_cleanup_begins(AccountCreationGuard { committed: true, ..guard }, Ok(()), next);
    }
}

/// An answer that comes during the clean-up.
#[verifier::spinoff_prover]
proof fn lemma_step_of_cleanup<E>(
    format: Format,
    new: NewAccount,
    data: SecureAccountData,
    start: World,
    clean: bool,
    progress: Saving<E>,
    world: World,
    reply: Reply<E>,
    next: Saving<E>,
    after: World,
)
    requires
        save_goes_on(format, new, data, start, clean, progress, world, reply, next, after),
        progress->state is CleaningUp,
    ensures
        save_invariant(
            format,
            new,
            data,
            start,
            clean && cleanup_unhindered(progress, world, reply),
            next,
            after,
        ),
        next matches Progress::Finished(Err(_)) && clean && cleanup_unhindered(
            progress,
            world,
            reply,
        ) ==> rolled_back(format, start, after, new.data.id),
{
    let id = new.data.id;
    let guard = progress->state->CleaningUp_guard;
    let pending = progress->state->CleaningUp_pending;
    let all = guard.cleanup_requests();
    let done = all.len() - pending@.len() - 1;
    assert(all[0] == Request::RemoveFile(AccountFile::SecureTemp(id)));
    assert(all[1] == Request::RemoveFile(AccountFile::UsersTemp));
    assert(all[2] == Request::RemoveFile(AccountFile::BackupTemp));
    if !guard.committed {
        assert(all[3] == Request::RemoveFile(AccountFile::Secure(id)));
        assert(all[4] == Request::RemoveFolder(AccountFile::Store(id)));
        if guard.backup_created {
            assert(all[5] == Request::Rename(AccountFile::Backup, AccountFile::Users));
        }
    }
    law_files_are_distinct(id);
    lemma_others_untouched(format, id, start, world, progress->request, reply, after);
    if pending@.len() > 0 {
        if let Progress::Ask {
            state: SaveNewAccount::CleaningUp { pending: left, .. },
            request,
        } = next {
            assert((seq![request] + left@)[0] == request);
            assert(request == all[done + 1]);
            assert((seq![request] + left@).skip(1) =~= left@);
            assert(left@ =~= all.skip(done + 2));
        }
    }
}

/// One answer keeps what holds of the creation of an account.
proof fn lemma_save_step<E>(
    format: Format,
    new: NewAccount,
    data: SecureAccountData,
    start: World,
    clean: bool,
    progress: Saving<E>,
    world: World,
    reply: Reply<E>,
    next: Saving<E>,
    after: World,
)
    requires
        save_goes_on(format, new, data, start, clean, progress, world, reply, next, after),
    ensures
        save_invariant(
            format,
            new,
            data,
            start,
            clean && cleanup_unhindered(progress, world, reply),
            next,
            after,
        ),
{
    let state = progress->state;
    if is_before_backup(state) {
        lemma_step_before_backup(format, new, data, start, clean, progress, world, reply, next, after);
    } else if state is CleaningUp {
        lemma_step_of_cleanup(format, new, data, start, clean, progress, world, reply, next, after);
    } else {
        lemma_step_after_backup(format, new, data, start, clean, progress, world, reply, next, after);
    }
}

/// A run of the creation of an account.
pub open spec fn is_save_run<E>(
    format: Format,
    new: NewAccount,
    data: SecureAccountData,
    run: Run<SaveNewAccount<E>, Result<(), AccountError<E>>, E>,
) -> bool {
    &&& is_run(
        format,
        |state: SaveNewAccount<E>, reply: Reply<E>, next: Saving<E>| save_step(state, reply, next),
        run,
    )
    &&& run.progress[0] == begun_save::<E>(new, data)
}

/// Whether the clean-up was unhindered in the first `until` answers.
pub open spec fn unhindered_until<E>(
    run: Run<SaveNewAccount<E>, Result<(), AccountError<E>>, E>,
    until: int,
) -> bool {
    forall|i: int|
        0 <= i < until ==> cleanup_unhindered(
            run.progress[i],
            run.worlds[i],
            #[trigger] run.replies[i],
        )
}

proof fn lemma_save_run<E>(
    format: Format,
    new: NewAccount,
    data: SecureAccountData,
    run: Run<SaveNewAccount<E>, Result<(), AccountError<E>>, E>,
    at: int,
)
    requires
        is_save_run(format, new, data, run),
        0 <= at <= run.replies.len(),
    ensures
        save_invariant(
            format,
            new,
            data,
            run.worlds[0],
            unhindered_until(run, at),
            run.progress[at],
            run.worlds[at],
        ),
    decreases at,
{
    if at > 0 {
        let before = at - 1;
        lemma_save_run(format, new, data, run, before);
        let reply = run.replies[before];
        lemma_save_step(
            format,
            new,
            data,
            run.worlds[0],
            unhindered_until(run, before),
            run.progress[before],
            run.worlds[before],
            reply,
            run.progress[at],
            run.worlds[at],
        );
        if unhindered_until(run, at) {
            assert(cleanup_unhindered(run.progress[before], run.worlds[before], reply));
            assert(unhindered_until(run, before));
        }
    }
}

/// At no moment does the creation of an account touch what belongs to another: no file but the
/// list of accounts, its backup, its own encrypted file and the temporary ones, no other folder
/// than its store, no other entry of the keyring.
pub proof fn law_save_touches_its_own_only<E>(
    format: Format,
    new: NewAccount,
    data: SecureAccountData,
    run: Run<SaveNewAccount<E>, Result<(), AccountError<E>>, E>,
    at: int,
)
    requires
        is_save_run(format, new, data, run),
        0 <= at <= run.replies.len(),
    ensures
        others_untouched(new.data.id, run.worlds[0], run.worlds[at]),
{
    lemma_save_run(format, new, data, run, at);
}

/// At every moment of the creation of an account the folder lists the accounts of before, or
/// these and the new one: never a list half written.
pub proof fn law_save_lists_soundly<E>(
    format: Format,
    new: NewAccount,
    data: SecureAccountData,
    run: Run<SaveNewAccount<E>, Result<(), AccountError<E>>, E>,
    at: int,
)
    requires
        is_save_run(format, new, data, run),
        0 <= at <= run.replies.len(),
    ensures
        listed_soundly(format, run.worlds[0], run.worlds[at], new),
{
    lemma_save_run(format, new, data, run, at);
}

/// Where the creation of an account succeeds, the account is kept whole: it is listed as the
/// active one behind the accounts of before, its encrypted file holds its data under its
/// passphrase, and the keyring holds that. Nothing temporary stays behind where the clean-up was
/// unhindered.
pub proof fn law_save_keeps_the_account<E>(
    format: Format,
    new: NewAccount,
    data: SecureAccountData,
    run: Run<SaveNewAccount<E>, Result<(), AccountError<E>>, E>,
)
    requires
        is_save_run(format, new, data, run),
        run.progress.last() matches Progress::Finished(Ok(_)),
    ensures
        kept(format, run.worlds[0], run.worlds.last(), new, data),
        run.worlds.last().folders == run.worlds[0].folders,
        unhindered_until(run, run.replies.len() as int) ==> {
            &&& no_temporary_files(new.data.id, run.worlds.last())
            &&& !run.worlds.last().files.contains_key(key(AccountFile::Backup))
        },
{
    lemma_save_run(format, new, data, run, run.replies.len() as int);
}

/// Where the creation of an account fails, a request failed, and the keyring is as it was. All else
/// is too, where the creation had not come so far as to have anything to clean up; where it had,
/// and the clean-up was unhindered, nothing of the account is left, its store neither, and the
/// accounts listed are those of before.
pub proof fn law_save_fails_without_a_trace<E>(
    format: Format,
    new: NewAccount,
    data: SecureAccountData,
    run: Run<SaveNewAccount<E>, Result<(), AccountError<E>>, E>,
    error: AccountError<E>,
)
    requires
        is_save_run(format, new, data, run),
        run.progress.last() == Saving::<E>::Finished(Err(error)),
    ensures
        error is Outside,
        run.worlds.last().keyring == run.worlds[0].keyring,
        run.replies.len() > 0,
        match run.progress[run.replies.len() - 1]->state {
            SaveNewAccount::EncodingSecureData { .. } => run.worlds.last() == run.worlds[0],
            SaveNewAccount::OpeningKeyring { .. } => run.worlds.last() == run.worlds[0],
            _ => unhindered_until(run, run.replies.len() as int) ==> rolled_back(
                format,
                run.worlds[0],
                run.worlds.last(),
                new.data.id,
            ),
        },
{
    let end = run.replies.len() as int;
    lemma_save_run(format, new, data, run, end);
    assert(run.worlds.last() == run.worlds[end]);
    let before = end - 1;
    lemma_save_run(format, new, data, run, before);
    let reply = run.replies[before];
    let state = run.progress[before]->state;
    assert(save_step(state, reply, run.progress[end]));
    if state is CleaningUp {
        lemma_step_of_cleanup(
            format,
            new,
            data,
            run.worlds[0],
            unhindered_until(run, before),
            run.progress[before],
            run.worlds[before],
            reply,
            run.progress[end],
            run.worlds[end],
        );
        if unhindered_until(run, end) {
            assert(cleanup_unhindered(run.progress[before], run.worlds[before], reply));
            assert(unhindered_until(run, before));
        }
    }
}

/// Whether `now` lists the accounts that `then` does, in their order, with their ids and their users
/// and none of them active, and behind them one more: that of `user_id`, kept under `id` and
/// active.
pub open spec fn is_listed_behind(
    then: Seq<AccountData>,
    now: Seq<AccountData>,
    id: String,
    user_id: UserId,
) -> bool {
    &&& now.len() == then.len() + 1
    &&& forall|i: int|
        0 <= i < then.len() ==> {
            &&& (#[trigger] now[i]).id == then[i].id
            &&& now[i].user_id == then[i].user_id
            &&& !now[i].active
        }
    &&& now.last().id == id
    &&& now.last().user_id == user_id
    &&& now.last().active
}

/// A run of the creation of the account of `user_id`.
pub open spec fn is_creation_run<E>(
    format: Format,
    id: String,
    user_id: UserId,
    data: SecureAccountData,
    passphrase: String,
    run: Run<SaveNewAccount<E>, Result<(), AccountError<E>>, E>,
) -> bool {
    &&& is_run(
        format,
        |state: SaveNewAccount<E>, reply: Reply<E>, next: Saving<E>| save_step(state, reply, next),
        run,
    )
    &&& run.progress[0] == begun_creation::<E>(id, user_id, data, passphrase)
}

/// Whether `request` is one by which an account is created, and not one by which what was created
/// is taken back or what is no longer needed is taken away.
pub open spec fn creates(request: Request) -> bool {
    match request {
        Request::EncodeSecureData(_) => true,
        Request::OpenKeyring(_) => true,
        Request::ReadAccounts => true,
        Request::EncodeAccounts(_) => true,
        Request::WriteFile(..) => true,
        Request::Rename(from, _) => from != AccountFile::Backup,
        Request::StorePassphrase(..) => true,
        _ => false,
    }
}

/// Whether a request by which the account is created failed at `at`.
pub open spec fn creation_fails_at<E>(
    run: Run<SaveNewAccount<E>, Result<(), AccountError<E>>, E>,
    at: int,
) -> bool {
    &&& 0 <= at < run.replies.len()
    &&& run.progress[at] matches Progress::Ask { request, .. }
    &&& creates(request)
    &&& run.replies[at] is Failed
}

/// The creation of an account succeeds exactly where no request failed by which it is created:
/// what fails of the removal of the backup and of the clean-up is passed over. Then the account is
/// listed as the active one behind the accounts of before, of which none is active any more; its
/// encrypted file holds its data under its passphrase, and the keyring holds that. Where one
/// failed, the creation fails with that failure.
pub proof fn law_creation_succeeds<E>(
    format: Format,
    id: String,
    user_id: UserId,
    data: SecureAccountData,
    passphrase: String,
    run: Run<SaveNewAccount<E>, Result<(), AccountError<E>>, E>,
    outcome: Result<(), AccountError<E>>,
)
    requires
        is_creation_run(format, id, user_id, data, passphrase, run),
        run.progress.last() == Saving::<E>::Finished(outcome),
    ensures
        outcome is Ok <==> forall|i: int| !#[trigger] creation_fails_at(run, i),
        outcome matches Err(error) ==> exists|i: int| #[trigger]
            creation_fails_at(run, i) && (run.replies[i] matches Reply::Failed(failure) && error
                == AccountError::Outside(failure)),
        outcome is Ok ==> {
            &&& accounts_of(format, run.worlds[0]) matches Some(then)
            &&& accounts_of(format, run.worlds.last()) matches Some(now)
            &&& is_listed_behind(then, now, id, user_id)
            &&& run.worlds.last().files.contains_key(key(AccountFile::Secure(id)))
            &&& decrypted(
                format,
                run.worlds.last().files[key(AccountFile::Secure(id))],
                passphrase@,
            ) == Some(data)
            &&& run.worlds.last().keyring.contains_key(id@)
            &&& run.worlds.last().keyring[id@] == passphrase@
        },
{
    let new = NewAccount { data: AccountData { id, user_id, active: true }, passphrase };
    let end = run.replies.len() as int;
    assert(run.progress.last() == run.progress[end]);
    lemma_failures(format, new, data, run, end);
    match outcome {
        Ok(_) => {
            law_save_keeps_the_account(format, new, data, run);
            assert forall|i: int| !#[trigger] creation_fails_at(run, i) by {}
        },
        Err(error) => {
            let i = choose|i: int|
                0 <= i < end && #[trigger] creation_fails_at(run, i) && (
                run.replies[i] matches Reply::Failed(failure) && error == AccountError::Outside(
                    failure,
                ));
            assert(creation_fails_at(run, i));
        },
    }
}

/// Whether no request failed by which the account is created, in the first `until` answers.
spec fn creation_unbroken<E>(
    run: Run<SaveNewAccount<E>, Result<(), AccountError<E>>, E>,
    until: int,
) -> bool {
    forall|i: int| 0 <= i < until ==> !#[trigger] creation_fails_at(run, i)
}

/// Whether the creation fails with `error`, and that of a request before `until`.
spec fn creation_broken<E>(
    run: Run<SaveNewAccount<E>, Result<(), AccountError<E>>, E>,
    until: int,
    error: AccountError<E>,
) -> bool {
    exists|i: int|
        0 <= i < until && #[trigger] creation_fails_at(run, i) && (
        run.replies[i] matches Reply::Failed(failure) && error == AccountError::Outside(failure))
}

/// What became of the creation of an account is what became of the requests by which it is
/// created.
spec fn fails_by_a_request<E>(
    run: Run<SaveNewAccount<E>, Result<(), AccountError<E>>, E>,
    at: int,
) -> bool {
    match run.progress[at] {
        Progress::Ask { state: SaveNewAccount::CleaningUp { outcome: Err(error), .. }, .. } =>
            creation_broken(run, at, error),
        Progress::Finished(Err(error)) => creation_broken(run, at, error),
        _ => creation_unbroken(run, at),
    }
}

proof fn lemma_failures<E>(
    format: Format,
    new: NewAccount,
    data: SecureAccountData,
    run: Run<SaveNewAccount<E>, Result<(), AccountError<E>>, E>,
    at: int,
)
    requires
        is_save_run(format, new, data, run),
        0 <= at <= run.replies.len(),
    ensures
        fails_by_a_request(run, at),
    decreases at,
{
    if at > 0 {
        let before = at - 1;
        lemma_failures(format, new, data, run, before);
        lemma_save_run(format, new, data, run, before);
        let reply = run.replies[before];
        let next = run.progress[at];
        let progress = run.progress[before];
        let state = progress->state;
        assert(save_step(state, reply, next));
        assert(performs(format, run.worlds[before], progress->request, reply, run.worlds[at]));
        if creation_unbroken(run, before) && !creation_fails_at(run, before) {
            assert(creation_unbroken(run, at));
        }
        if let Progress::Ask {
            state: SaveNewAccount::CleaningUp { guard, pending, outcome },
            request,
        } = progress {
            lemma_cleanup_creates_nothing(guard);
            assert(!creation_fails_at(run, before));
            if let Err(error) = outcome {
                let i = choose|i: int|
                    0 <= i < before && #[trigger] creation_fails_at(run, i) && (
                    run.replies[i] matches Reply::Failed(failure) && error == AccountError::Outside(
                        failure,
                    ));
                assert(creation_fails_at(run, i));
                assert(creation_broken(run, at, error));
            }
        } else if let SaveNewAccount::EncodingSecureData { new: n } = state {
            if let Reply::Bytes(plaintext) = reply {
                let sealed = choose|sealed: Result<Vec<u8>, age::EncryptError>|
                    seals(plaintext@, n.passphrase@, sealed) && next == #[trigger] sealed_save::<E>(
                        n,
                        sealed,
                    );
                assert(next == sealed_save::<E>(n, sealed));
            } else {
                assert(creation_fails_at(run, before));
            }
        } else if !(state is RemovingBackup) {
            if reply is Failed {
                assert(creation_fails_at(run, before));
            }
        }
    }
}

proof fn lemma_cleanup_creates_nothing(guard: AccountCreationGuard)
    ensures
        forall|i: int|
            0 <= i < guard.cleanup_requests().len() ==> !creates(
                #[trigger] guard.cleanup_requests()[i],
            ),
{
}

/// Where the data are not encoded, or the keyring does not open, the creation of an account is
/// over with that: nothing was created yet, and nothing is taken away, the store neither.
pub proof fn law_creation_that_has_not_begun_touches_nothing<E>(
    format: Format,
    new: NewAccount,
    data: SecureAccountData,
    run: Run<SaveNewAccount<E>, Result<(), AccountError<E>>, E>,
    at: int,
)
    requires
        is_save_run(format, new, data, run),
        0 <= at < run.replies.len(),
        run.progress[at] matches Progress::Ask { request, .. } && (request is EncodeSecureData
            || request is OpenKeyring),
        run.replies[at] is Failed,
    ensures
        run.progress[at + 1] is Finished,
        run.worlds[at + 1] == run.worlds[0],
{
    lemma_save_run(format, new, data, run, at);
    let reply = run.replies[at];
    assert(save_step(run.progress[at]->state, reply, run.progress[at + 1]));
    if let Progress::Ask { state: SaveNewAccount::CleaningUp { guard, .. }, request } =
        run.progress[at] {
        lemma_cleanup_creates_nothing(guard);
    }
}

/// How many answers the creation of an account has had where it asks for this, or how many it can
/// have had.
spec fn save_answers<E>(progress: Saving<E>) -> int {
    match progress {
        Progress::Ask { state, .. } => match state {
            SaveNewAccount::EncodingSecureData { .. } => 0,
            SaveNewAccount::OpeningKeyring { .. } => 1,
            SaveNewAccount::ReadingAccounts { .. } => 2,
            SaveNewAccount::EncodingBackup { .. } => 3,
            SaveNewAccount::WritingBackup { .. } => 4,
            SaveNewAccount::RenamingBackup { .. } => 5,
            SaveNewAccount::EncodingAccounts { .. } => 6,
            SaveNewAccount::WritingSecureData { .. } => 7,
            SaveNewAccount::RenamingSecureData { .. } => 8,
            SaveNewAccount::WritingUsers { .. } => 9,
            SaveNewAccount::RenamingUsers { .. } => 10,
            SaveNewAccount::StoringPassphrase { .. } => 11,
            SaveNewAccount::RemovingBackup { .. } => 12,
            SaveNewAccount::CleaningUp { pending, outcome, .. } => if outcome is Ok {
                15 - pending@.len()
            } else {
                17 - pending@.len()
            },
        },
        Progress::Finished(Ok(_)) => 16,
        Progress::Finished(Err(_)) => 18,
    }
}

proof fn lemma_save_answers<E>(
    format: Format,
    new: NewAccount,
    data: SecureAccountData,
    run: Run<SaveNewAccount<E>, Result<(), AccountError<E>>, E>,
    at: int,
)
    requires
        is_save_run(format, new, data, run),
        0 <= at <= run.replies.len(),
    ensures
        at <= save_answers(run.progress[at]),
        match run.progress[at] {
            Progress::Ask { state: SaveNewAccount::CleaningUp { outcome: Err(_), .. }, .. } => true,
            Progress::Finished(Err(_)) => true,
            progress => at == save_answers(progress),
        },
    decreases at,
{
    if at > 0 {
        let before = at - 1;
        lemma_save_answers(format, new, data, run, before);
        lemma_save_run(format, new, data, run, before);
        lemma_save_run(format, new, data, run, at);
        let reply = run.replies[before];
        let next = run.progress[at];
        let state = run.progress[before]->state;
        assert(save_step(state, reply, next));
        if let SaveNewAccount::EncodingSecureData { new: n } = state {
            if let Reply::Bytes(plaintext) = reply {
                let sealed = choose|sealed: Result<Vec<u8>, age::EncryptError>|
                    seals(plaintext@, n.passphrase@, sealed) && next == #[trigger] sealed_save::<E>(
                        n,
                        sealed,
                    );
                assert(next == sealed_save::<E>(n, sealed));
            }
        } else if let SaveNewAccount::CleaningUp { pending, .. } = state {
            if let Progress::Ask {
                state: SaveNewAccount::CleaningUp { pending: left, .. },
                request,
            } = next {
                assert((seq![request] + left@).len() == left@.len() + 1);
            }
        } else if let Progress::Ask {
            state: SaveNewAccount::CleaningUp { pending, guard, .. },
            request,
        } = next {
            assert((seq![request] + pending@).len() == pending@.len() + 1);
        }
    }
}

/// The creation of an account ends: after sixteen answers where it succeeds, and after eighteen at
/// most where it fails.
pub proof fn law_creation_ends<E>(
    format: Format,
    new: NewAccount,
    data: SecureAccountData,
    run: Run<SaveNewAccount<E>, Result<(), AccountError<E>>, E>,
)
    requires
        is_save_run(format, new, data, run),
    ensures
        run.replies.len() <= 18,
        run.progress.last() matches Progress::Finished(Ok(_)) ==> run.replies.len() == 16,
        run.replies.len() == 18 ==> run.progress.last() is Finished,
{
    let end = run.replies.len() as int;
    lemma_save_answers(format, new, data, run, end);
    assert(run.progress.last() == run.progress[end]);
    lemma_save_run(format, new, data, run, end);
}

/// Whether `requests` are made one after the other, with things standing as in `worlds` between
/// them, and what they are to take away is gone.
pub open spec fn carried_through<E>(
    format: Format,
    requests: Seq<Request>,
    worlds: Seq<World>,
    replies: Seq<Reply<E>>,
) -> bool {
    &&& replies.len() == requests.len()
    &&& worlds.len() == requests.len() + 1
    &&& forall|i: int|
        0 <= i < replies.len() ==> performs(
            format,
            worlds[i],
            requests[i],
            #[trigger] replies[i],
            worlds[i + 1],
        ) && unhindered(worlds[i], requests[i], replies[i])
}

/// What is undone after `done` requests of the clean-up of an account that was not kept, begun
/// where things stood as in `begin`.
spec fn undone(
    format: Format,
    start: World,
    begin: World,
    world: World,
    guard: AccountCreationGuard,
    done: int,
) -> bool {
    &&& cleaned(format, start, world, guard, done)
    &&& if guard.backup_created {
        done < 6 ==> backed_up(format, start, world)
    } else {
        same_file(world, start, key(AccountFile::Users))
    }
    &&& if guard.keyring_created && done == guard.cleanup_requests().len() {
        world.keyring == begin.keyring.remove(guard.id@)
    } else {
        world.keyring == begin.keyring
    }
}

proof fn lemma_undone<E>(
    format: Format,
    start: World,
    guard: AccountCreationGuard,
    worlds: Seq<World>,
    replies: Seq<Reply<E>>,
    done: int,
)
    requires
        !guard.committed,
        guard.backup_created ==> backed_up(format, start, worlds[0]),
        !guard.backup_created ==> same_file(worlds[0], start, key(AccountFile::Users)),
        guard.keyring_created ==> guard.backup_created,
        carried_through(format, guard.cleanup_requests(), worlds, replies),
        0 <= done <= replies.len(),
    ensures
        undone(format, start, worlds[0], worlds[done], guard, done),
    decreases done,
{
    let all = guard.cleanup_requests();
    let id = guard.id;
    if done > 0 {
        let before = done - 1;
        lemma_undone(format, start, guard, worlds, replies, before);
        law_files_are_distinct(id);
        let reply = replies[before];
        assert(all[0] == Request::RemoveFile(AccountFile::SecureTemp(id)));
        assert(all[1] == Request::RemoveFile(AccountFile::UsersTemp));
        assert(all[2] == Request::RemoveFile(AccountFile::BackupTemp));
        assert(all[3] == Request::RemoveFile(AccountFile::Secure(id)));
        assert(all[4] == Request::RemoveFolder(AccountFile::Store(id)));
        if guard.backup_created {
            assert(all[5] == Request::Rename(AccountFile::Backup, AccountFile::Users));
        }
        if guard.keyring_created {
            assert(all[6] == Request::DeletePassphrase(id));
            assert(all.len() == 7);
        }
        let pre = worlds[before];
        let post = worlds[done];
        assert(performs(format, pre, all[before], reply, post));
        if before == 6 && reply is Failed {
            assert(pre.keyring =~= pre.keyring.remove(id@));
        }
    }
}

/// The creation of an account can be broken off at any request, and leaves nothing then: where all
/// is done that is to be done in that case, and is let do its work, nothing of the account is left,
/// its store neither, and the accounts listed and the keyring are those of before. Before the
/// keyring is opened there is nothing to be done. The id is a new one.
pub proof fn law_abandoned_creation_leaves_nothing<E>(
    format: Format,
    new: NewAccount,
    data: SecureAccountData,
    run: Run<SaveNewAccount<E>, Result<(), AccountError<E>>, E>,
    at: int,
    worlds: Seq<World>,
    replies: Seq<Reply<E>>,
)
    requires
        is_save_run(format, new, data, run),
        0 <= at <= run.replies.len(),
        !run.worlds[0].keyring.contains_key(new.data.id@),
        run.progress[at] matches Progress::Ask { state, .. } && !(state is CleaningUp)
            && carried_through(format, state.abandoned_requests(), worlds, replies),
        worlds[0] == run.worlds[at],
    ensures
        match run.progress[at]->request {
            Request::EncodeSecureData(_) => worlds.last() == run.worlds[0],
            Request::OpenKeyring(_) => worlds.last() == run.worlds[0],
            _ => rolled_back(format, run.worlds[0], worlds.last(), new.data.id),
        },
{
    lemma_save_run(format, new, data, run, at);
    let start = run.worlds[0];
    let begin = run.worlds[at];
    let id = new.data.id;
    if let Some(guard) = run.progress[at]->state.guarded() {
        let end = replies.len() as int;
        lemma_undone(format, start, guard, worlds, replies, end);
        assert(worlds.last() == worlds[end]);
        if guard.keyring_created {
            let left = begin.keyring.remove(id@);
            assert(left =~= start.keyring) by {
                assert forall|user: Seq<char>| left.contains_key(user) <==> start.keyring.contains_key(
                    user,
                ) by {
                    if user != id@ {
                        assert(begin.keyring.contains_key(user) <==> start.keyring.contains_key(
                            user,
                        ));
                    }
                }
            }
        }
    }
}

} // verus!
