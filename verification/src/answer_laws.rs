//! What holds of single answers: of one that is not to the request, of a failure, and of those that
//! are passed over.

use crate::activate::activate_step;
use crate::activate::Activating;
use crate::activate::SetActiveAccount;
use crate::files::AccountFile;
use crate::login::login_step;
use crate::login::new_login_step;
use crate::login::LoggingIn;
use crate::login::Login;
use crate::login::LoginReply;
use crate::login::NewLogin;
use crate::login::NewlyLoggingIn;
use crate::orphans::sweep_step;
use crate::orphans::RemoveOrphanedAccounts;
use crate::orphans::Sweeping;
use crate::refresh::watch_step;
use crate::refresh::HandleRefreshTokens;
use crate::refresh::RefreshReply;
use crate::refresh::Watching;
use crate::refresh_laws::is_answer;
use crate::remove::remove_step;
use crate::remove::RemoveAccountConfig;
use crate::remove::Removing;
use crate::request::AccountError;
use crate::request::Progress;
use crate::request::Reply;
use crate::request::Request;
use crate::save::save_step;
use crate::save::AccountCreationGuard;
use crate::save::SaveNewAccount;
use crate::save::Saving;
use crate::update::update_step;
use crate::update::UpdateAccountConfig;
use crate::update::Updating;
use vstd::prelude::*;

verus! {

/// Whether `reply` is what an update waits for at `state`.
pub open spec fn answers_update<E>(state: UpdateAccountConfig, reply: Reply<E>) -> bool {
    match state {
        UpdateAccountConfig::ReadingAccounts { .. } => reply is Accounts,
        UpdateAccountConfig::ReadingPassphrase { .. } => reply is Text,
        UpdateAccountConfig::ReadingSecureData { .. } => reply is Bytes,
        UpdateAccountConfig::DecodingSecureData { .. } => reply is SecureData,
        UpdateAccountConfig::EncodingSecureData { .. } => reply is Bytes,
        UpdateAccountConfig::WritingSecureData { .. } => reply is Done,
        UpdateAccountConfig::RenamingSecureData => reply is Done,
    }
}

/// An update does not go on with an answer to something else: it is over, and says so.
pub proof fn law_update_takes_no_other_answer<E>(
    state: UpdateAccountConfig,
    reply: Reply<E>,
    out: Updating<E>,
)
    requires
        update_step(state, reply, out),
        !answers_update(state, reply),
        !(reply is Failed),
    ensures
        out == Updating::<E>::Finished(Err(AccountError::UnexpectedReply)),
{
}

/// Whether `reply` is what the choice of an account waits for at `state`.
pub open spec fn answers_choice<E>(state: SetActiveAccount, reply: Reply<E>) -> bool {
    match state {
        SetActiveAccount::ReadingAccounts { .. } => reply is Accounts,
        SetActiveAccount::EncodingAccounts => reply is Bytes,
        SetActiveAccount::WritingAccounts => reply is Done,
    }
}

/// The choice of an account does not go on with an answer to something else: it is over, and says
/// so.
pub proof fn law_choice_takes_no_other_answer<E>(
    state: SetActiveAccount,
    reply: Reply<E>,
    out: Activating<E>,
)
    requires
        activate_step(state, reply, out),
        !answers_choice(state, reply),
        !(reply is Failed),
    ensures
        out == Activating::<E>::Finished(Err(AccountError::UnexpectedReply)),
{
}

/// Whether `reply` is what a removal waits for at `state`. It passes over the answers to its
/// removals and to the last writing, whatever they are.
pub open spec fn answers_removal<E>(state: RemoveAccountConfig, reply: Reply<E>) -> bool {
    match state {
        RemoveAccountConfig::ReadingAccounts { .. } => reply is Accounts,
        RemoveAccountConfig::LookingForStore { .. } => reply == Reply::<E>::Exists(true),
        RemoveAccountConfig::LookingForSecureData { .. } => reply == Reply::<E>::Exists(true),
        RemoveAccountConfig::OpeningKeyring { .. } => reply is Done,
        RemoveAccountConfig::EncodingAccounts => reply is Bytes,
        _ => true,
    }
}

/// A removal goes on with no answer but the one that it waits for: with any other it is over.
pub proof fn law_removal_takes_no_other_answer<E>(
    state: RemoveAccountConfig,
    reply: Reply<E>,
    out: Removing,
)
    requires
        remove_step(state, reply, out),
        !answers_removal(state, reply),
    ensures
        out is Finished,
{
}

/// Whether `reply` is what a sweep waits for at `state`. It passes over the answers to its removals
/// and to the last writing, whatever they are.
pub open spec fn answers_sweep<E>(state: RemoveOrphanedAccounts, reply: Reply<E>) -> bool {
    match state {
        RemoveOrphanedAccounts::ReadingAccounts => reply matches Reply::Accounts(Some(_)),
        RemoveOrphanedAccounts::ListingFolder { .. } => reply is Entries,
        RemoveOrphanedAccounts::ListingKeyring { .. } => reply is Credentials,
        RemoveOrphanedAccounts::OpeningKeyring { .. } => reply is Done,
        RemoveOrphanedAccounts::EncodingAccounts => reply is Bytes,
        _ => true,
    }
}

/// A sweep goes on with no answer but the one that it waits for: with any other it is over.
pub proof fn law_sweep_takes_no_other_answer<E>(
    state: RemoveOrphanedAccounts,
    reply: Reply<E>,
    out: Sweeping,
)
    requires
        sweep_step(state, reply, out),
        !answers_sweep(state, reply),
    ensures
        out is Finished,
{
}

/// Whether `reply` is what the creation of an account waits for at `state`. It passes over the
/// answers to the removal of the backup and to the clean-up, whatever they are.
pub open spec fn answers_creation<E>(state: SaveNewAccount<E>, reply: Reply<E>) -> bool {
    match state {
        SaveNewAccount::EncodingSecureData { .. } => reply is Bytes,
        SaveNewAccount::OpeningKeyring { .. } => reply is Done,
        SaveNewAccount::ReadingAccounts { .. } => reply is Accounts,
        SaveNewAccount::EncodingBackup { .. } => reply is Bytes,
        SaveNewAccount::WritingBackup { .. } => reply is Done,
        SaveNewAccount::RenamingBackup { .. } => reply is Done,
        SaveNewAccount::EncodingAccounts { .. } => reply is Bytes,
        SaveNewAccount::WritingSecureData { .. } => reply is Done,
        SaveNewAccount::RenamingSecureData { .. } => reply is Done,
        SaveNewAccount::WritingUsers { .. } => reply is Done,
        SaveNewAccount::RenamingUsers { .. } => reply is Done,
        SaveNewAccount::StoringPassphrase { .. } => reply is Done,
        _ => true,
    }
}

/// The creation of an account does not go on with an answer to something else: it is over, or
/// cleans up what was created, and says so in the end.
pub proof fn law_creation_takes_no_other_answer<E>(
    state: SaveNewAccount<E>,
    reply: Reply<E>,
    out: Saving<E>,
)
    requires
        save_step(state, reply, out),
        !answers_creation(state, reply),
        !(reply is Failed),
    ensures
        match out {
            Progress::Finished(outcome) => outcome == Err::<(), AccountError<E>>(
                AccountError::UnexpectedReply,
            ) && (state is EncodingSecureData || state is OpeningKeyring),
            Progress::Ask { state: SaveNewAccount::CleaningUp { outcome, .. }, .. } => outcome
                == Err::<(), AccountError<E>>(AccountError::UnexpectedReply),
            Progress::Ask { .. } => false,
        },
{
}

/// Whether `reply` is what a login waits for at `state`; of the sweep it is any that is of the
/// disk, the keyring or the file format.
pub open spec fn answers_login<E>(state: Login, reply: LoginReply<E>) -> bool {
    match state {
        Login::Sweeping(_) => reply is Storage,
        Login::ReadingAccounts => reply matches LoginReply::Storage(Reply::Accounts(_)),
        Login::ReadingPassphrase { .. } => reply matches LoginReply::Storage(Reply::Text(_)),
        Login::ReadingSecureData { .. } => reply matches LoginReply::Storage(Reply::Bytes(_)),
        Login::DecodingSecureData { .. } => reply matches LoginReply::Storage(
            Reply::SecureData(_),
        ),
        Login::BuildingClient { .. } => reply is Done,
        Login::RestoringSession => reply is Done,
    }
}

/// A login does not go on with an answer to something else: it is over, and says so.
pub proof fn law_login_takes_no_other_answer<E>(
    state: Login,
    reply: LoginReply<E>,
    out: LoggingIn<E>,
)
    requires
        login_step(state, reply, out),
        !answers_login(state, reply),
        !(reply is Failed),
        !(reply matches LoginReply::Storage(Reply::Failed(_))),
    ensures
        out == LoggingIn::<E>::Finished(Err(AccountError::UnexpectedReply)),
{
}

/// Whether `reply` is what a login to a new account waits for at `state`; of the sweep it is any
/// that is of the disk, the keyring or the file format.
pub open spec fn answers_new_login<E>(state: NewLogin, reply: LoginReply<E>) -> bool {
    match state {
        NewLogin::Sweeping { .. } => reply is Storage,
        NewLogin::CreatingFolder { .. } => reply is Done,
        NewLogin::BuildingClient { .. } => reply is Done,
        NewLogin::LoggingIn { .. } => reply is LoggedIn,
    }
}

/// A login to a new account does not go on with an answer to something else: it is over, and says
/// so.
pub proof fn law_new_login_takes_no_other_answer<E>(
    state: NewLogin,
    reply: LoginReply<E>,
    out: NewlyLoggingIn<E>,
)
    requires
        new_login_step(state, reply, out),
        !answers_new_login(state, reply),
        !(reply is Failed),
        !(reply matches LoginReply::Storage(Reply::Failed(_))),
    ensures
        out == NewlyLoggingIn::<E>::Finished(Err(AccountError::UnexpectedReply)),
{
}

/// The watch over a session does not go on with an answer to something else. It is over, or waits
/// again where all that was asked for was to send the client or to report an error.
pub proof fn law_watch_takes_no_other_answer<E>(
    state: HandleRefreshTokens,
    reply: RefreshReply<E>,
    out: Watching<E>,
)
    requires
        watch_step(state, reply, out),
        !is_answer(state, reply),
    ensures
        out is Finished <==> !(state is SendingClient || state is ReportingUpdate),
        out matches Progress::Ask { state: next, .. } ==> next is Waiting,
{
}

/// A failure of the client ends a login, of whichever kind, with that failure, whatever it was at;
/// so does a failure of the disk, the keyring or the file format, but for the sweep.
pub proof fn law_failure_ends_a_login<E>(
    state: Login,
    out: LoggingIn<E>,
    new_state: NewLogin,
    new_out: NewlyLoggingIn<E>,
    failure: E,
)
    ensures
        login_step(state, LoginReply::Failed(failure), out) ==> out == LoggingIn::<E>::Finished(
            Err(AccountError::Outside(failure)),
        ),
        !(state is Sweeping) ==> login_step(state, LoginReply::Storage(Reply::Failed(failure)), out)
            ==> out == LoggingIn::<E>::Finished(Err(AccountError::Outside(failure))),
        new_login_step(new_state, LoginReply::Failed(failure), new_out) ==> new_out
            == NewlyLoggingIn::<E>::Finished(Err(AccountError::Outside(failure))),
        !(new_state is Sweeping) ==> new_login_step(
            new_state,
            LoginReply::Storage(Reply::Failed(failure)),
            new_out,
        ) ==> new_out == NewlyLoggingIn::<E>::Finished(Err(AccountError::Outside(failure))),
{
}

/// What is taken away is taken away as far as it goes: whatever the answer to it, a removal, a sweep
/// and the clean-up of a creation go on alike. So do a removal and a sweep after the last writing.
pub proof fn law_removals_heed_no_answer<E>(
    removal: RemoveAccountConfig,
    removing: Removing,
    sweep: RemoveOrphanedAccounts,
    sweeping: Sweeping,
    creation: SaveNewAccount<E>,
    saving: Saving<E>,
    one: Reply<E>,
    other: Reply<E>,
)
    requires
        removal is RemovingStore || removal is RemovingSecureData || removal is DeletingPassphrase
            || removal is WritingAccounts,
        sweep is Removing || sweep is WritingAccounts,
        creation is RemovingBackup || creation is CleaningUp,
    ensures
        remove_step(removal, one, removing) <==> remove_step(removal, other, removing),
        sweep_step(sweep, one, sweeping) <==> sweep_step(sweep, other, sweeping),
        save_step(creation, one, saving) <==> save_step(creation, other, saving),
{
}

/// What is to be cleaned up is what was created, unless it is to be kept: then it is the temporary
/// files alone, and these in any case. Nothing is to be done twice.
pub proof fn law_clean_up_is_of_what_was_created(guard: AccountCreationGuard)
    ensures
        ({
            let requests = guard.cleanup_requests();
            let lost = !guard.committed;
            &&& requests.contains(Request::RemoveFile(AccountFile::SecureTemp(guard.id)))
            &&& requests.contains(Request::RemoveFile(AccountFile::UsersTemp))
            &&& requests.contains(Request::RemoveFile(AccountFile::BackupTemp))
            &&& requests.contains(Request::RemoveFile(AccountFile::Secure(guard.id))) <==> lost
            &&& requests.contains(Request::RemoveFolder(AccountFile::Store(guard.id))) <==> lost
            &&& requests.contains(Request::Rename(AccountFile::Backup, AccountFile::Users)) <==> lost
                && guard.backup_created
            &&& requests.contains(Request::DeletePassphrase(guard.id)) <==> lost
                && guard.keyring_created
            &&& requests.len() == 3 + (if lost {
                2int
            } else {
                0
            }) + (if lost && guard.backup_created {
                1int
            } else {
                0
            }) + (if lost && guard.keyring_created {
                1int
            } else {
                0
            })
        }),
{
    let requests = guard.cleanup_requests();
    assert(requests[0] == Request::RemoveFile(AccountFile::SecureTemp(guard.id)));
    assert(requests[1] == Request::RemoveFile(AccountFile::UsersTemp));
    assert(requests[2] == Request::RemoveFile(AccountFile::BackupTemp));
    if !guard.committed {
        assert(requests[3] == Request::RemoveFile(AccountFile::Secure(guard.id)));
        assert(requests[4] == Request::RemoveFolder(AccountFile::Store(guard.id)));
        if guard.backup_created {
            assert(requests[5] == Request::Rename(AccountFile::Backup, AccountFile::Users));
        }
        if guard.keyring_created {
            assert(requests[requests.len() - 1] == Request::DeletePassphrase(guard.id));
        }
    }
}

/// Once its clean-up is begun the creation of an account leaves nothing more to do where it is
/// broken off; nor does it before the keyring is open.
pub proof fn law_clean_up_is_not_begun_twice<E>(state: SaveNewAccount<E>)
    ensures
        state.abandoned_requests().len() == 0 <==> state is EncodingSecureData || state
            is OpeningKeyring || state is CleaningUp,
{
}

} // verus!
