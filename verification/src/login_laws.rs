//! What holds of a login, however the requests turn out.

use crate::account::added_to;
use crate::account::first_of_user;
use crate::account::listed;
use crate::account::only_active;
use crate::account::server_part;
use crate::account::switched_to;
use crate::account::with_tokens;
use crate::account::Account;
use crate::account::AccountData;
use crate::account::SecureAccountData;
use crate::account_laws::law_added_account_is_the_active_one;
use crate::account_laws::law_switch_activates_the_user;
use crate::activate::SetActiveAccount;
use crate::activate_laws::is_activate_run;
use crate::activate_laws::law_choice_switches_the_list;
use crate::activate_laws::law_choice_touches_the_list_only;
use crate::files::is_credential;
use crate::files::AccountFile;
use crate::login::begun_login;
use crate::login::credentialed_login;
use crate::login::login_after_sweep;
use crate::login::login_step;
use crate::login::new_login_after_sweep;
use crate::login::new_login_step;
use crate::login::opened_login;
use crate::login::LoggingIn;
use crate::login::Login;
use crate::login::LoginMethod;
use crate::login::LoginOutcome;
use crate::login::LoginReply;
use crate::login::LoginRequest;
use crate::login::LoginResponse;
use crate::login::NewLogin;
use crate::login::NewlyLoggingIn;
use crate::orphans::begun_sweep;
use crate::orphans::sweep_step;
use crate::orphans::RemoveOrphanedAccounts;
use crate::orphans::Sweeping;
use crate::request::AccountError;
use crate::request::Progress;
use crate::request::Reply;
use crate::request::Request;
use crate::save::begun_save;
use crate::save::NewAccount;
use crate::save::SaveNewAccount;
use crate::save::Saving;
use crate::save_laws::is_save_run;
use crate::save_laws::keeps_secure_data;
use crate::save_laws::kept;
use crate::save_laws::law_save_keeps_the_account;
use crate::session::session_of;
use crate::sweep_laws::file_account;
use crate::sweep_laws::file_counts_for;
use crate::sweep_laws::is_listed;
use crate::sweep_laws::is_sweep_run;
use crate::sweep_laws::law_sweep_lists_soundly;
use crate::sweep_laws::law_sweep_spares_whole_accounts;
use crate::sweep_laws::leaves_whole_accounts;
use crate::sweep_laws::lemma_spoilt_by_a_writing;
use crate::sweep_laws::lemma_sweep_begins;
use crate::sweep_laws::lemma_sweep_ends;
use crate::sweep_laws::lemma_sweep_spoilt;
use crate::sweep_laws::lemma_sweep_step;
use crate::sweep_laws::lists_whole_accounts;
use crate::sweep_laws::orphaned;
use crate::sweep_laws::same_passphrase;
use crate::sweep_laws::standing;
use crate::sweep_laws::stands_whole;
use crate::sweep_laws::sweep_invariant;
use crate::sweep_laws::sweep_spoilt;
use crate::sweep_laws::sweep_written;
use crate::update::TokenUpdate;
use crate::update::UpdateAccountConfig;
use crate::update_laws::is_account_of;
use crate::update_laws::is_update_run;
use crate::update_laws::law_update_replaces_the_tokens;
use crate::update_laws::updated;
use crate::vault::age_plaintext;
use crate::vault::opens;
use crate::vault::OpenError;
use crate::world::accounts_of;
use crate::world::key;
use crate::world::law_files_are_distinct;
use crate::world::lemma_but_for_file;
use crate::world::performs;
use crate::world::same_file;
use crate::world::unhindered;
use crate::world::Format;
use crate::world::Run;
use crate::world::World;
use vstd::prelude::*;
use vstd::utf8::*;

verus! {

/// Whether a request of a login, made where things stand as in `pre`, can be answered by `reply`
/// and leave them as in `post`. To build a client makes its store at most.
pub open spec fn login_performs<E>(
    format: Format,
    pre: World,
    request: LoginRequest,
    reply: LoginReply<E>,
    post: World,
) -> bool {
    match request {
        LoginRequest::Storage(request) => {
            &&& reply matches LoginReply::Storage(reply)
            &&& performs(format, pre, request, reply, post)
        },
        LoginRequest::CreateFolder => post == pre && (reply is Done || reply is Failed),
        LoginRequest::BuildClient { id, .. } => {
            &&& reply is Done || reply is Failed
            &&& post == pre || post == World {
                folders: pre.folders.insert(key(AccountFile::Store(id))),
                ..pre
            }
        },
        LoginRequest::RestoreSession(_) => post == pre && (reply is Done || reply is Failed),
        LoginRequest::LogIn(_) => post == pre && (reply is LoggedIn || reply is Failed),
    }
}

/// A run of a login: how far it had come at each moment, how things stood then, and the answers
/// between.
pub struct LoginRun<S, R, E> {
    pub progress: Seq<Progress<S, LoginRequest, R>>,
    pub worlds: Seq<World>,
    pub replies: Seq<LoginReply<E>>,
}

/// A run of a login to the active account.
pub type ActiveLoginRun<E> = LoginRun<Login, Result<LoginOutcome, AccountError<E>>, E>;

/// A run of a login to a new account.
pub type NewLoginRun<E> = LoginRun<NewLogin, Result<Saving<E>, AccountError<E>>, E>;

/// Whether `run` is one that a login to the active account allows.
pub open spec fn is_login_run<E>(format: Format, run: ActiveLoginRun<E>) -> bool {
    &&& run.progress.len() == run.replies.len() + 1
    &&& run.worlds.len() == run.replies.len() + 1
    &&& login_after_sweep(begun_sweep(), run.progress[0])
    &&& forall|i: int|
        0 <= i < run.replies.len() ==> login_advances(
            format,
            run.progress[i],
            run.worlds[i],
            #[trigger] run.replies[i],
            run.progress[i + 1],
            run.worlds[i + 1],
        )
}

/// Whether the login at `progress` asks for something that `reply` answers, and goes on to `next`
/// with things standing as in `post`.
pub open spec fn login_advances<E>(
    format: Format,
    progress: LoggingIn<E>,
    pre: World,
    reply: LoginReply<E>,
    next: LoggingIn<E>,
    post: World,
) -> bool {
    &&& progress matches Progress::Ask { state, request }
    &&& login_performs(format, pre, request, reply, post)
    &&& login_step(state, reply, next)
}

/// Whether no writing of a file failed in the first `until` answers. One that fails can leave the
/// list of accounts half written.
pub open spec fn writes_unbroken<E>(run: ActiveLoginRun<E>, until: int) -> bool {
    forall|i: int|
        0 <= i < until ==> !write_broken(run.progress[i], #[trigger] run.replies[i])
}

pub open spec fn write_broken<E>(progress: LoggingIn<E>, reply: LoginReply<E>) -> bool {
    &&& progress matches Progress::Ask {
        request: LoginRequest::Storage(Request::WriteFile(..)),
        ..
    }
    &&& reply matches LoginReply::Storage(Reply::Failed(_))
}

/// Whether `account` is the one that is active, is kept whole, and holds `data` under
/// `passphrase`.
pub open spec fn ready(
    format: Format,
    world: World,
    account: AccountData,
    passphrase: Seq<char>,
    data: SecureAccountData,
) -> bool {
    &&& file_counts_for(account.id)
    &&& accounts_of(format, world) matches Some(accounts)
    &&& exists|at: int| #[trigger] only_active(accounts, at) && accounts[at] == account
    &&& keeps_secure_data(format, world, account.id, passphrase, data)
    &&& world.keyring.contains_key(account.id@)
    &&& world.keyring[account.id@] == passphrase
    &&& world.folders.contains(key(AccountFile::Store(account.id)))
}

/// What picks the only active account leaves it the only active one.
proof fn lemma_filter_keeps_active(
    accounts: Seq<AccountData>,
    pick: spec_fn(AccountData) -> bool,
    at: int,
) -> (now: int)
    requires
        only_active(accounts, at),
        pick(accounts[at]),
    ensures
        only_active(accounts.filter(pick), now),
        accounts.filter(pick)[now] == accounts[at],
    decreases accounts.len(),
{
    reveal(Seq::filter);
    let before = accounts.drop_last();
    let picked = before.filter(pick);
    if at == accounts.len() - 1 {
        assert forall|j: int| 0 <= j < picked.len() implies !(#[trigger] picked[j]).active by {
            assert(picked.contains(picked[j]));
            before.lemma_filter_contains_rev(pick, picked[j]);
            let i = choose|i: int| 0 <= i < before.len() && before[i] == picked[j];
            assert(accounts[i] == picked[j]);
        }
        picked.len() as int
    } else {
        assert forall|j: int| 0 <= j < before.len() && (#[trigger] before[j]).active implies j
            == at by {
            assert(accounts[j] == before[j]);
        }
        let now = lemma_filter_keeps_active(before, pick, at);
        assert(!accounts[accounts.len() - 1].active);
        let all = accounts.filter(pick);
        assert forall|j: int| 0 <= j < all.len() && (#[trigger] all[j]).active implies j == now by {
            if j < picked.len() {
                assert(all[j] == picked[j]);
            }
        }
        now
    }
}

/// A sweep leaves the account that a login takes as it is.
proof fn lemma_ready_after_sweep(
    format: Format,
    start: World,
    world: World,
    account: AccountData,
    passphrase: Seq<char>,
    data: SecureAccountData,
)
    requires
        ready(format, start, account, passphrase, data),
        leaves_whole_accounts(accounts_of(format, start)->0, format, start, world),
    ensures
        ready(format, world, account, passphrase, data),
{
    let accounts = accounts_of(format, start)->0;
    let id = account.id;
    let secure = key(AccountFile::Secure(id));
    let at = choose|at: int| #[trigger] only_active(accounts, at) && accounts[at] == account;
    assert(is_listed(accounts, id@)) by {
        assert(accounts[at].id@ == id@);
    }
    assert(start.files.contains_key(secure));
    assert(stands_whole(accounts, start, id@));
    assert(file_account(secure) == Some(id@));
    assert(same_file(world, start, secure));
    assert(same_passphrase(world, start, id@));
    let store = encode_utf8(id@);
    encode_utf8_valid_utf8(id@);
    encode_utf8_decode_utf8(id@);
    assert(world.folders.contains(store) <==> start.folders.contains(store));
    assert(key(AccountFile::Store(id)) == store);
    let left = accounts.filter(standing(accounts, start));
    let now = lemma_filter_keeps_active(accounts, standing(accounts, start), at);
    let listed_now = accounts_of(format, world)->0;
    let at_now = if accounts_of(format, world) == Some(accounts) { at } else { now };
    assert(only_active(listed_now, at_now) && listed_now[at_now] == account);
    assert(keeps_secure_data(format, world, id, passphrase, data));
}

/// What holds at each moment of a login to an account that was ready at `start`.
spec fn login_invariant<E>(
    format: Format,
    start: World,
    account: AccountData,
    passphrase: Seq<char>,
    data: SecureAccountData,
    progress: LoggingIn<E>,
    world: World,
) -> bool {
    let loaded_now = Account { data: account, secure_data: data };
    match progress {
        Progress::Ask { state: Login::Sweeping(sweep), request } => {
            &&& request matches LoginRequest::Storage(request)
            &&& sweep_invariant(
                format,
                start,
                true,
                false,
                false,
                Sweeping::Ask { state: sweep, request },
                world,
            ) || sweep_invariant(
                format,
                start,
                false,
                false,
                false,
                Sweeping::Ask { state: sweep, request },
                world,
            )
        },
        Progress::Ask { state, request } => ready(format, world, account, passphrase, data)
            && match state {
            Login::Sweeping(_) => false,
            Login::ReadingAccounts => request == LoginRequest::Storage(Request::ReadAccounts),
            Login::ReadingPassphrase { account: a } => {
                &&& a == account
                &&& request == LoginRequest::Storage(Request::ReadPassphrase(account.id))
            },
            Login::ReadingSecureData { account: a, passphrase: p } => {
                &&& a == account
                &&& p@ == passphrase
                &&& request == LoginRequest::Storage(
                    Request::ReadFile(AccountFile::Secure(account.id)),
                )
            },
            Login::DecodingSecureData { account: a, passphrase: p } => {
                &&& a == account
                &&& p@ == passphrase
                &&& request matches LoginRequest::Storage(Request::DecodeSecureData(bytes))
                &&& (format.secure_data)(bytes@) == Some(data)
            },
            Login::BuildingClient { loaded } => {
                &&& loaded == loaded_now
                &&& request matches LoginRequest::BuildClient { server, id, passphrase: p }
                &&& server@ == server_part(account.user_id@)
                &&& id == account.id
                &&& p@ == passphrase
            },
            Login::RestoringSession => request == LoginRequest::RestoreSession(
                session_of(loaded_now),
            ),
        },
        Progress::Finished(Ok(outcome)) => outcome == LoginOutcome::LoggedIn,
        Progress::Finished(Err(error)) => {
            ||| error is Outside
            ||| error matches AccountError::Decrypt(OpenError::ExcessiveWork { .. })
        },
    }
}

proof fn lemma_login_step<E>(
    format: Format,
    start: World,
    account: AccountData,
    passphrase: Seq<char>,
    data: SecureAccountData,
    progress: LoggingIn<E>,
    world: World,
    reply: LoginReply<E>,
    next: LoggingIn<E>,
    after: World,
)
    requires
        ready(format, start, account, passphrase, data),
        login_invariant(format, start, account, passphrase, data, progress, world),
        login_advances(format, progress, world, reply, next, after),
        !write_broken(progress, reply),
    ensures
        login_invariant(format, start, account, passphrase, data, next, after),
{
    match progress->state {
        Login::Sweeping(sweep) => {
            let request = progress->request->Storage_0;
            let reply = reply->Storage_0;
            let sweeping = choose|sweeping: Sweeping|
                sweep_step(sweep, reply, sweeping) && #[trigger] login_after_sweep(sweeping, next);
            let now = Sweeping::Ask { state: sweep, request };
            let clean = sweep_invariant(format, start, true, false, false, now, world);
            lemma_sweep_step(format, start, clean, now, world, reply, sweeping, after);
            if sweep_spoilt(now, reply) {
                lemma_sweep_spoilt(format, start, clean, now, world, reply);
            }
            if sweeping is Finished {
                lemma_sweep_ends(
                    format,
                    start,
                    accounts_of(format, start)->0,
                    clean && unhindered(world, request, reply),
                    sweep_written(now, reply),
                    after,
                );
                lemma_ready_after_sweep(format, start, after, account, passphrase, data);
            }
        },
        Login::ReadingAccounts => {
            let accounts = accounts_of(format, world)->0;
            let at = choose|at: int| #[trigger]
                only_active(accounts, at) && accounts[at] == account;
            if let LoginReply::Storage(Reply::Accounts(found)) = reply {
                assert(only_active(listed(found), at));
            }
        },
        Login::ReadingPassphrase { .. } => {},
        Login::ReadingSecureData { account: a, passphrase: p } => {
            if let LoginReply::Storage(Reply::Bytes(sealed)) = reply {
                let opened = choose|opened: Result<Vec<u8>, OpenError>|
                    opens(sealed@, p@, opened) && next == #[trigger] opened_login::<E>(
                        a,
                        p,
                        opened,
                    );
                assert(next == opened_login::<E>(a, p, opened));
            }
        },
        Login::DecodingSecureData { .. } => {},
        Login::BuildingClient { .. } => {},
        Login::RestoringSession => {},
    }
}

proof fn lemma_login_run<E>(
    format: Format,
    account: AccountData,
    passphrase: Seq<char>,
    data: SecureAccountData,
    run: ActiveLoginRun<E>,
    at: int,
)
    requires
        is_login_run(format, run),
        ready(format, run.worlds[0], account, passphrase, data),
        0 <= at <= run.replies.len(),
        writes_unbroken(run, at),
    ensures
        login_invariant(
            format,
            run.worlds[0],
            account,
            passphrase,
            data,
            run.progress[at],
            run.worlds[at],
        ),
    decreases at,
{
    if at > 0 {
        let before = at - 1;
        assert(writes_unbroken(run, before));
        lemma_login_run(format, account, passphrase, data, run, before);
        let reply = run.replies[before];
        lemma_login_step(
            format,
            run.worlds[0],
            account,
            passphrase,
            data,
            run.progress[before],
            run.worlds[before],
            reply,
            run.progress[at],
            run.worlds[at],
        );
    } else {
        lemma_sweep_begins(format, run.worlds[0]);
    }
}

/// A login takes the active account as it was kept: the client is built for the server of its
/// user, with its store and its passphrase, and restores the session that its data stand for. It
/// finds the account, and fails only where a request fails or the machine finds the decryption
/// too much work.
pub proof fn law_login_restores_the_active_account<E>(
    format: Format,
    account: AccountData,
    passphrase: Seq<char>,
    data: SecureAccountData,
    run: ActiveLoginRun<E>,
    at: int,
)
    requires
        is_login_run(format, run),
        ready(format, run.worlds[0], account, passphrase, data),
        0 <= at <= run.replies.len(),
        writes_unbroken(run, at),
    ensures
        match run.progress[at] {
            Progress::Ask { request: LoginRequest::BuildClient { server, id, passphrase: p }, .. }
            => {
                &&& server@ == server_part(account.user_id@)
                &&& id == account.id
                &&& p@ == passphrase
            },
            Progress::Ask { request: LoginRequest::RestoreSession(session), .. } => session
                == session_of(Account { data: account, secure_data: data }),
            Progress::Ask { .. } => true,
            Progress::Finished(Ok(outcome)) => outcome == LoginOutcome::LoggedIn,
            Progress::Finished(Err(error)) => {
                ||| error is Outside
                ||| error matches AccountError::Decrypt(OpenError::ExcessiveWork { .. })
            },
        },
{
    lemma_login_run(format, account, passphrase, data, run, at);
}

/// An account that was created as the active one, and has its store, is the one that a login
/// takes, with the data and the passphrase that it was created with.
pub proof fn law_created_account_is_ready(
    format: Format,
    start: World,
    world: World,
    new: NewAccount,
    data: SecureAccountData,
)
    requires
        file_counts_for(new.data.id),
        new.data.active,
        kept(format, start, world, new, data),
        world.folders.contains(key(AccountFile::Store(new.data.id))),
    ensures
        ready(format, world, new.data, new.passphrase@, data),
{
    let accounts = accounts_of(format, start)->0;
    law_added_account_is_the_active_one(accounts, new.data);
    let listed_now = accounts_of(format, world)->0;
    assert(listed_now == added_to(accounts, new.data));
    assert(only_active(listed_now, accounts.len() as int));
    assert(listed_now[accounts.len() as int] == new.data);
    assert(keeps_secure_data(format, world, new.data.id, new.passphrase@, data));
}

/// What was saved is what a login restores: where an account was created after its client made
/// its store, and a login follows, the client is built for the server of its user, with its id
/// and its passphrase, and restores the session that the saved data stand for.
pub proof fn law_login_restores_what_was_saved<E>(
    format: Format,
    new: NewAccount,
    data: SecureAccountData,
    save: Run<SaveNewAccount<E>, Result<(), AccountError<E>>, E>,
    run: ActiveLoginRun<E>,
    at: int,
)
    requires
        new.data.active,
        file_counts_for(new.data.id),
        is_save_run(format, new, data, save),
        save.progress.last() matches Progress::Finished(Ok(_)),
        save.worlds[0].folders.contains(key(AccountFile::Store(new.data.id))),
        is_login_run(format, run),
        run.worlds[0] == save.worlds.last(),
        0 <= at <= run.replies.len(),
        writes_unbroken(run, at),
    ensures
        match run.progress[at] {
            Progress::Ask { request: LoginRequest::BuildClient { server, id, passphrase }, .. }
            => {
                &&& server@ == server_part(new.data.user_id@)
                &&& id == new.data.id
                &&& passphrase@ == new.passphrase@
            },
            Progress::Ask { request: LoginRequest::RestoreSession(session), .. } => session
                == session_of(Account { data: new.data, secure_data: data }),
            Progress::Ask { .. } => true,
            Progress::Finished(Ok(outcome)) => outcome == LoginOutcome::LoggedIn,
            Progress::Finished(Err(error)) => {
                ||| error is Outside
                ||| error matches AccountError::Decrypt(OpenError::ExcessiveWork { .. })
            },
        },
{
    law_save_keeps_the_account(format, new, data, save);
    law_created_account_is_ready(format, save.worlds[0], save.worlds.last(), new, data);
    law_login_restores_the_active_account(format, new.data, new.passphrase@, data, run, at);
}

/// What an update put in the place of the old tokens is what a login then takes: where the account
/// that a login takes is the user's first, and an update of the user's tokens succeeds, a login
/// takes the account with the new tokens, and with all else as it was.
pub proof fn law_updated_account_is_ready<E>(
    format: Format,
    account: AccountData,
    passphrase: Seq<char>,
    data: SecureAccountData,
    user_id: String,
    update: TokenUpdate,
    run: Run<UpdateAccountConfig, Result<(), AccountError<E>>, E>,
)
    requires
        ready(format, run.worlds[0], account, passphrase, data),
        is_account_of(format, run.worlds[0], user_id@, account.id),
        is_update_run(format, user_id, update, run),
        run.progress.last() matches Progress::Finished(Ok(_)),
    ensures
        ready(
            format,
            run.worlds.last(),
            account,
            passphrase,
            with_tokens(data, update.access_token, update.refresh_token, update.expiration),
        ),
{
    law_update_replaces_the_tokens(format, user_id, update, run);
    let start = run.worlds[0];
    let world = run.worlds.last();
    let id = choose|id: String| #[trigger]
        updated(format, start, world, user_id@, update, id);
    let accounts = accounts_of(format, start)->0;
    let i = choose|i: int| #[trigger]
        first_of_user(accounts, user_id@, i) && accounts[i].id == account.id;
    let j = choose|j: int| #[trigger]
        first_of_user(accounts, user_id@, j) && accounts[j].id == id;
    assert(i == j);
    assert(id == account.id);
    let users = key(AccountFile::Users);
    assert(users != key(AccountFile::Secure(id)) && users != key(AccountFile::SecureTemp(id))) by {
        law_files_are_distinct(id);
    }
    assert(same_file(world, start, users));
    assert(accounts_of(format, world) == accounts_of(format, start));
    let at = choose|at: int| #[trigger] only_active(accounts, at) && accounts[at] == account;
    assert(only_active(accounts_of(format, world)->0, at));
    assert(keeps_secure_data(
        format,
        world,
        account.id,
        passphrase,
        with_tokens(data, update.access_token, update.refresh_token, update.expiration),
    ));
}

/// Whether the account at `at` in the list is kept whole, and holds `data` under `passphrase`.
pub open spec fn is_kept_at(
    format: Format,
    world: World,
    at: int,
    passphrase: Seq<char>,
    data: SecureAccountData,
) -> bool {
    &&& accounts_of(format, world) matches Some(accounts)
    &&& 0 <= at < accounts.len()
    &&& file_counts_for(accounts[at].id)
    &&& keeps_secure_data(format, world, accounts[at].id, passphrase, data)
    &&& world.keyring.contains_key(accounts[at].id@)
    &&& world.keyring[accounts[at].id@] == passphrase
    &&& world.folders.contains(key(AccountFile::Store(accounts[at].id)))
}

/// The account that was chosen is the one that a login takes, where it is kept whole and is the
/// user's only one.
pub proof fn law_chosen_account_is_ready<E>(
    format: Format,
    at: int,
    passphrase: Seq<char>,
    data: SecureAccountData,
    user_id: String,
    run: Run<SetActiveAccount, Result<(), AccountError<E>>, E>,
)
    requires
        is_kept_at(format, run.worlds[0], at, passphrase, data),
        forall|j: int|
            0 <= j < accounts_of(format, run.worlds[0])->0.len() ==> ((
            #[trigger] accounts_of(format, run.worlds[0])->0[j]).user_id@ == user_id@ <==> j == at),
        is_activate_run(format, user_id, true, run),
        run.progress.last() matches Progress::Finished(Ok(_)),
    ensures
        ready(
            format,
            run.worlds.last(),
            AccountData { active: true, ..accounts_of(format, run.worlds[0])->0[at] },
            passphrase,
            data,
        ),
{
    law_choice_switches_the_list(format, user_id, true, run);
    let end = run.replies.len() as int;
    law_choice_touches_the_list_only(format, user_id, true, run, end);
    let start = run.worlds[0];
    let world = run.worlds.last();
    assert(world == run.worlds[end]);
    let accounts = accounts_of(format, start)->0;
    law_switch_activates_the_user(accounts, user_id@, at);
    let switched = switched_to(accounts, user_id@, true);
    assert(only_active(switched, at));
    assert(switched[at] == AccountData { active: true, ..accounts[at] });
    let id = accounts[at].id;
    law_files_are_distinct(id);
    lemma_but_for_file(start, world, key(AccountFile::Users));
    assert(same_file(world, start, key(AccountFile::Secure(id))));
    assert(only_active(accounts_of(format, world)->0, at));
    assert(keeps_secure_data(format, world, id, passphrase, data));
}

/// Whether `run` is one that a login to a new account allows.
pub open spec fn is_new_login_run<E>(
    format: Format,
    homeserver: String,
    method: LoginMethod,
    run: NewLoginRun<E>,
) -> bool {
    &&& run.progress.len() == run.replies.len() + 1
    &&& run.worlds.len() == run.replies.len() + 1
    &&& run.progress[0] == begun_login::<E>(homeserver, method)
    &&& forall|i: int|
        0 <= i < run.replies.len() ==> new_login_advances(
            format,
            run.progress[i],
            run.worlds[i],
            #[trigger] run.replies[i],
            run.progress[i + 1],
            run.worlds[i + 1],
        )
}

/// Whether the login at `progress` asks for something that `reply` answers, and goes on to `next`
/// with things standing as in `post`.
pub open spec fn new_login_advances<E>(
    format: Format,
    progress: NewlyLoggingIn<E>,
    pre: World,
    reply: LoginReply<E>,
    next: NewlyLoggingIn<E>,
    post: World,
) -> bool {
    &&& progress matches Progress::Ask { state, request }
    &&& login_performs(format, pre, request, reply, post)
    &&& new_login_step(state, reply, next)
}

/// Whether a client is asked for that has `homeserver` for its server, and `id` and `passphrase`
/// for its store.
pub open spec fn builds_client<E>(
    progress: NewlyLoggingIn<E>,
    homeserver: String,
    id: String,
    passphrase: String,
) -> bool {
    &&& progress matches Progress::Ask { request, .. }
    &&& request == LoginRequest::BuildClient { server: homeserver, id, passphrase }
}

/// Whether `saving` is to keep the account that the homeserver answered with, under `id` and
/// `passphrase`.
pub open spec fn saves_response<E>(
    saving: Saving<E>,
    response: LoginResponse,
    id: String,
    passphrase: String,
) -> bool {
    exists|new: NewAccount, data: SecureAccountData|
        {
            &&& saving == #[trigger] begun_save::<E>(new, data)
            &&& new.data.id == id
            &&& new.data.user_id == response.user_id
            &&& new.data.active
            &&& new.passphrase == passphrase
            &&& data.access_token == response.access_token
            &&& data.refresh_token == response.refresh_token
            &&& data.device_id == response.device_id
            &&& data.client_id is None
            &&& data.expiration is None
        }
}

/// What holds at each moment of a login to a new account.
spec fn new_login_invariant<E>(
    homeserver: String,
    method: LoginMethod,
    run: NewLoginRun<E>,
    at: int,
) -> bool {
    match run.progress[at] {
        Progress::Ask { state, request } => match state {
            NewLogin::Sweeping { homeserver: h, method: m, .. } => h == homeserver && m == method,
            NewLogin::CreatingFolder { homeserver: h, method: m, id, passphrase } => {
                &&& h == homeserver
                &&& m == method
                &&& is_credential(id@)
                &&& is_credential(passphrase@)
            },
            NewLogin::BuildingClient { method: m, id, passphrase } => {
                &&& m == method
                &&& is_credential(id@)
                &&& is_credential(passphrase@)
                &&& builds_client(run.progress[at], homeserver, id, passphrase)
            },
            NewLogin::LoggingIn { id, passphrase } => {
                &&& is_credential(id@)
                &&& is_credential(passphrase@)
                &&& at >= 1
                &&& builds_client(run.progress[at - 1], homeserver, id, passphrase)
                &&& request == LoginRequest::LogIn(method)
            },
        },
        Progress::Finished(Ok(saving)) => {
            &&& at >= 2
            &&& run.progress[at - 1] matches Progress::Ask {
                state: NewLogin::LoggingIn { id, passphrase },
                request,
            }
            &&& is_credential(id@)
            &&& is_credential(passphrase@)
            &&& builds_client(run.progress[at - 2], homeserver, id, passphrase)
            &&& request == LoginRequest::LogIn(method)
            &&& run.replies[at - 1] matches LoginReply::LoggedIn(response)
            &&& saves_response(saving, response, id, passphrase)
        },
        Progress::Finished(Err(_)) => true,
    }
}

proof fn lemma_new_login_run<E>(
    format: Format,
    homeserver: String,
    method: LoginMethod,
    run: NewLoginRun<E>,
    at: int,
)
    requires
        is_new_login_run(format, homeserver, method, run),
        0 <= at <= run.replies.len(),
    ensures
        new_login_invariant(homeserver, method, run, at),
    decreases at,
{
    if at > 0 {
        let before = at - 1;
        lemma_new_login_run(format, homeserver, method, run, before);
        let reply = run.replies[before];
        let next = run.progress[at];
        assert(new_login_step(run.progress[before]->state, reply, next));
        if let NewLogin::Sweeping { sweep, .. } = run.progress[before]->state {
            if let LoginReply::Storage(reply) = reply {
                let sweeping = choose|sweeping: Sweeping|
                    sweep_step(sweep, reply, sweeping) && #[trigger] new_login_after_sweep(
                        sweeping,
                        homeserver,
                        method,
                        next,
                    );
                if sweeping is Finished {
                    let credentials = choose|credentials: (String, String)|
                        is_credential(credentials.0@) && is_credential(credentials.1@) && next
                            == #[trigger] credentialed_login::<E>(homeserver, method, credentials);
                    assert(next == credentialed_login::<E>(homeserver, method, credentials));
                }
            }
        }
    }
}

/// A login to a new account that succeeds was made by the method asked for, at the homeserver
/// asked for. What is then to be kept is what the homeserver answered, under the very id and
/// passphrase that the client has its store under; both are letters and digits, of a set length.
pub proof fn law_new_login_keeps_its_store<E>(
    format: Format,
    homeserver: String,
    method: LoginMethod,
    run: NewLoginRun<E>,
    saving: Saving<E>,
)
    requires
        is_new_login_run(format, homeserver, method, run),
        run.progress.last() == NewlyLoggingIn::<E>::Finished(Ok(saving)),
    ensures
        run.replies.last() matches LoginReply::LoggedIn(response) && (run.progress[run.replies.len()
            - 1] matches Progress::Ask { request, .. } && request == LoginRequest::LogIn(method))
            && exists|id: String, passphrase: String| #[trigger]
            saves_response(saving, response, id, passphrase) && is_credential(id@)
                && is_credential(passphrase@) && builds_client(
                run.progress[run.replies.len() - 2],
                homeserver,
                id,
                passphrase,
            ),
{
    lemma_new_login_run(format, homeserver, method, run, run.replies.len() as int);
}

/// Reads off how far the sweep of a login has come, while it is under way.
pub open spec fn sweep_of_login<E>() -> spec_fn(LoggingIn<E>) -> Option<Sweeping> {
    |progress: LoggingIn<E>|
        match progress {
            Progress::Ask {
                state: Login::Sweeping(state),
                request: LoginRequest::Storage(request),
            } => Some(Sweeping::Ask { state, request }),
            _ => None,
        }
}

/// Reads off how far the sweep of a login to a new account has come, while it is under way.
pub open spec fn sweep_of_new_login<E>() -> spec_fn(NewlyLoggingIn<E>) -> Option<Sweeping> {
    |progress: NewlyLoggingIn<E>|
        match progress {
            Progress::Ask {
                state: NewLogin::Sweeping { sweep: state, .. },
                request: LoginRequest::Storage(request),
            } => Some(Sweeping::Ask { state, request }),
            _ => None,
        }
}

/// Whether `sweep` is the sweep that the login begins with, as far as `run` has it.
pub open spec fn begins_with_sweep<S, R, E>(
    format: Format,
    sweep_of: spec_fn(Progress<S, LoginRequest, R>) -> Option<Sweeping>,
    run: LoginRun<S, R, E>,
    sweep: Run<RemoveOrphanedAccounts, (), E>,
) -> bool {
    &&& is_sweep_run(format, sweep)
    &&& sweep.replies.len() <= run.replies.len()
    &&& sweep.worlds == run.worlds.take(sweep.worlds.len() as int)
    &&& forall|i: int|
        0 <= i < sweep.replies.len() ==> {
            &&& sweep_of(run.progress[i]) == Some(sweep.progress[i])
            &&& run.replies[i] == LoginReply::Storage(#[trigger] sweep.replies[i])
        }
}

/// Whether nothing is done to `swept` but that, at most, the store of a client is made.
pub open spec fn makes_store_at_most(swept: World, world: World) -> bool {
    ||| world == swept
    ||| exists|id: String|
        world == (World {
            folders: swept.folders.insert(#[trigger] key(AccountFile::Store(id))),
            ..swept
        })
}

/// Whether all that the login did in the first `at` answers is what the sweep did that it begins
/// with, and that, at most, the store of its client was made when the sweep was over.
pub open spec fn does_what_its_sweep_does<S, R, E>(
    format: Format,
    sweep_of: spec_fn(Progress<S, LoginRequest, R>) -> Option<Sweeping>,
    run: LoginRun<S, R, E>,
    at: int,
    sweep: Run<RemoveOrphanedAccounts, (), E>,
) -> bool {
    &&& begins_with_sweep(format, sweep_of, run, sweep)
    &&& sweep.replies.len() <= at
    &&& sweep.replies.len() < at ==> sweep.progress.last() is Finished
    &&& makes_store_at_most(sweep.worlds.last(), run.worlds[at])
}

/// How far the sweep has come; it is over where the login does something else.
spec fn sweep_at<S, R>(
    sweep_of: spec_fn(Progress<S, LoginRequest, R>) -> Option<Sweeping>,
    progress: Progress<S, LoginRequest, R>,
) -> Sweeping {
    match sweep_of(progress) {
        Some(sweeping) => sweeping,
        None => Sweeping::Finished(()),
    }
}

/// Whether the login is at its sweep, and the next answer is to that.
spec fn sweeps_at<S, R, E>(
    format: Format,
    sweep_of: spec_fn(Progress<S, LoginRequest, R>) -> Option<Sweeping>,
    run: LoginRun<S, R, E>,
    at: int,
) -> bool {
    &&& sweep_of(run.progress[at]) matches Some(Progress::Ask { state, request })
    &&& run.replies[at] matches LoginReply::Storage(reply)
    &&& performs(format, run.worlds[at], request, reply, run.worlds[at + 1])
    &&& sweep_step(state, reply, sweep_at(sweep_of, run.progress[at + 1]))
}

/// The first `length` answers of a login, taken for a run of its sweep.
spec fn sweep_prefix<S, R, E>(
    sweep_of: spec_fn(Progress<S, LoginRequest, R>) -> Option<Sweeping>,
    run: LoginRun<S, R, E>,
    length: int,
) -> Run<RemoveOrphanedAccounts, (), E> {
    Run {
        progress: Seq::new((length + 1) as nat, |i: int| sweep_at(sweep_of, run.progress[i])),
        worlds: run.worlds.take(length + 1),
        replies: Seq::new(length as nat, |i: int| run.replies[i]->Storage_0),
    }
}

proof fn lemma_sweep_prefix<S, R, E>(
    format: Format,
    sweep_of: spec_fn(Progress<S, LoginRequest, R>) -> Option<Sweeping>,
    run: LoginRun<S, R, E>,
    length: int,
)
    requires
        run.progress.len() == run.replies.len() + 1,
        run.worlds.len() == run.replies.len() + 1,
        sweep_of(run.progress[0]) == Some(begun_sweep()),
        0 <= length <= run.replies.len(),
        forall|i: int| 0 <= i < length ==> #[trigger] sweeps_at(format, sweep_of, run, i),
    ensures
        begins_with_sweep(format, sweep_of, run, sweep_prefix(sweep_of, run, length)),
{
    let sweep = sweep_prefix(sweep_of, run, length);
    assert forall|i: int| 0 <= i < sweep.replies.len() implies {
        &&& sweep_of(run.progress[i]) == Some(sweep.progress[i])
        &&& run.replies[i] == LoginReply::Storage(#[trigger] sweep.replies[i])
        &&& performs(
            format,
            sweep.worlds[i],
            sweep.progress[i]->request,
            sweep.replies[i],
            sweep.worlds[i + 1],
        )
        &&& sweep.progress[i] matches Progress::Ask { state, .. }
        &&& sweep_step(state, sweep.replies[i], sweep.progress[i + 1])
    } by {
        assert(sweeps_at(format, sweep_of, run, i));
    }
}

/// What a login has done since its sweep was over, with things as in `swept` then: nothing before
/// its client is built.
spec fn login_since_sweep<E>(progress: LoggingIn<E>, swept: World, world: World) -> bool {
    match progress {
        Progress::Ask { state: Login::RestoringSession, request } => makes_store_at_most(
            swept,
            world,
        ) && request is RestoreSession,
        Progress::Ask { state: Login::BuildingClient { .. }, request } => world == swept
            && request is BuildClient,
        Progress::Ask { request, .. } => world == swept && (request matches LoginRequest::Storage(
            request,
        ) && only_reads(request)),
        Progress::Finished(_) => makes_store_at_most(swept, world),
    }
}

/// Whether a request changes nothing.
spec fn only_reads(request: Request) -> bool {
    ||| request is ReadAccounts
    ||| request is ReadPassphrase
    ||| request is ReadFile
    ||| request is DecodeSecureData
}

/// Where the sweep of a login was over, and what was done since.
proof fn lemma_login_sweeps<E>(format: Format, run: ActiveLoginRun<E>, at: int) -> (length: int)
    requires
        is_login_run(format, run),
        0 <= at <= run.replies.len(),
    ensures
        0 <= length <= at,
        forall|i: int|
            0 <= i < length ==> #[trigger] sweeps_at(format, sweep_of_login::<E>(), run, i),
        match sweep_of_login::<E>()(run.progress[at]) {
            Some(_) => length == at,
            None => !(run.progress[at] matches Progress::Ask { state: Login::Sweeping(_), .. })
                && sweep_of_login::<E>()(run.progress[length]) is None && login_since_sweep(
                run.progress[at],
                run.worlds[length],
                run.worlds[at],
            ),
        },
    decreases at,
{
    let sweep_of = sweep_of_login::<E>();
    if at == 0 {
        0
    } else {
        let before = at - 1;
        let length = lemma_login_sweeps(format, run, before);
        let reply = run.replies[before];
        let next = run.progress[at];
        let state = run.progress[before]->state;
        assert(login_step(state, reply, next));
        if let Login::Sweeping(sweep) = state {
            let answer = reply->Storage_0;
            let sweeping = choose|sweeping: Sweeping|
                sweep_step(sweep, answer, sweeping) && #[trigger] login_after_sweep(
                    sweeping,
                    next,
                );
            assert(sweep_at(sweep_of, next) == sweeping);
            assert(sweeps_at(format, sweep_of, run, before));
            at
        } else {
            if let Login::ReadingSecureData { account, passphrase } = state {
                if let LoginReply::Storage(Reply::Bytes(sealed)) = reply {
                    let opened = choose|opened: Result<Vec<u8>, OpenError>|
                        opens(sealed@, passphrase@, opened) && next == #[trigger] opened_login::<E>(
                            account,
                            passphrase,
                            opened,
                        );
                    assert(next == opened_login::<E>(account, passphrase, opened));
                }
            }
            length
        }
    }
}

/// A login to the active account does nothing to the disk and the keyring but what the sweep does
/// that it begins with, and that its client makes its store; so too where it fails.
pub proof fn law_login_does_what_its_sweep_does<E>(
    format: Format,
    run: ActiveLoginRun<E>,
    at: int,
)
    requires
        is_login_run(format, run),
        0 <= at <= run.replies.len(),
    ensures
        exists|sweep: Run<RemoveOrphanedAccounts, (), E>| #[trigger]
            does_what_its_sweep_does(format, sweep_of_login::<E>(), run, at, sweep),
{
    let sweep_of = sweep_of_login::<E>();
    let length = lemma_login_sweeps(format, run, at);
    lemma_sweep_prefix(format, sweep_of, run, length);
    let sweep = sweep_prefix(sweep_of, run, length);
    assert(sweep.worlds.last() == run.worlds[length]);
    assert(sweep.progress.last() == sweep_at(sweep_of, run.progress[length]));
    assert(does_what_its_sweep_does(format, sweep_of, run, at, sweep));
}

/// What a login to a new account has done since its sweep was over, with things as in `swept`
/// then: nothing before its client is built.
spec fn new_login_since_sweep<E>(progress: NewlyLoggingIn<E>, swept: World, world: World) -> bool {
    match progress {
        Progress::Ask { state: NewLogin::CreatingFolder { .. }, request } => world == swept
            && request is CreateFolder,
        Progress::Ask { state: NewLogin::BuildingClient { .. }, request } => world == swept
            && request is BuildClient,
        Progress::Ask { request, .. } => makes_store_at_most(swept, world) && request is LogIn,
        Progress::Finished(_) => makes_store_at_most(swept, world),
    }
}

/// Where the sweep of a login to a new account was over, and what was done since.
proof fn lemma_new_login_sweeps<E>(
    format: Format,
    homeserver: String,
    method: LoginMethod,
    run: NewLoginRun<E>,
    at: int,
) -> (length: int)
    requires
        is_new_login_run(format, homeserver, method, run),
        0 <= at <= run.replies.len(),
    ensures
        0 <= length <= at,
        forall|i: int|
            0 <= i < length ==> #[trigger] sweeps_at(format, sweep_of_new_login::<E>(), run, i),
        match sweep_of_new_login::<E>()(run.progress[at]) {
            Some(_) => length == at,
            None => !(run.progress[at] matches Progress::Ask {
                state: NewLogin::Sweeping { .. },
                ..
            }) && sweep_of_new_login::<E>()(run.progress[length]) is None && new_login_since_sweep(
                run.progress[at],
                run.worlds[length],
                run.worlds[at],
            ),
        },
    decreases at,
{
    let sweep_of = sweep_of_new_login::<E>();
    if at == 0 {
        0
    } else {
        let before = at - 1;
        let length = lemma_new_login_sweeps(format, homeserver, method, run, before);
        let reply = run.replies[before];
        let next = run.progress[at];
        let state = run.progress[before]->state;
        assert(new_login_step(state, reply, next));
        if let NewLogin::Sweeping { sweep, homeserver: h, method: m } = state {
            let answer = reply->Storage_0;
            let sweeping = choose|sweeping: Sweeping|
                sweep_step(sweep, answer, sweeping) && #[trigger] new_login_after_sweep(
                    sweeping,
                    h,
                    m,
                    next,
                );
            if sweeping is Finished {
                let credentials = choose|credentials: (String, String)|
                    is_credential(credentials.0@) && is_credential(credentials.1@) && next
                        == #[trigger] credentialed_login::<E>(h, m, credentials);
                assert(next == credentialed_login::<E>(h, m, credentials));
            }
            assert(sweep_at(sweep_of, next) == sweeping);
            assert(sweeps_at(format, sweep_of, run, before));
            at
        } else {
            length
        }
    }
}

/// A login to a new account does nothing to the disk and the keyring but what the sweep does that
/// it begins with, and that its client makes its store. So where it fails, the list of accounts,
/// the encrypted files and the keyring are as the sweep alone leaves them.
pub proof fn law_new_login_does_what_its_sweep_does<E>(
    format: Format,
    homeserver: String,
    method: LoginMethod,
    run: NewLoginRun<E>,
    at: int,
)
    requires
        is_new_login_run(format, homeserver, method, run),
        0 <= at <= run.replies.len(),
    ensures
        exists|sweep: Run<RemoveOrphanedAccounts, (), E>| #[trigger]
            does_what_its_sweep_does(format, sweep_of_new_login::<E>(), run, at, sweep),
{
    let sweep_of = sweep_of_new_login::<E>();
    let length = lemma_new_login_sweeps(format, homeserver, method, run, at);
    lemma_sweep_prefix(format, sweep_of, run, length);
    let sweep = sweep_prefix(sweep_of, run, length);
    assert(sweep.worlds.last() == run.worlds[length]);
    assert(sweep.progress.last() == sweep_at(sweep_of, run.progress[length]));
    assert(does_what_its_sweep_does(format, sweep_of, run, at, sweep));
}

/// Whether the files, the folders and the passphrases of the accounts that are whole at `start`
/// are as they were, and all files that count for no account.
pub open spec fn keeps_whole_accounts(
    accounts: Seq<AccountData>,
    start: World,
    world: World,
) -> bool {
    &&& forall|file: Seq<u8>|
        file != key(AccountFile::Users) && !orphaned(accounts, start, file_account(file))
            ==> #[trigger] same_file(world, start, file)
    &&& forall|id: Seq<char>| #[trigger]
        stands_whole(accounts, start, id) ==> same_passphrase(world, start, id)
            && world.folders.contains(encode_utf8(id))
}

/// What a sweep spares is kept though a store is made.
proof fn lemma_keeps_whole_accounts<S, R, E>(
    format: Format,
    sweep_of: spec_fn(Progress<S, LoginRequest, R>) -> Option<Sweeping>,
    accounts: Seq<AccountData>,
    run: LoginRun<S, R, E>,
    at: int,
    sweep: Run<RemoveOrphanedAccounts, (), E>,
)
    requires
        accounts_of(format, run.worlds[0]) == Some(accounts),
        run.worlds.len() == run.replies.len() + 1,
        0 <= at <= run.replies.len(),
        does_what_its_sweep_does(format, sweep_of, run, at, sweep),
    ensures
        keeps_whole_accounts(accounts, run.worlds[0], run.worlds[at]),
{
    let start = run.worlds[0];
    let world = run.worlds[at];
    let end = sweep.replies.len() as int;
    law_sweep_spares_whole_accounts(format, sweep, end);
    let swept = sweep.worlds[end];
    assert(sweep.worlds[0] == start);
    assert forall|file: Seq<u8>|
        file != key(AccountFile::Users) && !orphaned(accounts, start, file_account(file))
        implies #[trigger] same_file(world, start, file) by {
        assert(same_file(swept, start, file));
    }
    assert forall|id: Seq<char>| #[trigger] stands_whole(accounts, start, id) implies same_passphrase(
        world,
        start,
        id,
    ) && world.folders.contains(encode_utf8(id)) by {
        let folder = encode_utf8(id);
        encode_utf8_valid_utf8(id);
        encode_utf8_decode_utf8(id);
        assert(same_passphrase(swept, start, id));
        assert(swept.folders.contains(folder) <==> start.folders.contains(folder));
    }
}

/// At no moment does a login to the active account touch an account that is whole: its files, its
/// store's folder, its passphrase. The accounts listed are those that were, or those of them that
/// were whole, unless a writing of the list failed.
pub proof fn law_login_spares_whole_accounts<E>(
    format: Format,
    accounts: Seq<AccountData>,
    run: ActiveLoginRun<E>,
    at: int,
)
    requires
        is_login_run(format, run),
        0 <= at <= run.replies.len(),
        accounts_of(format, run.worlds[0]) == Some(accounts),
    ensures
        keeps_whole_accounts(accounts, run.worlds[0], run.worlds[at]),
        writes_unbroken(run, at) ==> lists_whole_accounts(
            accounts,
            format,
            run.worlds[0],
            run.worlds[at],
        ),
{
    law_login_does_what_its_sweep_does(format, run, at);
    let sweep_of = sweep_of_login::<E>();
    let sweep = choose|sweep: Run<RemoveOrphanedAccounts, (), E>| #[trigger]
        does_what_its_sweep_does(format, sweep_of, run, at, sweep);
    lemma_keeps_whole_accounts(format, sweep_of, accounts, run, at, sweep);
    if writes_unbroken(run, at) {
        let end = sweep.replies.len() as int;
        if end > 0 && sweep_spoilt(sweep.progress[end - 1], sweep.replies[end - 1]) {
            lemma_spoilt_by_a_writing(format, sweep, end);
            let answer = sweep.replies[end - 1];
            assert(write_broken(run.progress[end - 1], run.replies[end - 1]));
        }
        law_sweep_lists_soundly(format, accounts, sweep, end);
        assert(sweep.worlds[0] == run.worlds[0]);
    }
}

/// At no moment does a login to a new account touch an account that is whole: its files, its
/// store's folder, its passphrase.
pub proof fn law_new_login_spares_whole_accounts<E>(
    format: Format,
    accounts: Seq<AccountData>,
    homeserver: String,
    method: LoginMethod,
    run: NewLoginRun<E>,
    at: int,
)
    requires
        is_new_login_run(format, homeserver, method, run),
        0 <= at <= run.replies.len(),
        accounts_of(format, run.worlds[0]) == Some(accounts),
    ensures
        keeps_whole_accounts(accounts, run.worlds[0], run.worlds[at]),
{
    law_new_login_does_what_its_sweep_does(format, homeserver, method, run, at);
    let sweep_of = sweep_of_new_login::<E>();
    let sweep = choose|sweep: Run<RemoveOrphanedAccounts, (), E>| #[trigger]
        does_what_its_sweep_does(format, sweep_of, run, at, sweep);
    lemma_keeps_whole_accounts(format, sweep_of, accounts, run, at, sweep);
}

/// A login loads an account's secure data as they were saved, and changes nothing by that. Where
/// the encrypted file is not there, or does not open under the passphrase, the login fails; where
/// it opens to data, these and no others are what it decodes, unless a request fails or the machine
/// finds the work too much.
pub proof fn law_login_loads_what_was_encrypted<E>(
    format: Format,
    account: AccountData,
    passphrase: String,
    pre: World,
    reply: Reply<E>,
    post: World,
    out: LoggingIn<E>,
)
    requires
        performs(format, pre, Request::ReadFile(AccountFile::Secure(account.id)), reply, post),
        login_step(
            Login::ReadingSecureData { account, passphrase },
            LoginReply::Storage(reply),
            out,
        ),
    ensures
        post == pre,
        ({
            let file = key(AccountFile::Secure(account.id));
            if !pre.files.contains_key(file) {
                out matches Progress::Finished(Err(error)) && error is Outside
            } else {
                match (age_plaintext(pre.files[file], passphrase@), out) {
                    (
                        Some(plaintext),
                        Progress::Ask { state, request },
                    ) => state == (Login::DecodingSecureData { account, passphrase }) && (
                    request matches LoginRequest::Storage(Request::DecodeSecureData(bytes))
                        && bytes@ == plaintext),
                    (None, Progress::Ask { .. }) => false,
                    (Some(_), Progress::Finished(Err(error))) => {
                        ||| error is Outside
                        ||| error matches AccountError::Decrypt(OpenError::ExcessiveWork { .. })
                    },
                    (None, Progress::Finished(Err(error))) => error is Outside || error is Decrypt,
                    (_, Progress::Finished(Ok(_))) => false,
                }
            }
        }),
{
    if let Reply::Bytes(sealed) = reply {
        let opened = choose|opened: Result<Vec<u8>, OpenError>|
            opens(sealed@, passphrase@, opened) && out == #[trigger] opened_login::<E>(
                account,
                passphrase,
                opened,
            );
        assert(out == opened_login::<E>(account, passphrase, opened));
    }
}

} // verus!
