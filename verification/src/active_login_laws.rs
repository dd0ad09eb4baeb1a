//! What holds of every login to the active account, whatever it finds.

use crate::account::listed;
use crate::account::only_active;
use crate::account::server_part;
use crate::account::Account;
use crate::account::AccountData;
use crate::account::SecureAccountData;
use crate::account_laws::is_active;
use crate::account_laws::law_one_active_account_is_taken;
use crate::account_laws::law_session_is_of_its_account;
use crate::files::AccountFile;
use crate::login::login_after_sweep;
use crate::login::login_step;
use crate::login::opened_login;
use crate::login::LoggingIn;
use crate::login::Login;
use crate::login::LoginOutcome;
use crate::login::LoginReply;
use crate::login::LoginRequest;
use crate::login_laws::is_login_run;
use crate::login_laws::login_performs;
use crate::login_laws::ActiveLoginRun;
use crate::orphans::sweep_step;
use crate::orphans::Sweeping;
use crate::request::AccountError;
use crate::request::Progress;
use crate::request::Reply;
use crate::request::Request;
use crate::session::session_of;
use crate::session::AuthSession;
use crate::sweep_laws::is_sweep_request;
use crate::sweep_laws::law_sweep_asks_for_its_own_only;
use crate::vault::age_plaintext;
use crate::vault::opens;
use crate::vault::OpenError;
use crate::world::accounts_of;
use crate::world::decrypted;
use crate::world::key;
use crate::world::Format;
use crate::world::World;
use vstd::prelude::*;

verus! {

/// Whether `account` is active, and is the only one of those listed that is.
pub open spec fn is_active_alone(format: Format, world: World, account: AccountData) -> bool {
    accounts_of(format, world) matches Some(accounts) && accounts.filter(is_active())
        == seq![account]
}

/// Whether the accounts are listed, and none of them or several of them are active.
pub open spec fn none_active_alone(format: Format, world: World) -> bool {
    accounts_of(format, world) matches Some(accounts) && accounts.filter(is_active()).len() != 1
}

/// Whether `account` is the only active one, the keyring has `passphrase` for it, and its encrypted
/// file holds `data` under that.
pub open spec fn is_loaded(
    format: Format,
    world: World,
    account: AccountData,
    passphrase: Seq<char>,
    data: SecureAccountData,
) -> bool {
    let file = key(AccountFile::Secure(account.id));
    &&& is_active_alone(format, world, account)
    &&& world.keyring.contains_key(account.id@)
    &&& world.keyring[account.id@] == passphrase
    &&& world.files.contains_key(file)
    &&& decrypted(format, world.files[file], passphrase) == Some(data)
}

/// Whether `server` is what follows the first colon of `user`.
pub open spec fn names_server(user: Seq<char>, server: Seq<char>) -> bool {
    exists|local: Seq<char>|
        !local.contains(':') && user == #[trigger] (local + seq![':'] + server)
}

/// Whether `session` is that of `account`, on the device and with the tokens that `data` have; one
/// of OAuth exactly where the data have a client id, and then with that.
pub open spec fn is_session(
    session: AuthSession,
    account: AccountData,
    data: SecureAccountData,
) -> bool {
    match session {
        AuthSession::Matrix(session) => {
            &&& data.client_id is None
            &&& session.meta.user_id == account.user_id
            &&& session.meta.device_id == data.device_id
            &&& session.tokens.access_token == data.access_token
            &&& session.tokens.refresh_token == data.refresh_token
        },
        AuthSession::OAuth(session) => {
            &&& data.client_id == Some(session.client_id)
            &&& session.user.meta.user_id == account.user_id
            &&& session.user.meta.device_id == data.device_id
            &&& session.user.tokens.access_token == data.access_token
            &&& session.user.tokens.refresh_token == data.refresh_token
        },
    }
}

/// What holds at each moment of a login, whatever it found.
spec fn login_holds<E>(format: Format, progress: LoggingIn<E>, world: World) -> bool {
    match progress {
        Progress::Ask { state, request } => match state {
            Login::Sweeping(_) => request matches LoginRequest::Storage(request)
                && is_sweep_request(request),
            Login::ReadingAccounts => request == LoginRequest::Storage(Request::ReadAccounts),
            Login::ReadingPassphrase { account } => {
                &&& is_active_alone(format, world, account)
                &&& request == LoginRequest::Storage(Request::ReadPassphrase(account.id))
            },
            Login::ReadingSecureData { account, passphrase } => {
                &&& is_active_alone(format, world, account)
                &&& world.keyring.contains_key(account.id@)
                &&& world.keyring[account.id@] == passphrase@
                &&& request == LoginRequest::Storage(
                    Request::ReadFile(AccountFile::Secure(account.id)),
                )
            },
            Login::DecodingSecureData { account, passphrase } => {
                let file = key(AccountFile::Secure(account.id));
                &&& is_active_alone(format, world, account)
                &&& world.keyring.contains_key(account.id@)
                &&& world.keyring[account.id@] == passphrase@
                &&& world.files.contains_key(file)
                &&& request matches LoginRequest::Storage(Request::DecodeSecureData(bytes))
                &&& age_plaintext(world.files[file], passphrase@) == Some(bytes@)
            },
            Login::BuildingClient { loaded } => {
                &&& request matches LoginRequest::BuildClient { server, id, passphrase }
                &&& is_loaded(format, world, loaded.data, passphrase@, loaded.secure_data)
                &&& id == loaded.data.id
                &&& names_server(loaded.data.user_id@, server@)
            },
            Login::RestoringSession => {
                &&& request matches LoginRequest::RestoreSession(session)
                &&& restores(format, world, session)
            },
        },
        Progress::Finished(Ok(LoginOutcome::NoActiveAccount)) => none_active_alone(format, world),
        Progress::Finished(Ok(LoginOutcome::LoggedIn)) => exists|
            account: AccountData,
            passphrase: Seq<char>,
            data: SecureAccountData,
        | #[trigger]
            is_loaded(format, world, account, passphrase, data),
        Progress::Finished(Err(AccountError::Outside(_))) => true,
        Progress::Finished(Err(AccountError::Decrypt(error))) => exists|account: AccountData|
            #[trigger]
            is_active_alone(format, world, account) && (error is Unreadable ==> age_plaintext(
                world.files[key(AccountFile::Secure(account.id))],
                world.keyring[account.id@],
            ) is None),
        Progress::Finished(Err(_)) => false,
    }
}

/// Whether `session` is that of the only active account, as it is kept.
pub open spec fn restores(format: Format, world: World, session: AuthSession) -> bool {
    exists|account: AccountData, passphrase: Seq<char>, data: SecureAccountData| #[trigger]
        is_loaded(format, world, account, passphrase, data) && is_session(session, account, data)
}

/// Whether a client is asked for that is for the server of the only active account, and has its
/// store under the id and the passphrase of that.
pub open spec fn is_client_for(
    format: Format,
    world: World,
    server: String,
    id: String,
    passphrase: String,
) -> bool {
    exists|account: AccountData, data: SecureAccountData| #[trigger]
        is_loaded(format, world, account, passphrase@, data) && id == account.id && names_server(
            account.user_id@,
            server@,
        )
}

proof fn lemma_names_server(user: Seq<char>)
    requires
        user.contains(':'),
    ensures
        names_server(user, server_part(user)),
{
    user.index_of_first_ensures(':');
    let at = user.index_of_first(':')->0;
    let local = user.take(at);
    assert(!local.contains(':')) by {
        if local.contains(':') {
            let i = choose|i: int| 0 <= i < local.len() && local[i] == ':';
            assert(user[i] == ':');
        }
    }
    let server = server_part(user);
    assert(local + seq![':'] + server =~= user);
}

proof fn lemma_session(account: AccountData, data: SecureAccountData)
    ensures
        is_session(session_of(Account { data: account, secure_data: data }), account, data),
{
    law_session_is_of_its_account(Account { data: account, secure_data: data });
}

/// One answer keeps what holds of every login.
proof fn lemma_login_holds_on<E>(
    format: Format,
    progress: LoggingIn<E>,
    world: World,
    reply: LoginReply<E>,
    next: LoggingIn<E>,
    after: World,
)
    requires
        login_holds(format, progress, world),
        progress matches Progress::Ask { state, request } && login_performs(
            format,
            world,
            request,
            reply,
            after,
        ) && login_step(state, reply, next),
    ensures
        login_holds(format, next, after),
        !(progress->state is Sweeping) ==> accounts_of(format, after) == accounts_of(format, world),
{
    match progress->state {
        Login::Sweeping(sweep) => {
            let answer = reply->Storage_0;
            let sweeping = choose|sweeping: Sweeping|
                sweep_step(sweep, answer, sweeping) && #[trigger] login_after_sweep(
                    sweeping,
                    next,
                );
            law_sweep_asks_for_its_own_only(sweep, answer, sweeping);
        },
        Login::ReadingAccounts => {
            if let LoginReply::Storage(Reply::Accounts(found)) = reply {
                let accounts = accounts_of(format, world)->0;
                assert(listed(found) =~= accounts);
                law_one_active_account_is_taken(accounts);
                if exists|at: int| only_active(listed(found), at) {
                    let account = next->state->ReadingPassphrase_account;
                    let at = choose|at: int| #[trigger]
                        only_active(listed(found), at) && listed(found)[at] == account;
                    assert(only_active(accounts, at));
                }
            }
        },
        Login::ReadingPassphrase { .. } => {},
        Login::ReadingSecureData { account, passphrase } => {
            if let LoginReply::Storage(Reply::Bytes(sealed)) = reply {
                let opened = choose|opened: Result<Vec<u8>, OpenError>|
                    opens(sealed@, passphrase@, opened) && next == #[trigger] opened_login::<E>(
                        account,
                        passphrase,
                        opened,
                    );
                assert(next == opened_login::<E>(account, passphrase, opened));
                assert(is_active_alone(format, after, account));
            }
        },
        Login::DecodingSecureData { account, passphrase } => {
            if let LoginReply::Storage(Reply::SecureData(data)) = reply {
                lemma_names_server(account.user_id@);
            }
        },
        Login::BuildingClient { loaded } => {
            if let LoginRequest::BuildClient { passphrase, .. } = progress->request {
                lemma_session(loaded.data, loaded.secure_data);
                assert(is_loaded(format, after, loaded.data, passphrase@, loaded.secure_data));
            }
        },
        Login::RestoringSession => {},
    }
}

proof fn lemma_login_holds<E>(format: Format, run: ActiveLoginRun<E>, at: int)
    requires
        is_login_run(format, run),
        0 <= at <= run.replies.len(),
    ensures
        login_holds(format, run.progress[at], run.worlds[at]),
    decreases at,
{
    if at > 0 {
        let before = at - 1;
        lemma_login_holds(format, run, before);
        let reply = run.replies[before];
        lemma_login_holds_on(
            format,
            run.progress[before],
            run.worlds[before],
            reply,
            run.progress[at],
            run.worlds[at],
        );
    }
}

/// In every login, whatever it finds: a passphrase is asked for, a client built and a session
/// restored of an account only that is active, and the only one of those listed that is. The client
/// is for the server that the account's user id names, and has its store under the account's id and
/// under the passphrase that the keyring has for it; the session is that of the account's user, on
/// the device and with the tokens and the client id that the account's encrypted file holds.
pub proof fn law_login_is_to_the_only_active_account<E>(
    format: Format,
    run: ActiveLoginRun<E>,
    at: int,
)
    requires
        is_login_run(format, run),
        0 <= at <= run.replies.len(),
    ensures
        run.progress[at] matches Progress::Ask { request, .. } ==> match request {
            LoginRequest::Storage(Request::ReadPassphrase(id)) => exists|account: AccountData|
                #[trigger]
                is_active_alone(format, run.worlds[at], account) && account.id == id,
            LoginRequest::Storage(Request::ReadFile(file)) => exists|account: AccountData|
                #[trigger]
                is_active_alone(format, run.worlds[at], account) && file == AccountFile::Secure(
                    account.id,
                ),
            LoginRequest::BuildClient { server, id, passphrase } => is_client_for(
                format,
                run.worlds[at],
                server,
                id,
                passphrase,
            ),
            LoginRequest::RestoreSession(session) => restores(format, run.worlds[at], session),
            LoginRequest::LogIn(_) => false,
            LoginRequest::CreateFolder => false,
            _ => true,
        },
{
    lemma_login_holds(format, run, at);
    if let Progress::Ask { state: Login::BuildingClient { loaded }, request } = run.progress[at] {
        if let LoginRequest::BuildClient { server, id, passphrase } = request {
            assert(is_loaded(
                format,
                run.worlds[at],
                loaded.data,
                passphrase@,
                loaded.secure_data,
            ));
        }
    }
}

/// A login that is over found no active account exactly where none of those listed is active, or
/// several are; and has logged in only where one is, and no other. It fails with what is not
/// decrypted only where one is, and says that the data cannot be read only where its encrypted
/// file does not open under its passphrase. In every other failure a request failed.
pub proof fn law_login_outcome_is_what_is_active<E>(
    format: Format,
    run: ActiveLoginRun<E>,
    outcome: Result<LoginOutcome, AccountError<E>>,
)
    requires
        is_login_run(format, run),
        run.progress.last() == LoggingIn::<E>::Finished(outcome),
    ensures
        match outcome {
            Ok(LoginOutcome::NoActiveAccount) => none_active_alone(format, run.worlds.last()),
            Ok(LoginOutcome::LoggedIn) => exists|
                account: AccountData,
                passphrase: Seq<char>,
                data: SecureAccountData,
            | #[trigger]
                is_loaded(format, run.worlds.last(), account, passphrase, data),
            Err(AccountError::Decrypt(error)) => exists|account: AccountData| #[trigger]
                is_active_alone(format, run.worlds.last(), account) && (error is Unreadable
                    ==> age_plaintext(
                    run.worlds.last().files[key(AccountFile::Secure(account.id))],
                    run.worlds.last().keyring[account.id@],
                ) is None),
            Err(AccountError::Outside(failure)) => {
                ||| run.replies.last() == LoginReply::Failed(failure)
                ||| run.replies.last() == LoginReply::Storage(Reply::Failed(failure))
            },
            Err(_) => false,
        },
        none_active_alone(format, run.worlds.last()) ==> match outcome {
            Ok(outcome) => outcome == LoginOutcome::NoActiveAccount,
            Err(error) => error is Outside,
        },
{
    let end = run.replies.len() as int;
    lemma_login_holds(format, run, end);
    let world = run.worlds.last();
    assert(world == run.worlds[end]);
    assert(run.progress[0] is Ask);
    let reply = run.replies[end - 1];
    assert(run.replies.last() == reply);
    if let Err(AccountError::Outside(failure)) = outcome {
        law_failed_request_fails_the_login(format, run, end - 1, failure);
    }
}

/// Whether the login is over its sweep.
pub open spec fn is_past_sweep<E>(progress: LoggingIn<E>) -> bool {
    !(progress matches Progress::Ask { state: Login::Sweeping(_), .. })
}

/// Nothing that fails of the sweep fails the login, which goes on in any case. When the sweep is
/// over, a request that fails ends the login, with its failure and no other; and it is the only way
/// to such an end.
pub proof fn law_failed_request_fails_the_login<E>(
    format: Format,
    run: ActiveLoginRun<E>,
    at: int,
    failure: E,
)
    requires
        is_login_run(format, run),
        0 <= at < run.replies.len(),
    ensures
        !is_past_sweep(run.progress[at]) ==> run.progress[at + 1] is Ask,
        is_past_sweep(run.progress[at]) ==> (run.progress[at + 1] == LoggingIn::<E>::Finished(
            Err(AccountError::Outside(failure)),
        ) <==> {
            ||| run.replies[at] == LoginReply::Failed(failure)
            ||| run.replies[at] == LoginReply::Storage(Reply::Failed(failure))
        }),
{
    lemma_login_holds(format, run, at);
    let reply = run.replies[at];
    let next = run.progress[at + 1];
    let state = run.progress[at]->state;
    assert(login_step(state, reply, next));
    match state {
        Login::Sweeping(sweep) => {
            let answer = reply->Storage_0;
            let sweeping = choose|sweeping: Sweeping|
                sweep_step(sweep, answer, sweeping) && #[trigger] login_after_sweep(
                    sweeping,
                    next,
                );
            assert(login_after_sweep(sweeping, next));
        },
        Login::ReadingSecureData { account, passphrase } => {
            if let LoginReply::Storage(Reply::Bytes(sealed)) = reply {
                let opened = choose|opened: Result<Vec<u8>, OpenError>|
                    opens(sealed@, passphrase@, opened) && next == #[trigger] opened_login::<E>(
                        account,
                        passphrase,
                        opened,
                    );
                assert(next == opened_login::<E>(account, passphrase, opened));
            }
        },
        _ => {},
    }
}

/// When its sweep is over, a login changes the list of accounts no more: what it takes the account
/// by is the list that it has read.
pub proof fn law_login_leaves_the_list_that_it_reads<E>(
    format: Format,
    run: ActiveLoginRun<E>,
    from: int,
    at: int,
)
    requires
        is_login_run(format, run),
        0 <= from <= at <= run.replies.len(),
        is_past_sweep(run.progress[from]),
    ensures
        is_past_sweep(run.progress[at]),
        accounts_of(format, run.worlds[at]) == accounts_of(format, run.worlds[from]),
    decreases at - from,
{
    if from < at {
        let before = at - 1;
        law_login_leaves_the_list_that_it_reads(format, run, from, before);
        lemma_login_holds(format, run, before);
        let reply = run.replies[before];
        lemma_login_holds_on(
            format,
            run.progress[before],
            run.worlds[before],
            reply,
            run.progress[at],
            run.worlds[at],
        );
    }
}

/// Where the accounts that are listed when the sweep of a login is over have no single active one,
/// the login asks for no passphrase, no client and no session: it is over with the answer to the
/// list, and ends with that no account is active, or with the failure to read the list.
pub proof fn law_login_without_an_active_account_ends<E>(
    format: Format,
    run: ActiveLoginRun<E>,
    from: int,
    at: int,
)
    requires
        is_login_run(format, run),
        0 <= from <= at <= run.replies.len(),
        is_past_sweep(run.progress[from]),
        none_active_alone(format, run.worlds[from]),
    ensures
        match run.progress[at] {
            Progress::Ask { request, .. } => request == LoginRequest::Storage(
                Request::ReadAccounts,
            ),
            Progress::Finished(Ok(outcome)) => outcome == LoginOutcome::NoActiveAccount,
            Progress::Finished(Err(error)) => error is Outside,
        },
{
    law_login_leaves_the_list_that_it_reads(format, run, from, at);
    lemma_login_holds(format, run, at);
}

/// How many answers a login has had since its sweep was over.
spec fn login_answers<E>(progress: LoggingIn<E>) -> int {
    match progress {
        Progress::Ask { state, .. } => match state {
            Login::Sweeping(_) => 0,
            Login::ReadingAccounts => 0,
            Login::ReadingPassphrase { .. } => 1,
            Login::ReadingSecureData { .. } => 2,
            Login::DecodingSecureData { .. } => 3,
            Login::BuildingClient { .. } => 4,
            Login::RestoringSession => 5,
        },
        Progress::Finished(_) => 6,
    }
}

/// A login goes on by one request with each answer when its sweep is over, and ends after six
/// answers at most. It has logged in only where the client was built and restored the session: the
/// last two answers say so.
pub proof fn law_login_ends<E>(format: Format, run: ActiveLoginRun<E>, from: int)
    requires
        is_login_run(format, run),
        0 <= from <= run.replies.len(),
        is_past_sweep(run.progress[from]),
    ensures
        run.replies.len() <= from + 6,
        run.progress.last() == LoggingIn::<E>::Finished(Ok(LoginOutcome::LoggedIn)) ==> {
            let end = run.replies.len() as int;
            &&& end >= 2
            &&& run.progress[end - 2] matches Progress::Ask { request, .. } && request
                is BuildClient
            &&& run.replies[end - 2] is Done
            &&& run.progress[end - 1] matches Progress::Ask { request, .. } && request
                is RestoreSession
            &&& run.replies[end - 1] is Done
        },
{
    let end = run.replies.len() as int;
    lemma_login_answers(format, run, from, end);
    if run.progress.last() == LoggingIn::<E>::Finished(Ok(LoginOutcome::LoggedIn)) {
        assert(run.progress[0] is Ask);
        let last = run.replies[end - 1];
        lemma_login_holds(format, run, end - 1);
        lemma_login_step_back(format, run, end);
        lemma_login_step_back(format, run, end - 1);
        lemma_login_holds(format, run, end - 2);
    }
}

/// What an answer was to, seen from what followed it.
proof fn lemma_login_step_back<E>(format: Format, run: ActiveLoginRun<E>, at: int)
    requires
        is_login_run(format, run),
        0 <= at <= run.replies.len(),
    ensures
        run.progress[at] == LoggingIn::<E>::Finished(Ok(LoginOutcome::LoggedIn)) ==> at > 0
            && run.progress[at - 1]->state is RestoringSession && run.replies[at - 1] is Done,
        (run.progress[at] matches Progress::Ask { state, .. } && state is RestoringSession) ==> at
            > 0 && run.progress[at - 1]->state is BuildingClient && run.replies[at - 1] is Done,
{
    if at > 0 {
        let reply = run.replies[at - 1];
        let next = run.progress[at];
        let state = run.progress[at - 1]->state;
        assert(login_step(state, reply, next));
        match state {
            Login::Sweeping(sweep) => {
                if let LoginReply::Storage(answer) = reply {
                    let sweeping = choose|sweeping: Sweeping|
                        sweep_step(sweep, answer, sweeping) && #[trigger] login_after_sweep(
                            sweeping,
                            next,
                        );
                    assert(login_after_sweep(sweeping, next));
                }
            },
            Login::ReadingSecureData { account, passphrase } => {
                if let LoginReply::Storage(Reply::Bytes(sealed)) = reply {
                    let opened = choose|opened: Result<Vec<u8>, OpenError>|
                        opens(sealed@, passphrase@, opened) && next == #[trigger] opened_login::<E>(
                            account,
                            passphrase,
                            opened,
                        );
                    assert(next == opened_login::<E>(account, passphrase, opened));
                }
            },
            _ => {},
        }
    }
}

proof fn lemma_login_answers<E>(format: Format, run: ActiveLoginRun<E>, from: int, at: int)
    requires
        is_login_run(format, run),
        0 <= from <= at <= run.replies.len(),
        is_past_sweep(run.progress[from]),
    ensures
        is_past_sweep(run.progress[at]),
        at - from <= login_answers(run.progress[at]),
    decreases at - from,
{
    if from < at {
        let before = at - 1;
        lemma_login_answers(format, run, from, before);
        let reply = run.replies[before];
        let next = run.progress[at];
        let state = run.progress[before]->state;
        assert(login_step(state, reply, next));
        if let Login::ReadingSecureData { account, passphrase } = state {
            if let LoginReply::Storage(Reply::Bytes(sealed)) = reply {
                let opened = choose|opened: Result<Vec<u8>, OpenError>|
                    opens(sealed@, passphrase@, opened) && next == #[trigger] opened_login::<E>(
                        account,
                        passphrase,
                        opened,
                    );
                assert(next == opened_login::<E>(account, passphrase, opened));
            }
        }
    }
}

} // verus!
