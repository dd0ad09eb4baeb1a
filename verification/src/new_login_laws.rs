//! What holds of every login to a new account, whatever is answered.

use crate::account::SecureAccountData;
use crate::files::is_credential;
use crate::login::begun_sso_login;
use crate::login::begun_username_login;
use crate::login::credentialed_login;
use crate::login::new_login_after_sweep;
use crate::login::new_login_step;
use crate::login::LoginMethod;
use crate::login::LoginReply;
use crate::login::LoginRequest;
use crate::login::LoginResponse;
use crate::login::NewLogin;
use crate::login::NewlyLoggingIn;
use crate::login_laws::is_new_login_run;
use crate::login_laws::login_performs;
use crate::login_laws::new_login_advances;
use crate::login_laws::NewLoginRun;
use crate::orphans::sweep_step;
use crate::orphans::Sweeping;
use crate::request::AccountError;
use crate::request::Progress;
use crate::save::begun_creation;
use crate::save::Saving;
use crate::sweep_laws::is_sweep_request;
use crate::sweep_laws::law_sweep_asks_for_its_own_only;
use crate::world::Format;
use vstd::prelude::*;

verus! {

/// Whether the login is over its sweep.
pub open spec fn is_past_sweep<E>(progress: NewlyLoggingIn<E>) -> bool {
    !(progress matches Progress::Ask { state: NewLogin::Sweeping { .. }, .. })
}

/// What a login asks for at each moment, and of whom.
spec fn new_login_asks<E>(
    homeserver: String,
    method: LoginMethod,
    progress: NewlyLoggingIn<E>,
) -> bool {
    progress matches Progress::Ask { state, request } ==> match state {
        NewLogin::Sweeping { homeserver: h, method: m, .. } => {
            &&& h == homeserver
            &&& m == method
            &&& request matches LoginRequest::Storage(request)
            &&& is_sweep_request(request)
        },
        NewLogin::CreatingFolder { homeserver: h, method: m, id, passphrase } => {
            &&& h == homeserver
            &&& m == method
            &&& is_credential(id@)
            &&& is_credential(passphrase@)
            &&& request is CreateFolder
        },
        NewLogin::BuildingClient { method: m, id, passphrase } => {
            &&& m == method
            &&& is_credential(id@)
            &&& is_credential(passphrase@)
            &&& request == LoginRequest::BuildClient { server: homeserver, id, passphrase }
        },
        NewLogin::LoggingIn { id, passphrase } => {
            &&& is_credential(id@)
            &&& is_credential(passphrase@)
            &&& request == LoginRequest::LogIn(method)
        },
    }
}

proof fn lemma_new_login_asks<E>(
    format: Format,
    homeserver: String,
    method: LoginMethod,
    run: NewLoginRun<E>,
    at: int,
)
    requires
        is_new_login_run(format, homeserver, method, run),
        0 <= at <= run.replies.len(),
    ensures
        new_login_asks(homeserver, method, run.progress[at]),
    decreases at,
{
    if at > 0 {
        let before = at - 1;
        lemma_new_login_asks(format, homeserver, method, run, before);
        let reply = run.replies[before];
        let next = run.progress[at];
        let state = run.progress[before]->state;
        assert(new_login_step(state, reply, next));
        if state is Sweeping {
            lemma_new_login_sweeps_on(state, reply, next);
        }
    }
}

/// An answer to the sweep of a login to a new account: the sweep goes on, or the folder is asked
/// for.
proof fn lemma_new_login_sweeps_on<E>(
    state: NewLogin,
    reply: LoginReply<E>,
    next: NewlyLoggingIn<E>,
)
    requires
        state is Sweeping,
        reply is Storage,
        new_login_step(state, reply, next),
    ensures
        next matches Progress::Ask { state: now, request } && match now {
            NewLogin::Sweeping { homeserver, method, .. } => {
                &&& homeserver == state->Sweeping_homeserver
                &&& method == state->Sweeping_method
                &&& request matches LoginRequest::Storage(request)
                &&& is_sweep_request(request)
            },
            NewLogin::CreatingFolder { homeserver, method, id, passphrase } => {
                &&& homeserver == state->Sweeping_homeserver
                &&& method == state->Sweeping_method
                &&& is_credential(id@)
                &&& is_credential(passphrase@)
                &&& request is CreateFolder
            },
            _ => false,
        },
{
    if let NewLogin::Sweeping { sweep, homeserver, method } = state {
        if let LoginReply::Storage(answer) = reply {
            let sweeping = choose|sweeping: Sweeping|
                sweep_step(sweep, answer, sweeping) && #[trigger] new_login_after_sweep(
                    sweeping,
                    homeserver,
                    method,
                    next,
                );
            law_sweep_asks_for_its_own_only(sweep, answer, sweeping);
            if sweeping is Finished {
                let credentials = choose|credentials: (String, String)|
                    is_credential(credentials.0@) && is_credential(credentials.1@) && next
                        == #[trigger] credentialed_login::<E>(homeserver, method, credentials);
                assert(next == credentialed_login::<E>(homeserver, method, credentials));
            }
        }
    }
}

/// A login to a new account fails only where a request failed, and with that failure; a request
/// that fails when the sweep is over ends it so. Nothing that fails of the sweep fails the login.
pub proof fn law_new_login_fails_by_a_request_only<E>(
    format: Format,
    homeserver: String,
    method: LoginMethod,
    run: NewLoginRun<E>,
    at: int,
)
    requires
        is_new_login_run(format, homeserver, method, run),
        0 <= at < run.replies.len(),
    ensures
        !is_past_sweep(run.progress[at]) ==> run.progress[at + 1] is Ask,
        run.progress[at + 1] matches Progress::Finished(Err(error)) ==> (
        run.replies[at] matches LoginReply::Failed(failure) && error == AccountError::Outside(
            failure,
        )),
        is_past_sweep(run.progress[at]) ==> (run.replies[at] matches LoginReply::Failed(failure)
            ==> run.progress[at + 1] == NewlyLoggingIn::<E>::Finished(
            Err(AccountError::Outside(failure)),
        )),
{
    lemma_new_login_asks(format, homeserver, method, run, at);
    let reply = run.replies[at];
    let state = run.progress[at]->state;
    assert(new_login_step(state, reply, run.progress[at + 1]));
    assert(login_performs(
        format,
        run.worlds[at],
        run.progress[at]->request,
        reply,
        run.worlds[at + 1],
    ));
    if state is Sweeping {
        lemma_new_login_sweeps_on(state, reply, run.progress[at + 1]);
    }
}

/// Whether `saving` begins to keep the account of the user that the homeserver answered with, as
/// the active one and under `id` and `passphrase`: with the access token, the refresh token and the
/// device that it answered with, whatever these are, and with no client id and no expiration.
pub open spec fn keeps_response<E>(
    saving: Saving<E>,
    response: LoginResponse,
    id: String,
    passphrase: String,
) -> bool {
    exists|data: SecureAccountData|
        {
            &&& saving == #[trigger] begun_creation::<E>(id, response.user_id, data, passphrase)
            &&& data.access_token == response.access_token
            &&& data.refresh_token == response.refresh_token
            &&& data.device_id == response.device_id
            &&& data.client_id is None
            &&& data.expiration is None
        }
}

/// Every answer by which the homeserver logs the client in makes the login succeed, with or without
/// a refresh token: what is then to be kept is what it answered, under the id and the passphrase
/// that the client was built with. Before that comes each of the steps, and each is followed by the
/// next where it is done: the folder, the client, the login by the method asked for.
pub proof fn law_new_login_succeeds<E>(
    format: Format,
    homeserver: String,
    method: LoginMethod,
    run: NewLoginRun<E>,
    at: int,
)
    requires
        is_new_login_run(format, homeserver, method, run),
        0 <= at < run.replies.len(),
        run.progress[at] is Ask,
    ensures
        match run.progress[at]->request {
            LoginRequest::CreateFolder => run.replies[at] is Done ==> (
            run.progress[at + 1] matches Progress::Ask {
                request: LoginRequest::BuildClient { server, id, passphrase },
                ..
            } && server == homeserver && is_credential(id@) && is_credential(passphrase@)),
            LoginRequest::BuildClient { .. } => run.replies[at] is Done ==> (
            run.progress[at + 1] matches Progress::Ask { request, .. } && request
                == LoginRequest::LogIn(method)),
            LoginRequest::LogIn(m) => {
                &&& m == method
                &&& at >= 1
                &&& run.progress[at - 1] matches Progress::Ask {
                    request: LoginRequest::BuildClient { server, id, passphrase },
                    ..
                }
                &&& server == homeserver
                &&& run.replies[at] matches LoginReply::LoggedIn(response) ==> (
                run.progress[at + 1] matches Progress::Finished(Ok(saving)) && keeps_response(
                    saving,
                    response,
                    id,
                    passphrase,
                ))
            },
            LoginRequest::RestoreSession(_) => false,
            LoginRequest::Storage(request) => is_sweep_request(request),
        },
{
    lemma_new_login_asks(format, homeserver, method, run, at);
    let reply = run.replies[at];
    let state = run.progress[at]->state;
    assert(new_login_step(state, reply, run.progress[at + 1]));
    if let NewLogin::LoggingIn { id, passphrase } = state {
        lemma_client_is_built(format, homeserver, method, run, at);
        if let LoginReply::LoggedIn(response) = reply {
            let data = SecureAccountData {
                access_token: response.access_token,
                refresh_token: response.refresh_token,
                device_id: response.device_id,
                client_id: None,
                expiration: None,
            };
            let saving = begun_creation::<E>(id, response.user_id, data, passphrase);
            assert(keeps_response(saving, response, id, passphrase));
        }
    }
}

/// The client is logged in that was built.
proof fn lemma_client_is_built<E>(
    format: Format,
    homeserver: String,
    method: LoginMethod,
    run: NewLoginRun<E>,
    at: int,
)
    requires
        is_new_login_run(format, homeserver, method, run),
        0 <= at <= run.replies.len(),
        run.progress[at] is Ask,
        run.progress[at]->state is LoggingIn,
    ensures
        at >= 1,
        run.progress[at - 1] matches Progress::Ask { request, .. } && request
            == (LoginRequest::BuildClient {
            server: homeserver,
            id: run.progress[at]->state->LoggingIn_id,
            passphrase: run.progress[at]->state->LoggingIn_passphrase,
        }),
{
    if at > 0 {
        let before = at - 1;
        lemma_new_login_asks(format, homeserver, method, run, before);
        let reply = run.replies[before];
        let state = run.progress[before]->state;
        assert(new_login_step(state, reply, run.progress[at]));
        assert(login_performs(
            format,
            run.worlds[before],
            run.progress[before]->request,
            reply,
            run.worlds[at],
        ));
        if state is Sweeping {
            lemma_new_login_sweeps_on(state, reply, run.progress[at]);
        }
    }
}

/// Whether `run` is a login that begins as `begin`.
pub open spec fn is_login_begun_as<E>(
    format: Format,
    begin: NewlyLoggingIn<E>,
    run: NewLoginRun<E>,
) -> bool {
    &&& run.progress.len() == run.replies.len() + 1
    &&& run.worlds.len() == run.replies.len() + 1
    &&& run.progress[0] == begin
    &&& forall|i: int|
        0 <= i < run.replies.len() ==> new_login_advances(
            format,
            run.progress[i],
            run.worlds[i],
            #[trigger] run.replies[i],
            run.progress[i + 1],
            run.worlds[i + 1],
        )
}

/// A login by username and password has its client built for the homeserver that was asked for, and
/// logs it in by that username and that password.
pub proof fn law_username_login_is_by_its_password<E>(
    format: Format,
    homeserver: String,
    username: String,
    password: String,
    run: NewLoginRun<E>,
    at: int,
)
    requires
        is_login_begun_as(
            format,
            begun_username_login::<E>(homeserver, username, password),
            run,
        ),
        0 <= at <= run.replies.len(),
    ensures
        run.progress[at] matches Progress::Ask { request, .. } ==> match request {
            LoginRequest::BuildClient { server, .. } => server == homeserver,
            LoginRequest::LogIn(method) => method == LoginMethod::Username { username, password },
            _ => true,
        },
        is_new_login_run(format, homeserver, LoginMethod::Username { username, password }, run),
{
    lemma_new_login_asks(
        format,
        homeserver,
        LoginMethod::Username { username, password },
        run,
        at,
    );
}

/// A login through the browser has its client built for the homeserver that was asked for, and logs
/// it in through the browser.
pub proof fn law_sso_login_is_through_the_browser<E>(
    format: Format,
    homeserver: String,
    run: NewLoginRun<E>,
    at: int,
)
    requires
        is_login_begun_as(format, begun_sso_login::<E>(homeserver), run),
        0 <= at <= run.replies.len(),
    ensures
        run.progress[at] matches Progress::Ask { request, .. } ==> match request {
            LoginRequest::BuildClient { server, .. } => server == homeserver,
            LoginRequest::LogIn(method) => method == LoginMethod::Sso,
            _ => true,
        },
        is_new_login_run(format, homeserver, LoginMethod::Sso, run),
{
    lemma_new_login_asks(format, homeserver, LoginMethod::Sso, run, at);
}

/// A login to a new account ends after three answers at most when its sweep is over. It succeeds
/// only by an answer by which the homeserver logs the client in.
pub proof fn law_new_login_ends<E>(
    format: Format,
    homeserver: String,
    method: LoginMethod,
    run: NewLoginRun<E>,
    from: int,
)
    requires
        is_new_login_run(format, homeserver, method, run),
        0 <= from <= run.replies.len(),
        is_past_sweep(run.progress[from]),
    ensures
        run.replies.len() <= from + 3,
        run.progress.last() matches Progress::Finished(Ok(_)) ==> run.replies.last() is LoggedIn,
{
    let end = run.replies.len() as int;
    lemma_new_login_answers(format, homeserver, method, run, from, end);
    if run.progress.last() matches Progress::Finished(Ok(_)) {
        assert(run.progress[0] is Ask);
        let reply = run.replies[end - 1];
        let state = run.progress[end - 1]->state;
        lemma_new_login_asks(format, homeserver, method, run, end - 1);
        assert(new_login_step(state, reply, run.progress[end]));
        if state is Sweeping {
            lemma_new_login_sweeps_on(state, reply, run.progress[end]);
        }
    }
}

/// How many answers a login has had since its sweep was over.
spec fn new_login_answers<E>(progress: NewlyLoggingIn<E>) -> int {
    match progress {
        Progress::Ask { state, .. } => match state {
            NewLogin::Sweeping { .. } => 0,
            NewLogin::CreatingFolder { .. } => 0,
            NewLogin::BuildingClient { .. } => 1,
            NewLogin::LoggingIn { .. } => 2,
        },
        Progress::Finished(_) => 3,
    }
}

proof fn lemma_new_login_answers<E>(
    format: Format,
    homeserver: String,
    method: LoginMethod,
    run: NewLoginRun<E>,
    from: int,
    at: int,
)
    requires
        is_new_login_run(format, homeserver, method, run),
        0 <= from <= at <= run.replies.len(),
        is_past_sweep(run.progress[from]),
    ensures
        is_past_sweep(run.progress[at]),
        at - from <= new_login_answers(run.progress[at]),
    decreases at - from,
{
    if from < at {
        let before = at - 1;
        lemma_new_login_answers(format, homeserver, method, run, from, before);
        let reply = run.replies[before];
        assert(new_login_step(run.progress[before]->state, reply, run.progress[at]));
    }
}

/// An id and a passphrase, whichever are drawn, are those under which the client then has its
/// store, and each is what it was drawn for.
pub proof fn law_credentials_are_taken_as_drawn<E>(
    homeserver: String,
    method: LoginMethod,
    credentials: (String, String),
    out: NewlyLoggingIn<E>,
)
    requires
        credentialed_login::<E>(homeserver, method, credentials) matches Progress::Ask {
            state,
            request: LoginRequest::CreateFolder,
        } && new_login_step(state, LoginReply::<E>::Done, out),
    ensures
        out matches Progress::Ask {
            request: LoginRequest::BuildClient { server, id, passphrase },
            ..
        } && server == homeserver && id == credentials.0 && passphrase == credentials.1,
{
}

} // verus!
