//! What holds of the watch over a session.

use crate::account::AccountData;
use crate::files::AccountFile;
use crate::refresh::giving_up;
use crate::refresh::renewed;
use crate::refresh::waiting;
use crate::refresh::watch_step;
use crate::refresh::watches_removal;
use crate::refresh::watches_update;
use crate::refresh::HandleRefreshTokens;
use crate::refresh::RefreshFailure;
use crate::refresh::RefreshReply;
use crate::refresh::RefreshRequest;
use crate::refresh::SessionChange;
use crate::refresh::Watching;
use crate::remove::begun_removal;
use crate::remove::remove_step;
use crate::remove::RemoveAccountConfig;
use crate::remove::Removing;
use crate::remove_laws::is_remove_run;
use crate::remove_laws::is_removed;
use crate::remove_laws::is_there;
use crate::remove_laws::law_removal_succeeds;
use crate::remove_laws::nothing_fails;
use crate::remove_laws::removes_its_own;
use crate::request::AccountError;
use crate::request::Progress;
use crate::request::Reply;
use crate::request::Request;
use crate::session::SessionTokens;
use crate::update::begun_update;
use crate::update::update_step;
use crate::update::UpdateAccountConfig;
use crate::update::Updating;
use crate::update_laws::is_first_of;
use crate::update_laws::is_nowhere;
use crate::update_laws::is_token_update_run;
use crate::update_laws::is_update_failure;
use crate::update_laws::is_update_run;
use crate::update_laws::law_failed_request_fails_the_update;
use crate::update_laws::law_failed_update_loses_nothing;
use crate::update_laws::law_update_keeps_what_is_given;
use crate::update_laws::law_update_replaces_the_tokens;
use crate::update_laws::secure_data_at;
use crate::update_laws::updated;
use crate::world::accounts_of;
use crate::world::key;
use crate::world::performs;
use crate::world::same_file;
use crate::world::Format;
use crate::world::Run;
use crate::world::World;
use vstd::prelude::*;

verus! {

/// Whether `reply` is an answer to what the watch asks for at `state`.
pub open spec fn is_answer<E>(state: HandleRefreshTokens, reply: RefreshReply<E>) -> bool {
    match state {
        HandleRefreshTokens::Waiting => reply is Change || reply is Closed,
        HandleRefreshTokens::Refreshing => reply is Refreshed || reply is NotRefreshed,
        HandleRefreshTokens::ReadingSession => reply is Session,
        HandleRefreshTokens::Updating(_) => reply is Storage,
        HandleRefreshTokens::SendingClient => reply is Sent,
        HandleRefreshTokens::ReportingUpdate => reply is Reported,
        HandleRefreshTokens::ReportingRefresh => reply is Reported,
        HandleRefreshTokens::ReadingUser => reply is User,
        HandleRefreshTokens::Removing(_) => reply is Storage,
    }
}

/// The watch ends only where there are no more changes, where a failure to renew the access token
/// was reported, or where the account is removed as far as it can be.
pub proof fn law_watch_ends<E>(
    state: HandleRefreshTokens,
    reply: RefreshReply<E>,
    out: Watching<E>,
)
    requires
        watch_step(state, reply, out),
        is_answer(state, reply),
        out is Finished,
    ensures
        match state {
            HandleRefreshTokens::Waiting => reply is Closed,
            HandleRefreshTokens::ReportingRefresh => true,
            HandleRefreshTokens::Removing(removal) => reply matches RefreshReply::Storage(answer)
                && remove_step(removal, answer, Removing::Finished(())),
            _ => false,
        },
{
    if let HandleRefreshTokens::Removing(removal) = state {
        if let RefreshReply::Storage(answer) = reply {
            let removing = choose|removing: Removing|
                remove_step(removal, answer, removing) && #[trigger] watches_removal(removing, out);
            assert(removing is Finished);
        }
    }
}

/// Whether the watch is where new tokens are kept.
pub open spec fn keeps_tokens(state: HandleRefreshTokens) -> bool {
    ||| state is ReadingSession
    ||| state is Updating
    ||| state is SendingClient
    ||| state is ReportingUpdate
}

/// Once the access token is renewed the watch goes on, whether or not the new tokens can be kept:
/// from there it comes to nothing but waiting again.
pub proof fn law_watch_outlives_an_update<E>(
    state: HandleRefreshTokens,
    reply: RefreshReply<E>,
    out: Watching<E>,
)
    requires
        watch_step(state, reply, out),
        is_answer(state, reply),
        keeps_tokens(state),
    ensures
        out == waiting::<E>() || (out matches Progress::Ask { state: next, .. } && keeps_tokens(
            next,
        )),
{
}

/// The tokens that a renewal brings, and their expiration, are those that are to be kept for the
/// session's user.
pub proof fn law_renewed_tokens_are_to_be_kept<E>(
    user_id: String,
    tokens: SessionTokens,
    expiration: Option<u64>,
    reading: Watching<E>,
    out: Watching<E>,
)
    requires
        watch_step(HandleRefreshTokens::Refreshing, RefreshReply::<E>::Refreshed, reading),
        reading matches Progress::Ask { state, .. } && watch_step(
            state,
            RefreshReply::<E>::Session { user_id, tokens, expiration },
            out,
        ),
    ensures
        watches_update(begun_update::<E>(user_id, renewed(tokens, expiration)), out),
{
}

/// Whether the session is lost with that answer: the homeserver destroyed it, or it cannot be
/// renewed for want of a refresh token that the homeserver knows.
pub open spec fn loses_session<E>(state: HandleRefreshTokens, reply: RefreshReply<E>) -> bool {
    match (state, reply) {
        (HandleRefreshTokens::Waiting, RefreshReply::Change(change)) => change
            == SessionChange::UnknownToken { soft_logout: false },
        (HandleRefreshTokens::Refreshing, RefreshReply::NotRefreshed(failure)) => match failure {
            RefreshFailure::RefreshTokenRequired => true,
            RefreshFailure::MatrixAuth { unknown_token, .. } => unknown_token,
            RefreshFailure::Other(_) => false,
        },
        _ => false,
    }
}

/// The account of a session is removed exactly where the session is lost.
pub proof fn law_lost_session_is_removed<E>(
    state: HandleRefreshTokens,
    reply: RefreshReply<E>,
    out: Watching<E>,
)
    requires
        watch_step(state, reply, out),
        is_answer(state, reply),
    ensures
        loses_session(state, reply) <==> out == giving_up::<E>(),
        (out matches Progress::Ask { state: HandleRefreshTokens::Removing(_), .. }) ==> state
            is ReadingUser || state is Removing,
{
}

/// A session that is given up has the account of its user removed.
pub proof fn law_giving_up_removes_the_users_account<E>(user_id: String, out: Watching<E>)
    requires
        giving_up::<E>() matches Progress::Ask { state, .. } && watch_step(
            state,
            RefreshReply::<E>::User(user_id),
            out,
        ),
    ensures
        watches_removal(begun_removal(user_id), out),
{
}

/// Whether a request of the watch, made where things stand as in `pre`, can be answered by `reply`
/// and leave them as in `post`.
pub open spec fn watch_performs<E>(
    format: Format,
    pre: World,
    request: RefreshRequest<E>,
    reply: RefreshReply<E>,
    post: World,
) -> bool {
    match request {
        RefreshRequest::NextChange => post == pre && (reply is Change || reply is Closed),
        RefreshRequest::RefreshAccessToken => post == pre && (reply is Refreshed || reply
            is NotRefreshed),
        RefreshRequest::ReadSession => post == pre && reply is Session,
        RefreshRequest::ReadUser => post == pre && reply is User,
        RefreshRequest::Storage(request) => {
            &&& reply matches RefreshReply::Storage(reply)
            &&& performs(format, pre, request, reply, post)
        },
        RefreshRequest::Report(_) => post == pre && reply is Reported,
        RefreshRequest::SendClient => post == pre && reply is Sent,
    }
}

/// A run of the watch: where it was at each moment, how things stood then, and the answers between.
pub struct WatchRun<E> {
    pub progress: Seq<Watching<E>>,
    pub worlds: Seq<World>,
    pub replies: Seq<RefreshReply<E>>,
}

/// Whether `run` is one that the watch allows.
pub open spec fn is_watch_run<E>(format: Format, run: WatchRun<E>) -> bool {
    &&& run.progress.len() == run.replies.len() + 1
    &&& run.worlds.len() == run.replies.len() + 1
    &&& run.progress[0] == waiting::<E>()
    &&& forall|i: int|
        0 <= i < run.replies.len() ==> watch_advances(
            format,
            run.progress[i],
            run.worlds[i],
            #[trigger] run.replies[i],
            run.progress[i + 1],
            run.worlds[i + 1],
        )
}

/// Whether the watch at `progress` asks for something that `reply` answers, and goes on to `next`
/// with things standing as in `post`.
pub open spec fn watch_advances<E>(
    format: Format,
    progress: Watching<E>,
    pre: World,
    reply: RefreshReply<E>,
    next: Watching<E>,
    post: World,
) -> bool {
    &&& progress matches Progress::Ask { state, request }
    &&& watch_performs(format, pre, request, reply, post)
    &&& watch_step(state, reply, next)
}

/// Whether the watch asks for what its state is about.
spec fn asks_rightly<E>(progress: Watching<E>) -> bool {
    progress matches Progress::Ask { state, request } ==> match state {
        HandleRefreshTokens::Waiting => request is NextChange,
        HandleRefreshTokens::Refreshing => request is RefreshAccessToken,
        HandleRefreshTokens::ReadingSession => request is ReadSession,
        HandleRefreshTokens::Updating(_) => request is Storage,
        HandleRefreshTokens::SendingClient => request is SendClient,
        HandleRefreshTokens::ReportingUpdate => request is Report,
        HandleRefreshTokens::ReportingRefresh => request is Report,
        HandleRefreshTokens::ReadingUser => request is ReadUser,
        HandleRefreshTokens::Removing(_) => request is Storage,
    }
}

proof fn lemma_asks_rightly<E>(format: Format, run: WatchRun<E>, at: int)
    requires
        is_watch_run(format, run),
        0 <= at <= run.replies.len(),
    ensures
        asks_rightly(run.progress[at]),
    decreases at,
{
    if at > 0 {
        let before = at - 1;
        lemma_asks_rightly(format, run, before);
        let reply = run.replies[before];
        assert(watch_step(run.progress[before]->state, reply, run.progress[at]));
    }
}

/// The watch changes nothing on disk or in the keyring but by an update of tokens or the removal
/// of the account.
pub proof fn law_watch_changes_nothing_else<E>(format: Format, run: WatchRun<E>, at: int)
    requires
        is_watch_run(format, run),
        0 <= at < run.replies.len(),
        !(run.progress[at]->state is Updating),
        !(run.progress[at]->state is Removing),
    ensures
        run.worlds[at + 1] == run.worlds[at],
{
    lemma_asks_rightly(format, run, at);
    assert(watch_performs(
        format,
        run.worlds[at],
        run.progress[at]->request,
        run.replies[at],
        run.worlds[at + 1],
    ));
}

/// How far the update of the tokens has come where the watch is at it, or has just left it.
pub open spec fn update_of<E>(progress: Watching<E>) -> Updating<E> {
    match progress {
        Progress::Ask {
            state: HandleRefreshTokens::Updating(state),
            request: RefreshRequest::Storage(request),
        } => Progress::Ask { state, request },
        Progress::Ask {
            state: HandleRefreshTokens::ReportingUpdate,
            request: RefreshRequest::Report(error),
        } => Progress::Finished(Err(error)),
        _ => Progress::Finished(Ok(())),
    }
}

/// The part of a run of the watch from `from` to `to`, taken for a run of an update.
pub open spec fn update_between<E>(run: WatchRun<E>, from: int, to: int) -> Run<
    UpdateAccountConfig,
    Result<(), AccountError<E>>,
    E,
> {
    Run {
        progress: Seq::new((to - from + 1) as nat, |i: int| update_of(run.progress[from + i])),
        worlds: run.worlds.subrange(from, to + 1),
        replies: Seq::new((to - from) as nat, |i: int| run.replies[from + i]->Storage_0),
    }
}

/// Whether the watch was told at `from` what the renewed session is, and is from then on at the
/// update of the tokens, until `at`.
pub open spec fn keeps_renewal<E>(
    run: WatchRun<E>,
    from: int,
    at: int,
    user_id: String,
    tokens: SessionTokens,
    expiration: Option<u64>,
) -> bool {
    &&& 0 <= from < at <= run.replies.len()
    &&& run.progress[from]->state is ReadingSession
    &&& run.replies[from] == RefreshReply::<E>::Session { user_id, tokens, expiration }
    &&& forall|i: int| from < i < at ==> (#[trigger] run.progress[i])->state is Updating
}

/// What follows a renewal is an update of the tokens and the expiration of the session's user, and
/// nothing besides.
pub proof fn law_renewal_is_kept_by_an_update<E>(
    format: Format,
    run: WatchRun<E>,
    from: int,
    at: int,
    user_id: String,
    tokens: SessionTokens,
    expiration: Option<u64>,
)
    requires
        is_watch_run(format, run),
        keeps_renewal(run, from, at, user_id, tokens, expiration),
    ensures
        run.worlds[from + 1] == run.worlds[from],
        is_update_run(
            format,
            user_id,
            renewed(tokens, expiration),
            update_between(run, from + 1, at),
        ),
{
    law_watch_changes_nothing_else(format, run, from);
    let begin = from + 1;
    let update = update_between(run, begin, at);
    let told = run.replies[from];
    assert(watch_step(run.progress[from]->state, told, run.progress[begin]));
    assert(update.progress[0] == update_of(run.progress[begin]));
    assert forall|i: int| 0 <= i < update.replies.len() implies {
        &&& update.progress[i] matches Progress::Ask { state, request }
        &&& performs(
            format,
            update.worlds[i],
            request,
            #[trigger] update.replies[i],
            update.worlds[i + 1],
        )
        &&& update_step(state, update.replies[i], update.progress[i + 1])
    } by {
        let k = begin + i;
        lemma_asks_rightly(format, run, k);
        let reply = run.replies[k];
        let next = run.progress[k + 1];
        assert(run.progress[k]->state is Updating);
        assert(watch_step(run.progress[k]->state, reply, next));
        let state = run.progress[k]->state->Updating_0;
        let updating = choose|updating: Updating<E>|
            update_step(state, reply->Storage_0, updating) && #[trigger] watches_update(
                updating,
                next,
            );
        assert(update_of(next) == updating);
        assert(update.progress[i + 1] == update_of(run.progress[k + 1]));
        assert(update.worlds[i + 1] == run.worlds[k + 1]);
    }
}

/// A renewal that is kept leaves the new tokens and the new expiration in the encrypted file of the
/// session's user, and changes nothing besides; only then is the client sent. One that cannot be
/// kept leaves the list of accounts, every encrypted file, every store and the keyring as they
/// were; then the error is reported.
pub proof fn law_kept_renewal_is_in_the_file<E>(
    format: Format,
    run: WatchRun<E>,
    from: int,
    at: int,
    user_id: String,
    tokens: SessionTokens,
    expiration: Option<u64>,
)
    requires
        is_watch_run(format, run),
        keeps_renewal(run, from, at, user_id, tokens, expiration),
    ensures
        run.progress[at]->state is SendingClient ==> exists|id: String| #[trigger]
            updated(
                format,
                run.worlds[from],
                run.worlds[at],
                user_id@,
                renewed(tokens, expiration),
                id,
            ),
        run.progress[at] matches Progress::Ask {
            state: HandleRefreshTokens::ReportingUpdate,
            request: RefreshRequest::Report(error),
        } ==> {
            &&& is_update_failure(format, run.worlds[from], user_id, error)
            &&& run.worlds[at].folders == run.worlds[from].folders
            &&& run.worlds[at].keyring == run.worlds[from].keyring
            &&& same_file(run.worlds[at], run.worlds[from], key(AccountFile::Users))
            &&& forall|id: String|
                same_file(
                    run.worlds[at],
                    run.worlds[from],
                    #[trigger] key(AccountFile::Secure(id)),
                )
        },
        run.progress[at] matches Progress::Ask { state, .. } && {
            ||| state is Updating
            ||| state is SendingClient
            ||| state is ReportingUpdate
        },
{
    law_renewal_is_kept_by_an_update(format, run, from, at, user_id, tokens, expiration);
    lemma_asks_rightly(format, run, at);
    let update = renewed(tokens, expiration);
    let updating = update_between(run, from + 1, at);
    assert(updating.worlds[0] == run.worlds[from]);
    assert(updating.worlds.last() == run.worlds[at]);
    assert(updating.progress.last() == update_of(run.progress[at]));
    lemma_asks_rightly(format, run, at - 1);
    let last = run.replies[at - 1];
    assert(watch_step(run.progress[at - 1]->state, last, run.progress[at]));
    if run.progress[at]->state is SendingClient {
        law_update_replaces_the_tokens(format, user_id, update, updating);
    }
    if let Progress::Ask {
        state: HandleRefreshTokens::ReportingUpdate,
        request: RefreshRequest::Report(error),
    } = run.progress[at] {
        law_failed_update_loses_nothing(format, user_id, update, updating, error);
    }
}

/// How far the removal of the account has come where the watch is at it, or has ended with it.
pub open spec fn removal_of<E>(progress: Watching<E>) -> Removing {
    match progress {
        Progress::Ask {
            state: HandleRefreshTokens::Removing(state),
            request: RefreshRequest::Storage(request),
        } => Progress::Ask { state, request },
        _ => Progress::Finished(()),
    }
}

/// The part of a run of the watch from `from` to `to`, taken for a run of a removal.
pub open spec fn removal_between<E>(run: WatchRun<E>, from: int, to: int) -> Run<
    RemoveAccountConfig,
    (),
    E,
> {
    Run {
        progress: Seq::new((to - from + 1) as nat, |i: int| removal_of(run.progress[from + i])),
        worlds: run.worlds.subrange(from, to + 1),
        replies: Seq::new((to - from) as nat, |i: int| run.replies[from + i]->Storage_0),
    }
}

/// A removal, once begun, goes on until the watch ends.
proof fn lemma_removing<E>(format: Format, run: WatchRun<E>, from: int, at: int)
    requires
        is_watch_run(format, run),
        0 <= from <= at <= run.replies.len(),
        run.progress[from] matches Progress::Ask { state: HandleRefreshTokens::Removing(_), .. }
            || run.progress[from] is Finished,
    ensures
        run.progress[at] matches Progress::Ask { state: HandleRefreshTokens::Removing(_), .. }
            || run.progress[at] is Finished,
    decreases at - from,
{
    if from < at {
        lemma_removing(format, run, from, at - 1);
        let reply = run.replies[at - 1];
        assert(watch_step(run.progress[at - 1]->state, reply, run.progress[at]));
    }
}

/// A session that is lost ends as the removal of its user's account alone does: from there the
/// watch does what that does, with nothing before it and nothing after.
pub proof fn law_lost_session_ends_as_its_removal<E>(
    format: Format,
    run: WatchRun<E>,
    from: int,
    at: int,
    user_id: String,
)
    requires
        is_watch_run(format, run),
        0 <= from < at - 1 < run.replies.len(),
        loses_session(run.progress[from]->state, run.replies[from]),
        run.replies[from + 1] == RefreshReply::<E>::User(user_id),
    ensures
        run.worlds[from + 2] == run.worlds[from],
        is_remove_run(format, user_id, removal_between(run, from + 2, at)),
        run.progress[at] is Finished <==> removal_between(run, from + 2, at).progress.last()
            is Finished,
{
    let begin = from + 2;
    let lost = run.replies[from];
    assert(watch_step(run.progress[from]->state, lost, run.progress[from + 1]));
    let told = run.replies[from + 1];
    assert(watch_step(run.progress[from + 1]->state, told, run.progress[begin]));
    law_watch_changes_nothing_else(format, run, from);
    law_watch_changes_nothing_else(format, run, from + 1);
    let removal = removal_between(run, begin, at);
    assert(removal.progress[0] == removal_of(run.progress[begin]));
    assert forall|i: int| 0 <= i < removal.replies.len() implies {
        &&& removal.progress[i] matches Progress::Ask { state, request }
        &&& performs(
            format,
            removal.worlds[i],
            request,
            #[trigger] removal.replies[i],
            removal.worlds[i + 1],
        )
        &&& remove_step(state, removal.replies[i], removal.progress[i + 1])
    } by {
        let k = begin + i;
        lemma_removing(format, run, begin, k);
        lemma_asks_rightly(format, run, k);
        let reply = run.replies[k];
        let next = run.progress[k + 1];
        assert(watch_step(run.progress[k]->state, reply, next));
        let state = run.progress[k]->state->Removing_0;
        let removing = choose|removing: Removing|
            remove_step(state, reply->Storage_0, removing) && #[trigger] watches_removal(
                removing,
                next,
            );
        assert(removal_of(next) == removing);
        assert(removal.progress[i + 1] == removal_of(run.progress[k + 1]));
        assert(removal.worlds[i + 1] == run.worlds[k + 1]);
    }
    lemma_removing(format, run, begin, at);
    lemma_asks_rightly(format, run, at);
    assert(removal.progress.last() == removal_of(run.progress[at]));
}

/// Whether the encrypted file of the user's account, their first, holds the access token, the
/// refresh token and the expiration of the session now, and of all else what it held then.
pub open spec fn holds_session(
    format: Format,
    then: World,
    now: World,
    user: Seq<char>,
    tokens: SessionTokens,
    expiration: Option<u64>,
) -> bool {
    accounts_of(format, then) matches Some(accounts) && exists|at: int| #[trigger]
        is_first_of(accounts, user, at) && {
            &&& secure_data_at(format, then, at) matches Some(old)
            &&& secure_data_at(format, now, at) matches Some(new)
            &&& new.access_token == tokens.access_token
            &&& new.refresh_token == tokens.refresh_token
            &&& new.expiration == expiration
            &&& new.device_id == old.device_id
            &&& new.client_id == old.client_id
        }
}

/// Whether the answer at `from` is the last before `at` that says what the session is.
pub open spec fn is_last_session<E>(run: WatchRun<E>, from: int, at: int) -> bool {
    &&& 0 <= from < at
    &&& run.replies[from] is Session
    &&& forall|i: int| from < i < at ==> !((#[trigger] run.replies[i]) is Session)
}

/// Where the watch keeps renewed tokens it was told of them, and has done nothing else since.
proof fn lemma_was_told<E>(format: Format, run: WatchRun<E>, at: int) -> (from: int)
    requires
        is_watch_run(format, run),
        0 <= at <= run.replies.len(),
        run.progress[at] is Ask,
        ({
            let state = run.progress[at]->state;
            state is Updating || state is SendingClient || state is ReportingUpdate
        }),
    ensures
        is_last_session(run, from, at),
        run.progress[from] is Ask,
        keeps_renewal(
            run,
            from,
            at,
            run.replies[from]->user_id,
            run.replies[from]->tokens,
            run.replies[from]->expiration,
        ),
    decreases at,
{
    let before = at - 1;
    assert(at > 0);
    let reply = run.replies[before];
    let next = run.progress[at];
    let state = run.progress[before]->state;
    lemma_asks_rightly(format, run, before);
    assert(watch_step(state, reply, next));
    if state is Updating {
        let from = lemma_was_told(format, run, before);
        assert forall|i: int| from < i < at implies !((#[trigger] run.replies[i]) is Session) by {
            if i == before {
                assert(watch_performs(
                    format,
                    run.worlds[before],
                    run.progress[before]->request,
                    reply,
                    run.worlds[at],
                ));
            }
        }
        from
    } else {
        assert(state is ReadingSession);
        before
    }
}

/// When the client is sent, the watch was told what the session is, and the encrypted file of the
/// session's user holds just that: the access token, the refresh token, whether it is the old one,
/// a new one or none, and the expiration of the session that it was last told of. The device and
/// the client id are those that the file held before.
pub proof fn law_sent_client_has_its_tokens_kept<E>(format: Format, run: WatchRun<E>, at: int)
    requires
        is_watch_run(format, run),
        0 <= at <= run.replies.len(),
        run.progress[at] matches Progress::Ask { request: RefreshRequest::SendClient, .. },
    ensures
        exists|from: int| #[trigger]
            is_last_session(run, from, at) && (run.replies[from] matches RefreshReply::Session {
                user_id,
                tokens,
                expiration,
            } && holds_session(
                format,
                run.worlds[from],
                run.worlds[at],
                user_id@,
                tokens,
                expiration,
            )),
{
    lemma_asks_rightly(format, run, at);
    assert(run.progress[at]->state is SendingClient);
    let from = lemma_was_told(format, run, at);
    let user_id = run.replies[from]->user_id;
    let tokens = run.replies[from]->tokens;
    let expiration = run.replies[from]->expiration;
    law_renewal_is_kept_by_an_update(format, run, from, at, user_id, tokens, expiration);
    let updating = update_between(run, from + 1, at);
    assert(updating.worlds[0] == run.worlds[from]);
    assert(updating.worlds.last() == run.worlds[at]);
    assert(updating.progress.last() == update_of(run.progress[at]));
    assert(is_token_update_run(
        format,
        user_id,
        Some(tokens.access_token),
        Some(tokens.refresh_token),
        Some(expiration),
        updating,
    ));
    law_update_keeps_what_is_given(
        format,
        user_id,
        Some(tokens.access_token),
        Some(tokens.refresh_token),
        Some(expiration),
        updating,
    );
    assert(holds_session(format, run.worlds[from], run.worlds[at], user_id@, tokens, expiration));
    assert(is_last_session(run, from, at));
}

/// A renewal is kept, and the client sent, where no request for that fails and the user has an
/// account; unless the account's data do not open, or the machine finds that too much work. What is
/// reported in place of that is what went wrong: the failure of the last request, or that no account
/// is the user's.
pub proof fn law_renewal_is_kept<E>(
    format: Format,
    run: WatchRun<E>,
    from: int,
    at: int,
    user_id: String,
    tokens: SessionTokens,
    expiration: Option<u64>,
)
    requires
        is_watch_run(format, run),
        keeps_renewal(run, from, at, user_id, tokens, expiration),
        !(run.progress[at]->state is Updating),
    ensures
        run.progress[at] matches Progress::Ask { request, .. } && match request {
            RefreshRequest::SendClient => forall|i: int|
                from < i < at ==> !((#[trigger] run.replies[i]) matches RefreshReply::Storage(
                    Reply::Failed(_),
                )),
            RefreshRequest::Report(AccountError::Outside(failure)) => run.replies[at - 1]
                == RefreshReply::Storage(Reply::Failed(failure)),
            RefreshRequest::Report(AccountError::UserNotFound(user)) => user == user_id && (
            accounts_of(format, run.worlds[from]) matches Some(accounts) && is_nowhere(
                accounts,
                user_id@,
            )),
            RefreshRequest::Report(AccountError::Decrypt(_)) => true,
            _ => false,
        },
{
    law_renewal_is_kept_by_an_update(format, run, from, at, user_id, tokens, expiration);
    law_kept_renewal_is_in_the_file(format, run, from, at, user_id, tokens, expiration);
    lemma_asks_rightly(format, run, at);
    let update = renewed(tokens, expiration);
    let updating = update_between(run, from + 1, at);
    let end = updating.replies.len() as int;
    assert(updating.progress.last() == update_of(run.progress[at]));
    let told = run.replies[from];
    assert(watch_step(run.progress[from]->state, told, run.progress[from + 1]));
    assert(at > from + 1);
    let last = run.replies[at - 1];
    lemma_asks_rightly(format, run, at - 1);
    assert(watch_performs(
        format,
        run.worlds[at - 1],
        run.progress[at - 1]->request,
        last,
        run.worlds[at],
    ));
    assert(updating.replies[end - 1] == last->Storage_0);
    if run.progress[at]->state is SendingClient {
        assert forall|i: int| from < i < at implies !((
        #[trigger] run.replies[i]) matches RefreshReply::Storage(Reply::Failed(_))) by {
            if let RefreshReply::Storage(Reply::Failed(error)) = run.replies[i] {
                let k = i - from - 1;
                assert(updating.replies[k] == Reply::Failed(error));
                law_failed_request_fails_the_update(format, user_id, update, updating, k, error);
                assert(updating.progress[k + 1] == update_of(run.progress[i + 1]));
                if i + 1 < at {
                    assert(run.progress[i + 1]->state is Updating);
                    lemma_asks_rightly(format, run, i + 1);
                    let after = run.replies[i + 1];
                }
            }
        }
    } else if let Progress::Ask {
        state: HandleRefreshTokens::ReportingUpdate,
        request: RefreshRequest::Report(error),
    } = run.progress[at] {
        assert(updating.progress[end] == Updating::<E>::Finished(Err(error)));
        if let AccountError::Outside(failure) = error {
            law_failed_request_fails_the_update(format, user_id, update, updating, end - 1, failure);
        }
    }
}

/// How the watch goes on with each answer: it has the access token renewed after a soft logout, and
/// after any other loss of it gives the session up; it reads the session that was renewed, gives up
/// one that cannot be, and reports any other failure to renew one, with which it ends; it keeps what
/// it reads. With the client sent, or a failure to keep the tokens reported, or tokens renewed
/// elsewhere, it waits for the next change. It ends where there are no more.
pub proof fn law_watch_goes_on<E>(format: Format, run: WatchRun<E>, at: int)
    requires
        is_watch_run(format, run),
        0 <= at < run.replies.len(),
    ensures
        match (run.progress[at]->request, run.replies[at]) {
            (RefreshRequest::NextChange, RefreshReply::Change(change)) => match change {
                SessionChange::UnknownToken { soft_logout: true } => asks(
                    run,
                    at + 1,
                    RefreshRequest::RefreshAccessToken,
                ),
                SessionChange::UnknownToken { soft_logout: false } => asks(
                    run,
                    at + 1,
                    RefreshRequest::ReadUser,
                ),
                SessionChange::TokensRefreshed => asks(run, at + 1, RefreshRequest::NextChange),
            },
            (RefreshRequest::NextChange, _) => run.progress[at + 1] is Finished,
            (RefreshRequest::RefreshAccessToken, RefreshReply::Refreshed) => asks(
                run,
                at + 1,
                RefreshRequest::ReadSession,
            ),
            (RefreshRequest::RefreshAccessToken, RefreshReply::NotRefreshed(failure)) => match failure {
                RefreshFailure::RefreshTokenRequired => asks(run, at + 1, RefreshRequest::ReadUser),
                RefreshFailure::MatrixAuth { unknown_token: true, .. } => asks(
                    run,
                    at + 1,
                    RefreshRequest::ReadUser,
                ),
                RefreshFailure::MatrixAuth { unknown_token: false, error } => asks(
                    run,
                    at + 1,
                    RefreshRequest::Report(AccountError::Outside(error)),
                ),
                RefreshFailure::Other(error) => asks(
                    run,
                    at + 1,
                    RefreshRequest::Report(AccountError::Outside(error)),
                ),
            },
            (RefreshRequest::ReadSession, _) => asks(
                run,
                at + 1,
                RefreshRequest::Storage(Request::ReadAccounts),
            ),
            (RefreshRequest::ReadUser, _) => asks(
                run,
                at + 1,
                RefreshRequest::Storage(Request::ReadAccounts),
            ),
            (RefreshRequest::SendClient, _) => asks(run, at + 1, RefreshRequest::NextChange),
            (RefreshRequest::Report(_), _) => if asks(
                run,
                at - 1,
                RefreshRequest::RefreshAccessToken,
            ) {
                run.progress[at + 1] is Finished
            } else {
                asks(run, at + 1, RefreshRequest::NextChange)
            },
            (RefreshRequest::Storage(_), _) => true,
            _ => false,
        },
{
    lemma_asks_rightly(format, run, at);
    let reply = run.replies[at];
    let state = run.progress[at]->state;
    assert(watch_step(state, reply, run.progress[at + 1]));
    assert(watch_performs(
        format,
        run.worlds[at],
        run.progress[at]->request,
        reply,
        run.worlds[at + 1],
    ));
    if state is ReportingRefresh || state is ReportingUpdate {
        assert(at > 0);
        lemma_asks_rightly(format, run, at - 1);
        let before = run.replies[at - 1];
        assert(watch_step(run.progress[at - 1]->state, before, run.progress[at]));
    }
}

/// Whether the watch asks for `request` at `at`.
pub open spec fn asks<E>(run: WatchRun<E>, at: int, request: RefreshRequest<E>) -> bool {
    run.progress[at] matches Progress::Ask { request: asked, .. } && asked == request
}

/// A session that is lost has its account removed: where the user's first account is listed, active
/// or not, and its store and its encrypted file are there, and no request for the removal fails,
/// nothing of the account is left when the watch is over.
pub proof fn law_lost_session_leaves_nothing<E>(
    format: Format,
    run: WatchRun<E>,
    from: int,
    user_id: String,
    accounts: Seq<AccountData>,
    place: int,
)
    requires
        is_watch_run(format, run),
        0 <= from < run.replies.len() - 1,
        loses_session(run.progress[from]->state, run.replies[from]),
        run.replies[from + 1] == RefreshReply::<E>::User(user_id),
        run.progress.last() is Finished,
        accounts_of(format, run.worlds[from]) == Some(accounts),
        is_first_of(accounts, user_id@, place),
        is_there(run.worlds[from], AccountFile::Store(accounts[place].id)),
        is_there(run.worlds[from], AccountFile::Secure(accounts[place].id)),
        nothing_fails(
            removal_between(run, from + 2, run.replies.len() as int),
            run.replies.len() - from - 2,
        ),
    ensures
        is_removed(format, run.worlds[from], run.worlds.last(), accounts[place].id),
        removes_its_own(
            format,
            run.worlds[from],
            run.worlds.last(),
            user_id@,
            accounts[place].id,
        ),
{
    let end = run.replies.len() as int;
    law_lost_session_ends_as_its_removal(format, run, from, end, user_id);
    let removal = removal_between(run, from + 2, end);
    assert(removal.worlds[0] == run.worlds[from]);
    assert(removal.worlds.last() == run.worlds.last());
    assert(run.progress.last() == run.progress[end]);
    law_removal_succeeds(format, user_id, removal, accounts, place);
}

/// While the tokens are being kept the watch asks what the update of them asks. It sends the client
/// where the update succeeds, and reports the very error where it fails.
pub proof fn law_watch_reports_what_the_update_fails_with<E>(
    update: UpdateAccountConfig,
    reply: Reply<E>,
    out: Watching<E>,
)
    requires
        watch_step(HandleRefreshTokens::Updating(update), RefreshReply::Storage(reply), out),
    ensures
        match out {
            Progress::Ask { request: RefreshRequest::Storage(request), state } => {
                &&& state matches HandleRefreshTokens::Updating(state)
                &&& update_step(update, reply, Updating::<E>::Ask { state, request })
            },
            Progress::Ask { request: RefreshRequest::SendClient, .. } => update_step(
                update,
                reply,
                Updating::<E>::Finished(Ok(())),
            ),
            Progress::Ask { request: RefreshRequest::Report(error), .. } => update_step(
                update,
                reply,
                Updating::<E>::Finished(Err(error)),
            ),
            _ => false,
        },
{
    let updating = choose|updating: Updating<E>|
        update_step(update, reply, updating) && #[trigger] watches_update(updating, out);
    assert(watches_update(updating, out));
}

} // verus!
