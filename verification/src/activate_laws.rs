//! What holds of the choice of the active account, however the requests turn out.

use crate::account::has_user;
use crate::account::switched_to;
use crate::account::AccountData;
use crate::activate::activate_step;
use crate::activate::begun_activation;
use crate::activate::Activating;
use crate::activate::SetActiveAccount;
use crate::files::AccountFile;
use crate::request::AccountError;
use crate::request::Progress;
use crate::request::Reply;
use crate::request::Request;
use crate::update_laws::is_nowhere;
use crate::world::accounts_of;
use crate::world::but_for_file;
use crate::world::is_run;
use crate::world::key;
use crate::world::performs;
use crate::world::Format;
use crate::world::Run;
use crate::world::World;
use vstd::prelude::*;

verus! {

/// What holds at each moment of the choice of an account.
spec fn activate_invariant<E>(
    format: Format,
    user_id: String,
    active: bool,
    start: World,
    progress: Activating<E>,
    world: World,
) -> bool {
    let accounts = accounts_of(format, start);
    match progress {
        Progress::Ask { state, request } => world == start && match state {
            SetActiveAccount::ReadingAccounts { user_id: u, active: a } => {
                &&& u == user_id
                &&& a == active
                &&& request == Request::ReadAccounts
            },
            SetActiveAccount::EncodingAccounts => {
                &&& accounts is Some
                &&& has_user(accounts->0, user_id@)
                &&& request matches Request::EncodeAccounts(list)
                &&& list@ == switched_to(accounts->0, user_id@, active)
            },
            SetActiveAccount::WritingAccounts => {
                &&& accounts is Some
                &&& has_user(accounts->0, user_id@)
                &&& request matches Request::WriteFile(AccountFile::Users, bytes)
                &&& (format.accounts)(bytes@) == Some(switched_to(accounts->0, user_id@, active))
            },
        },
        Progress::Finished(Ok(_)) => {
            &&& but_for_file(start, world, key(AccountFile::Users))
            &&& accounts is Some
            &&& has_user(accounts->0, user_id@)
            &&& accounts_of(format, world) == Some(switched_to(accounts->0, user_id@, active))
        },
        Progress::Finished(Err(AccountError::UserNotFound(user))) => {
            &&& world == start
            &&& user == user_id
            &&& accounts is Some
            &&& !has_user(accounts->0, user_id@)
        },
        Progress::Finished(Err(error)) => {
            &&& error is Outside
            &&& but_for_file(start, world, key(AccountFile::Users))
        },
    }
}

/// A run of the choice of an account.
pub open spec fn is_activate_run<E>(
    format: Format,
    user_id: String,
    active: bool,
    run: Run<SetActiveAccount, Result<(), AccountError<E>>, E>,
) -> bool {
    &&& is_run(
        format,
        |state: SetActiveAccount, reply: Reply<E>, next: Activating<E>|
            activate_step(state, reply, next),
        run,
    )
    &&& run.progress[0] == begun_activation::<E>(user_id, active)
}

proof fn lemma_activate_run<E>(
    format: Format,
    user_id: String,
    active: bool,
    run: Run<SetActiveAccount, Result<(), AccountError<E>>, E>,
    at: int,
)
    requires
        is_activate_run(format, user_id, active, run),
        0 <= at <= run.replies.len(),
    ensures
        activate_invariant(
            format,
            user_id,
            active,
            run.worlds[0],
            run.progress[at],
            run.worlds[at],
        ),
    decreases at,
{
    if at > 0 {
        let before = at - 1;
        lemma_activate_run(format, user_id, active, run, before);
        let reply = run.replies[before];
        let pre = run.worlds[before];
        let post = run.worlds[at];
        let users = key(AccountFile::Users);
        assert(performs(format, pre, run.progress[before]->request, reply, post));
        if let Request::WriteFile(_, bytes) = run.progress[before]->request {
            assert(pre.files.insert(users, bytes@).remove(users) =~= pre.files.remove(users));
        }
    }
}

/// The choice of an account changes nothing but the list of accounts, at any moment.
pub proof fn law_choice_touches_the_list_only<E>(
    format: Format,
    user_id: String,
    active: bool,
    run: Run<SetActiveAccount, Result<(), AccountError<E>>, E>,
    at: int,
)
    requires
        is_activate_run(format, user_id, active, run),
        0 <= at <= run.replies.len(),
    ensures
        but_for_file(run.worlds[0], run.worlds[at], key(AccountFile::Users)),
{
    lemma_activate_run(format, user_id, active, run, at);
}

/// A choice that succeeds leaves the accounts listed as they were, but for which are active: of
/// the user's that which was asked, and of the others none.
pub proof fn law_choice_switches_the_list<E>(
    format: Format,
    user_id: String,
    active: bool,
    run: Run<SetActiveAccount, Result<(), AccountError<E>>, E>,
)
    requires
        is_activate_run(format, user_id, active, run),
        run.progress.last() matches Progress::Finished(Ok(_)),
    ensures
        accounts_of(format, run.worlds[0]) matches Some(accounts) && has_user(accounts, user_id@)
            && accounts_of(format, run.worlds.last()) == Some(
            switched_to(accounts, user_id@, active),
        ),
{
    lemma_activate_run(format, user_id, active, run, run.replies.len() as int);
}

/// A choice fails for want of an account only where no account is the user's, and then changes
/// nothing. In every other failure it was a request that failed.
pub proof fn law_choice_of_an_unknown_user<E>(
    format: Format,
    user_id: String,
    active: bool,
    run: Run<SetActiveAccount, Result<(), AccountError<E>>, E>,
    error: AccountError<E>,
)
    requires
        is_activate_run(format, user_id, active, run),
        run.progress.last() == Activating::<E>::Finished(Err(error)),
    ensures
        error is UserNotFound ==> run.worlds.last() == run.worlds[0] && (accounts_of(
            format,
            run.worlds[0],
        ) matches Some(accounts) && !has_user(accounts, user_id@)),
        error is UserNotFound || error is Outside,
{
    lemma_activate_run(format, user_id, active, run, run.replies.len() as int);
}

/// Whether `now` lists the accounts that `then` does, in their order, with their ids and their
/// users, of which those of `user` are active where `active` says so, and no others are.
pub open spec fn is_switched(
    then: Seq<AccountData>,
    now: Seq<AccountData>,
    user: Seq<char>,
    active: bool,
) -> bool {
    &&& now.len() == then.len()
    &&& forall|i: int|
        0 <= i < now.len() ==> {
            &&& (#[trigger] now[i]).id == then[i].id
            &&& now[i].user_id == then[i].user_id
            &&& now[i].active <==> active && then[i].user_id@ == user
        }
}

/// A choice of which no request fails, and which comes to its end, succeeds exactly where some
/// account is the user's: the list then has the same accounts, and of them those of the user, and
/// these where that was asked, are the active ones. Where no account is the user's it ends with
/// that, names the user and changes nothing.
pub proof fn law_choice_succeeds<E>(
    format: Format,
    user_id: String,
    active: bool,
    run: Run<SetActiveAccount, Result<(), AccountError<E>>, E>,
    outcome: Result<(), AccountError<E>>,
)
    requires
        is_activate_run(format, user_id, active, run),
        run.progress.last() == Activating::<E>::Finished(outcome),
        forall|i: int| 0 <= i < run.replies.len() ==> !((#[trigger] run.replies[i]) is Failed),
    ensures
        accounts_of(format, run.worlds[0]) matches Some(accounts) && match outcome {
            Ok(_) => {
                &&& !is_nowhere(accounts, user_id@)
                &&& accounts_of(format, run.worlds.last()) matches Some(now)
                &&& is_switched(accounts, now, user_id@, active)
            },
            Err(error) => {
                &&& error == AccountError::<E>::UserNotFound(user_id)
                &&& is_nowhere(accounts, user_id@)
                &&& run.worlds.last() == run.worlds[0]
            },
        },
{
    let end = run.replies.len() as int;
    lemma_activate_run(format, user_id, active, run, end);
    assert(run.progress[0] is Ask);
    let last = run.replies[end - 1];
    if let Err(AccountError::Outside(error)) = outcome {
        law_failed_request_fails_the_choice(format, user_id, active, run, end - 1, error);
    }
}

/// A request that fails ends the choice, with its failure and no other; and it is the only way to
/// such an end.
pub proof fn law_failed_request_fails_the_choice<E>(
    format: Format,
    user_id: String,
    active: bool,
    run: Run<SetActiveAccount, Result<(), AccountError<E>>, E>,
    at: int,
    error: E,
)
    requires
        is_activate_run(format, user_id, active, run),
        0 <= at < run.replies.len(),
    ensures
        run.replies[at] == Reply::Failed(error) <==> run.progress[at + 1] == Activating::<
            E,
        >::Finished(Err(AccountError::Outside(error))),
{
    let reply = run.replies[at];
    assert(activate_step(run.progress[at]->state, reply, run.progress[at + 1]));
}

/// A choice ends: it asks for the list, its encoding and its writing once at most. One that
/// succeeds has asked for all.
pub proof fn law_choice_ends<E>(
    format: Format,
    user_id: String,
    active: bool,
    run: Run<SetActiveAccount, Result<(), AccountError<E>>, E>,
)
    requires
        is_activate_run(format, user_id, active, run),
    ensures
        run.replies.len() <= 3,
        run.progress.last() matches Progress::Finished(Ok(_)) ==> run.replies.len() == 3,
        run.replies.len() == 3 ==> run.progress.last() is Finished,
{
    lemma_activate_answers(format, user_id, active, run, run.replies.len() as int);
}

/// How many answers a choice has had where it asks for this.
spec fn activate_answers<E>(progress: Activating<E>) -> int {
    match progress {
        Progress::Ask { state, .. } => match state {
            SetActiveAccount::ReadingAccounts { .. } => 0,
            SetActiveAccount::EncodingAccounts => 1,
            SetActiveAccount::WritingAccounts => 2,
        },
        Progress::Finished(_) => 3,
    }
}

proof fn lemma_activate_answers<E>(
    format: Format,
    user_id: String,
    active: bool,
    run: Run<SetActiveAccount, Result<(), AccountError<E>>, E>,
    at: int,
)
    requires
        is_activate_run(format, user_id, active, run),
        0 <= at <= run.replies.len(),
    ensures
        at <= activate_answers(run.progress[at]),
        run.progress[at] is Ask ==> at == activate_answers(run.progress[at]),
        run.progress[at] matches Progress::Finished(Ok(_)) ==> at == 3,
    decreases at,
{
    if at > 0 {
        let before = at - 1;
        lemma_activate_answers(format, user_id, active, run, before);
        let reply = run.replies[before];
        assert(activate_step(run.progress[before]->state, reply, run.progress[at]));
    }
}

} // verus!
