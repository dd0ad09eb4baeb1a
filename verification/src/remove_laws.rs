//! What holds of the removal of an account, however the requests turn out.

use crate::account::first_of_user;
use crate::account::has_user;
use crate::account::not_under;
use crate::account::without_id;
use crate::account::AccountData;
use crate::account_laws::law_removal_takes_that_id_only;
use crate::files::AccountFile;
use crate::remove::begun_removal;
use crate::remove::remove_step;
use crate::remove::RemoveAccountConfig;
use crate::remove::Removing;
use crate::request::Progress;
use crate::request::Reply;
use crate::request::Request;
use crate::update_laws::is_account_of;
use crate::update_laws::is_first_of;
use crate::world::accounts_of;
use crate::world::is_run;
use crate::world::key;
use crate::world::lemma_but_for_file;
use crate::world::law_files_are_distinct;
use crate::world::performs;
use crate::world::same_file;
use crate::world::unhindered;
use crate::world::Format;
use crate::world::Run;
use crate::world::World;
use vstd::prelude::*;

verus! {

/// Whether there is an entry of that name in the account folder.
pub open spec fn is_there(world: World, file: AccountFile) -> bool {
    world.files.contains_key(key(file)) || world.folders.contains(key(file))
}

/// Whether the account of `user`, kept under `id`, is listed and has its store and its encrypted
/// file.
pub open spec fn can_be_removed(format: Format, world: World, user: Seq<char>, id: String) -> bool {
    &&& is_account_of(format, world, user, id)
    &&& is_there(world, AccountFile::Store(id))
    &&& is_there(world, AccountFile::Secure(id))
}

/// Whether nothing differs from `start` but what belongs to the account, and the list of accounts.
pub open spec fn account_at_most(start: World, world: World, id: String) -> bool {
    &&& forall|name: Seq<u8>|
        name != key(AccountFile::Secure(id)) && name != key(AccountFile::Users)
            ==> #[trigger] same_file(world, start, name)
    &&& world.folders.remove(key(AccountFile::Store(id))) == start.folders.remove(
        key(AccountFile::Store(id)),
    )
    &&& world.keyring.remove(id@) == start.keyring.remove(id@)
}

/// Whether the accounts of `start` are listed but for those kept under `id`.
pub open spec fn is_unlisted(format: Format, start: World, world: World, id: String) -> bool {
    &&& accounts_of(format, start) matches Some(accounts)
    &&& accounts_of(format, world) == Some(without_id(accounts, id@))
}

/// Whether nothing of the account is left, and the other accounts are listed as they were.
pub open spec fn is_removed(format: Format, start: World, world: World, id: String) -> bool {
    &&& !world.files.contains_key(key(AccountFile::Secure(id)))
    &&& !world.folders.contains(key(AccountFile::Store(id)))
    &&& !world.keyring.contains_key(id@)
    &&& is_unlisted(format, start, world, id)
}

/// What a removal that was begun can have done: it had the whole account to remove, and touched
/// nothing but that and the list of accounts.
pub open spec fn removes_its_own(
    format: Format,
    start: World,
    world: World,
    user: Seq<char>,
    id: String,
) -> bool {
    &&& can_be_removed(format, start, user, id)
    &&& account_at_most(start, world, id)
}

/// What holds at each moment of a removal. `clean` says that nothing hindered it so far, `written`
/// that the list of accounts was written.
spec fn remove_invariant(
    format: Format,
    user_id: String,
    start: World,
    clean: bool,
    written: bool,
    progress: Removing,
    world: World,
) -> bool {
    let accounts = accounts_of(format, start);
    match progress {
        Progress::Ask { state, request } => !written && match state {
            RemoveAccountConfig::ReadingAccounts { user_id: u } => {
                &&& world == start
                &&& u == user_id
                &&& request == Request::ReadAccounts
            },
            RemoveAccountConfig::LookingForStore { id, accounts: a } => {
                &&& world == start
                &&& is_account_of(format, start, user_id@, id)
                &&& accounts == Some(a@)
                &&& request == Request::LookFor(AccountFile::Store(id))
            },
            RemoveAccountConfig::LookingForSecureData { id, accounts: a } => {
                &&& world == start
                &&& is_account_of(format, start, user_id@, id)
                &&& accounts == Some(a@)
                &&& is_there(start, AccountFile::Store(id))
                &&& request == Request::LookFor(AccountFile::Secure(id))
            },
            RemoveAccountConfig::OpeningKeyring { id, accounts: a } => {
                &&& world == start
                &&& can_be_removed(format, start, user_id@, id)
                &&& accounts == Some(a@)
                &&& request == Request::OpenKeyring(id)
            },
            RemoveAccountConfig::RemovingStore { id, accounts: a } => {
                &&& world == start
                &&& can_be_removed(format, start, user_id@, id)
                &&& accounts == Some(a@)
                &&& request == Request::RemoveFolder(AccountFile::Store(id))
            },
            RemoveAccountConfig::RemovingSecureData { id, accounts: a } => {
                &&& removes_its_own(format, start, world, user_id@, id)
                &&& accounts == Some(a@)
                &&& request == Request::RemoveFile(AccountFile::Secure(id))
                &&& clean ==> !world.folders.contains(key(AccountFile::Store(id)))
            },
            RemoveAccountConfig::DeletingPassphrase { id, accounts: a } => {
                &&& removes_its_own(format, start, world, user_id@, id)
                &&& accounts == Some(a@)
                &&& request == Request::DeletePassphrase(id)
                &&& clean ==> {
                    &&& !world.folders.contains(key(AccountFile::Store(id)))
                    &&& !world.files.contains_key(key(AccountFile::Secure(id)))
                }
            },
            RemoveAccountConfig::EncodingAccounts => exists|id: String|
                {
                    &&& #[trigger] removes_its_own(format, start, world, user_id@, id)
                    &&& (request matches Request::EncodeAccounts(list) && accounts is Some && list@
                        == without_id(accounts->0, id@))
                    &&& clean ==> {
                        &&& !world.folders.contains(key(AccountFile::Store(id)))
                        &&& !world.files.contains_key(key(AccountFile::Secure(id)))
                        &&& !world.keyring.contains_key(id@)
                    }
                },
            RemoveAccountConfig::WritingAccounts => exists|id: String|
                {
                    &&& #[trigger] removes_its_own(format, start, world, user_id@, id)
                    &&& (request matches Request::WriteFile(AccountFile::Users, bytes) && accounts
                        is Some && (format.accounts)(bytes@) == Some(
                        without_id(accounts->0, id@),
                    ))
                    &&& clean ==> {
                        &&& !world.folders.contains(key(AccountFile::Store(id)))
                        &&& !world.files.contains_key(key(AccountFile::Secure(id)))
                        &&& !world.keyring.contains_key(id@)
                    }
                },
        },
        Progress::Finished(_) => {
            ||| world == start && !written
            ||| exists|id: String|
                {
                    &&& #[trigger] removes_its_own(format, start, world, user_id@, id)
                    &&& written ==> is_unlisted(format, start, world, id)
                    &&& clean && written ==> is_removed(format, start, world, id)
                }
        },
    }
}

/// Whether the answer is to the writing of the list of accounts, and it was written.
pub open spec fn list_written<E>(progress: Removing, reply: Reply<E>) -> bool {
    &&& progress matches Progress::Ask { state: RemoveAccountConfig::WritingAccounts, .. }
    &&& reply is Done
}

/// One answer keeps what holds of a removal.
proof fn lemma_remove_step<E>(
    format: Format,
    user_id: String,
    start: World,
    clean: bool,
    progress: Removing,
    world: World,
    reply: Reply<E>,
    next: Removing,
    after: World,
)
    requires
        remove_invariant(format, user_id, start, clean, false, progress, world),
        progress matches Progress::Ask { state, request } && performs(
            format,
            world,
            request,
            reply,
            after,
        ) && remove_step(state, reply, next),
    ensures
        remove_invariant(
            format,
            user_id,
            start,
            clean && unhindered(world, progress->request, reply),
            list_written(progress, reply),
            next,
            after,
        ),
{
    let request = progress->request;
    match progress->state {
        RemoveAccountConfig::ReadingAccounts { .. } => {},
        RemoveAccountConfig::LookingForStore { .. } => {},
        RemoveAccountConfig::LookingForSecureData { .. } => {},
        RemoveAccountConfig::OpeningKeyring { .. } => {},
        RemoveAccountConfig::RemovingStore { id, .. } => {
            let store = key(AccountFile::Store(id));
            assert(after.folders.remove(store) =~= start.folders.remove(store));
            assert(removes_its_own(format, start, after, user_id@, id));
        },
        RemoveAccountConfig::RemovingSecureData { id, .. } => {
            law_files_are_distinct(id);
            assert forall|name: Seq<u8>|
                name != key(AccountFile::Secure(id)) && name != key(AccountFile::Users)
                implies #[trigger] same_file(after, start, name) by {
                assert(same_file(world, start, name));
            }
            assert(removes_its_own(format, start, after, user_id@, id));
        },
        RemoveAccountConfig::DeletingPassphrase { id, .. } => {
            assert(after.keyring.remove(id@) =~= start.keyring.remove(id@)) by {
                assert(world.keyring.remove(id@) =~= start.keyring.remove(id@));
            }
            assert forall|name: Seq<u8>|
                name != key(AccountFile::Secure(id)) && name != key(AccountFile::Users)
                implies #[trigger] same_file(after, start, name) by {
                assert(same_file(world, start, name));
            }
            assert(removes_its_own(format, start, after, user_id@, id));
        },
        RemoveAccountConfig::EncodingAccounts => {
            assert(after == world);
        },
        RemoveAccountConfig::WritingAccounts => {
            let id = choose|id: String|
                {
                    &&& #[trigger] removes_its_own(format, start, world, user_id@, id)
                    &&& (request matches Request::WriteFile(AccountFile::Users, bytes)
                        && accounts_of(format, start) is Some && (format.accounts)(bytes@) == Some(
                        without_id(accounts_of(format, start)->0, id@),
                    ))
                    &&& clean ==> {
                        &&& !world.folders.contains(key(AccountFile::Store(id)))
                        &&& !world.files.contains_key(key(AccountFile::Secure(id)))
                        &&& !world.keyring.contains_key(id@)
                    }
                };
            law_files_are_distinct(id);
            if reply is Failed {
                lemma_but_for_file(world, after, key(AccountFile::Users));
            }
            assert forall|name: Seq<u8>|
                name != key(AccountFile::Secure(id)) && name != key(AccountFile::Users)
                implies #[trigger] same_file(after, start, name) by {
                assert(same_file(world, start, name));
                assert(same_file(after, world, name));
            }
            assert(removes_its_own(format, start, after, user_id@, id));
        },
    }
}

/// A run of a removal.
pub open spec fn is_remove_run<E>(
    format: Format,
    user_id: String,
    run: Run<RemoveAccountConfig, (), E>,
) -> bool {
    &&& is_run(
        format,
        |state: RemoveAccountConfig, reply: Reply<E>, next: Removing|
            remove_step(state, reply, next),
        run,
    )
    &&& run.progress[0] == begun_removal(user_id)
}

/// Whether nothing hindered the removal in the first `until` answers.
pub open spec fn removal_unhindered<E>(run: Run<RemoveAccountConfig, (), E>, until: int) -> bool {
    forall|i: int|
        0 <= i < until ==> unhindered(
            run.worlds[i],
            run.progress[i]->request,
            #[trigger] run.replies[i],
        )
}

proof fn lemma_remove_run<E>(
    format: Format,
    user_id: String,
    run: Run<RemoveAccountConfig, (), E>,
    at: int,
)
    requires
        is_remove_run(format, user_id, run),
        0 <= at <= run.replies.len(),
    ensures
        remove_invariant(
            format,
            user_id,
            run.worlds[0],
            removal_unhindered(run, at),
            at > 0 && list_written(run.progress[at - 1], run.replies[at - 1]),
            run.progress[at],
            run.worlds[at],
        ),
    decreases at,
{
    if at > 0 {
        let before = at - 1;
        lemma_remove_run(format, user_id, run, before);
        let reply = run.replies[before];
        lemma_remove_step(
            format,
            user_id,
            run.worlds[0],
            removal_unhindered(run, before),
            run.progress[before],
            run.worlds[before],
            reply,
            run.progress[at],
            run.worlds[at],
        );
        if removal_unhindered(run, at) {
            assert(removal_unhindered(run, before));
        }
    }
}

/// At every moment of a removal nothing is touched yet, or the account was there to be removed,
/// listed and with its store and its encrypted file, and nothing is touched but these, its
/// passphrase and the list of accounts.
pub proof fn law_removal_touches_its_own_only<E>(
    format: Format,
    user_id: String,
    run: Run<RemoveAccountConfig, (), E>,
    at: int,
)
    requires
        is_remove_run(format, user_id, run),
        0 <= at <= run.replies.len(),
    ensures
        run.worlds[at] == run.worlds[0] || exists|id: String| #[trigger]
            removes_its_own(format, run.worlds[0], run.worlds[at], user_id@, id),
{
    lemma_remove_run(format, user_id, run, at);
}

/// A removal that nothing hindered and that came to write the list of accounts leaves nothing of
/// the account, and lists every account that is kept under another id.
pub proof fn law_removal_removes_the_account<E>(
    format: Format,
    user_id: String,
    run: Run<RemoveAccountConfig, (), E>,
)
    requires
        is_remove_run(format, user_id, run),
        run.replies.len() > 0,
        removal_unhindered(run, run.replies.len() as int),
        list_written(run.progress[run.replies.len() - 1], run.replies.last()),
    ensures
        run.progress.last() == Removing::Finished(()),
        exists|id: String| #[trigger]
            removes_its_own(format, run.worlds[0], run.worlds.last(), user_id@, id) && is_removed(
                format,
                run.worlds[0],
                run.worlds.last(),
                id,
            ),
{
    let at = run.replies.len() as int;
    lemma_remove_run(format, user_id, run, at);
    assert(run.replies[at - 1] is Done);
    let world = run.worlds[at];
    let id = choose|id: String|
        {
            &&& #[trigger] removes_its_own(format, run.worlds[0], world, user_id@, id)
            &&& is_removed(format, run.worlds[0], world, id)
        };
    assert(removes_its_own(format, run.worlds[0], run.worlds.last(), user_id@, id));
}

/// Whether no two accounts are one user's.
pub open spec fn users_differ(accounts: Seq<AccountData>) -> bool {
    forall|i: int, j: int|
        0 <= i < j < accounts.len() ==> (#[trigger] accounts[i]).user_id@ != (
        #[trigger] accounts[j]).user_id@
}

/// Where no two accounts are one user's, a second removal of the user that follows one which wrote
/// the list of accounts changes nothing: there is no account of the user any more.
pub proof fn law_second_removal_changes_nothing<E>(
    format: Format,
    user_id: String,
    first: Run<RemoveAccountConfig, (), E>,
    second: Run<RemoveAccountConfig, (), E>,
    at: int,
)
    requires
        is_remove_run(format, user_id, first),
        first.replies.len() > 0,
        list_written(first.progress[first.replies.len() - 1], first.replies.last()),
        accounts_of(format, first.worlds[0]) matches Some(accounts) && users_differ(accounts),
        is_remove_run(format, user_id, second),
        second.worlds[0] == first.worlds.last(),
        0 <= at <= second.replies.len(),
    ensures
        second.worlds[at] == second.worlds[0],
{
    let end = first.replies.len() as int;
    lemma_remove_run(format, user_id, first, end);
    assert(first.replies[end - 1] is Done);
    let start = first.worlds[0];
    let between = first.worlds[end];
    let accounts = accounts_of(format, start)->0;
    let id = choose|id: String|
        {
            &&& #[trigger] removes_its_own(format, start, between, user_id@, id)
            &&& is_unlisted(format, start, between, id)
        };
    let left = without_id(accounts, id@);
    let i = choose|i: int| #[trigger]
        first_of_user(accounts, user_id@, i) && accounts[i].id == id;
    assert(!has_user(left, user_id@)) by {
        if has_user(left, user_id@) {
            let k = choose|k: int|
                0 <= k < left.len() && (#[trigger] left[k]).user_id@ == user_id@;
            law_removal_takes_that_id_only(accounts, id@);
            assert(left.contains(left[k]));
            let j = choose|j: int| 0 <= j < accounts.len() && accounts[j] == left[k];
            assert(accounts[j].user_id@ == accounts[i].user_id@);
            assert(i == j);
        }
    }
    law_removal_touches_its_own_only(format, user_id, second, at);
    if second.worlds[at] != second.worlds[0] {
        let other = choose|other: String| #[trigger]
            removes_its_own(format, second.worlds[0], second.worlds[at], user_id@, other);
        let k = choose|k: int| #[trigger]
            first_of_user(left, user_id@, k) && left[k].id == other;
        assert(left[k].user_id@ == user_id@);
    }
}

/// Picks the accounts that are kept under another id.
pub open spec fn kept_elsewhere(id: Seq<char>) -> spec_fn(AccountData) -> bool {
    |a: AccountData| a.id@ != id
}

/// Whether no request failed in the first `until` answers, but to take away what was not there.
pub open spec fn nothing_fails<E>(run: Run<RemoveAccountConfig, (), E>, until: int) -> bool {
    forall|i: int|
        0 <= i < until ==> ((#[trigger] run.replies[i]) is Failed ==> (match run.progress[i] {
            Progress::Ask { request, .. } => {
                ||| request is RemoveFile
                ||| request is RemoveFolder
                ||| request is DeletePassphrase
            },
            Progress::Finished(_) => false,
        }) && unhindered(run.worlds[i], run.progress[i]->request, run.replies[i]))
}

/// Where the user's first account is listed, active or not, and its store and its encrypted file
/// are there, a removal of which no request fails, and which comes to its end, leaves nothing of
/// the account: not its store, not its encrypted file, not its passphrase, and in the list the
/// accounts that are kept under other ids, as they were.
pub proof fn law_removal_succeeds<E>(
    format: Format,
    user_id: String,
    run: Run<RemoveAccountConfig, (), E>,
    accounts: Seq<AccountData>,
    at: int,
)
    requires
        is_remove_run(format, user_id, run),
        accounts_of(format, run.worlds[0]) == Some(accounts),
        is_first_of(accounts, user_id@, at),
        is_there(run.worlds[0], AccountFile::Store(accounts[at].id)),
        is_there(run.worlds[0], AccountFile::Secure(accounts[at].id)),
        nothing_fails(run, run.replies.len() as int),
        run.progress.last() is Finished,
    ensures
        !run.worlds.last().files.contains_key(key(AccountFile::Secure(accounts[at].id))),
        !run.worlds.last().folders.contains(key(AccountFile::Store(accounts[at].id))),
        !run.worlds.last().keyring.contains_key(accounts[at].id@),
        accounts_of(format, run.worlds.last()) == Some(
            accounts.filter(kept_elsewhere(accounts[at].id@)),
        ),
        is_removed(format, run.worlds[0], run.worlds.last(), accounts[at].id),
        removes_its_own(format, run.worlds[0], run.worlds.last(), user_id@, accounts[at].id),
{
    let end = run.replies.len() as int;
    let start = run.worlds[0];
    assert(run.progress[0] is Ask);
    let before = end - 1;
    lemma_remove_run(format, user_id, run, before);
    let reply = run.replies[before];
    let state = run.progress[before]->state;
    assert(remove_step(state, reply, run.progress[end]));
    assert(performs(
        format,
        run.worlds[before],
        run.progress[before]->request,
        reply,
        run.worlds[end],
    ));
    assert(first_of_user(accounts, user_id@, at));
    assert forall|i: int| #[trigger] first_of_user(accounts, user_id@, i) implies i == at by {}
    assert(accounts[at].user_id@ == user_id@);
    assert(has_user(accounts, user_id@));
    assert(state is WritingAccounts && reply is Done);
    assert(removal_unhindered(run, end)) by {
        assert forall|i: int| 0 <= i < end implies unhindered(
            run.worlds[i],
            run.progress[i]->request,
            #[trigger] run.replies[i],
        ) by {}
    }
    assert(run.replies.last() == reply);
    law_removal_removes_the_account(format, user_id, run);
    let world = run.worlds.last();
    let id = choose|id: String| #[trigger]
        removes_its_own(format, start, world, user_id@, id) && is_removed(format, start, world, id);
    let i = choose|i: int| #[trigger]
        first_of_user(accounts, user_id@, i) && accounts[i].id == id;
    assert(i == at);
    assert(kept_elsewhere(id@) =~= not_under(id@));
}

/// A removal takes nothing away where no account is the user's, or where the store or the encrypted
/// file of the first is not there; it is over when that is found.
pub proof fn law_removal_needs_the_whole_account<E>(
    format: Format,
    user_id: String,
    run: Run<RemoveAccountConfig, (), E>,
    accounts: Seq<AccountData>,
    at: int,
)
    requires
        is_remove_run(format, user_id, run),
        accounts_of(format, run.worlds[0]) == Some(accounts),
        0 <= at <= run.replies.len(),
        forall|i: int| #[trigger]
            is_first_of(accounts, user_id@, i) ==> {
                ||| !is_there(run.worlds[0], AccountFile::Store(accounts[i].id))
                ||| !is_there(run.worlds[0], AccountFile::Secure(accounts[i].id))
            },
    ensures
        run.worlds[at] == run.worlds[0],
        run.replies.len() <= 3,
{
    lemma_remove_run(format, user_id, run, at);
    if run.worlds[at] != run.worlds[0] {
        let id = choose|id: String| #[trigger]
            removes_its_own(format, run.worlds[0], run.worlds[at], user_id@, id);
        lemma_no_whole_account(format, user_id, run.worlds[0], accounts, id);
    }
    lemma_remove_answers(format, user_id, run, run.replies.len() as int);
    if run.replies.len() > 3 {
        lemma_remove_answers(format, user_id, run, 3);
        lemma_remove_run(format, user_id, run, 3);
        let reply = run.replies[3];
        if let RemoveAccountConfig::OpeningKeyring { id, .. } = run.progress[3]->state {
            lemma_no_whole_account(format, user_id, run.worlds[0], accounts, id);
        }
    }
}

proof fn lemma_no_whole_account(
    format: Format,
    user_id: String,
    start: World,
    accounts: Seq<AccountData>,
    id: String,
)
    requires
        accounts_of(format, start) == Some(accounts),
        forall|i: int| #[trigger]
            is_first_of(accounts, user_id@, i) ==> {
                ||| !is_there(start, AccountFile::Store(accounts[i].id))
                ||| !is_there(start, AccountFile::Secure(accounts[i].id))
            },
    ensures
        !can_be_removed(format, start, user_id@, id),
{
    if can_be_removed(format, start, user_id@, id) {
        let i = choose|i: int| #[trigger]
            first_of_user(accounts, user_id@, i) && accounts[i].id == id;
        assert(is_first_of(accounts, user_id@, i));
    }
}

/// How many answers a removal has had where it asks for this.
spec fn remove_answers(progress: Removing) -> int {
    match progress {
        Progress::Ask { state, .. } => match state {
            RemoveAccountConfig::ReadingAccounts { .. } => 0,
            RemoveAccountConfig::LookingForStore { .. } => 1,
            RemoveAccountConfig::LookingForSecureData { .. } => 2,
            RemoveAccountConfig::OpeningKeyring { .. } => 3,
            RemoveAccountConfig::RemovingStore { .. } => 4,
            RemoveAccountConfig::RemovingSecureData { .. } => 5,
            RemoveAccountConfig::DeletingPassphrase { .. } => 6,
            RemoveAccountConfig::EncodingAccounts => 7,
            RemoveAccountConfig::WritingAccounts => 8,
        },
        Progress::Finished(_) => 9,
    }
}

proof fn lemma_remove_answers<E>(
    format: Format,
    user_id: String,
    run: Run<RemoveAccountConfig, (), E>,
    at: int,
)
    requires
        is_remove_run(format, user_id, run),
        0 <= at <= run.replies.len(),
    ensures
        at <= remove_answers(run.progress[at]),
        run.progress[at] is Ask ==> at == remove_answers(run.progress[at]),
    decreases at,
{
    if at > 0 {
        let before = at - 1;
        lemma_remove_answers(format, user_id, run, before);
        let reply = run.replies[before];
        assert(remove_step(run.progress[before]->state, reply, run.progress[at]));
    }
}

/// A removal ends, after nine answers at most. Once the keyring is open, no failure to take a thing
/// away keeps it from the others: it asks for the store, the encrypted file and the passphrase to
/// go, each of them, and for the list of accounts to be encoded.
pub proof fn law_removal_asks_for_all<E>(
    format: Format,
    user_id: String,
    run: Run<RemoveAccountConfig, (), E>,
    at: int,
    id: String,
)
    requires
        is_remove_run(format, user_id, run),
        0 <= at < run.replies.len(),
        run.progress[at] matches Progress::Ask { request, .. } && request == Request::OpenKeyring(
            id,
        ),
        run.replies[at] is Done,
    ensures
        run.replies.len() <= 9,
        at + 1 <= run.replies.len() ==> (run.progress[at + 1] matches Progress::Ask {
            request,
            ..
        } && request == Request::RemoveFolder(AccountFile::Store(id))),
        at + 2 <= run.replies.len() ==> (run.progress[at + 2] matches Progress::Ask {
            request,
            ..
        } && request == Request::RemoveFile(AccountFile::Secure(id))),
        at + 3 <= run.replies.len() ==> (run.progress[at + 3] matches Progress::Ask {
            request,
            ..
        } && request == Request::DeletePassphrase(id)),
        at + 4 <= run.replies.len() ==> (run.progress[at + 4] matches Progress::Ask {
            request,
            ..
        } && request is EncodeAccounts),
{
    lemma_remove_answers(format, user_id, run, run.replies.len() as int);
    lemma_remove_run(format, user_id, run, at);
    assert(run.progress[at]->state is OpeningKeyring);
    let opened = run.replies[at];
    assert(remove_step(run.progress[at]->state, opened, run.progress[at + 1]));
    if at + 2 <= run.replies.len() {
        let reply = run.replies[at + 1];
        assert(remove_step(run.progress[at + 1]->state, reply, run.progress[at + 2]));
    }
    if at + 3 <= run.replies.len() {
        let reply = run.replies[at + 2];
        assert(remove_step(run.progress[at + 2]->state, reply, run.progress[at + 3]));
    }
    if at + 4 <= run.replies.len() {
        let reply = run.replies[at + 3];
        assert(remove_step(run.progress[at + 3]->state, reply, run.progress[at + 4]));
    }
}

/// A removal takes nothing away where the keyring does not open; it is over with that.
pub proof fn law_removal_needs_the_keyring<E>(
    format: Format,
    user_id: String,
    run: Run<RemoveAccountConfig, (), E>,
    at: int,
)
    requires
        is_remove_run(format, user_id, run),
        0 <= at < run.replies.len(),
        run.progress[at] matches Progress::Ask { request: Request::OpenKeyring(_), .. },
        run.replies[at] is Failed,
    ensures
        run.progress[at + 1] is Finished,
        run.worlds[at + 1] == run.worlds[0],
{
    lemma_remove_run(format, user_id, run, at);
    let reply = run.replies[at];
    assert(remove_step(run.progress[at]->state, reply, run.progress[at + 1]));
}

} // verus!
