//! What holds of accounts, their names and their data, of the logins that are offered, and of what is
//! told and handed on, whatever they are.

use crate::account::added_to;
use crate::account::first_of_user;
use crate::account::has_user;
use crate::account::listed;
use crate::account::not_under;
use crate::account::only_active;
use crate::account::reads_as_user_id;
use crate::account::server_part;
use crate::account::switched_to;
use crate::account::with_activity;
use crate::account::with_tokens;
use crate::account::without_id;
use crate::account::Account;
use crate::account::AccountData;
use crate::account::AccountList;
use crate::account::SecureAccountData;
use crate::files::alphanumeric;
use crate::files::file_prefix;
use crate::files::is_credential;
use crate::files::lemma_prefix_length_is_one;
use crate::files::prefix_length;
use crate::files::AccountFile;
use crate::login::opened_login;
use crate::login::sso_words;
use crate::login::LoggingIn;
use crate::login::Login;
use crate::login::LoginReply;
use crate::login::LoginRequest;
use crate::login_types::choices;
use crate::login_types::first_sso;
use crate::login_types::offers;
use crate::login_types::sso_offered;
use crate::login_types::IdentityProvider;
use crate::login_types::LoginChoice;
use crate::login_types::LoginType;
use crate::login_types::MetadataError;
use crate::login_types::SsoLoginType;
use crate::request::AccountError;
use crate::request::Progress;
use crate::request::Reply;
use crate::request::Request;
use crate::save::sealed_save;
use crate::save::NewAccount;
use crate::save::SaveNewAccount;
use crate::save::Saving;
use crate::session::session_of;
use crate::session::AuthSession;
use crate::session::SessionTokens;
use crate::update::kept_under;
use crate::update::opened_update;
use crate::update::sealed_update;
use crate::update::TokenUpdate;
use crate::update::UpdateAccountConfig;
use crate::update::Updating;
use crate::vault::opens;
use crate::vault::seals;
use crate::vault::OpenError;
use crate::world::key;
use crate::world::law_files_are_distinct;
use crate::world::lemma_keys_differ;
use crate::world::reveal_names;
use vstd::prelude::*;
use vstd::utf8::*;

verus! {

/// An account that is added as active is the one that a login takes, whichever was before.
pub proof fn law_added_account_is_the_active_one(
    accounts: Seq<AccountData>,
    account: AccountData,
)
    requires
        account.active,
    ensures
        only_active(added_to(accounts, account), accounts.len() as int),
{
}

/// To add an account takes nothing from the others but their activity.
pub proof fn law_adding_keeps_the_others(
    accounts: Seq<AccountData>,
    account: AccountData,
    at: int,
)
    requires
        0 <= at < accounts.len(),
    ensures
        added_to(accounts, account).len() == accounts.len() + 1,
        added_to(accounts, account)[at] == (AccountData { active: false, ..accounts[at] }),
{
}

/// After a switch to a user the account that a login takes is that user's, where they have one
/// account. Where they have several, all of these are active and a login takes none.
pub proof fn law_switch_activates_the_user(accounts: Seq<AccountData>, user: Seq<char>, at: int)
    requires
        0 <= at < accounts.len(),
    ensures
        only_active(switched_to(accounts, user, true), at) <==> {
            &&& accounts[at].user_id@ == user
            &&& forall|j: int|
                0 <= j < accounts.len() && (#[trigger] accounts[j]).user_id@ == user ==> j == at
        },
{
    let switched = switched_to(accounts, user, true);
    assert forall|j: int| 0 <= j < accounts.len() implies (#[trigger] switched[j]).active == (
    accounts[j].user_id@ == user) by {}
    if only_active(switched, at) {
        assert forall|j: int|
            0 <= j < accounts.len() && (#[trigger] accounts[j]).user_id@ == user implies j == at by {
            assert(switched[j].active);
        }
    }
}

/// To make a user's account inactive leaves no account active at all.
pub proof fn law_switch_off_leaves_none_active(
    accounts: Seq<AccountData>,
    user: Seq<char>,
    at: int,
)
    requires
        0 <= at < accounts.len(),
    ensures
        !switched_to(accounts, user, false)[at].active,
{
}

/// Of two switches the last one counts, and neither changes more than activity.
pub proof fn law_last_switch_counts(
    accounts: Seq<AccountData>,
    user: Seq<char>,
    active: bool,
    then_user: Seq<char>,
    then_active: bool,
)
    ensures
        switched_to(switched_to(accounts, user, active), then_user, then_active) == switched_to(
            accounts,
            then_user,
            then_active,
        ),
        forall|i: int|
            0 <= i < accounts.len() ==> {
                let switched = #[trigger] switched_to(accounts, user, active)[i];
                &&& switched.id == accounts[i].id
                &&& switched.user_id == accounts[i].user_id
            },
{
    assert(switched_to(switched_to(accounts, user, active), then_user, then_active) =~= switched_to(
        accounts,
        then_user,
        then_active,
    ));
}

/// After a removal no account is kept under the id, and every account kept under another id is
/// still listed.
pub proof fn law_removal_takes_that_id_only(accounts: Seq<AccountData>, id: Seq<char>)
    ensures
        forall|account: AccountData| #[trigger]
            without_id(accounts, id).contains(account) <==> accounts.contains(account)
                && account.id@ != id,
{
    broadcast use vstd::seq_lib::group_filter_ensures;

    let keep = not_under(id);
    assert forall|account: AccountData| #[trigger]
        without_id(accounts, id).contains(account) implies accounts.contains(account)
        && account.id@ != id by {
        let i = choose|i: int|
            0 <= i < without_id(accounts, id).len() && without_id(accounts, id)[i] == account;
        accounts.lemma_filter_pred(keep, i);
        accounts.lemma_filter_contains_rev(keep, account);
    }
    assert forall|account: AccountData|
        accounts.contains(account) && account.id@ != id implies #[trigger] without_id(
        accounts,
        id,
    ).contains(account) by {
        let i = choose|i: int| 0 <= i < accounts.len() && accounts[i] == account;
        accounts.lemma_filter_contains(keep, i);
    }
}

/// To remove an account that was added leaves the accounts of before, of which none is active
/// then. The id is a new one.
pub proof fn law_removal_undoes_adding(accounts: Seq<AccountData>, account: AccountData)
    requires
        forall|i: int| 0 <= i < accounts.len() ==> (#[trigger] accounts[i]).id@ != account.id@,
    ensures
        without_id(added_to(accounts, account), account.id@) == with_activity(
            accounts,
            |a: AccountData| false,
        ),
{
    let keep = not_under(account.id@);
    let inactive = with_activity(accounts, |a: AccountData| false);
    inactive.lemma_filter_push(account, keep);
    lemma_all_kept(inactive, keep);
}

/// After the removal of the account that a login takes there is none that it takes.
pub proof fn law_removal_of_the_active_account_leaves_none(accounts: Seq<AccountData>, at: int)
    requires
        only_active(accounts, at),
    ensures
        forall|i: int| !#[trigger] only_active(without_id(accounts, accounts[at].id@), i),
{
    let id = accounts[at].id@;
    let left = without_id(accounts, id);
    assert forall|i: int| !#[trigger] only_active(left, i) by {
        if only_active(left, i) {
            law_removal_takes_that_id_only(accounts, id);
            assert(left.contains(left[i]));
            let j = choose|j: int| 0 <= j < accounts.len() && accounts[j] == left[i];
            assert(accounts[j].active);
        }
    }
}

/// To pick what is all picked changes nothing.
pub(crate) proof fn lemma_all_kept<A>(items: Seq<A>, pick: spec_fn(A) -> bool)
    requires
        forall|i: int| 0 <= i < items.len() ==> pick(#[trigger] items[i]),
    ensures
        items.filter(pick) == items,
    decreases items.len(),
{
    reveal(Seq::filter);
    if items.len() > 0 {
        lemma_all_kept(items.drop_last(), pick);
        assert(items.drop_last().push(items.last()) =~= items);
    }
}

/// An update changes the tokens and the expiration that it gives, and never the device or the
/// client id.
pub proof fn law_update_changes_tokens_only(
    data: SecureAccountData,
    access_token: Option<String>,
    refresh_token: Option<Option<String>>,
    expiration: Option<Option<u64>>,
)
    ensures
        ({
            let updated = with_tokens(data, access_token, refresh_token, expiration);
            &&& updated.device_id == data.device_id
            &&& updated.client_id == data.client_id
            &&& access_token is None ==> updated.access_token == data.access_token
            &&& refresh_token is None ==> updated.refresh_token == data.refresh_token
            &&& expiration is None ==> updated.expiration == data.expiration
            &&& access_token is None && refresh_token is None && expiration is None ==> updated
                == data
        }),
{
}

/// A session restored after an update is the one of before with the new tokens.
pub proof fn law_updated_session_has_the_new_tokens(
    account: Account,
    access_token: String,
    refresh_token: Option<String>,
    expiration: Option<Option<u64>>,
)
    ensures
        ({
            let updated = Account {
                secure_data: with_tokens(
                    account.secure_data,
                    Some(access_token),
                    Some(refresh_token),
                    expiration,
                ),
                ..account
            };
            let tokens = SessionTokens { access_token, refresh_token };
            match (session_of(account), session_of(updated)) {
                (AuthSession::Matrix(before), AuthSession::Matrix(after)) => after.meta
                    == before.meta && after.tokens == tokens,
                (AuthSession::OAuth(before), AuthSession::OAuth(after)) => after.client_id
                    == before.client_id && after.user.meta == before.user.meta && after.user.tokens
                    == tokens,
                _ => false,
            }
        }),
{
}

/// What was encrypted under a passphrase opens under it to what it was, unless the machine
/// finds the work too much.
pub proof fn law_sealed_data_opens_again(
    plaintext: Seq<u8>,
    passphrase: Seq<char>,
    sealed: Vec<u8>,
    opened: Result<Vec<u8>, OpenError>,
)
    requires
        seals(plaintext, passphrase, Ok(sealed)),
        opens(sealed@, passphrase, opened),
    ensures
        match opened {
            Ok(bytes) => bytes@ == plaintext,
            Err(OpenError::ExcessiveWork { .. }) => true,
            Err(OpenError::Unreadable(_)) => false,
        },
{
}

/// No logins are offered exactly where the homeserver takes no password, does not know OAuth, and
/// has no login by SSO or takes no login tokens to complete it with.
pub proof fn law_no_logins_are_offered(login_types: Seq<LoginType>, oauth: bool)
    ensures
        choices(login_types, oauth).len() == 0 <==> {
            &&& !login_types.contains(LoginType::Password)
            &&& !oauth
            &&& {
                ||| forall|at: int| !first_sso(login_types, at)
                ||| !login_types.contains(LoginType::Token)
            }
        },
        choices(login_types, oauth).len() <= 3,
{
}

/// The encrypted files and the stores of accounts kept under different ids are different, and so
/// are the temporary files, but for ids that are empty or end a path.
pub proof fn law_accounts_share_no_file(one: String, other: String)
    requires
        one@ != other@,
    ensures
        key(AccountFile::Secure(one)) != key(AccountFile::Secure(other)),
        key(AccountFile::Store(one)) != key(AccountFile::Store(other)),
        ends_no_path(one@) && ends_no_path(other@) ==> key(AccountFile::SecureTemp(one)) != key(
            AccountFile::SecureTemp(other),
        ),
{
    let secure_one = AccountFile::Secure(one).name();
    let secure_other = AccountFile::Secure(other).name();
    assert(secure_one.take(secure_one.len() - ".enc"@.len()) =~= one@);
    assert(secure_other.take(secure_other.len() - ".enc"@.len()) =~= other@);
    lemma_keys_differ(AccountFile::Secure(one), AccountFile::Secure(other));
    lemma_keys_differ(AccountFile::Store(one), AccountFile::Store(other));
    if ends_no_path(one@) && ends_no_path(other@) {
        let temp_one = AccountFile::SecureTemp(one).name();
        let temp_other = AccountFile::SecureTemp(other).name();
        assert(temp_one.take(temp_one.len() - ".tmp"@.len()) =~= one@);
        assert(temp_other.take(temp_other.len() - ".tmp"@.len()) =~= other@);
        lemma_keys_differ(AccountFile::SecureTemp(one), AccountFile::SecureTemp(other));
    }
}

/// Whether an id is not empty and does not end a path.
pub open spec fn ends_no_path(id: Seq<char>) -> bool {
    id.len() > 0 && id.last() != '/'
}

/// Whether an id is not empty, is in ASCII and has no dot but at its begin.
pub open spec fn names_no_extension(id: Seq<char>) -> bool {
    &&& id.len() > 0
    &&& is_ascii_chars(id)
    &&& forall|i: int| 1 <= i < id.len() ==> #[trigger] id[i] != '.'
}

/// A sweep finds the account that a file belongs to: without its extensions the name of an
/// account's encrypted file is the account's id.
pub proof fn law_encrypted_file_tells_its_account(id: String)
    requires
        names_no_extension(id@),
    ensures
        file_prefix(key(AccountFile::Secure(id))) == encode_utf8(id@),
        valid_utf8(encode_utf8(id@)),
        decode_utf8(encode_utf8(id@)) == id@,
        key(AccountFile::Secure(id)) != key(AccountFile::Users),
        key(AccountFile::Store(id)) == encode_utf8(id@),
{
    reveal_names();
    let length = id@.len() as int;
    let name = id@ + ".enc"@;
    encode_utf8_valid_utf8(id@);
    encode_utf8_decode_utf8(id@);
    assert forall|i: int| 0 <= i < name.len() implies '\0' <= #[trigger] name[i] <= '\u{7f}' by {
        if i < length {
            assert(name[i] == id@[i]);
        }
    }
    assert(is_ascii_chars(name));
    is_ascii_chars_encode_utf8(name);
    is_ascii_chars_encode_utf8(id@);
    let bytes = encode_utf8(name);
    assert(bytes.len() == length + 4);
    assert forall|i: int| 0 <= i < length implies #[trigger] bytes[i] == encode_utf8(id@)[i] by {
        assert(name[i] == id@[i]);
    }
    assert forall|i: int| 1 <= i < length implies #[trigger] bytes[i] != 0x2e by {
        assert(name[i] == id@[i]);
    }
    assert(name[length] == '.');
    assert(bytes[length] == 0x2e);
    assert(prefix_length(bytes, length));
    lemma_prefix_length_is_one(bytes, length);
    assert(bytes.take(length) =~= encode_utf8(id@));
    law_files_are_distinct(id);
}

/// The server of a user id is what follows its first colon, whatever stands before and behind.
pub proof fn law_server_follows_the_first_colon(local: Seq<char>, server: Seq<char>)
    requires
        !local.contains(':'),
    ensures
        server_part(local + seq![':'] + server) == server,
{
    let text = local + seq![':'] + server;
    let at = local.len() as int;
    text.index_of_first_ensures(':');
    assert(text[at] == ':');
    let first = text.index_of_first(':')->0;
    if first < at {
        assert(local[first] == ':');
    }
    assert(first == at);
    assert(text.skip(at + 1) =~= server);
}

/// What has a colon reads as a user id, whatever stands before and behind it, and nothing else does.
pub proof fn law_user_id_has_a_colon(local: Seq<char>, server: Seq<char>)
    ensures
        reads_as_user_id(local + seq![':'] + server),
        reads_as_user_id(local) <==> exists|i: int|
            0 <= i < local.len() && #[trigger] local[i] == ':',
{
    assert((local + seq![':'] + server)[local.len() as int] == ':');
}

/// Picks the accounts that are active.
pub open spec fn is_active() -> spec_fn(AccountData) -> bool {
    |a: AccountData| a.active
}

/// There is an account to log in to exactly where one account is active, not more; and it is that
/// one.
pub proof fn law_one_active_account_is_taken(accounts: Seq<AccountData>)
    ensures
        (exists|at: int| #[trigger] only_active(accounts, at)) <==> accounts.filter(
            is_active(),
        ).len() == 1,
        forall|at: int| #[trigger]
            only_active(accounts, at) ==> accounts.filter(is_active()) == seq![accounts[at]],
{
    assert forall|at: int| #[trigger] only_active(accounts, at) implies accounts.filter(is_active())
        == seq![accounts[at]] by {
        lemma_only_active(accounts, at);
    }
    if accounts.filter(is_active()).len() == 1 {
        lemma_one_active(accounts);
    }
}

proof fn lemma_none_active(accounts: Seq<AccountData>)
    requires
        forall|i: int| 0 <= i < accounts.len() ==> !(#[trigger] accounts[i]).active,
    ensures
        accounts.filter(is_active()) == Seq::<AccountData>::empty(),
    decreases accounts.len(),
{
    reveal(Seq::filter);
    if accounts.len() > 0 {
        lemma_none_active(accounts.drop_last());
    }
}

proof fn lemma_only_active(accounts: Seq<AccountData>, at: int)
    requires
        only_active(accounts, at),
    ensures
        accounts.filter(is_active()) == seq![accounts[at]],
    decreases accounts.len(),
{
    reveal(Seq::filter);
    let before = accounts.drop_last();
    if at == before.len() {
        assert forall|i: int| 0 <= i < before.len() implies !(#[trigger] before[i]).active by {
            assert(accounts[i] == before[i]);
        }
        lemma_none_active(before);
        assert(accounts.filter(is_active()) =~= seq![accounts[at]]);
    } else {
        assert forall|i: int| 0 <= i < before.len() && (#[trigger] before[i]).active implies i
            == at by {
            assert(accounts[i] == before[i]);
        }
        lemma_only_active(before, at);
        assert(!accounts[accounts.len() - 1].active);
    }
}

proof fn lemma_one_active(accounts: Seq<AccountData>) -> (at: int)
    requires
        accounts.filter(is_active()).len() == 1,
    ensures
        only_active(accounts, at),
    decreases accounts.len(),
{
    reveal(Seq::filter);
    let before = accounts.drop_last();
    if accounts.last().active {
        assert(before.filter(is_active()).len() == 0);
        assert forall|i: int| 0 <= i < before.len() implies !(#[trigger] before[i]).active by {
            if before[i].active {
                before.lemma_filter_contains(is_active(), i);
            }
        }
        assert forall|j: int| 0 <= j < accounts.len() && (#[trigger] accounts[j]).active implies j
            == accounts.len() - 1 by {
            if j < before.len() {
                assert(before[j] == accounts[j]);
            }
        }
        accounts.len() - 1
    } else {
        let at = lemma_one_active(before);
        assert(accounts[at] == before[at]);
        assert forall|j: int| 0 <= j < accounts.len() && (#[trigger] accounts[j]).active implies j
            == at by {
            if j < before.len() {
                assert(before[j] == accounts[j]);
            }
        }
        at
    }
}

/// A list that is not there stands for no accounts, and one that is for those in it.
pub proof fn law_list_stands_for_its_accounts(list: AccountList)
    ensures
        listed(None).len() == 0,
        listed(Some(list)) == list.accounts@,
{
}

/// A user is found exactly where some account is theirs, and then it is their first.
pub proof fn law_first_account_of_a_user_is_found(accounts: Seq<AccountData>, user: Seq<char>)
    ensures
        has_user(accounts, user) <==> accounts.map_values(|a: AccountData| a.user_id@).contains(
            user,
        ),
        forall|at: int| #[trigger]
            first_of_user(accounts, user, at) ==> accounts.map_values(
                |a: AccountData| a.user_id@,
            ).index_of_first(user) == Some(at),
        has_user(accounts, user) ==> exists|at: int| #[trigger] first_of_user(accounts, user, at),
{
    let users = accounts.map_values(|a: AccountData| a.user_id@);
    if has_user(accounts, user) {
        let i = choose|i: int| 0 <= i < accounts.len() && (#[trigger] accounts[i]).user_id@ == user;
        assert(users[i] == user);
    }
    if users.contains(user) {
        users.index_of_first_ensures(user);
        let at = users.index_of_first(user)->0;
        assert(accounts[at].user_id@ == user);
        assert forall|j: int| 0 <= j < at implies (#[trigger] accounts[j]).user_id@ != user by {
            assert(users[j] != user);
        }
        assert(first_of_user(accounts, user, at));
    }
    assert forall|at: int| #[trigger] first_of_user(accounts, user, at) implies users.index_of_first(
        user,
    ) == Some(at) by {
        assert(users[at] == user);
        users.index_of_first_ensures(user);
        let first = users.index_of_first(user)->0;
        if first < at {
            assert(accounts[first].user_id@ == user);
        }
    }
}

/// To add an account leaves every other entry where it was, inactive, and puts the account behind
/// them as it is.
pub proof fn law_added_account_stands_last(accounts: Seq<AccountData>, account: AccountData)
    ensures
        added_to(accounts, account).last() == account,
        added_to(accounts, account).drop_last().len() == accounts.len(),
        forall|i: int|
            0 <= i < accounts.len() ==> {
                let entry = #[trigger] added_to(accounts, account)[i];
                &&& entry.id == accounts[i].id
                &&& entry.user_id == accounts[i].user_id
                &&& !entry.active
            },
{
}

/// A switch leaves every entry where it was, with its id and its user; active is what is the
/// user's, where the switch is one to active, and nothing else.
pub proof fn law_switch_goes_entry_by_entry(
    accounts: Seq<AccountData>,
    user: Seq<char>,
    active: bool,
)
    ensures
        switched_to(accounts, user, active).len() == accounts.len(),
        forall|i: int|
            0 <= i < accounts.len() ==> {
                let entry = #[trigger] switched_to(accounts, user, active)[i];
                &&& entry.id == accounts[i].id
                &&& entry.user_id == accounts[i].user_id
                &&& entry.active <==> active && accounts[i].user_id@ == user
            },
{
}

/// A removal takes out entries one by one: each goes or stays by its own id, in its order.
pub proof fn law_removal_goes_entry_by_entry(
    one: Seq<AccountData>,
    other: Seq<AccountData>,
    account: AccountData,
    id: Seq<char>,
)
    ensures
        without_id(one + other, id) == without_id(one, id) + without_id(other, id),
        account.id@ == id ==> without_id(seq![account], id).len() == 0,
        account.id@ != id ==> without_id(seq![account], id) == seq![account],
        without_id(seq![], id).len() == 0,
{
    reveal_with_fuel(Seq::filter, 2);
    Seq::filter_distributes_over_add(one, other, not_under(id));
    assert(seq![account].drop_last() =~= seq![]);
    assert(without_id(seq![account], id) =~= if account.id@ != id {
        seq![account]
    } else {
        seq![]
    });
}

/// An update gives the data what it brings, and each thing that it brings on its own.
pub proof fn law_update_takes_what_is_given(
    data: SecureAccountData,
    access_token: Option<String>,
    refresh_token: Option<Option<String>>,
    expiration: Option<Option<u64>>,
)
    ensures
        ({
            let updated = with_tokens(data, access_token, refresh_token, expiration);
            &&& access_token matches Some(token) ==> updated.access_token == token
            &&& refresh_token matches Some(token) ==> updated.refresh_token == token
            &&& expiration matches Some(time) ==> updated.expiration == time
        }),
{
}

/// The session of an account is on its device, is its user's and has its tokens; it is one of OAuth
/// exactly where the account has a client id, and then it has that.
pub proof fn law_session_is_of_its_account(account: Account)
    ensures
        match session_of(account) {
            AuthSession::Matrix(session) => {
                &&& account.secure_data.client_id is None
                &&& session.meta.user_id == account.data.user_id
                &&& session.meta.device_id == account.secure_data.device_id
                &&& session.tokens.access_token == account.secure_data.access_token
                &&& session.tokens.refresh_token == account.secure_data.refresh_token
            },
            AuthSession::OAuth(session) => {
                &&& account.secure_data.client_id == Some(session.client_id)
                &&& session.user.meta.user_id == account.data.user_id
                &&& session.user.meta.device_id == account.secure_data.device_id
                &&& session.user.tokens.access_token == account.secure_data.access_token
                &&& session.user.tokens.refresh_token == account.secure_data.refresh_token
            },
        },
{
}

/// An id or a passphrase that is drawn has 32 characters, each an ASCII letter or digit.
pub proof fn law_credentials_are_letters_and_digits(text: Seq<char>)
    ensures
        is_credential(text) <==> text.len() == 32 && forall|i: int|
            0 <= i < text.len() ==> {
                ||| 'a' <= #[trigger] text[i] <= 'z'
                ||| 'A' <= text[i] <= 'Z'
                ||| '0' <= text[i] <= '9'
            },
{
    if is_credential(text) {
        assert forall|i: int| 0 <= i < text.len() implies {
            ||| 'a' <= #[trigger] text[i] <= 'z'
            ||| 'A' <= text[i] <= 'Z'
            ||| '0' <= text[i] <= '9'
        } by {
            assert(alphanumeric(text[i]));
        }
    }
}

/// The names of an account's entries are made of its id alone, and those of the list of accounts
/// are set: the store has the id for its name, the encrypted file has `.enc` behind it, and what a
/// file is written to first has `.tmp` in the place of its last extension.
pub proof fn law_entries_are_named_by_the_id(id: String)
    ensures
        AccountFile::Store(id).name() == id@,
        AccountFile::Secure(id).name() == id@ + ".enc"@,
        ends_no_path(id@) ==> AccountFile::SecureTemp(id).name() == id@ + ".tmp"@,
        !ends_no_path(id@) ==> AccountFile::SecureTemp(id).name() == AccountFile::Secure(id).name()
            + ".tmp"@,
        AccountFile::Users.name() == "users.toml"@,
        AccountFile::UsersTemp.name() == "users"@ + ".tmp"@,
        AccountFile::Backup.name() == "users.toml"@ + ".backup"@,
        AccountFile::BackupTemp.name() == "users.toml"@ + ".tmp"@,
{
    reveal_names();
    reveal_strlit(".backup");
    assert(AccountFile::UsersTemp.name() =~= "users"@ + ".tmp"@);
    assert(AccountFile::Backup.name() =~= "users.toml"@ + ".backup"@);
    assert(AccountFile::BackupTemp.name() =~= "users.toml"@ + ".tmp"@);
    assert(id@ + ".enc.tmp"@ =~= id@ + ".enc"@ + ".tmp"@);
}

/// Without its extensions a name is what stands before its first dot but a leading one; a name
/// that has no such dot has no extensions.
pub proof fn law_prefix_ends_at_the_first_dot(stem: Seq<u8>, extensions: Seq<u8>)
    requires
        forall|i: int| 1 <= i < stem.len() ==> #[trigger] stem[i] != 0x2e,
    ensures
        file_prefix(stem) == stem,
        stem.len() > 0 ==> file_prefix(stem + seq![0x2eu8] + extensions) == stem,
{
    assert(prefix_length(stem, stem.len() as int));
    lemma_prefix_length_is_one(stem, stem.len() as int);
    assert(stem.take(stem.len() as int) =~= stem);
    if stem.len() > 0 {
        let name = stem + seq![0x2eu8] + extensions;
        assert forall|i: int| 1 <= i < stem.len() implies #[trigger] name[i] != 0x2e by {
            assert(name[i] == stem[i]);
        }
        assert(prefix_length(name, stem.len() as int));
        lemma_prefix_length_is_one(name, stem.len() as int);
        assert(name.take(stem.len() as int) =~= stem);
    }
}

/// The place of a login among those that are offered.
pub open spec fn rank(choice: LoginChoice) -> int {
    match choice {
        LoginChoice::Password => 0,
        LoginChoice::Oauth { .. } => 1,
        LoginChoice::Sso { .. } => 2,
    }
}

/// Whether `sso` is what the homeserver says of its login by SSO, the first time that it does.
pub open spec fn says_first(login_types: Seq<LoginType>, sso: SsoLoginType) -> bool {
    exists|at: int|
        0 <= at < login_types.len() && #[trigger] login_types[at] == LoginType::Sso(sso)
            && forall|j: int| 0 <= j < at ==> !(#[trigger] login_types[j] is Sso)
}

/// Whether the homeserver says nothing of a login by SSO.
pub open spec fn says_nothing(login_types: Seq<LoginType>) -> bool {
    forall|j: int| 0 <= j < login_types.len() ==> !(#[trigger] login_types[j] is Sso)
}

/// Each login is offered on its own account: the password exactly where the homeserver takes one;
/// OAuth exactly where its metadata were had, preferred where its login by SSO says so; SSO exactly
/// where it has that and takes login tokens, with the providers that it names first. None is
/// offered twice, and they come in this order. The one failure is that of the metadata.
pub proof fn law_each_login_is_offered_on_its_own<E>(
    login_types: Seq<LoginType>,
    server_metadata: Result<(), MetadataError<E>>,
)
    ensures
        match offers(login_types, server_metadata) {
            Ok(offered) => {
                &&& !(server_metadata matches Err(MetadataError::Failed(_)))
                &&& offered.contains(LoginChoice::Password) <==> login_types.contains(
                    LoginType::Password,
                )
                &&& forall|preferred: bool| #[trigger]
                    offered.contains(LoginChoice::Oauth { preferred }) <==> {
                        &&& server_metadata is Ok
                        &&& preferred <==> exists|sso: SsoLoginType| #[trigger]
                            says_first(login_types, sso) && sso.oauth_aware_preferred
                    }
                &&& forall|identity_providers: Vec<IdentityProvider>| #[trigger]
                    offered.contains(LoginChoice::Sso { identity_providers }) <==> {
                        &&& login_types.contains(LoginType::Token)
                        &&& exists|sso: SsoLoginType| #[trigger]
                            says_first(login_types, sso) && sso.identity_providers
                                == identity_providers
                    }
                &&& forall|i: int, j: int|
                    0 <= i < j < offered.len() ==> rank(#[trigger] offered[i]) < rank(
                        #[trigger] offered[j],
                    )
            },
            Err(error) => server_metadata matches Err(MetadataError::Failed(failure)) && failure
                == error,
        },
{
    if let Ok(offered) = offers(login_types, server_metadata) {
        let oauth = server_metadata is Ok;
        let password = login_types.contains(LoginType::Password);
        let token = login_types.contains(LoginType::Token);
        let sso = sso_offered(login_types);
        lemma_sso_offered(login_types);
        let preferred_now = sso is Some && sso->0.oauth_aware_preferred;
        if password {
            assert(offered[0] == LoginChoice::Password);
        }
        let at_oauth: int = if password { 1 } else { 0 };
        if oauth {
            assert(offered[at_oauth] == LoginChoice::Oauth { preferred: preferred_now });
        }
        if sso is Some && token {
            assert(offered.last() == LoginChoice::Sso {
                identity_providers: sso->0.identity_providers,
            });
            assert(offered[offered.len() - 1] == offered.last());
        }
        assert forall|preferred: bool| #[trigger]
            offered.contains(LoginChoice::Oauth { preferred }) <==> {
                &&& server_metadata is Ok
                &&& preferred <==> exists|sso: SsoLoginType| #[trigger]
                    says_first(login_types, sso) && sso.oauth_aware_preferred
            } by {
            if sso is Some {
                assert(says_first(login_types, sso->0));
            }
            if offered.contains(LoginChoice::Oauth { preferred }) {
                let i = choose|i: int|
                    0 <= i < offered.len() && offered[i] == LoginChoice::Oauth { preferred };
                assert(preferred == preferred_now);
            }
        }
        assert forall|identity_providers: Vec<IdentityProvider>| #[trigger]
            offered.contains(LoginChoice::Sso { identity_providers }) <==> {
                &&& login_types.contains(LoginType::Token)
                &&& exists|sso: SsoLoginType| #[trigger]
                    says_first(login_types, sso) && sso.identity_providers == identity_providers
            } by {
            if sso is Some {
                assert(says_first(login_types, sso->0));
            }
        }
    }
}

proof fn lemma_sso_offered(login_types: Seq<LoginType>)
    ensures
        match sso_offered(login_types) {
            Some(sso) => says_first(login_types, sso) && forall|other: SsoLoginType| #[trigger]
                says_first(login_types, other) ==> other == sso,
            None => says_nothing(login_types) && forall|other: SsoLoginType| !#[trigger] says_first(
                login_types,
                other,
            ),
        },
{
    if exists|at: int| first_sso(login_types, at) {
        let at = choose|at: int| first_sso(login_types, at);
        let sso = login_types[at]->Sso_0;
        assert(login_types[at] == LoginType::Sso(sso));
        assert forall|other: SsoLoginType| #[trigger] says_first(login_types, other) implies other
            == sso by {
            let i = choose|i: int|
                0 <= i < login_types.len() && #[trigger] login_types[i] == LoginType::Sso(other)
                    && forall|j: int| 0 <= j < i ==> !(#[trigger] login_types[j] is Sso);
            assert(i == at);
        }
    } else {
        lemma_no_first_sso(login_types);
    }
}

proof fn lemma_no_first_sso(login_types: Seq<LoginType>)
    requires
        forall|at: int| !first_sso(login_types, at),
    ensures
        says_nothing(login_types),
    decreases login_types.len(),
{
    if login_types.len() > 0 {
        let before = login_types.drop_last();
        assert forall|at: int| !first_sso(before, at) by {
            if first_sso(before, at) {
                assert forall|j: int| 0 <= j < at implies !(#[trigger] login_types[j] is Sso) by {
                    assert(before[j] == login_types[j]);
                }
                assert(login_types[at] == before[at]);
                assert(first_sso(login_types, at));
            }
        }
        lemma_no_first_sso(before);
        assert forall|j: int| 0 <= j < login_types.len() implies !(
        #[trigger] login_types[j] is Sso) by {
            assert forall|k: int| 0 <= k < before.len() implies !(#[trigger] login_types[k] is Sso)
                by {
                assert(before[k] == login_types[k]);
            }
            if j == before.len() && login_types[j] is Sso {
                assert(first_sso(login_types, j));
            }
        }
    }
}

/// A user who has to go to the address of a login is told it, in words that are the same for every
/// address; one whose browser shows it is told the same whatever the address is.
pub proof fn law_user_is_told_where_to_log_in(one: Seq<char>, other: Seq<char>)
    ensures
        sso_words(one, true) == sso_words(other, true),
        sso_words(one, true) == "Go to the opened website to authenticate"@,
        exists|before: Seq<char>, behind: Seq<char>|
            sso_words(one, false) == #[trigger] (before + one + behind) && sso_words(other, false)
                == before + other + behind,
        sso_words(one, false) == "Navigate to "@ + one + " in a browser of choice"@,
{
    let before = "Navigate to "@;
    let behind = " in a browser of choice"@;
    assert(sso_words(one, false) == before + one + behind);
    assert(sso_words(other, false) == before + other + behind);
}

/// A user who is not found is named; the library has words for no other error.
pub proof fn law_unknown_user_is_named<E>(error: AccountError<E>)
    ensures
        error.words() is Some <==> error is UserNotFound,
        error matches AccountError::UserNotFound(user) ==> error.words() == Some(
            "User not found: "@ + user@,
        ),
{
}

/// A request that failed is the failure of what cannot go on without it, with the very error that
/// it failed with; another answer than was asked for is none of the outside.
pub proof fn law_failure_is_the_one_outside<E>(reply: Reply<E>, answer: LoginReply<E>)
    ensures
        match reply {
            Reply::Failed(error) => reply.failure() == AccountError::Outside(error),
            _ => reply.failure() is UnexpectedReply,
        },
        match answer {
            LoginReply::Failed(error) => answer.failure() == AccountError::Outside(error),
            LoginReply::Storage(Reply::Failed(error)) => answer.failure() == AccountError::Outside(
                error,
            ),
            _ => answer.failure() is UnexpectedReply,
        },
{
}

/// What follows an encryption or a decryption rests on its outcome: where it gave bytes, these are
/// gone on with, and where it failed, its error is the error.
pub proof fn law_vault_decides<E>(
    new: NewAccount,
    account: AccountData,
    id: String,
    passphrase: String,
    update: TokenUpdate,
    sealed: Result<Vec<u8>, age::EncryptError>,
    opened: Result<Vec<u8>, OpenError>,
)
    ensures
        match sealed {
            Ok(bytes) => {
                &&& sealed_save::<E>(new, sealed) matches Progress::Ask {
                    state: SaveNewAccount::OpeningKeyring { new: n, sealed: kept },
                    request,
                }
                &&& n == new
                &&& kept == bytes
                &&& request == Request::OpenKeyring(new.data.id)
                &&& sealed_update::<E>(id, sealed) matches Progress::Ask { request: write, .. }
                &&& write == Request::WriteFile(AccountFile::SecureTemp(id), bytes)
            },
            Err(error) => {
                &&& sealed_save::<E>(new, sealed) == Saving::<E>::Finished(
                    Err(AccountError::Encrypt(error)),
                )
                &&& sealed_update::<E>(id, sealed) == Updating::<E>::Finished(
                    Err(AccountError::Encrypt(error)),
                )
            },
        },
        match opened {
            Ok(bytes) => {
                &&& opened_login::<E>(account, passphrase, opened) matches Progress::Ask {
                    state: Login::DecodingSecureData { account: a, passphrase: p },
                    request: asked,
                }
                &&& a == account
                &&& p == passphrase
                &&& asked == LoginRequest::Storage(Request::DecodeSecureData(bytes))
                &&& opened_update::<E>(id, passphrase, update, opened) matches Progress::Ask {
                    state: UpdateAccountConfig::DecodingSecureData {
                        id: i,
                        passphrase: q,
                        update: u,
                    },
                    request: decode,
                }
                &&& i == id
                &&& q == passphrase
                &&& u == update
                &&& decode == Request::DecodeSecureData(bytes)
            },
            Err(error) => {
                &&& opened_login::<E>(account, passphrase, opened) == LoggingIn::<E>::Finished(
                    Err(AccountError::Decrypt(error)),
                )
                &&& opened_update::<E>(id, passphrase, update, opened)
                    == Updating::<E>::Finished(Err(AccountError::Decrypt(error)))
            },
        },
{
}

/// The id under which a user's account is kept is that of the first account of theirs, and of no
/// other.
pub proof fn law_user_is_kept_under_their_first_id(
    accounts: Seq<AccountData>,
    user: Seq<char>,
    at: int,
    id: String,
)
    requires
        0 <= at < accounts.len(),
        accounts[at].user_id@ == user,
        forall|j: int| 0 <= j < at ==> (#[trigger] accounts[j]).user_id@ != user,
    ensures
        kept_under(accounts, user, id) <==> id == accounts[at].id,
{
    assert(first_of_user(accounts, user, at));
    assert forall|i: int| #[trigger] first_of_user(accounts, user, i) implies i == at by {}
}

} // verus!
