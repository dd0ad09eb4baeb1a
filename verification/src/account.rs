//! The accounts a client knows and what it keeps of each.

use vstd::prelude::*;
use vstd::string::*;

verus! {

/// A Matrix user id, `@localpart:server`.
#[derive(Debug, PartialEq, Eq)]
pub struct UserId {
    text: String,
}

impl View for UserId {
    type V = Seq<char>;

    closed spec fn view(&self) -> Seq<char> {
        self.text@
    }
}

/// Whether `text` reads as a user id: it names a server, behind a colon.
pub open spec fn reads_as_user_id(text: Seq<char>) -> bool {
    text.contains(':')
}

/// The server that a user id names: all that follows its first colon.
pub open spec fn server_part(user_id: Seq<char>) -> Seq<char> {
    user_id.skip(user_id.index_of_first(':')->0 + 1)
}

impl UserId {
    #[verifier::type_invariant]
    spec fn names_a_server(self) -> bool {
        self.text@.contains(':')
    }

    /// The user id written as `text`, where `text` names a server.
    pub fn parse(text: String) -> (id: Option<UserId>)
        ensures
            id is Some <==> reads_as_user_id(text@),
            id matches Some(id) ==> id@ == text@,
    {
        match colon(text.as_str()) {
            Some(_) => Some(UserId { text }),
            None => None,
        }
    }

    /// The id as text.
    pub fn as_str(&self) -> (text: &str)
        ensures
            text@ == self@,
    {
        self.text.as_str()
    }

    /// The name of the user's homeserver.
    pub fn server_name(&self) -> (name: String)
        ensures
            self@.contains(':'),
            name@ == server_part(self@),
    {
        proof {
            use_type_invariant(self);
        }
        let text: &str = self.text.as_str();
        let length: usize = text.unicode_len();
        match colon(text) {
            Some(at) => text.substring_char(at + 1, length).to_owned(),
            None => String::new(),
        }
    }

    /// Whether the id reads `text`.
    pub fn is(&self, text: &str) -> (same: bool)
        ensures
            same == (self@ == text@),
    {
        same_text(self.text.as_str(), text)
    }
}

impl Clone for UserId {
    fn clone(&self) -> (copy: UserId)
        ensures
            copy == *self,
    {
        proof {
            use_type_invariant(self);
        }
        UserId { text: self.text.clone() }
    }
}

/// The position of the first colon in `text`.
fn colon(text: &str) -> (at: Option<usize>)
    ensures
        match at {
            Some(at) => at < text@.len() && text@.index_of_first(':') == Some(at as int),
            None => !text@.contains(':'),
        },
        at is Some ==> text@.contains(':'),
{
    let length: usize = text.unicode_len();
    let mut at: usize = 0;
    while at < length
        invariant
            at <= length,
            length == text@.len(),
            forall|j: int| 0 <= j < at ==> text@[j] != ':',
        decreases length - at,
    {
        if text.get_char(at) == ':' {
            proof {
                text@.index_of_first_ensures(':');
            }
            return Some(at);
        }
        at = at + 1;
    }
    None
}

/// Whether two texts are the same.
pub(crate) fn same_text(one: &str, other: &str) -> (same: bool)
    ensures
        same == (one@ == other@),
{
    one.to_owned() == other.to_owned()
}

/// What the list of accounts says of one account: it is kept unencrypted, and lets the client
/// decide which data to load.
#[derive(Debug, PartialEq, Eq)]
pub struct AccountData {
    /// The id under which the account's files are kept, in place of its user id.
    pub id: String,
    pub user_id: UserId,
    pub active: bool,
}

impl Clone for AccountData {
    fn clone(&self) -> (copy: AccountData)
        ensures
            copy == *self,
    {
        AccountData { id: self.id.clone(), user_id: self.user_id.clone(), active: self.active }
    }
}

/// What is kept of an account in its encrypted file.
#[derive(Debug, PartialEq, Eq)]
pub struct SecureAccountData {
    pub access_token: String,
    pub refresh_token: Option<String>,
    pub device_id: String,
    /// Present only where the login went through OAuth.
    pub client_id: Option<String>,
    /// When the access token expires, in seconds since the Unix epoch, where that is known.
    pub expiration: Option<u64>,
}

impl SecureAccountData {
    /// The data of a session of which it is not known when its access token expires.
    pub fn new(
        access_token: String,
        refresh_token: Option<String>,
        device_id: String,
        client_id: Option<String>,
    ) -> (data: SecureAccountData)
        ensures
            data == (SecureAccountData {
                access_token,
                refresh_token,
                device_id,
                client_id,
                expiration: None,
            }),
    {
        SecureAccountData { access_token, refresh_token, device_id, client_id, expiration: None }
    }

    /// Puts new tokens and a new expiration in the place of the old ones, those that are given.
    pub fn replace_tokens(
        &mut self,
        access_token: Option<String>,
        refresh_token: Option<Option<String>>,
        expiration: Option<Option<u64>>,
    )
        ensures
            *final(self) == with_tokens(*old(self), access_token, refresh_token, expiration),
    {
        if let Some(access_token) = access_token {
            self.access_token = access_token;
        }
        if let Some(refresh_token) = refresh_token {
            self.refresh_token = refresh_token;
        }
        if let Some(expiration) = expiration {
            self.expiration = expiration;
        }
    }
}

/// `data` with the tokens and the expiration that are given in the place of its own.
pub open spec fn with_tokens(
    data: SecureAccountData,
    access_token: Option<String>,
    refresh_token: Option<Option<String>>,
    expiration: Option<Option<u64>>,
) -> SecureAccountData {
    SecureAccountData {
        access_token: if access_token is Some { access_token->0 } else { data.access_token },
        refresh_token: if refresh_token is Some { refresh_token->0 } else { data.refresh_token },
        device_id: data.device_id,
        client_id: data.client_id,
        expiration: if expiration is Some { expiration->0 } else { data.expiration },
    }
}

/// An account with all that a session needs of it.
#[derive(Debug, PartialEq, Eq)]
pub struct Account {
    pub data: AccountData,
    pub secure_data: SecureAccountData,
}

/// Every account the client knows, in the order in which they were added.
#[derive(Debug, PartialEq, Eq)]
pub struct AccountList {
    pub accounts: Vec<AccountData>,
}

impl View for AccountList {
    type V = Seq<AccountData>;

    open spec fn view(&self) -> Seq<AccountData> {
        self.accounts@
    }
}

impl Default for AccountList {
    fn default() -> (list: AccountList)
        ensures
            list@ == Seq::<AccountData>::empty(),
    {
        AccountList { accounts: Vec::new() }
    }
}

impl Clone for AccountList {
    fn clone(&self) -> (copy: AccountList)
        ensures
            copy@ == self@,
    {
        AccountList { accounts: self.accounts.clone() }
    }
}

/// Whether `user` is the user of some account.
pub open spec fn has_user(accounts: Seq<AccountData>, user: Seq<char>) -> bool {
    exists|i: int| 0 <= i < accounts.len() && (#[trigger] accounts[i]).user_id@ == user
}

/// Whether the account at `at` is the first of `user`.
pub open spec fn first_of_user(accounts: Seq<AccountData>, user: Seq<char>, at: int) -> bool {
    &&& 0 <= at < accounts.len()
    &&& accounts[at].user_id@ == user
    &&& forall|j: int| 0 <= j < at ==> (#[trigger] accounts[j]).user_id@ != user
}

/// Whether the account at `at` is active and no other one is.
pub open spec fn only_active(accounts: Seq<AccountData>, at: int) -> bool {
    &&& 0 <= at < accounts.len()
    &&& accounts[at].active
    &&& forall|j: int| 0 <= j < accounts.len() && (#[trigger] accounts[j]).active ==> j == at
}

/// The accounts with the activity that `active` gives each.
pub open spec fn with_activity(
    accounts: Seq<AccountData>,
    active: spec_fn(AccountData) -> bool,
) -> Seq<AccountData> {
    accounts.map_values(|a: AccountData| AccountData { active: active(a), ..a })
}

/// The accounts of which only those of `user` are active, and these where `active` says so.
pub open spec fn switched_to(
    accounts: Seq<AccountData>,
    user: Seq<char>,
    active: bool,
) -> Seq<AccountData> {
    with_activity(accounts, |a: AccountData| active && a.user_id@ == user)
}

/// The accounts, none of them active, and `account` behind them.
pub open spec fn added_to(
    accounts: Seq<AccountData>,
    account: AccountData,
) -> Seq<AccountData> {
    with_activity(accounts, |a: AccountData| false).push(account)
}

/// Picks the accounts that are not kept under `id`.
pub open spec fn not_under(id: Seq<char>) -> spec_fn(AccountData) -> bool {
    |a: AccountData| a.id@ != id
}

/// The accounts that are not kept under `id`.
pub open spec fn without_id(accounts: Seq<AccountData>, id: Seq<char>) -> Seq<AccountData> {
    accounts.filter(not_under(id))
}

/// The account to log in to: the one that is active. Where several are, none counts as active.
pub fn active_account(accounts: &[AccountData]) -> (account: Option<&AccountData>)
    ensures
        match account {
            Some(account) => exists|i: int|
                #[trigger] only_active(accounts@, i) && accounts@[i] == *account,
            None => forall|i: int| !#[trigger] only_active(accounts@, i),
        },
{
    let mut found: Option<usize> = None;
    let mut at: usize = 0;
    while at < accounts.len()
        invariant
            at <= accounts@.len(),
            match found {
                Some(i) => i < at && accounts@[i as int].active && (forall|j: int|
                    0 <= j < at && (#[trigger] accounts@[j]).active ==> j == i),
                None => forall|j: int| 0 <= j < at ==> !(#[trigger] accounts@[j]).active,
            },
        decreases accounts@.len() - at,
    {
        if accounts[at].active {
            if let Some(i) = found {
                proof {
                    assert(accounts@[i as int].active && accounts@[at as int].active);
                }
                return None;
            }
            found = Some(at);
        }
        at = at + 1;
    }
    match found {
        Some(i) => {
            assert(only_active(accounts@, i as int));
            Some(&accounts[i])
        },
        None => None,
    }
}

/// The accounts read from the list's file; none where there is no such file.
pub fn load_account_list(found: Option<AccountList>) -> (list: AccountList)
    ensures
        list@ == listed(found),
{
    match found {
        Some(list) => list,
        None => AccountList::default(),
    }
}

/// The accounts that a reading of the list's file stands for.
pub open spec fn listed(found: Option<AccountList>) -> Seq<AccountData> {
    match found {
        Some(list) => list@,
        None => Seq::empty(),
    }
}

impl AccountList {
    /// The position of the first account of `user`.
    pub fn position_of(&self, user: &str) -> (at: Option<usize>)
        ensures
            match at {
                Some(at) => first_of_user(self@, user@, at as int),
                None => !has_user(self@, user@),
            },
    {
        let mut at: usize = 0;
        while at < self.accounts.len()
            invariant
                at <= self@.len(),
                forall|j: int| 0 <= j < at ==> (#[trigger] self@[j]).user_id@ != user@,
            decreases self@.len() - at,
        {
            if self.accounts[at].user_id.is(user) {
                return Some(at);
            }
            at = at + 1;
        }
        None
    }

    /// Makes the accounts of `user` active, or inactive, and every other one inactive.
    pub fn switch_to(&mut self, user: &str, active: bool)
        ensures
            final(self)@ == switched_to(old(self)@, user@, active),
    {
        let ghost before = self@;
        let mut at: usize = 0;
        while at < self.accounts.len()
            invariant
                at <= self@.len(),
                self@.len() == before.len(),
                forall|j: int|
                    0 <= j < at ==> #[trigger] self@[j] == switched_to(before, user@, active)[j],
                forall|j: int| at <= j < self@.len() ==> #[trigger] self@[j] == before[j],
            decreases self@.len() - at,
        {
            let of_user: bool = self.accounts[at].user_id.is(user);
            self.accounts[at].active = active && of_user;
            at = at + 1;
        }
    }

    /// Adds `account` and makes every other account inactive.
    pub fn add(&mut self, account: AccountData)
        ensures
            final(self)@ == added_to(old(self)@, account),
    {
        let ghost before = self@;
        let mut at: usize = 0;
        while at < self.accounts.len()
            invariant
                at <= self@.len(),
                self@.len() == before.len(),
                forall|j: int|
                    0 <= j < at ==> #[trigger] self@[j] == with_activity(
                        before,
                        |a: AccountData| false,
                    )[j],
                forall|j: int| at <= j < self@.len() ==> #[trigger] self@[j] == before[j],
            decreases self@.len() - at,
        {
            self.accounts[at].active = false;
            at = at + 1;
        }
        self.accounts.push(account);
    }

    /// Takes out the accounts that are kept under `id`.
    pub fn remove_id(&mut self, id: &str)
        ensures
            final(self)@ == without_id(old(self)@, id@),
    {
        let ghost before = self@;
        let ghost keep = not_under(id@);
        let ghost mut seen: int = 0;
        let mut at: usize = 0;
        proof {
            reveal(Seq::filter);
            assert(before.take(0).filter(keep) == Seq::<AccountData>::empty());
        }
        while at < self.accounts.len()
            invariant
                0 <= seen <= before.len(),
                keep == not_under(id@),
                at == before.take(seen).filter(keep).len(),
                self@ == before.take(seen).filter(keep) + before.skip(seen),
            decreases self@.len() - at,
        {
            proof {
                before.take(seen).lemma_filter_push(before[seen], keep);
                assert(before.take(seen + 1) == before.take(seen).push(before[seen]));
            }
            if same_text(self.accounts[at].id.as_str(), id) {
                let _ = self.accounts.remove(at);
            } else {
                at = at + 1;
            }
            proof {
                seen = seen + 1;
                assert(self@ =~= before.take(seen).filter(keep) + before.skip(seen));
            }
        }
        proof {
            assert(before.skip(seen).len() == 0);
            assert(before.take(seen) =~= before);
            assert(self@ =~= before.filter(keep));
        }
    }
}

} // verus!
