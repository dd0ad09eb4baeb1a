//! The operations, run against a folder and a keyring in memory.

use meteorite_core::account::AccountData;
use meteorite_core::account::AccountList;
use meteorite_core::account::SecureAccountData;
use meteorite_core::account::UserId;
use meteorite_core::activate::set_active_account;
use meteorite_core::activate::Activating;
use meteorite_core::files::AccountFile;
use meteorite_core::login::login;
use meteorite_core::login::login_opened;
use meteorite_core::login::login_sso;
use meteorite_core::login::login_username;
use meteorite_core::login::login_with_credentials;
use meteorite_core::login::LoggingIn;
use meteorite_core::login::LoginMethod;
use meteorite_core::login::LoginOutcome;
use meteorite_core::login::LoginReply;
use meteorite_core::login::LoginRequest;
use meteorite_core::login::LoginResponse;
use meteorite_core::login::NewlyLoggingIn;
use meteorite_core::orphans::remove_orphaned_accounts;
use meteorite_core::orphans::Sweeping;
use meteorite_core::refresh::handle_refresh_tokens;
use meteorite_core::refresh::RefreshFailure;
use meteorite_core::refresh::RefreshReply;
use meteorite_core::refresh::RefreshRequest;
use meteorite_core::refresh::SessionChange;
use meteorite_core::refresh::Watching;
use meteorite_core::remove::remove_account_config;
use meteorite_core::remove::Removing;
use meteorite_core::request::AccountError;
use meteorite_core::request::Credential;
use meteorite_core::request::FolderEntry;
use meteorite_core::request::Progress;
use meteorite_core::request::Reply;
use meteorite_core::request::Request;
use meteorite_core::save::save_new_account;
use meteorite_core::save::save_sealed;
use meteorite_core::save::NewAccount;
use meteorite_core::save::Saving;
use meteorite_core::session::AuthSession;
use meteorite_core::session::MatrixSession;
use meteorite_core::session::SessionMeta;
use meteorite_core::session::SessionTokens;
use meteorite_core::update::update_account_config;
use meteorite_core::update::update_opened;
use meteorite_core::update::update_sealed;
use meteorite_core::update::TokenUpdate;
use meteorite_core::update::Updating;
use meteorite_core::vault::OpenError;
use std::collections::BTreeMap;
use std::collections::BTreeSet;

type Outcome = Result<(), AccountError<String>>;

/// A folder and a keyring in memory. The request with the number `fails_at` fails.
#[derive(Clone, Default, PartialEq, Eq, Debug)]
struct Disk {
    files: BTreeMap<Vec<u8>, Vec<u8>>,
    folders: BTreeSet<Vec<u8>>,
    keyring: BTreeMap<String, String>,
    listing: Vec<Vec<u8>>,
    asked: usize,
    fails_at: Option<usize>,
}

fn name(file: &AccountFile) -> Vec<u8> {
    file.file_name().into_bytes()
}

fn encode_accounts(list: &AccountList) -> Vec<u8> {
    let mut accounts = Vec::new();
    for account in &list.accounts {
        let mut table = toml::Table::new();
        table.insert("id".to_string(), toml::Value::String(account.id.clone()));
        let user_id = account.user_id.as_str().to_string();
        table.insert("user_id".to_string(), toml::Value::String(user_id));
        table.insert("active".to_string(), toml::Value::Boolean(account.active));
        accounts.push(toml::Value::Table(table));
    }
    let mut table = toml::Table::new();
    table.insert("accounts".to_string(), toml::Value::Array(accounts));
    toml::to_string(&table).unwrap().into_bytes()
}

fn decode_accounts(bytes: &[u8]) -> Option<AccountList> {
    let table: toml::Table = toml::from_slice(bytes).ok()?;
    let mut accounts = Vec::new();
    for account in table.get("accounts")?.as_array()? {
        accounts.push(AccountData {
            id: account.get("id")?.as_str()?.to_string(),
            user_id: UserId::parse(account.get("user_id")?.as_str()?.to_string())?,
            active: account.get("active")?.as_bool()?,
        });
    }
    Some(AccountList { accounts })
}

fn encode_secure_data(data: &SecureAccountData) -> Vec<u8> {
    let mut table = toml::Table::new();
    let mut insert = |key: &str, value: &str| {
        table.insert(key.to_string(), toml::Value::String(value.to_string()));
    };
    insert("access_token", &data.access_token);
    insert("device_id", &data.device_id);
    if let Some(token) = &data.refresh_token {
        insert("refresh_token", token);
    }
    if let Some(client_id) = &data.client_id {
        insert("client_id", client_id);
    }
    if let Some(expiration) = data.expiration {
        table.insert("expiration".to_string(), toml::Value::Integer(expiration as i64));
    }
    toml::to_string(&table).unwrap().into_bytes()
}

fn decode_secure_data(bytes: &[u8]) -> Option<SecureAccountData> {
    let table: toml::Table = toml::from_slice(bytes).ok()?;
    let text = |key: &str| Some(table.get(key)?.as_str()?.to_string());
    let expiration = table.get("expiration").and_then(|value| value.as_integer());
    Some(SecureAccountData {
        access_token: text("access_token")?,
        refresh_token: text("refresh_token"),
        device_id: text("device_id")?,
        client_id: text("client_id"),
        expiration: expiration.map(|value| value as u64),
    })
}

impl Disk {
    fn perform(&mut self, request: Request) -> Reply<String> {
        let number = self.asked;
        self.asked += 1;
        if self.fails_at == Some(number) {
            return Reply::Failed(format!("request {number} failed"));
        }
        match self.answer(request) {
            Some(reply) => reply,
            None => Reply::Failed("nothing there".to_string()),
        }
    }

    fn answer(&mut self, request: Request) -> Option<Reply<String>> {
        Some(match request {
            Request::ReadAccounts => match self.files.get(&name(&AccountFile::Users)) {
                Some(bytes) => Reply::Accounts(Some(decode_accounts(bytes)?)),
                None => Reply::Accounts(None),
            },
            Request::EncodeAccounts(list) => Reply::Bytes(encode_accounts(&list)),
            Request::EncodeSecureData(data) => Reply::Bytes(encode_secure_data(&data)),
            Request::DecodeSecureData(bytes) => Reply::SecureData(decode_secure_data(&bytes)?),
            Request::LookFor(file) => Reply::Exists(
                self.files.contains_key(&name(&file)) || self.folders.contains(&name(&file)),
            ),
            Request::ReadFile(file) => Reply::Bytes(self.files.get(&name(&file))?.clone()),
            Request::WriteFile(file, bytes) => {
                self.files.insert(name(&file), bytes);
                Reply::Done
            }
            Request::Rename(from, to) => {
                let bytes = self.files.remove(&name(&from))?;
                self.files.insert(name(&to), bytes);
                Reply::Done
            }
            Request::RemoveFile(file) => {
                self.files.remove(&name(&file))?;
                Reply::Done
            }
            Request::RemoveFolder(file) => {
                if !self.folders.remove(&name(&file)) {
                    return None;
                }
                Reply::Done
            }
            Request::OpenKeyring(_) => Reply::Done,
            Request::ReadPassphrase(id) => Reply::Text(self.keyring.get(&id)?.clone()),
            Request::StorePassphrase(id, passphrase) => {
                self.keyring.insert(id, passphrase);
                Reply::Done
            }
            Request::DeletePassphrase(id) => {
                self.keyring.remove(&id)?;
                Reply::Done
            }
            Request::ListFolder => {
                let names: BTreeSet<Vec<u8>> =
                    self.files.keys().chain(self.folders.iter()).cloned().collect();
                self.listing = names.into_iter().collect();
                Reply::Entries(
                    self.listing
                        .iter()
                        .map(|name| FolderEntry {
                            name: name.clone(),
                            is_folder: self.folders.contains(name),
                            is_file: self.files.contains_key(name),
                        })
                        .collect(),
                )
            }
            Request::ListKeyring => Reply::Credentials(
                self.keyring
                    .keys()
                    .map(|user| {
                        Some(Credential { service: "meteorite".to_string(), user: user.clone() })
                    })
                    .collect(),
            ),
            Request::RemoveListedFile(at) => {
                self.files.remove(&self.listing[at])?;
                Reply::Done
            }
            Request::RemoveListedFolder(at) => {
                if !self.folders.remove(&self.listing[at]) {
                    return None;
                }
                Reply::Done
            }
        })
    }

    fn accounts(&self) -> AccountList {
        match self.files.get(&name(&AccountFile::Users)) {
            Some(bytes) => decode_accounts(bytes).unwrap(),
            None => AccountList::default(),
        }
    }

    fn file_names(&self) -> Vec<String> {
        self.files.keys().map(|name| String::from_utf8(name.clone()).unwrap()).collect()
    }

    /// What is there, without what was asked and listed on the way.
    fn state(&self) -> Disk {
        Disk { listing: vec![], asked: 0, fails_at: None, ..self.clone() }
    }

    fn save(&mut self, mut saving: Saving<String>) -> Outcome {
        loop {
            match saving {
                Progress::Ask { state, request } => saving = state.resume(self.perform(request)),
                Progress::Finished(outcome) => return outcome,
            }
        }
    }

    fn update(&mut self, mut updating: Updating<String>) -> Outcome {
        loop {
            match updating {
                Progress::Ask { state, request } => updating = state.resume(self.perform(request)),
                Progress::Finished(outcome) => return outcome,
            }
        }
    }

    fn activate(&mut self, mut activating: Activating<String>) -> Outcome {
        loop {
            match activating {
                Progress::Ask { state, request } => {
                    activating = state.resume(self.perform(request))
                }
                Progress::Finished(outcome) => return outcome,
            }
        }
    }

    fn remove(&mut self, mut removing: Removing) {
        while let Progress::Ask { state, request } = removing {
            removing = state.resume(self.perform(request));
        }
    }

    fn sweep(&mut self) {
        let mut sweeping: Sweeping = remove_orphaned_accounts();
        while let Progress::Ask { state, request } = sweeping {
            sweeping = state.resume(self.perform(request));
        }
    }

    /// Runs a login; also tells what was asked of the client.
    fn log_in(
        &mut self,
        mut logging_in: LoggingIn<String>,
    ) -> (Result<LoginOutcome, AccountError<String>>, Vec<LoginRequest>) {
        let mut asked = Vec::new();
        loop {
            match logging_in {
                Progress::Ask { state, request } => {
                    let reply = match request {
                        LoginRequest::Storage(request) => {
                            LoginReply::Storage(self.perform(request))
                        }
                        request => {
                            asked.push(request);
                            LoginReply::Done
                        }
                    };
                    logging_in = state.resume(reply);
                }
                Progress::Finished(outcome) => return (outcome, asked),
            }
        }
    }

    /// Runs a login to a new account; also tells what was asked of the client.
    fn log_in_anew(
        &mut self,
        mut logging_in: NewlyLoggingIn<String>,
        response: LoginResponse,
    ) -> (Result<Saving<String>, AccountError<String>>, Vec<LoginRequest>) {
        let mut asked = Vec::new();
        let mut response = Some(response);
        loop {
            match logging_in {
                Progress::Ask { state, request } => {
                    let reply = match request {
                        LoginRequest::Storage(request) => {
                            LoginReply::Storage(self.perform(request))
                        }
                        request => {
                            let reply = match &request {
                                LoginRequest::LogIn(_) => {
                                    LoginReply::LoggedIn(response.take().unwrap())
                                }
                                LoginRequest::BuildClient { id, .. } => {
                                    self.folders.insert(id.clone().into_bytes());
                                    LoginReply::Done
                                }
                                _ => LoginReply::Done,
                            };
                            asked.push(request);
                            reply
                        }
                    };
                    logging_in = state.resume(reply);
                }
                Progress::Finished(outcome) => return (outcome, asked),
            }
        }
    }
}

const ID: &str = "0123456789abcdefghijABCDEFGHIJxy";

const OTHER_ID: &str = "zyxwvutsrqponmlkjihgfedcba987654";

const PASSPHRASE: &str = "PASSphrase0PASSphrase1PASSphrase";

fn user(text: &str) -> UserId {
    UserId::parse(text.to_string()).unwrap()
}

fn account(id: &str, user_id: &str, active: bool) -> AccountData {
    AccountData { id: id.to_string(), user_id: user(user_id), active }
}

fn data() -> SecureAccountData {
    SecureAccountData::new(
        "access".to_string(),
        Some("refresh".to_string()),
        "DEVICE".to_string(),
        None,
    )
}

/// A disk with one whole account, kept under `OTHER_ID`, with bytes that are no encrypted file.
fn disk_with_other() -> Disk {
    let mut disk = Disk::default();
    let list = AccountList { accounts: vec![account(OTHER_ID, "@other:x", true)] };
    disk.files.insert(name(&AccountFile::Users), encode_accounts(&list));
    disk.files.insert(name(&AccountFile::Secure(OTHER_ID.to_string())), vec![7]);
    disk.folders.insert(OTHER_ID.as_bytes().to_vec());
    disk.keyring.insert(OTHER_ID.to_string(), "other".to_string());
    disk
}

fn new_account() -> NewAccount {
    NewAccount { data: account(ID, "@me:example.org", true), passphrase: PASSPHRASE.to_string() }
}

fn sealed_saving() -> Saving<String> {
    save_sealed(new_account(), Ok(vec![1, 2, 3]))
}

fn begin_save() -> Saving<String> {
    save_new_account(ID.to_string(), user("@me:example.org"), data(), PASSPHRASE.to_string())
}

#[test]
fn saved_account_is_listed_encrypted_and_in_the_keyring() {
    let mut disk = disk_with_other();
    disk.folders.insert(ID.as_bytes().to_vec());
    assert!(disk.save(begin_save()).is_ok());
    assert_eq!(
        disk.accounts().accounts,
        vec![account(OTHER_ID, "@other:x", false), account(ID, "@me:example.org", true)]
    );
    assert_eq!(disk.keyring.get(ID), Some(&PASSPHRASE.to_string()));
    assert_eq!(
        disk.file_names(),
        vec![format!("{ID}.enc"), "users.toml".to_string(), format!("{OTHER_ID}.enc")]
    );
    let sealed = &disk.files[&name(&AccountFile::Secure(ID.to_string()))];
    assert_ne!(sealed, &encode_secure_data(&data()));
    assert!(sealed.starts_with(b"age-encryption.org/v1"));
}

#[test]
fn saved_account_is_restored_by_a_login() {
    let mut disk = Disk::default();
    disk.folders.insert(ID.as_bytes().to_vec());
    assert!(disk.save(begin_save()).is_ok());
    let (outcome, asked) = disk.log_in(login());
    assert!(matches!(outcome, Ok(LoginOutcome::LoggedIn)));
    assert_eq!(
        asked,
        vec![
            LoginRequest::BuildClient {
                server: "example.org".to_string(),
                id: ID.to_string(),
                passphrase: PASSPHRASE.to_string(),
            },
            LoginRequest::RestoreSession(AuthSession::Matrix(MatrixSession {
                meta: SessionMeta {
                    user_id: user("@me:example.org"),
                    device_id: "DEVICE".to_string(),
                },
                tokens: SessionTokens {
                    access_token: "access".to_string(),
                    refresh_token: Some("refresh".to_string()),
                },
            })),
        ]
    );
}

#[test]
fn login_without_active_account_finds_none() {
    let mut disk = Disk::default();
    let (outcome, asked) = disk.log_in(login());
    assert!(matches!(outcome, Ok(LoginOutcome::NoActiveAccount)));
    assert_eq!(asked, vec![]);
    let mut disk = disk_with_other();
    assert!(disk.activate(set_active_account("@other:x".to_string(), false)).is_ok());
    let (outcome, _) = disk.log_in(login());
    assert!(matches!(outcome, Ok(LoginOutcome::NoActiveAccount)));
}

#[test]
fn login_with_unreadable_data_fails() {
    let mut disk = disk_with_other();
    let (outcome, asked) = disk.log_in(login());
    assert!(matches!(outcome, Err(AccountError::Decrypt(OpenError::Unreadable(_)))));
    assert_eq!(asked, vec![]);
}

#[test]
fn login_without_the_encrypted_file_fails() {
    let mut disk = disk_with_other();
    // A file that counts for the account, but is not its encrypted one.
    let bytes = disk.files.remove(&name(&AccountFile::Secure(OTHER_ID.to_string()))).unwrap();
    disk.files.insert(format!("{OTHER_ID}.old").into_bytes(), bytes);
    let before = disk.state();
    let (outcome, asked) = disk.log_in(login());
    assert!(matches!(outcome, Err(AccountError::Outside(_))));
    assert_eq!(asked, vec![]);
    assert_eq!(disk.state(), before);
}

#[test]
fn login_under_another_passphrase_fails() {
    let mut disk = Disk::default();
    disk.folders.insert(ID.as_bytes().to_vec());
    assert!(disk.save(begin_save()).is_ok());
    disk.keyring.insert(ID.to_string(), "another".to_string());
    let (outcome, _) = disk.log_in(login());
    assert!(matches!(outcome, Err(AccountError::Decrypt(OpenError::Unreadable(_)))));
}

#[test]
fn login_that_would_take_too_long_fails() {
    let out: LoggingIn<String> = login_opened(
        account(ID, "@me:example.org", true),
        PASSPHRASE.to_string(),
        Err(OpenError::ExcessiveWork { required: 30, target: 20 }),
    );
    assert!(matches!(
        out,
        Progress::Finished(Err(AccountError::Decrypt(OpenError::ExcessiveWork {
            required: 30,
            target: 20
        })))
    ));
}

#[test]
fn login_goes_on_with_the_plaintext() {
    let out: LoggingIn<String> = login_opened(
        account(ID, "@me:example.org", true),
        PASSPHRASE.to_string(),
        Ok(encode_secure_data(&data())),
    );
    let Progress::Ask { state, request } = out else { panic!("the login is over") };
    assert_eq!(
        request,
        LoginRequest::Storage(Request::DecodeSecureData(encode_secure_data(&data())))
    );
    let out = state.resume(LoginReply::Storage(Reply::<String>::SecureData(data())));
    let Progress::Ask { state, request } = out else { panic!("the login is over") };
    assert_eq!(
        request,
        LoginRequest::BuildClient {
            server: "example.org".to_string(),
            id: ID.to_string(),
            passphrase: PASSPHRASE.to_string(),
        }
    );
    let out = state.resume(LoginReply::Failed("no route".to_string()));
    assert!(matches!(
        out,
        Progress::Finished(Err(AccountError::Outside(error))) if error == "no route"
    ));
}

#[test]
fn login_fails_where_a_request_fails() {
    let mut disk = disk_with_other();
    disk.sweep();
    let asked_by_sweep = disk.asked;
    for failing in 0..3 {
        let mut disk = disk_with_other();
        disk.fails_at = Some(asked_by_sweep + failing);
        let (outcome, _) = disk.log_in(login());
        assert!(matches!(outcome, Err(AccountError::Outside(_))));
        assert_eq!(disk.state(), disk_with_other());
    }
}

#[test]
fn answer_to_another_request_is_an_error() {
    let Progress::Ask { state, .. } = login::<String>() else { panic!("the login is over") };
    assert!(matches!(
        state.resume(LoginReply::<String>::Done),
        Progress::Finished(Err(AccountError::UnexpectedReply))
    ));
    let Progress::Ask { state, .. } = begin_save() else { panic!("the save is over") };
    assert!(matches!(
        state.resume(Reply::Done),
        Progress::Finished(Err(AccountError::UnexpectedReply))
    ));
}

#[test]
fn failed_encryption_saves_nothing() {
    let out: Saving<String> =
        save_sealed(new_account(), Err(age::EncryptError::MissingRecipients));
    assert!(matches!(
        out,
        Progress::Finished(Err(AccountError::Encrypt(age::EncryptError::MissingRecipients)))
    ));
}

/// The requests of a save with its data encrypted, up to the removal of the backup, of which each
/// but that one can fail.
const SAVE_REQUESTS: usize = 11;

#[test]
fn save_that_fails_anywhere_leaves_no_trace() {
    for failing in 0..SAVE_REQUESTS {
        let mut disk = disk_with_other();
        if failing > 0 {
            disk.folders.insert(ID.as_bytes().to_vec());
        }
        disk.fails_at = Some(failing);
        let outcome = disk.save(sealed_saving());
        assert!(matches!(
            outcome,
            Err(AccountError::Outside(error)) if error == format!("request {failing} failed")
        ));
        assert_eq!(disk.state(), disk_with_other());
    }
}

#[test]
fn failure_to_remove_the_backup_does_not_fail_a_save() {
    let mut disk = disk_with_other();
    disk.fails_at = Some(SAVE_REQUESTS);
    assert!(disk.save(sealed_saving()).is_ok());
    assert_eq!(disk.accounts().accounts.len(), 2);
    assert!(disk.files.contains_key(&name(&AccountFile::Backup)));
    disk.fails_at = None;
    disk.folders.insert(ID.as_bytes().to_vec());
    disk.sweep();
    assert!(!disk.files.contains_key(&name(&AccountFile::Backup)));
    assert_eq!(disk.accounts().accounts.len(), 2);
}

#[test]
fn failed_first_save_leaves_an_empty_list() {
    let mut disk = Disk::default();
    disk.fails_at = Some(SAVE_REQUESTS - 1);
    assert!(disk.save(sealed_saving()).is_err());
    assert_eq!(disk.file_names(), vec!["users.toml".to_string()]);
    assert_eq!(disk.accounts().accounts, vec![]);
}

#[test]
fn list_is_sound_at_every_moment_of_a_save() {
    let mut disk = disk_with_other();
    let before = disk.accounts();
    let mut saving = sealed_saving();
    while let Progress::Ask { state, request } = saving {
        saving = state.resume(disk.perform(request));
        let now = disk.accounts();
        assert!(now == before || now.accounts.len() == 2);
        assert_eq!(disk.keyring.get(OTHER_ID), Some(&"other".to_string()));
    }
}

#[test]
fn save_that_is_broken_off_anywhere_can_be_undone() {
    for broken_off in 1..SAVE_REQUESTS {
        let mut disk = disk_with_other();
        let mut saving = sealed_saving();
        for _ in 0..broken_off {
            let Progress::Ask { state, request } = saving else { panic!("the save is over") };
            saving = state.resume(disk.perform(request));
        }
        let Progress::Ask { state, .. } = saving else { panic!("the save is over") };
        for request in state.abandon() {
            disk.perform(request);
        }
        assert_eq!(disk.state(), disk_with_other());
    }
    let Progress::Ask { state, .. } = begin_save() else { panic!("the save is over") };
    assert_eq!(state.abandon(), vec![]);
}

#[test]
fn updated_tokens_are_those_that_a_login_restores() {
    let mut disk = Disk::default();
    disk.folders.insert(ID.as_bytes().to_vec());
    assert!(disk.save(begin_save()).is_ok());
    let updating = update_account_config(
        "@me:example.org".to_string(),
        Some("access 2".to_string()),
        Some(None),
        None,
    );
    let before = disk.state();
    assert!(disk.update(updating).is_ok());
    assert_eq!(disk.accounts(), AccountList { accounts: vec![new_account().data] });
    assert_eq!(disk.file_names(), before.file_names());
    assert_eq!(disk.keyring, before.keyring);
    assert_ne!(disk.files, before.files);
    let (outcome, asked) = disk.log_in(login());
    assert!(matches!(outcome, Ok(LoginOutcome::LoggedIn)));
    let LoginRequest::RestoreSession(AuthSession::Matrix(session)) = &asked[1] else {
        panic!("no session was restored")
    };
    assert_eq!(
        session.tokens,
        SessionTokens { access_token: "access 2".to_string(), refresh_token: None }
    );
    assert_eq!(session.meta.device_id, "DEVICE");
}

#[test]
fn update_of_an_unknown_user_fails() {
    let mut disk = disk_with_other();
    let outcome = disk.update(update_account_config("@me:x".to_string(), None, None, None));
    let Err(error) = outcome else { panic!("the update succeeded") };
    assert_eq!(error.message(), Some("User not found: @me:x".to_string()));
    assert_eq!(disk.state(), disk_with_other());
}

#[test]
fn update_of_unreadable_data_fails() {
    let mut disk = disk_with_other();
    let outcome = disk.update(update_account_config("@other:x".to_string(), None, None, None));
    assert!(matches!(outcome, Err(AccountError::Decrypt(OpenError::Unreadable(_)))));
    assert_eq!(disk.state(), disk_with_other());
}

#[test]
fn update_changes_what_is_given() {
    let update = TokenUpdate {
        access_token: None,
        refresh_token: Some(Some("refresh 2".to_string())),
        expiration: Some(Some(1_700_000_000)),
    };
    let out: Updating<String> = update_opened(
        ID.to_string(),
        PASSPHRASE.to_string(),
        update,
        Ok(encode_secure_data(&data())),
    );
    let Progress::Ask { state, request } = out else { panic!("the update is over") };
    assert_eq!(request, Request::DecodeSecureData(encode_secure_data(&data())));
    let out = state.resume(Reply::<String>::SecureData(data()));
    let Progress::Ask { request, .. } = out else { panic!("the update is over") };
    assert_eq!(
        request,
        Request::EncodeSecureData(SecureAccountData {
            access_token: "access".to_string(),
            refresh_token: Some("refresh 2".to_string()),
            device_id: "DEVICE".to_string(),
            client_id: None,
            expiration: Some(1_700_000_000),
        })
    );
}

#[test]
fn update_fails_where_the_vault_does() {
    let update = TokenUpdate { access_token: None, refresh_token: None, expiration: None };
    let out: Updating<String> = update_opened(
        ID.to_string(),
        PASSPHRASE.to_string(),
        update,
        Err(OpenError::ExcessiveWork { required: 30, target: 20 }),
    );
    assert!(matches!(
        out,
        Progress::Finished(Err(AccountError::Decrypt(OpenError::ExcessiveWork { .. })))
    ));
    let out: Updating<String> =
        update_sealed(ID.to_string(), Err(age::EncryptError::MissingRecipients));
    assert!(matches!(out, Progress::Finished(Err(AccountError::Encrypt(_)))));
}

#[test]
fn update_replaces_the_file_at_once() {
    let secure = name(&AccountFile::Secure(OTHER_ID.to_string()));
    let sealed = vec![8, 9];
    for failing in 0..2 {
        let mut disk = disk_with_other();
        disk.fails_at = Some(failing);
        let outcome = disk.update(update_sealed(OTHER_ID.to_string(), Ok(sealed.clone())));
        assert!(matches!(outcome, Err(AccountError::Outside(_))));
        assert_eq!(disk.files[&secure], vec![7]);
    }
    let mut disk = disk_with_other();
    assert!(disk.update(update_sealed(OTHER_ID.to_string(), Ok(sealed.clone()))).is_ok());
    assert_eq!(disk.files[&secure], sealed);
    assert_eq!(disk.file_names(), disk_with_other().file_names());
}

#[test]
fn choice_switches_the_active_account() {
    let mut disk = disk_with_other();
    assert!(disk.save(sealed_saving()).is_ok());
    let before = disk.state();
    assert!(disk.activate(set_active_account("@other:x".to_string(), true)).is_ok());
    assert_eq!(
        disk.accounts().accounts,
        vec![account(OTHER_ID, "@other:x", true), account(ID, "@me:example.org", false)]
    );
    assert!(disk.activate(set_active_account("@me:example.org".to_string(), true)).is_ok());
    assert_eq!(disk.state(), before);
    assert!(disk.activate(set_active_account("@other:x".to_string(), false)).is_ok());
    assert!(disk.accounts().accounts.iter().all(|account| !account.active));
}

#[test]
fn chosen_account_is_the_one_that_a_login_takes() {
    let mut disk = disk_with_other();
    disk.folders.insert(ID.as_bytes().to_vec());
    assert!(disk.save(begin_save()).is_ok());
    assert!(disk.activate(set_active_account("@other:x".to_string(), true)).is_ok());
    assert!(disk.activate(set_active_account("@me:example.org".to_string(), true)).is_ok());
    let (outcome, asked) = disk.log_in(login());
    assert!(matches!(outcome, Ok(LoginOutcome::LoggedIn)));
    assert!(matches!(&asked[0], LoginRequest::BuildClient { id, .. } if id == ID));
}

#[test]
fn login_after_removal_of_the_active_account_takes_none() {
    let mut disk = disk_with_other();
    disk.folders.insert(ID.as_bytes().to_vec());
    assert!(disk.save(sealed_saving()).is_ok());
    disk.remove(remove_account_config("@me:example.org".to_string()));
    let (outcome, _) = disk.log_in(login());
    assert!(matches!(outcome, Ok(LoginOutcome::NoActiveAccount)));
}

#[test]
fn choice_of_an_unknown_user_fails() {
    let mut disk = disk_with_other();
    let outcome = disk.activate(set_active_account("@me:x".to_string(), true));
    assert!(matches!(outcome, Err(AccountError::UserNotFound(user)) if user == "@me:x"));
    assert_eq!(disk.state(), disk_with_other());
    let mut empty = Disk::default();
    assert!(empty.activate(set_active_account("@me:x".to_string(), false)).is_err());
    assert_eq!(empty.state(), Disk::default());
}

#[test]
fn choice_fails_where_a_request_fails() {
    for failing in 0..3 {
        let mut disk = disk_with_other();
        disk.fails_at = Some(failing);
        let outcome = disk.activate(set_active_account("@other:x".to_string(), false));
        assert!(matches!(outcome, Err(AccountError::Outside(_))));
        assert_eq!(disk.state(), disk_with_other());
    }
}

#[test]
fn removed_account_is_gone_and_the_other_is_not() {
    let mut disk = disk_with_other();
    disk.folders.insert(ID.as_bytes().to_vec());
    assert!(disk.save(sealed_saving()).is_ok());
    disk.remove(remove_account_config("@me:example.org".to_string()));
    let mut expected = disk_with_other();
    let list = AccountList { accounts: vec![account(OTHER_ID, "@other:x", false)] };
    expected.files.insert(name(&AccountFile::Users), encode_accounts(&list));
    assert_eq!(disk.state(), expected);
}

#[test]
fn second_removal_changes_nothing() {
    let mut disk = disk_with_other();
    disk.folders.insert(ID.as_bytes().to_vec());
    assert!(disk.save(sealed_saving()).is_ok());
    disk.remove(remove_account_config("@me:example.org".to_string()));
    let before = disk.state();
    disk.remove(remove_account_config("@me:example.org".to_string()));
    assert_eq!(disk.state(), before);
}

#[test]
fn removal_needs_the_store_and_the_encrypted_file() {
    let mut disk = disk_with_other();
    disk.folders.clear();
    let before = disk.state();
    disk.remove(remove_account_config("@other:x".to_string()));
    assert_eq!(disk.state(), before);
    let mut disk = disk_with_other();
    disk.files.remove(&name(&AccountFile::Secure(OTHER_ID.to_string())));
    let before = disk.state();
    disk.remove(remove_account_config("@other:x".to_string()));
    assert_eq!(disk.state(), before);
}

#[test]
fn removal_of_an_unknown_user_does_nothing() {
    let mut disk = disk_with_other();
    disk.remove(remove_account_config("@me:x".to_string()));
    assert_eq!(disk.state(), disk_with_other());
    let mut empty = Disk::default();
    empty.remove(remove_account_config("@me:x".to_string()));
    assert_eq!(empty.state(), Disk::default());
}

#[test]
fn removal_goes_on_where_one_part_cannot_be_removed() {
    let mut disk = disk_with_other();
    disk.keyring.clear();
    disk.remove(remove_account_config("@other:x".to_string()));
    assert_eq!(disk.accounts().accounts, vec![]);
    assert_eq!(disk.file_names(), vec!["users.toml".to_string()]);
    let mut disk = disk_with_other();
    disk.fails_at = Some(3);
    disk.remove(remove_account_config("@other:x".to_string()));
    assert_eq!(disk.state(), disk_with_other());
}

#[test]
fn sweep_removes_orphans_and_spares_whole_accounts() {
    let mut disk = disk_with_other();
    let mut list = disk.accounts();
    list.accounts.push(account(ID, "@me:x", false));
    disk.files.insert(name(&AccountFile::Users), encode_accounts(&list));
    disk.files.insert(name(&AccountFile::Secure(ID.to_string())), vec![1]);
    disk.files.insert(name(&AccountFile::Backup), vec![2]);
    disk.files.insert(vec![0xff], vec![3]);
    disk.folders.insert(b"stray".to_vec());
    disk.keyring.insert("stray".to_string(), "x".to_string());
    disk.sweep();
    let mut expected = disk_with_other();
    expected.files.insert(vec![0xff], vec![3]);
    assert_eq!(disk.state(), expected);
    disk.sweep();
    assert_eq!(disk.state(), expected);
}

#[test]
fn created_account_survives_a_sweep_whatever_its_id() {
    for id in [ID, "users", "a", "Alice2"] {
        let mut disk = disk_with_other();
        disk.folders.insert(id.as_bytes().to_vec());
        let new = NewAccount {
            data: account(id, "@me:example.org", true),
            passphrase: PASSPHRASE.to_string(),
        };
        assert!(disk.save(save_sealed(new, Ok(vec![1, 2, 3]))).is_ok());
        let before = disk.state();
        assert_eq!(before.accounts().accounts.len(), 2);
        assert_eq!(before.files[&name(&AccountFile::Secure(id.to_string()))], vec![1, 2, 3]);
        disk.sweep();
        assert_eq!(disk.state(), before);
    }
}

#[test]
fn sweep_without_a_list_removes_nothing() {
    let mut disk = Disk::default();
    disk.folders.insert(b"stray".to_vec());
    disk.keyring.insert("stray".to_string(), "x".to_string());
    let before = disk.state();
    disk.sweep();
    assert_eq!(disk.state(), before);
    disk.files.insert(name(&AccountFile::Users), b"no list".to_vec());
    let before = disk.state();
    disk.sweep();
    assert_eq!(disk.state(), before);
}

#[test]
fn sweep_that_cannot_list_removes_nothing() {
    for failing in 0..3 {
        let mut disk = disk_with_other();
        disk.folders.insert(b"stray".to_vec());
        let before = disk.state();
        disk.fails_at = Some(failing);
        disk.sweep();
        assert_eq!(disk.state(), before);
    }
}

#[test]
fn sweep_stops_where_the_keyring_cannot_be_opened() {
    let mut disk = disk_with_other();
    disk.folders.insert(b"stray".to_vec());
    disk.keyring.insert("stray".to_string(), "x".to_string());
    let mut list = disk.accounts();
    list.accounts.push(account(ID, "@me:x", false));
    disk.files.insert(name(&AccountFile::Users), encode_accounts(&list));
    // The folder goes first, then the keyring is opened.
    disk.fails_at = Some(4);
    disk.sweep();
    assert!(!disk.folders.contains(&b"stray".to_vec()));
    assert!(disk.keyring.contains_key("stray"));
    assert_eq!(disk.accounts(), list);
}

#[test]
fn sweep_goes_on_where_one_orphan_cannot_be_removed() {
    let mut disk = disk_with_other();
    disk.folders.insert(b"stray".to_vec());
    disk.files.insert(b"stray.enc".to_vec(), vec![1]);
    disk.fails_at = Some(3);
    disk.sweep();
    assert!(disk.folders.contains(&b"stray".to_vec()));
    assert!(!disk.files.contains_key(&b"stray.enc".to_vec()));
}

fn response() -> LoginResponse {
    LoginResponse {
        user_id: user("@me:example.org"),
        access_token: "access".to_string(),
        refresh_token: Some("refresh".to_string()),
        device_id: "DEVICE".to_string(),
    }
}

#[test]
fn new_login_saves_under_the_credentials_of_its_store() {
    let mut disk = disk_with_other();
    disk.folders.insert(b"stray".to_vec());
    let begun =
        login_username("example.org".to_string(), "me".to_string(), "secret".to_string());
    let (outcome, asked) = disk.log_in_anew(begun, response());
    assert!(!disk.folders.contains(&b"stray".to_vec()));
    assert_eq!(asked.len(), 3);
    assert_eq!(asked[0], LoginRequest::CreateFolder);
    let LoginRequest::BuildClient { server, id, passphrase } = &asked[1] else {
        panic!("no client was built")
    };
    assert_eq!(server, "example.org");
    assert_eq!(id.len(), 32);
    assert_eq!(passphrase.len(), 32);
    assert_eq!(
        asked[2],
        LoginRequest::LogIn(LoginMethod::Username {
            username: "me".to_string(),
            password: "secret".to_string(),
        })
    );
    assert!(disk.save(outcome.unwrap()).is_ok());
    assert_eq!(disk.keyring.get(id), Some(passphrase));
    assert_eq!(disk.accounts().accounts[1], account(id, "@me:example.org", true));
    let (outcome, asked) = disk.log_in(login());
    assert!(matches!(outcome, Ok(LoginOutcome::LoggedIn)));
    assert_eq!(
        asked[0],
        LoginRequest::BuildClient {
            server: "example.org".to_string(),
            id: id.clone(),
            passphrase: passphrase.clone(),
        }
    );
}

#[test]
fn new_login_by_sso_asks_for_sso() {
    let mut disk = Disk::default();
    let (outcome, asked) = disk.log_in_anew(login_sso("example.org".to_string()), response());
    assert!(outcome.is_ok());
    assert_eq!(asked[2], LoginRequest::LogIn(LoginMethod::Sso));
}

#[test]
fn new_login_fails_where_a_request_fails() {
    let credentials = (ID.to_string(), PASSPHRASE.to_string());
    let out: NewlyLoggingIn<String> =
        login_with_credentials("example.org".to_string(), LoginMethod::Sso, credentials);
    let Progress::Ask { state, request } = out else { panic!("the login is over") };
    assert_eq!(request, LoginRequest::CreateFolder);
    let out = state.resume(LoginReply::<String>::Done);
    let Progress::Ask { state, request } = out else { panic!("the login is over") };
    assert_eq!(
        request,
        LoginRequest::BuildClient {
            server: "example.org".to_string(),
            id: ID.to_string(),
            passphrase: PASSPHRASE.to_string(),
        }
    );
    let out = state.resume(LoginReply::Failed("no route".to_string()));
    assert!(matches!(
        out,
        Progress::Finished(Err(AccountError::Outside(error))) if error == "no route"
    ));
}

#[test]
fn failed_new_login_leaves_what_its_sweep_leaves() {
    let mut disk = disk_with_other();
    disk.folders.insert(b"stray".to_vec());
    let mut logging_in: NewlyLoggingIn<String> = login_sso("example.org".to_string());
    let mut asked = 0;
    let error = loop {
        match logging_in {
            Progress::Ask { state, request } => {
                let reply = match request {
                    LoginRequest::Storage(request) => LoginReply::Storage(disk.perform(request)),
                    LoginRequest::LogIn(_) => LoginReply::Failed("forbidden".to_string()),
                    _ => {
                        asked += 1;
                        LoginReply::Done
                    }
                };
                logging_in = state.resume(reply);
            }
            Progress::Finished(outcome) => break outcome.err().unwrap(),
        }
    };
    assert_eq!(asked, 2);
    assert!(matches!(error, AccountError::Outside(error) if error == "forbidden"));
    assert_eq!(disk.state(), disk_with_other());
}

/// Answers the watch in turn; also tells what it asked for.
fn watch(disk: &mut Disk, replies: Vec<RefreshReply<String>>) -> (Watching<String>, Vec<String>) {
    let mut replies = replies.into_iter();
    let mut asked = Vec::new();
    let mut watching = handle_refresh_tokens();
    while let Progress::Ask { state, request } = watching {
        let reply = match request {
            RefreshRequest::Storage(request) => RefreshReply::Storage(disk.perform(request)),
            RefreshRequest::SendClient => {
                asked.push("SendClient".to_string());
                RefreshReply::Sent
            }
            RefreshRequest::Report(error) => {
                asked.push(match error {
                    AccountError::Outside(error) => format!("Report({error})"),
                    error => format!("Report({})", error.message().unwrap()),
                });
                RefreshReply::Reported
            }
            request => {
                asked.push(format!("{request:?}"));
                match replies.next() {
                    Some(reply) => reply,
                    None => return (Progress::Ask { state, request }, asked),
                }
            }
        };
        watching = state.resume(reply);
    }
    (watching, asked)
}

fn soft_logout() -> RefreshReply<String> {
    RefreshReply::Change(SessionChange::UnknownToken { soft_logout: true })
}

fn session(user_id: &str) -> RefreshReply<String> {
    RefreshReply::Session {
        user_id: user_id.to_string(),
        tokens: SessionTokens { access_token: "access 2".to_string(), refresh_token: None },
        expiration: Some(1_700_000_000),
    }
}

#[test]
fn watch_waits_for_changes_and_ends_without_more() {
    let mut disk = disk_with_other();
    let (watching, asked) = watch(
        &mut disk,
        vec![RefreshReply::Change(SessionChange::TokensRefreshed), RefreshReply::Closed],
    );
    assert!(matches!(watching, Progress::Finished(())));
    assert_eq!(asked, vec!["NextChange", "NextChange"]);
    assert_eq!(disk.state(), disk_with_other());
}

#[test]
fn watch_keeps_renewed_tokens() {
    let mut disk = Disk::default();
    disk.folders.insert(ID.as_bytes().to_vec());
    assert!(disk.save(begin_save()).is_ok());
    let (watching, asked) = watch(
        &mut disk,
        vec![soft_logout(), RefreshReply::Refreshed, session("@me:example.org")],
    );
    assert!(matches!(watching, Progress::Ask { .. }));
    assert_eq!(
        asked,
        vec!["NextChange", "RefreshAccessToken", "ReadSession", "SendClient", "NextChange"]
    );
    let sealed = &disk.files[&name(&AccountFile::Secure(ID.to_string()))];
    let identity = age::scrypt::Identity::new(age::secrecy::SecretString::from(PASSPHRASE));
    let kept = decode_secure_data(&age::decrypt(&identity, sealed).unwrap()).unwrap();
    assert_eq!(
        kept,
        SecureAccountData {
            access_token: "access 2".to_string(),
            refresh_token: None,
            expiration: Some(1_700_000_000),
            ..data()
        }
    );
    let (_, asked) = disk.log_in(login());
    let LoginRequest::RestoreSession(AuthSession::Matrix(session)) = &asked[1] else {
        panic!("no session was restored")
    };
    assert_eq!(session.tokens.access_token, "access 2");
    assert_eq!(session.tokens.refresh_token, None);
}

#[test]
fn watch_reports_a_failed_update_and_goes_on() {
    let mut disk = disk_with_other();
    let (watching, asked) = watch(
        &mut disk,
        vec![soft_logout(), RefreshReply::Refreshed, session("@me:x")],
    );
    assert!(matches!(watching, Progress::Ask { .. }));
    assert_eq!(
        asked,
        vec![
            "NextChange",
            "RefreshAccessToken",
            "ReadSession",
            "Report(User not found: @me:x)",
            "NextChange",
        ]
    );
}

#[test]
fn watch_removes_a_destroyed_session() {
    let mut disk = disk_with_other();
    let (watching, asked) = watch(
        &mut disk,
        vec![
            RefreshReply::Change(SessionChange::UnknownToken { soft_logout: false }),
            RefreshReply::User("@other:x".to_string()),
        ],
    );
    assert!(matches!(watching, Progress::Finished(())));
    assert_eq!(asked, vec!["NextChange", "ReadUser"]);
    assert_eq!(disk.accounts().accounts, vec![]);
    assert!(disk.keyring.is_empty());
}

#[test]
fn watch_removes_a_session_that_cannot_be_renewed() {
    for failure in [
        RefreshFailure::RefreshTokenRequired,
        RefreshFailure::MatrixAuth { unknown_token: true, error: "unknown".to_string() },
    ] {
        let mut disk = disk_with_other();
        let (watching, asked) = watch(
            &mut disk,
            vec![
                soft_logout(),
                RefreshReply::NotRefreshed(failure),
                RefreshReply::User("@other:x".to_string()),
            ],
        );
        assert!(matches!(watching, Progress::Finished(())));
        assert_eq!(asked, vec!["NextChange", "RefreshAccessToken", "ReadUser"]);
        assert_eq!(disk.accounts().accounts, vec![]);
    }
}

#[test]
fn watch_reports_a_failed_renewal_and_ends() {
    for failure in [
        RefreshFailure::MatrixAuth { unknown_token: false, error: "limit".to_string() },
        RefreshFailure::Other("limit".to_string()),
    ] {
        let mut disk = disk_with_other();
        let (watching, asked) =
            watch(&mut disk, vec![soft_logout(), RefreshReply::NotRefreshed(failure)]);
        assert!(matches!(watching, Progress::Finished(())));
        assert_eq!(asked, vec!["NextChange", "RefreshAccessToken", "Report(limit)"]);
        assert_eq!(disk.state(), disk_with_other());
    }
}
