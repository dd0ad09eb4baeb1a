//! The values that accounts are made of: ids, lists, names, secrets, sessions, login types.

use meteorite_core::account::active_account;
use meteorite_core::account::load_account_list;
use meteorite_core::account::Account;
use meteorite_core::account::AccountData;
use meteorite_core::account::AccountList;
use meteorite_core::account::SecureAccountData;
use meteorite_core::account::UserId;
use meteorite_core::files::strip_extensions;
use meteorite_core::files::AccountFile;
use meteorite_core::files::CREDENTIAL_LENGTH;
use meteorite_core::login::sso_message;
use meteorite_core::login_types::get_login_types;
use meteorite_core::login_types::IdentityProvider;
use meteorite_core::login_types::LoginChoice;
use meteorite_core::login_types::LoginType;
use meteorite_core::login_types::MetadataError;
use meteorite_core::login_types::SsoLoginType;
use meteorite_core::orphans::collect_resources;
use meteorite_core::orphans::plan_sweep;
use meteorite_core::orphans::AccountResource;
use meteorite_core::orphans::Leftover;
use meteorite_core::request::AccountError;
use meteorite_core::request::Credential;
use meteorite_core::request::FolderEntry;
use meteorite_core::request::Reply;
use meteorite_core::request::Request;
use meteorite_core::save::AccountCreationGuard;
use meteorite_core::session::AuthSession;
use meteorite_core::session::MatrixSession;
use meteorite_core::session::OAuthSession;
use meteorite_core::session::SessionMeta;
use meteorite_core::session::SessionTokens;
use meteorite_core::session::UserSession;
use meteorite_core::vault::generate_account_credentials;

fn user(text: &str) -> UserId {
    UserId::parse(text.to_string()).unwrap()
}

fn account(id: &str, user_id: &str, active: bool) -> AccountData {
    AccountData { id: id.to_string(), user_id: user(user_id), active }
}

fn list(accounts: Vec<AccountData>) -> AccountList {
    AccountList { accounts }
}

fn secure_data(client_id: Option<&str>) -> SecureAccountData {
    SecureAccountData::new(
        "syt_access".to_string(),
        Some("syr_refresh".to_string()),
        "DEVICE".to_string(),
        client_id.map(str::to_string),
    )
}

#[test]
fn user_id_needs_a_server() {
    assert!(UserId::parse("@alice".to_string()).is_none());
    assert!(UserId::parse(String::new()).is_none());
    assert_eq!(user("@alice:example.org").as_str(), "@alice:example.org");
}

#[test]
fn server_name_is_all_behind_the_first_colon() {
    assert_eq!(user("@alice:example.org").server_name(), "example.org");
    assert_eq!(user("@alice:example.org:8448").server_name(), "example.org:8448");
    assert_eq!(user("@zoë:[::1]:80").server_name(), "[::1]:80");
    assert_eq!(user("@a:").server_name(), "");
}

#[test]
fn user_id_is_compared_as_text() {
    assert!(user("@alice:example.org").is("@alice:example.org"));
    assert!(!user("@alice:example.org").is("@Alice:example.org"));
    assert!(!user("@alice:example.org").is("@alice:example.or"));
}

#[test]
fn one_active_account_is_the_active_one() {
    let accounts = vec![account("a", "@a:x", false), account("b", "@b:x", true)];
    assert_eq!(active_account(&accounts), Some(&accounts[1]));
}

#[test]
fn no_active_account_is_none() {
    assert_eq!(active_account(&[]), None);
    assert_eq!(active_account(&[account("a", "@a:x", false)]), None);
}

#[test]
fn several_active_accounts_are_none() {
    let accounts =
        vec![account("a", "@a:x", true), account("b", "@b:x", false), account("c", "@c:x", true)];
    assert_eq!(active_account(&accounts), None);
}

#[test]
fn missing_list_is_an_empty_one() {
    assert_eq!(load_account_list(None), list(vec![]));
    let some = list(vec![account("a", "@a:x", true)]);
    assert_eq!(load_account_list(Some(some.clone())), some);
    assert_eq!(AccountList::default(), list(vec![]));
}

#[test]
fn added_account_is_the_only_active_one() {
    let mut accounts = list(vec![account("a", "@a:x", true), account("b", "@b:x", false)]);
    accounts.add(account("c", "@c:x", true));
    assert_eq!(
        accounts,
        list(vec![
            account("a", "@a:x", false),
            account("b", "@b:x", false),
            account("c", "@c:x", true),
        ])
    );
    assert_eq!(active_account(&accounts.accounts).unwrap().id, "c");
}

#[test]
fn switch_makes_one_user_active_and_the_others_inactive() {
    let mut accounts = list(vec![account("a", "@a:x", true), account("b", "@b:x", false)]);
    accounts.switch_to("@b:x", true);
    assert_eq!(
        accounts,
        list(vec![account("a", "@a:x", false), account("b", "@b:x", true)])
    );
    accounts.switch_to("@b:x", false);
    assert_eq!(
        accounts,
        list(vec![account("a", "@a:x", false), account("b", "@b:x", false)])
    );
}

#[test]
fn switch_to_a_user_with_two_accounts_leaves_no_active_one() {
    let mut accounts = list(vec![account("a", "@a:x", false), account("b", "@a:x", false)]);
    accounts.switch_to("@a:x", true);
    assert!(accounts.accounts[0].active && accounts.accounts[1].active);
    assert_eq!(active_account(&accounts.accounts), None);
}

#[test]
fn last_switch_counts() {
    let before = list(vec![account("a", "@a:x", false), account("b", "@b:x", true)]);
    let mut twice = before.clone();
    twice.switch_to("@b:x", true);
    twice.switch_to("@a:x", true);
    let mut once = before;
    once.switch_to("@a:x", true);
    assert_eq!(twice, once);
}

#[test]
fn position_is_of_the_first_account_of_the_user() {
    let accounts = list(vec![
        account("a", "@a:x", false),
        account("b", "@b:x", false),
        account("c", "@b:x", false),
    ]);
    assert_eq!(accounts.position_of("@b:x"), Some(1));
    assert_eq!(accounts.position_of("@c:x"), None);
}

#[test]
fn removal_takes_every_account_under_that_id() {
    let mut accounts = list(vec![
        account("a", "@a:x", true),
        account("b", "@b:x", false),
        account("a", "@c:x", false),
        account("aa", "@d:x", false),
    ]);
    accounts.remove_id("a");
    assert_eq!(
        accounts,
        list(vec![account("b", "@b:x", false), account("aa", "@d:x", false)])
    );
    accounts.remove_id("zzz");
    assert_eq!(accounts.accounts.len(), 2);
}

#[test]
fn removal_undoes_adding() {
    let mut accounts = list(vec![account("a", "@a:x", false)]);
    let before = accounts.clone();
    accounts.add(account("b", "@b:x", true));
    accounts.remove_id("b");
    assert_eq!(accounts, before);
}

#[test]
fn tokens_are_replaced_where_given() {
    let mut data = secure_data(Some("client"));
    assert_eq!(data.expiration, None);
    data.replace_tokens(Some("new".to_string()), None, Some(Some(1_700_000_000)));
    assert_eq!(data.access_token, "new");
    assert_eq!(data.refresh_token, Some("syr_refresh".to_string()));
    assert_eq!(data.expiration, Some(1_700_000_000));
    data.replace_tokens(None, Some(None), None);
    assert_eq!(data.access_token, "new");
    assert_eq!(data.refresh_token, None);
    assert_eq!(data.expiration, Some(1_700_000_000));
    data.replace_tokens(None, Some(Some("r2".to_string())), Some(None));
    assert_eq!(
        data,
        SecureAccountData::new(
            "new".to_string(),
            Some("r2".to_string()),
            "DEVICE".to_string(),
            Some("client".to_string()),
        )
    );
}

#[test]
fn files_have_their_names() {
    let id = "Ab1".to_string();
    assert_eq!(AccountFile::Users.file_name(), "users.toml");
    assert_eq!(AccountFile::UsersTemp.file_name(), "users.tmp");
    assert_eq!(AccountFile::Backup.file_name(), "users.toml.backup");
    assert_eq!(AccountFile::BackupTemp.file_name(), "users.toml.tmp");
    assert_eq!(AccountFile::Secure(id.clone()).file_name(), "Ab1.enc");
    assert_eq!(AccountFile::SecureTemp(id.clone()).file_name(), "Ab1.tmp");
    assert_eq!(AccountFile::Store(id).file_name(), "Ab1");
}

/// The temporary names are those that a path gets when its extension becomes `tmp`.
#[test]
fn temporary_files_have_the_extension_tmp() {
    let sibling = |name: String| {
        std::path::Path::new(&name).with_extension("tmp").to_str().unwrap().to_string()
    };
    assert_eq!(AccountFile::UsersTemp.file_name(), sibling(AccountFile::Users.file_name()));
    assert_eq!(AccountFile::BackupTemp.file_name(), sibling(AccountFile::Backup.file_name()));
    for id in ["Ab1", "", "dir/", "a.b", ".hidden", "ä"] {
        assert_eq!(
            AccountFile::SecureTemp(id.to_string()).file_name(),
            sibling(AccountFile::Secure(id.to_string()).file_name()),
        );
    }
}

#[test]
fn extensions_begin_at_the_first_dot_but_the_leading_one() {
    for (name, prefix) in [
        ("users.toml.backup", "users"),
        ("Ab1.enc", "Ab1"),
        ("Ab1", "Ab1"),
        (".enc", ".enc"),
        (".enc.tmp", ".enc"),
        ("..a", "."),
        ("a.", "a"),
        ("", ""),
    ] {
        let mut bytes = name.as_bytes().to_vec();
        strip_extensions(&mut bytes);
        assert_eq!(bytes, prefix.as_bytes());
    }
}

#[test]
fn credentials_are_letters_and_digits_of_a_set_length() {
    assert_eq!(CREDENTIAL_LENGTH, 32);
    let (id, passphrase) = generate_account_credentials();
    let (other_id, other_passphrase) = generate_account_credentials();
    for text in [&id, &passphrase, &other_id, &other_passphrase] {
        assert_eq!(text.len(), 32);
        assert!(text.chars().all(|c| c.is_ascii_alphanumeric()));
    }
    assert_ne!(id, passphrase);
    assert_ne!(id, other_id);
    assert_ne!(passphrase, other_passphrase);
}

#[test]
fn account_without_client_id_restores_a_native_session() {
    let session = AuthSession::from(Account {
        data: account("a", "@a:x", true),
        secure_data: secure_data(None),
    });
    assert_eq!(
        session,
        AuthSession::Matrix(MatrixSession {
            meta: SessionMeta { user_id: user("@a:x"), device_id: "DEVICE".to_string() },
            tokens: SessionTokens {
                access_token: "syt_access".to_string(),
                refresh_token: Some("syr_refresh".to_string()),
            },
        })
    );
}

#[test]
fn account_with_client_id_restores_an_oauth_session() {
    let session = AuthSession::from(Account {
        data: account("a", "@a:x", true),
        secure_data: secure_data(Some("client")),
    });
    assert_eq!(
        session,
        AuthSession::OAuth(OAuthSession {
            client_id: "client".to_string(),
            user: UserSession {
                meta: SessionMeta { user_id: user("@a:x"), device_id: "DEVICE".to_string() },
                tokens: SessionTokens {
                    access_token: "syt_access".to_string(),
                    refresh_token: Some("syr_refresh".to_string()),
                },
            },
        })
    );
}

fn provider(id: &str) -> IdentityProvider {
    IdentityProvider { id: id.to_string(), name: id.to_uppercase(), icon: None, brand: None }
}

fn sso(id: &str, preferred: bool) -> LoginType {
    LoginType::Sso(SsoLoginType {
        identity_providers: vec![provider(id)],
        oauth_aware_preferred: preferred,
    })
}

const OAUTH: Result<(), MetadataError<String>> = Ok(());

const NO_OAUTH: Result<(), MetadataError<String>> = Err(MetadataError::NotSupported);

#[test]
fn password_is_offered() {
    let choices = get_login_types(vec![LoginType::Other, LoginType::Password], NO_OAUTH).unwrap();
    assert_eq!(choices, vec![LoginChoice::Password]);
}

#[test]
fn everything_is_offered_in_order() {
    let choices = get_login_types(
        vec![
            LoginType::Token,
            sso("github", true),
            sso("gitlab", false),
            LoginType::Password,
        ],
        OAUTH,
    )
    .unwrap();
    assert_eq!(
        choices,
        vec![
            LoginChoice::Password,
            LoginChoice::Oauth { preferred: true },
            LoginChoice::Sso { identity_providers: vec![provider("github")] },
        ]
    );
}

#[test]
fn sso_without_login_tokens_is_not_offered() {
    assert_eq!(get_login_types(vec![sso("github", false)], NO_OAUTH).unwrap(), vec![]);
    assert_eq!(
        get_login_types(vec![sso("github", false)], OAUTH).unwrap(),
        vec![LoginChoice::Oauth { preferred: false }],
    );
    assert_eq!(
        get_login_types(vec![sso("github", false), LoginType::Token], NO_OAUTH).unwrap(),
        vec![LoginChoice::Sso { identity_providers: vec![provider("github")] }],
    );
}

#[test]
fn oauth_is_offered_without_sso() {
    let oauth = LoginChoice::Oauth { preferred: false };
    assert_eq!(get_login_types(vec![], OAUTH).unwrap(), vec![oauth]);
    let oauth = LoginChoice::Oauth { preferred: false };
    assert_eq!(get_login_types(vec![LoginType::Token], OAUTH).unwrap(), vec![oauth]);
    let oauth = LoginChoice::Oauth { preferred: false };
    assert_eq!(
        get_login_types(vec![LoginType::Password], OAUTH).unwrap(),
        vec![LoginChoice::Password, oauth],
    );
}

#[test]
fn nothing_is_offered_where_nothing_is_supported() {
    assert_eq!(get_login_types(vec![], NO_OAUTH).unwrap(), vec![]);
    let flows = vec![LoginType::Token, LoginType::Other];
    assert_eq!(get_login_types(flows, NO_OAUTH).unwrap(), vec![]);
}

#[test]
fn failed_metadata_is_an_error() {
    let failed: Result<(), MetadataError<String>> =
        Err(MetadataError::Failed("no route".to_string()));
    assert_eq!(get_login_types(vec![LoginType::Password], failed), Err("no route".to_string()));
}

#[test]
fn sso_message_tells_where_to_go() {
    let url = "https://example.org/sso?x=1";
    assert_eq!(sso_message(url, true), "Go to the opened website to authenticate");
    assert_eq!(
        sso_message(url, false),
        "Navigate to https://example.org/sso?x=1 in a browser of choice",
    );
}

#[test]
fn unknown_user_has_a_message() {
    let error: AccountError<String> = AccountError::UserNotFound("@a:x".to_string());
    assert_eq!(error.message(), Some("User not found: @a:x".to_string()));
    let error: AccountError<String> = AccountError::UnexpectedReply;
    assert_eq!(error.message(), None);
}

#[test]
fn reply_that_is_no_answer_is_a_failure() {
    assert!(matches!(
        Reply::Failed("disk full".to_string()).into_failure(),
        AccountError::Outside(error) if error == "disk full"
    ));
    let reply: Reply<String> = Reply::Exists(true);
    assert!(matches!(reply.into_failure(), AccountError::UnexpectedReply));
}

#[test]
fn guard_of_a_new_account_removes_what_may_be_there() {
    let guard = AccountCreationGuard::new("a".to_string());
    assert_eq!(
        guard.cleanup(),
        vec![
            Request::RemoveFile(AccountFile::SecureTemp("a".to_string())),
            Request::RemoveFile(AccountFile::UsersTemp),
            Request::RemoveFile(AccountFile::BackupTemp),
            Request::RemoveFile(AccountFile::Secure("a".to_string())),
            Request::RemoveFolder(AccountFile::Store("a".to_string())),
        ]
    );
}

#[test]
fn guard_restores_the_backup_and_deletes_the_passphrase() {
    let mut guard = AccountCreationGuard::new("a".to_string());
    guard.backup_created = true;
    guard.keyring_created = true;
    let requests = guard.cleanup();
    assert_eq!(requests.len(), 7);
    assert_eq!(requests[5], Request::Rename(AccountFile::Backup, AccountFile::Users));
    assert_eq!(requests[6], Request::DeletePassphrase("a".to_string()));
}

#[test]
fn committed_guard_removes_temporary_files_only() {
    let mut guard = AccountCreationGuard::new("a".to_string());
    guard.backup_created = true;
    guard.keyring_created = true;
    guard.commit();
    assert!(guard.committed);
    assert_eq!(
        guard.cleanup(),
        vec![
            Request::RemoveFile(AccountFile::SecureTemp("a".to_string())),
            Request::RemoveFile(AccountFile::UsersTemp),
            Request::RemoveFile(AccountFile::BackupTemp),
        ]
    );
}

fn file(name: &str) -> FolderEntry {
    FolderEntry { name: name.as_bytes().to_vec(), is_folder: false, is_file: true }
}

fn folder(name: &str) -> FolderEntry {
    FolderEntry { name: name.as_bytes().to_vec(), is_folder: true, is_file: false }
}

fn credential(user: &str) -> Option<Credential> {
    Some(Credential { service: "meteorite".to_string(), user: user.to_string() })
}

#[test]
fn resources_are_collected_in_order() {
    let accounts = list(vec![account("a", "@a:x", true)]);
    let entries = vec![
        file("users.toml"),
        file("a.enc"),
        folder("a"),
        file("users.toml.backup"),
        FolderEntry { name: b"gone".to_vec(), is_folder: false, is_file: false },
    ];
    let resources = collect_resources(&accounts, &entries, &vec![None, credential("b")]);
    assert_eq!(
        resources,
        vec![
            AccountResource::User("a".to_string()),
            AccountResource::File("a".to_string(), 1),
            AccountResource::Folder("a".to_string(), 2),
            AccountResource::File("users".to_string(), 3),
            AccountResource::KeyringEntry("b".to_string()),
        ]
    );
}

#[test]
fn names_that_are_no_text_count_for_nothing() {
    let bad = vec![0xff, 0xfe];
    let mut bad_prefix = bad.clone();
    bad_prefix.extend_from_slice(b".enc");
    let mut bad_extension = b"a.".to_vec();
    bad_extension.push(0xff);
    let entries = vec![
        FolderEntry { name: bad.clone(), is_folder: true, is_file: false },
        FolderEntry { name: bad_prefix, is_folder: false, is_file: true },
        FolderEntry { name: bad_extension, is_folder: false, is_file: true },
    ];
    let resources = collect_resources(&list(vec![]), &entries, &vec![]);
    assert_eq!(resources, vec![AccountResource::File("a".to_string(), 2)]);
}

#[test]
fn whole_account_is_kept() {
    let accounts = list(vec![account("a", "@a:x", true)]);
    let entries = vec![file("users.toml"), folder("a"), file("a.enc")];
    let sweep = plan_sweep(&accounts, &entries, &vec![credential("a")]);
    assert_eq!(sweep.pending, vec![]);
    assert_eq!(sweep.kept, accounts);
}

#[test]
fn each_missing_part_makes_an_account_an_orphan() {
    let accounts = list(vec![account("a", "@a:x", true)]);
    let whole = vec![folder("a"), file("a.enc")];
    let sweep = plan_sweep(&list(vec![]), &whole, &vec![credential("a")]);
    assert_eq!(
        sweep.pending,
        vec![Leftover::Folder(0), Leftover::File(1), Leftover::KeyringEntry("a".to_string())]
    );
    let sweep = plan_sweep(&accounts, &vec![file("a.enc")], &vec![credential("a")]);
    assert_eq!(sweep.pending, vec![Leftover::File(0), Leftover::KeyringEntry("a".to_string())]);
    assert_eq!(sweep.kept, list(vec![]));
    let sweep = plan_sweep(&accounts, &vec![folder("a")], &vec![credential("a")]);
    assert_eq!(sweep.pending, vec![Leftover::Folder(0), Leftover::KeyringEntry("a".to_string())]);
    assert_eq!(sweep.kept, list(vec![]));
    let sweep = plan_sweep(&accounts, &whole, &vec![None]);
    assert_eq!(sweep.pending, vec![Leftover::Folder(0), Leftover::File(1)]);
    assert_eq!(sweep.kept, list(vec![]));
}

#[test]
fn files_that_belong_to_no_account_are_removed_but_not_the_list() {
    let accounts = list(vec![account("a", "@a:x", true)]);
    let entries = vec![
        file("users.toml"),
        file("users.tmp"),
        folder("a"),
        file("a.enc"),
        file("a.tmp"),
        file("notes.txt"),
    ];
    let sweep = plan_sweep(&accounts, &entries, &vec![credential("a")]);
    assert_eq!(sweep.pending, vec![Leftover::File(1), Leftover::File(5)]);
    assert_eq!(sweep.kept, accounts);
}
