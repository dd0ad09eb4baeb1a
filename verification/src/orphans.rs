//! Removing what is left of accounts that are not whole.
//!
//! An account is whole where it is listed, has its encrypted file and its store, and the keyring
//! holds its passphrase.

use crate::account::AccountData;
use crate::account::AccountList;
use crate::files::file_prefix;
use crate::files::strip_extensions;
use crate::files::text_of;
use crate::files::AccountFile;
use crate::request::Credential;
use crate::request::FolderEntry;
use crate::request::Progress;
use crate::request::Reply;
use crate::request::Request;
use vstd::hash_map::StringHashMap;
use vstd::prelude::*;
use vstd::string::*;
use vstd::utf8::*;

verus! {

/// The kinds of things that make up an account.
pub enum Kind {
    User,
    File,
    Folder,
    Keyring,
}

/// A part of an account: its kind, its name, and, for a file or a folder, its place in the
/// listing.
pub struct Resource {
    pub kind: Kind,
    pub name: Seq<char>,
    pub at: int,
}

/// A part of an account that was found.
#[derive(Debug, PartialEq, Eq)]
pub enum AccountResource {
    /// A folder of that name, and its place in the listing.
    Folder(String, usize),
    /// A file of that name but for its extensions, and its place in the listing.
    File(String, usize),
    KeyringEntry(String),
    User(String),
}

impl View for AccountResource {
    type V = Resource;

    open spec fn view(&self) -> Resource {
        match self {
            AccountResource::Folder(name, at) => Resource {
                kind: Kind::Folder,
                name: name@,
                at: *at as int,
            },
            AccountResource::File(name, at) => Resource {
                kind: Kind::File,
                name: name@,
                at: *at as int,
            },
            AccountResource::KeyringEntry(name) => Resource {
                kind: Kind::Keyring,
                name: name@,
                at: 0,
            },
            AccountResource::User(name) => Resource { kind: Kind::User, name: name@, at: 0 },
        }
    }
}

/// The parts of accounts that stand for `resources`.
pub open spec fn viewed(resources: Seq<AccountResource>) -> Seq<Resource> {
    resources.map_values(|r: AccountResource| r@)
}

/// What an entry of the folder is a part of, at the place `at` in the listing: a folder counts by
/// its name, a file but the list of accounts by its name without extensions. A name that is no
/// text counts for nothing.
pub open spec fn parts_of_entry(entry: FolderEntry, at: int) -> Seq<Resource> {
    let name = entry.name@;
    let folder = if entry.is_folder && valid_utf8(name) {
        seq![Resource { kind: Kind::Folder, name: decode_utf8(name), at }]
    } else {
        seq![]
    };
    let file = if entry.is_file && name != encode_utf8(AccountFile::Users.name()) && valid_utf8(
        file_prefix(name),
    ) {
        seq![Resource { kind: Kind::File, name: decode_utf8(file_prefix(name)), at }]
    } else {
        seq![]
    };
    folder + file
}

/// What the entries of the folder are parts of.
pub open spec fn parts_of_folder(entries: Seq<FolderEntry>) -> Seq<Resource>
    decreases entries.len(),
{
    if entries.len() == 0 {
        seq![]
    } else {
        parts_of_folder(entries.drop_last()) + parts_of_entry(entries.last(), entries.len() - 1)
    }
}

/// What the entries of the keyring are parts of.
pub open spec fn parts_of_keyring(credentials: Seq<Option<Credential>>) -> Seq<Resource>
    decreases credentials.len(),
{
    if credentials.len() == 0 {
        seq![]
    } else {
        let before = parts_of_keyring(credentials.drop_last());
        match credentials.last() {
            Some(credential) => before.push(
                Resource { kind: Kind::Keyring, name: credential.user@, at: 0 },
            ),
            None => before,
        }
    }
}

/// All parts of accounts that there are.
pub open spec fn parts(
    accounts: Seq<AccountData>,
    entries: Seq<FolderEntry>,
    credentials: Seq<Option<Credential>>,
) -> Seq<Resource> {
    accounts.map_values(|a: AccountData| Resource { kind: Kind::User, name: a.id@, at: 0 })
        + parts_of_folder(entries) + parts_of_keyring(credentials)
}

/// Whether the account `name` has a part of that kind.
pub open spec fn has_part(parts: Seq<Resource>, kind: Kind, name: Seq<char>) -> bool {
    exists|i: int|
        0 <= i < parts.len() && (#[trigger] parts[i]).kind == kind && parts[i].name == name
}

/// Whether the account `name` has all its parts.
pub open spec fn whole(parts: Seq<Resource>, name: Seq<char>) -> bool {
    &&& has_part(parts, Kind::User, name)
    &&& has_part(parts, Kind::File, name)
    &&& has_part(parts, Kind::Folder, name)
    &&& has_part(parts, Kind::Keyring, name)
}

/// Picks the parts, outside the list of accounts, of accounts that are not whole.
pub open spec fn is_leftover(parts: Seq<Resource>) -> spec_fn(Resource) -> bool {
    |part: Resource| part.kind != Kind::User && !whole(parts, part.name)
}

/// The parts, outside the list of accounts, of accounts that are not whole.
pub open spec fn leftovers(parts: Seq<Resource>) -> Seq<Resource> {
    parts.filter(is_leftover(parts))
}

/// Picks the accounts that are whole.
pub open spec fn has_all_parts(parts: Seq<Resource>) -> spec_fn(AccountData) -> bool {
    |a: AccountData| whole(parts, a.id@)
}

/// The accounts that are whole.
pub open spec fn whole_accounts(
    accounts: Seq<AccountData>,
    parts: Seq<Resource>,
) -> Seq<AccountData> {
    accounts.filter(has_all_parts(parts))
}

const USER: u8 = 1;

const FILE: u8 = 2;

const FOLDER: u8 = 4;

const KEYRING: u8 = 8;

const ALL: u8 = 15;

/// A set of kinds as bits, one for each.
spec fn mask(user: bool, file: bool, folder: bool, keyring: bool) -> u8 {
    (if user { 1u8 } else { 0u8 }) | (if file { 2u8 } else { 0u8 }) | (if folder { 4u8 } else {
        0u8
    }) | (if keyring { 8u8 } else { 0u8 })
}

/// The kinds of parts that the account `name` has.
spec fn kinds(parts: Seq<Resource>, name: Seq<char>) -> u8 {
    mask(
        has_part(parts, Kind::User, name),
        has_part(parts, Kind::File, name),
        has_part(parts, Kind::Folder, name),
        has_part(parts, Kind::Keyring, name),
    )
}

/// The bit of a kind.
spec fn bit(kind: Kind) -> u8 {
    match kind {
        Kind::User => USER,
        Kind::File => FILE,
        Kind::Folder => FOLDER,
        Kind::Keyring => KEYRING,
    }
}

proof fn lemma_mask(user: bool, file: bool, folder: bool, keyring: bool)
    ensures
        mask(user, file, folder, keyring) | USER == mask(true, file, folder, keyring),
        mask(user, file, folder, keyring) | FILE == mask(user, true, folder, keyring),
        mask(user, file, folder, keyring) | FOLDER == mask(user, file, true, keyring),
        mask(user, file, folder, keyring) | KEYRING == mask(user, file, folder, true),
        mask(user, file, folder, keyring) == ALL <==> user && file && folder && keyring,
        mask(false, false, false, false) == 0,
{
    assert(mask(user, file, folder, keyring) | 1u8 == mask(true, file, folder, keyring))
        by (bit_vector);
    assert(mask(user, file, folder, keyring) | 2u8 == mask(user, true, folder, keyring))
        by (bit_vector);
    assert(mask(user, file, folder, keyring) | 4u8 == mask(user, file, true, keyring))
        by (bit_vector);
    assert(mask(user, file, folder, keyring) | 8u8 == mask(user, file, folder, true))
        by (bit_vector);
    assert(mask(user, file, folder, keyring) == 15u8 <==> user && file && folder && keyring)
        by (bit_vector);
    assert(mask(false, false, false, false) == 0u8) by (bit_vector);
}

/// One more part adds its kind to its account and leaves the others.
proof fn lemma_kinds_push(parts: Seq<Resource>, part: Resource, name: Seq<char>)
    ensures
        name == part.name ==> kinds(parts.push(part), name) == kinds(parts, name) | bit(part.kind),
        name != part.name ==> kinds(parts.push(part), name) == kinds(parts, name),
{
    let more = parts.push(part);
    assert forall|kind: Kind|
        #![auto]
        has_part(more, kind, name) == (has_part(parts, kind, name) || (part.kind == kind
            && part.name == name)) by {
        if has_part(parts, kind, name) {
            let i = choose|i: int|
                0 <= i < parts.len() && (#[trigger] parts[i]).kind == kind && parts[i].name == name;
            assert(more[i] == parts[i]);
        }
        if part.kind == kind && part.name == name {
            assert(more[parts.len() as int] == part);
        }
        if has_part(more, kind, name) {
            let i = choose|i: int|
                0 <= i < more.len() && (#[trigger] more[i]).kind == kind && more[i].name == name;
            if i < parts.len() {
                assert(parts[i] == more[i]);
            }
        }
    }
    lemma_mask(
        has_part(parts, Kind::User, name),
        has_part(parts, Kind::File, name),
        has_part(parts, Kind::Folder, name),
        has_part(parts, Kind::Keyring, name),
    );
}

/// Notes for each name which kinds of parts it has, as bits.
fn kinds_seen(resources: &Vec<AccountResource>) -> (seen: StringHashMap<u8>)
    ensures
        forall|i: int|
            0 <= i < resources@.len() ==> seen@.contains_key((#[trigger] resources@[i])@.name),
        forall|name: Seq<char>| #[trigger]
            seen@.contains_key(name) ==> seen@[name] == kinds(viewed(resources@), name),
{
    let mut seen: StringHashMap<u8> = StringHashMap::new();
    let mut at: usize = 0;
    proof {
        lemma_mask(false, false, false, false);
    }
    while at < resources.len()
        invariant
            at <= resources@.len(),
            forall|i: int| 0 <= i < at ==> seen@.contains_key((#[trigger] resources@[i])@.name),
            forall|name: Seq<char>| #[trigger]
                seen@.contains_key(name) ==> seen@[name] == kinds(
                    viewed(resources@.take(at as int)),
                    name,
                ),
            forall|name: Seq<char>|
                !#[trigger] seen@.contains_key(name) ==> kinds(
                    viewed(resources@.take(at as int)),
                    name,
                ) == 0,
        decreases resources@.len() - at,
    {
        let ghost before = viewed(resources@.take(at as int));
        let resource = &resources[at];
        let (name, kind_bit): (&String, u8) = match resource {
            AccountResource::User(name) => (name, USER),
            AccountResource::File(name, _) => (name, FILE),
            AccountResource::Folder(name, _) => (name, FOLDER),
            AccountResource::KeyringEntry(name) => (name, KEYRING),
        };
        let old_bits: u8 = match seen.get(name.as_str()) {
            Some(bits) => *bits,
            None => 0,
        };
        seen.insert(name.clone(), old_bits | kind_bit);
        proof {
            let part = resource@;
            assert(viewed(resources@.take(at + 1)) =~= before.push(part));
            assert(kinds(before, part.name) == old_bits);
            assert forall|other: Seq<char>|
                seen@.contains_key(other) implies #[trigger] seen@[other] == kinds(
                before.push(part),
                other,
            ) by {
                lemma_kinds_push(before, part, other);
            }
            assert forall|other: Seq<char>|
                !#[trigger] seen@.contains_key(other) implies kinds(before.push(part), other)
                == 0 by {
                lemma_kinds_push(before, part, other);
            }
        }
        at = at + 1;
    }
    proof {
        assert(resources@.take(at as int) =~= resources@);
    }
    seen
}

/// The part of an account that a listed folder is.
fn folder_part(entry: &FolderEntry, at: usize) -> (part: Option<AccountResource>)
    ensures
        match part {
            Some(part) => entry.is_folder && valid_utf8(entry.name@) && part@ == (Resource {
                kind: Kind::Folder,
                name: decode_utf8(entry.name@),
                at: at as int,
            }),
            None => !(entry.is_folder && valid_utf8(entry.name@)),
        },
{
    if entry.is_folder {
        match text_of(entry.name.clone()) {
            Some(name) => Some(AccountResource::Folder(name, at)),
            None => None,
        }
    } else {
        None
    }
}

/// Whether a listed entry has the name of the list of accounts.
fn is_list_of_accounts(entry: &FolderEntry) -> (is_list: bool)
    ensures
        is_list == (entry.name@ == encode_utf8(AccountFile::Users.name())),
{
    let users: Vec<u8> = AccountFile::Users.file_name().as_str().as_bytes_vec();
    if entry.name.len() != users.len() {
        return false;
    }
    let mut at: usize = 0;
    while at < users.len()
        invariant
            at <= users@.len(),
            users@ == encode_utf8(AccountFile::Users.name()),
            users@.len() == entry.name@.len(),
            forall|i: int| 0 <= i < at ==> entry.name@[i] == users@[i],
        decreases users@.len() - at,
    {
        if entry.name[at] != users[at] {
            return false;
        }
        at = at + 1;
    }
    assert(entry.name@ =~= users@);
    true
}

/// The part of an account that a listed file is.
fn file_part(entry: &FolderEntry, at: usize) -> (part: Option<AccountResource>)
    ensures
        ({
            let counts = entry.is_file && entry.name@ != encode_utf8(AccountFile::Users.name())
                && valid_utf8(file_prefix(entry.name@));
            match part {
                Some(part) => counts && part@ == (Resource {
                    kind: Kind::File,
                    name: decode_utf8(file_prefix(entry.name@)),
                    at: at as int,
                }),
                None => !counts,
            }
        }),
{
    if entry.is_file && !is_list_of_accounts(entry) {
        let mut name = entry.name.clone();
        strip_extensions(&mut name);
        match text_of(name) {
            Some(name) => Some(AccountResource::File(name, at)),
            None => None,
        }
    } else {
        None
    }
}

/// Collects all parts of accounts: the accounts listed, the entries of the folder, the entries
/// of the keyring.
pub fn collect_resources(
    accounts: &AccountList,
    entries: &Vec<FolderEntry>,
    credentials: &Vec<Option<Credential>>,
) -> (resources: Vec<AccountResource>)
    ensures
        viewed(resources@) == parts(accounts@, entries@, credentials@),
{
    let mut resources: Vec<AccountResource> = Vec::new();
    let ghost as_part = |a: AccountData| Resource { kind: Kind::User, name: a.id@, at: 0 };
    let mut at: usize = 0;
    while at < accounts.accounts.len()
        invariant
            at <= accounts@.len(),
            as_part == (|a: AccountData| Resource { kind: Kind::User, name: a.id@, at: 0 }),
            viewed(resources@) == accounts@.take(at as int).map_values(as_part),
        decreases accounts@.len() - at,
    {
        let ghost before = viewed(resources@);
        resources.push(AccountResource::User(accounts.accounts[at].id.clone()));
        at = at + 1;
        proof {
            assert(viewed(resources@) =~= before.push(as_part(accounts@[at - 1])));
            assert(accounts@.take(at as int) =~= accounts@.take(at - 1).push(accounts@[at - 1]));
            assert(viewed(resources@) =~= accounts@.take(at as int).map_values(as_part));
        }
    }
    let ghost users = viewed(resources@);
    assert(users =~= accounts@.map_values(as_part));
    let mut at: usize = 0;
    while at < entries.len()
        invariant
            at <= entries@.len(),
            viewed(resources@) == users + parts_of_folder(entries@.take(at as int)),
        decreases entries@.len() - at,
    {
        let ghost before = viewed(resources@);
        if let Some(part) = folder_part(&entries[at], at) {
            resources.push(part);
        }
        if let Some(part) = file_part(&entries[at], at) {
            resources.push(part);
        }
        proof {
            let taken = entries@.take(at + 1);
            assert(taken.drop_last() =~= entries@.take(at as int));
            assert(taken.last() == entries@[at as int]);
            assert(viewed(resources@) =~= before + parts_of_entry(entries@[at as int], at as int));
            assert(viewed(resources@) =~= users + parts_of_folder(taken));
        }
        at = at + 1;
    }
    assert(entries@.take(at as int) =~= entries@);
    let ghost listed = viewed(resources@);
    let mut at: usize = 0;
    while at < credentials.len()
        invariant
            at <= credentials@.len(),
            viewed(resources@) == listed + parts_of_keyring(credentials@.take(at as int)),
        decreases credentials@.len() - at,
    {
        let ghost before = viewed(resources@);
        if let Some(credential) = &credentials[at] {
            resources.push(AccountResource::KeyringEntry(credential.user.clone()));
        }
        proof {
            let taken = credentials@.take(at + 1);
            assert(taken.drop_last() =~= credentials@.take(at as int));
            assert(taken.last() == credentials@[at as int]);
            if let Some(credential) = credentials@[at as int] {
                assert(viewed(resources@) =~= before.push(
                    Resource { kind: Kind::Keyring, name: credential.user@, at: 0 },
                ));
            }
            assert(viewed(resources@) =~= listed + parts_of_keyring(taken));
        }
        at = at + 1;
    }
    assert(credentials@.take(at as int) =~= credentials@);
    resources
}

/// Something that is to be removed: a folder or a file by its place in the listing, an entry of
/// the keyring by its name.
#[derive(Debug, PartialEq, Eq)]
pub enum Leftover {
    Folder(usize),
    File(usize),
    KeyringEntry(String),
}

/// Whether `leftover` is that part of an account.
pub open spec fn is_part(leftover: Leftover, part: Resource) -> bool {
    match leftover {
        Leftover::Folder(at) => part.kind == Kind::Folder && part.at == at,
        Leftover::File(at) => part.kind == Kind::File && part.at == at,
        Leftover::KeyringEntry(name) => part.kind == Kind::Keyring && part.name == name@,
    }
}

/// What a sweep is still to remove, and the accounts that it keeps.
#[derive(Debug, PartialEq, Eq)]
pub struct Sweep {
    pub pending: Vec<Leftover>,
    pub kept: AccountList,
}

/// Whether `sweep` removes the leftovers among `parts`, each of them once and in their order, and
/// keeps the accounts that are whole.
pub open spec fn sweeps(
    accounts: Seq<AccountData>,
    parts: Seq<Resource>,
    sweep: Sweep,
) -> bool {
    &&& sweep.kept@ == whole_accounts(accounts, parts)
    &&& sweep.pending@.len() == leftovers(parts).len()
    &&& forall|i: int|
        0 <= i < sweep.pending@.len() ==> is_part(
            #[trigger] sweep.pending@[i],
            leftovers(parts)[i],
        )
}

/// Whether `seen` has all kinds of parts for `name`.
fn is_whole(seen: &StringHashMap<u8>, name: &str, Ghost(parts): Ghost<Seq<Resource>>) -> (all: bool)
    requires
        seen@.contains_key(name@),
        seen@[name@] == kinds(parts, name@),
    ensures
        all == whole(parts, name@),
{
    proof {
        lemma_mask(
            has_part(parts, Kind::User, name@),
            has_part(parts, Kind::File, name@),
            has_part(parts, Kind::Folder, name@),
            has_part(parts, Kind::Keyring, name@),
        );
    }
    match seen.get(name) {
        Some(bits) => *bits == ALL,
        None => false,
    }
}

/// Finds what is to be removed and which accounts stay.
pub fn plan_sweep(
    accounts: &AccountList,
    entries: &Vec<FolderEntry>,
    credentials: &Vec<Option<Credential>>,
) -> (sweep: Sweep)
    ensures
        sweeps(accounts@, parts(accounts@, entries@, credentials@), sweep),
{
    let resources = collect_resources(accounts, entries, credentials);
    let seen = kinds_seen(&resources);
    let ghost all = parts(accounts@, entries@, credentials@);
    let ghost left = is_leftover(all);
    let mut pending: Vec<Leftover> = Vec::new();
    let mut at: usize = 0;
    proof {
        reveal(Seq::filter);
        assert(all.take(0).filter(left) =~= seq![]);
    }
    while at < resources.len()
        invariant
            at <= resources@.len(),
            viewed(resources@) == all,
            left == is_leftover(all),
            forall|i: int|
                0 <= i < resources@.len() ==> seen@.contains_key((#[trigger] resources@[i])@.name),
            forall|name: Seq<char>| #[trigger]
                seen@.contains_key(name) ==> seen@[name] == kinds(all, name),
            pending@.len() == all.take(at as int).filter(left).len(),
            forall|i: int|
                0 <= i < pending@.len() ==> is_part(
                    #[trigger] pending@[i],
                    all.take(at as int).filter(left)[i],
                ),
        decreases resources@.len() - at,
    {
        let resource = &resources[at];
        proof {
            assert(all[at as int] == resource@);
            assert(all.take(at + 1) =~= all.take(at as int).push(resource@));
            all.take(at as int).lemma_filter_push(resource@, left);
        }
        match resource {
            AccountResource::User(_) => {},
            AccountResource::File(name, place) => {
                if !is_whole(&seen, name.as_str(), Ghost(all)) {
                    pending.push(Leftover::File(*place));
                }
            },
            AccountResource::Folder(name, place) => {
                if !is_whole(&seen, name.as_str(), Ghost(all)) {
                    pending.push(Leftover::Folder(*place));
                }
            },
            AccountResource::KeyringEntry(name) => {
                if !is_whole(&seen, name.as_str(), Ghost(all)) {
                    pending.push(Leftover::KeyringEntry(name.clone()));
                }
            },
        }
        at = at + 1;
    }
    proof {
        assert(all.take(at as int) =~= all);
    }
    let mut kept: Vec<AccountData> = Vec::new();
    let ghost stays = has_all_parts(all);
    let mut at: usize = 0;
    proof {
        reveal(Seq::filter);
        assert(accounts@.take(0).filter(stays) =~= seq![]);
    }
    while at < accounts.accounts.len()
        invariant
            at <= accounts@.len(),
            viewed(resources@) == all,
            all == parts(accounts@, entries@, credentials@),
            stays == has_all_parts(all),
            forall|i: int|
                0 <= i < resources@.len() ==> seen@.contains_key((#[trigger] resources@[i])@.name),
            forall|name: Seq<char>| #[trigger]
                seen@.contains_key(name) ==> seen@[name] == kinds(all, name),
            kept@ == accounts@.take(at as int).filter(stays),
        decreases accounts@.len() - at,
    {
        let account = &accounts.accounts[at];
        proof {
            let users = accounts@.map_values(
                |a: AccountData| Resource { kind: Kind::User, name: a.id@, at: 0 },
            );
            assert(all.len() >= users.len());
            assert(all[at as int] == users[at as int]);
            assert(viewed(resources@).len() == resources@.len());
            assert(all[at as int] == viewed(resources@)[at as int]);
            assert(resources@[at as int]@.name == account.id@);
            assert(accounts@.take(at + 1) =~= accounts@.take(at as int).push(*account));
            accounts@.take(at as int).lemma_filter_push(*account, stays);
        }
        if is_whole(&seen, account.id.as_str(), Ghost(all)) {
            kept.push(account.clone());
        }
        at = at + 1;
    }
    proof {
        assert(accounts@.take(at as int) =~= accounts@);
    }
    Sweep { pending, kept: AccountList { accounts: kept } }
}

/// How far a sweep has come.
#[derive(Debug, PartialEq, Eq)]
pub enum RemoveOrphanedAccounts {
    ReadingAccounts,
    ListingFolder { accounts: AccountList },
    ListingKeyring { accounts: AccountList, entries: Vec<FolderEntry> },
    Removing { sweep: Sweep },
    OpeningKeyring { name: String, sweep: Sweep },
    EncodingAccounts,
    WritingAccounts,
}

/// A sweep, under way.
pub type Sweeping = Progress<RemoveOrphanedAccounts, Request, ()>;

/// Begins to remove what is left of accounts that are not whole.
///
/// Where there is no list of accounts, or not everything can be listed, nothing is removed.
pub fn remove_orphaned_accounts() -> (out: Sweeping)
    ensures
        out == begun_sweep(),
{
    Progress::Ask {
        state: RemoveOrphanedAccounts::ReadingAccounts,
        request: Request::ReadAccounts,
    }
}

/// A sweep, at its begin.
pub open spec fn begun_sweep() -> Sweeping {
    Progress::Ask {
        state: RemoveOrphanedAccounts::ReadingAccounts,
        request: Request::ReadAccounts,
    }
}

/// Goes on with the next removal, or, after the last, with the list of the accounts kept.
pub fn sweep_on(sweep: Sweep) -> (out: Sweeping)
    ensures
        sweeps_on(sweep, out),
{
    let Sweep { mut pending, kept } = sweep;
    if pending.len() == 0 {
        return Progress::Ask {
            state: RemoveOrphanedAccounts::EncodingAccounts,
            request: Request::EncodeAccounts(kept),
        };
    }
    let first = pending.remove(0);
    assert(pending@ =~= sweep.pending@.skip(1));
    let rest = Sweep { pending, kept };
    match first {
        Leftover::Folder(at) => Progress::Ask {
            state: RemoveOrphanedAccounts::Removing { sweep: rest },
            request: Request::RemoveListedFolder(at),
        },
        Leftover::File(at) => Progress::Ask {
            state: RemoveOrphanedAccounts::Removing { sweep: rest },
            request: Request::RemoveListedFile(at),
        },
        Leftover::KeyringEntry(name) => {
            let request = Request::OpenKeyring(name.clone());
            Progress::Ask {
                state: RemoveOrphanedAccounts::OpeningKeyring { name, sweep: rest },
                request,
            }
        },
    }
}

/// Whether `rest` is `sweep` without its first removal.
pub open spec fn is_rest(sweep: Sweep, rest: Sweep) -> bool {
    &&& rest.pending@ == sweep.pending@.skip(1)
    &&& rest.kept == sweep.kept
}

/// Whether `out` asks for the next removal, or, after the last, for the list of accounts.
pub open spec fn sweeps_on(sweep: Sweep, out: Sweeping) -> bool {
    if sweep.pending@.len() == 0 {
        out == Sweeping::Ask {
            state: RemoveOrphanedAccounts::EncodingAccounts,
            request: Request::EncodeAccounts(sweep.kept),
        }
    } else {
        match sweep.pending@[0] {
            Leftover::Folder(at) => {
                &&& out matches Progress::Ask {
                    state: RemoveOrphanedAccounts::Removing { sweep: rest },
                    request,
                }
                &&& is_rest(sweep, rest)
                &&& request == Request::RemoveListedFolder(at)
            },
            Leftover::File(at) => {
                &&& out matches Progress::Ask {
                    state: RemoveOrphanedAccounts::Removing { sweep: rest },
                    request,
                }
                &&& is_rest(sweep, rest)
                &&& request == Request::RemoveListedFile(at)
            },
            Leftover::KeyringEntry(name) => {
                &&& out matches Progress::Ask {
                    state: RemoveOrphanedAccounts::OpeningKeyring { name: name_now, sweep: rest },
                    request,
                }
                &&& name_now == name
                &&& is_rest(sweep, rest)
                &&& request == Request::OpenKeyring(name)
            },
        }
    }
}

/// Whether `out` is how a sweep goes on from `state` with `reply`.
pub open spec fn sweep_step<E>(
    state: RemoveOrphanedAccounts,
    reply: Reply<E>,
    out: Sweeping,
) -> bool {
    let stopped = Sweeping::Finished(());
    match state {
        RemoveOrphanedAccounts::ReadingAccounts => match reply {
            Reply::Accounts(Some(accounts)) => out == Sweeping::Ask {
                state: RemoveOrphanedAccounts::ListingFolder { accounts },
                request: Request::ListFolder,
            },
            _ => out == stopped,
        },
        RemoveOrphanedAccounts::ListingFolder { accounts } => match reply {
            Reply::Entries(entries) => out == Sweeping::Ask {
                state: RemoveOrphanedAccounts::ListingKeyring { accounts, entries },
                request: Request::ListKeyring,
            },
            _ => out == stopped,
        },
        RemoveOrphanedAccounts::ListingKeyring { accounts, entries } => match reply {
            Reply::Credentials(credentials) => exists|sweep: Sweep|
                sweeps(accounts@, parts(accounts@, entries@, credentials@), sweep)
                    && #[trigger] sweeps_on(sweep, out),
            _ => out == stopped,
        },
        RemoveOrphanedAccounts::Removing { sweep } => sweeps_on(sweep, out),
        RemoveOrphanedAccounts::OpeningKeyring { name, sweep } => match reply {
            Reply::Done => out == Sweeping::Ask {
                state: RemoveOrphanedAccounts::Removing { sweep },
                request: Request::DeletePassphrase(name),
            },
            _ => out == stopped,
        },
        RemoveOrphanedAccounts::EncodingAccounts => match reply {
            Reply::Bytes(users) => out == Sweeping::Ask {
                state: RemoveOrphanedAccounts::WritingAccounts,
                request: Request::WriteFile(AccountFile::Users, users),
            },
            _ => out == stopped,
        },
        RemoveOrphanedAccounts::WritingAccounts => out == stopped,
    }
}

impl RemoveOrphanedAccounts {
    /// Goes on with the answer to the last request.
    pub fn resume<E>(self, reply: Reply<E>) -> (out: Sweeping)
        ensures
            sweep_step(self, reply, out),
    {
        match self {
            RemoveOrphanedAccounts::ReadingAccounts => match reply {
                Reply::Accounts(Some(accounts)) => Progress::Ask {
                    state: RemoveOrphanedAccounts::ListingFolder { accounts },
                    request: Request::ListFolder,
                },
                _ => Progress::Finished(()),
            },
            RemoveOrphanedAccounts::ListingFolder { accounts } => match reply {
                Reply::Entries(entries) => Progress::Ask {
                    state: RemoveOrphanedAccounts::ListingKeyring { accounts, entries },
                    request: Request::ListKeyring,
                },
                _ => Progress::Finished(()),
            },
            RemoveOrphanedAccounts::ListingKeyring { accounts, entries } => match reply {
                Reply::Credentials(credentials) => {
                    let sweep = plan_sweep(&accounts, &entries, &credentials);
                    sweep_on(sweep)
                },
                _ => Progress::Finished(()),
            },
            RemoveOrphanedAccounts::Removing { sweep } => sweep_on(sweep),
            RemoveOrphanedAccounts::OpeningKeyring { name, sweep } => match reply {
                Reply::Done => Progress::Ask {
                    state: RemoveOrphanedAccounts::Removing { sweep },
                    request: Request::DeletePassphrase(name),
                },
                _ => Progress::Finished(()),
            },
            RemoveOrphanedAccounts::EncodingAccounts => match reply {
                Reply::Bytes(users) => Progress::Ask {
                    state: RemoveOrphanedAccounts::WritingAccounts,
                    request: Request::WriteFile(AccountFile::Users, users),
                },
                _ => Progress::Finished(()),
            },
            RemoveOrphanedAccounts::WritingAccounts => Progress::Finished(()),
        }
    }
}

} // verus!
