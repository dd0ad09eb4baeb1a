//! What holds of a sweep, however the requests turn out.

use crate::account::added_to;
use crate::account::AccountData;
use crate::account::SecureAccountData;
use crate::account_laws::law_encrypted_file_tells_its_account;
use crate::account_laws::lemma_all_kept;
use crate::account_laws::names_no_extension;
use crate::files::alphanumeric;
use crate::files::file_prefix;
use crate::files::is_credential;
use crate::files::AccountFile;
use crate::orphans::begun_sweep;
use crate::orphans::has_all_parts;
use crate::orphans::has_part;
use crate::orphans::is_leftover;
use crate::orphans::is_part;
use crate::orphans::leftovers;
use crate::orphans::parts;
use crate::orphans::parts_of_entry;
use crate::orphans::parts_of_folder;
use crate::orphans::parts_of_keyring;
use crate::orphans::sweep_step;
use crate::orphans::sweeps;
use crate::orphans::sweeps_on;
use crate::orphans::whole;
use crate::orphans::Kind;
use crate::orphans::Leftover;
use crate::orphans::RemoveOrphanedAccounts;
use crate::orphans::Resource;
use crate::orphans::Sweep;
use crate::orphans::Sweeping;
use crate::request::AccountError;
use crate::request::Credential;
use crate::request::FolderEntry;
use crate::request::Progress;
use crate::request::Reply;
use crate::request::Request;
use crate::save::NewAccount;
use crate::save::SaveNewAccount;
use crate::save_laws::is_save_run;
use crate::save_laws::keeps_secure_data;
use crate::save_laws::kept;
use crate::save_laws::law_save_keeps_the_account;
use crate::world::accounts_of;
use crate::world::is_run;
use crate::world::key;
use crate::world::lemma_but_for_file;
use crate::world::performs;
use crate::world::same_file;
use crate::world::shows;
use crate::world::shows_keyring;
use crate::world::unhindered;
use crate::world::Format;
use crate::world::Run;
use crate::world::World;
use vstd::prelude::*;
use vstd::utf8::*;

verus! {

/// The account that a file counts for: the one that its name without extensions names. The list
/// of accounts counts for none, nor does a file with a name that is no text.
pub open spec fn file_account(file: Seq<u8>) -> Option<Seq<char>> {
    if file != key(AccountFile::Users) && valid_utf8(file_prefix(file)) {
        Some(decode_utf8(file_prefix(file)))
    } else {
        None
    }
}

/// The account that a folder counts for: the one that it is named for.
pub open spec fn folder_account(folder: Seq<u8>) -> Option<Seq<char>> {
    if valid_utf8(folder) {
        Some(decode_utf8(folder))
    } else {
        None
    }
}

/// Whether the encrypted file of the account kept under `id` counts for that account.
pub open spec fn file_counts_for(id: String) -> bool {
    file_account(key(AccountFile::Secure(id))) == Some(id@)
}

/// Whether an account is listed under `id`.
pub open spec fn is_listed(accounts: Seq<AccountData>, id: Seq<char>) -> bool {
    exists|i: int| 0 <= i < accounts.len() && (#[trigger] accounts[i]).id@ == id
}

/// Whether some file counts for the account.
pub open spec fn has_file(world: World, id: Seq<char>) -> bool {
    exists|file: Seq<u8>| #[trigger]
        world.files.contains_key(file) && file_account(file) == Some(id)
}

/// Whether the account is whole: listed, and with a file, a folder and an entry in the keyring.
pub open spec fn stands_whole(accounts: Seq<AccountData>, world: World, id: Seq<char>) -> bool {
    &&& is_listed(accounts, id)
    &&& has_file(world, id)
    &&& world.folders.contains(encode_utf8(id))
    &&& world.keyring.contains_key(id)
}

/// Picks the accounts that are whole.
pub open spec fn standing(
    accounts: Seq<AccountData>,
    world: World,
) -> spec_fn(AccountData) -> bool {
    |a: AccountData| stands_whole(accounts, world, a.id@)
}

/// Whether something that counts for `account` is part of an account that is not whole.
pub open spec fn orphaned(
    accounts: Seq<AccountData>,
    world: World,
    account: Option<Seq<char>>,
) -> bool {
    account matches Some(id) && !stands_whole(accounts, world, id)
}

/// Whether `now` and `then` have the same passphrase for the account.
pub open spec fn same_passphrase(now: World, then: World, id: Seq<char>) -> bool {
    &&& now.keyring.contains_key(id) <==> then.keyring.contains_key(id)
    &&& now.keyring.contains_key(id) ==> now.keyring[id] == then.keyring[id]
}

/// Whether all is as it was at `start` but for parts of accounts that are not whole, and the list
/// of accounts.
pub open spec fn spares_whole_accounts(
    accounts: Seq<AccountData>,
    start: World,
    world: World,
) -> bool {
    &&& forall|file: Seq<u8>|
        file != key(AccountFile::Users) && !orphaned(accounts, start, file_account(file))
            ==> #[trigger] same_file(world, start, file)
    &&& forall|folder: Seq<u8>|
        !orphaned(accounts, start, folder_account(folder)) ==> (
        #[trigger] world.folders.contains(folder) <==> start.folders.contains(folder))
    &&& forall|id: Seq<char>| #[trigger]
        stands_whole(accounts, start, id) ==> same_passphrase(world, start, id)
}

/// Whether nothing is there that was not there at `start`, and all that is there is as it was,
/// but for the list of accounts.
pub open spec fn only_removes(start: World, world: World) -> bool {
    &&& forall|file: Seq<u8>| #[trigger]
        world.files.contains_key(file) && file != key(AccountFile::Users)
            ==> start.files.contains_key(file) && world.files[file] == start.files[file]
    &&& forall|folder: Seq<u8>| #[trigger]
        world.folders.contains(folder) ==> start.folders.contains(folder)
    &&& forall|id: Seq<char>| #[trigger]
        world.keyring.contains_key(id) ==> start.keyring.contains_key(id) && world.keyring[id]
            == start.keyring[id]
}

/// Whether all that is there belongs to accounts that are whole, and these are the accounts
/// listed.
pub open spec fn all_whole(accounts: Seq<AccountData>, world: World) -> bool {
    &&& forall|file: Seq<u8>| #[trigger]
        world.files.contains_key(file) ==> !orphaned(accounts, world, file_account(file))
    &&& forall|folder: Seq<u8>| #[trigger]
        world.folders.contains(folder) ==> !orphaned(accounts, world, folder_account(folder))
    &&& forall|id: Seq<char>| #[trigger]
        world.keyring.contains_key(id) ==> stands_whole(accounts, world, id)
    &&& forall|i: int|
        0 <= i < accounts.len() ==> stands_whole(accounts, world, (#[trigger] accounts[i]).id@)
}

/// Whether `part` is what an entry of the folder is a part of.
spec fn is_folder_part(entries: Seq<FolderEntry>, part: Resource) -> bool {
    &&& 0 <= part.at < entries.len()
    &&& {
        let entry = entries[part.at];
        ||| part.kind == Kind::Folder && entry.is_folder && folder_account(entry.name@) == Some(
            part.name,
        )
        ||| part.kind == Kind::File && entry.is_file && file_account(entry.name@) == Some(part.name)
    }
}

proof fn lemma_parts_of_folder(entries: Seq<FolderEntry>, part: Resource)
    ensures
        parts_of_folder(entries).contains(part) <==> is_folder_part(entries, part),
    decreases entries.len(),
{
    if entries.len() > 0 {
        let before = entries.drop_last();
        let last = parts_of_entry(entries.last(), entries.len() - 1);
        lemma_parts_of_folder(before, part);
        let all = parts_of_folder(before) + last;
        assert(all.contains(part) <==> parts_of_folder(before).contains(part) || last.contains(
            part,
        )) by {
            lemma_contains_in_sum(parts_of_folder(before), last, part);
        }
        let entry = entries.last();
        let folder = Resource {
            kind: Kind::Folder,
            name: decode_utf8(entry.name@),
            at: entries.len() - 1,
        };
        let file = Resource {
            kind: Kind::File,
            name: decode_utf8(file_prefix(entry.name@)),
            at: entries.len() - 1,
        };
        let counts_as_folder = entry.is_folder && valid_utf8(entry.name@);
        let counts_as_file = entry.is_file && file_account(entry.name@) is Some;
        assert(last.contains(part) <==> counts_as_folder && part == folder || counts_as_file && part
            == file) by {
            if counts_as_folder {
                assert(last[0] == folder);
            }
            if counts_as_file {
                assert(last[last.len() - 1] == file);
            }
        }
    }
}

proof fn lemma_contains_in_sum<A>(one: Seq<A>, other: Seq<A>, item: A)
    ensures
        (one + other).contains(item) <==> one.contains(item) || other.contains(item),
{
    let all = one + other;
    if one.contains(item) {
        let i = choose|i: int| 0 <= i < one.len() && one[i] == item;
        assert(all[i] == item);
    }
    if other.contains(item) {
        let i = choose|i: int| 0 <= i < other.len() && other[i] == item;
        assert(all[one.len() + i] == item);
    }
    if all.contains(item) {
        let i = choose|i: int| 0 <= i < all.len() && all[i] == item;
        if i >= one.len() {
            assert(other[i - one.len()] == item);
        } else {
            assert(one[i] == item);
        }
    }
}

/// Whether a listing of the keyring shows the entry `id`.
spec fn is_shown(credentials: Seq<Option<Credential>>, id: Seq<char>) -> bool {
    exists|i: int|
        0 <= i < credentials.len() && ((#[trigger] credentials[i]) matches Some(c) && c.user@ == id)
}

proof fn lemma_parts_of_keyring(credentials: Seq<Option<Credential>>, part: Resource)
    ensures
        parts_of_keyring(credentials).contains(part) <==> {
            &&& part.kind == Kind::Keyring
            &&& part.at == 0
            &&& is_shown(credentials, part.name)
        },
    decreases credentials.len(),
{
    if credentials.len() > 0 {
        let before = credentials.drop_last();
        lemma_parts_of_keyring(before, part);
        let shown = is_shown(before, part.name) || (credentials.last() matches Some(c) && c.user@
            == part.name);
        assert(is_shown(credentials, part.name) == shown) by {
            if is_shown(before, part.name) {
                let i = choose|i: int|
                    0 <= i < before.len() && ((#[trigger] before[i]) matches Some(c) && c.user@
                        == part.name);
                assert(credentials[i] == before[i]);
            }
            if credentials.last() matches Some(c) && c.user@ == part.name {
                assert(credentials[credentials.len() - 1] == credentials.last());
            }
            if is_shown(credentials, part.name) {
                let i = choose|i: int|
                    0 <= i < credentials.len() && ((#[trigger] credentials[i]) matches Some(c)
                        && c.user@ == part.name);
                if i < before.len() {
                    assert(before[i] == credentials[i]);
                }
            }
        }
        if let Some(c) = credentials.last() {
            let last = Resource { kind: Kind::Keyring, name: c.user@, at: 0 };
            lemma_contains_in_sum(parts_of_keyring(before), seq![last], part);
            assert(parts_of_keyring(before) + seq![last] =~= parts_of_keyring(before).push(last));
            assert(seq![last].contains(part) <==> part == last) by {
                assert(seq![last][0] == last);
            }
        }
    }
}

/// What is among the parts of accounts.
proof fn lemma_parts(
    accounts: Seq<AccountData>,
    entries: Seq<FolderEntry>,
    credentials: Seq<Option<Credential>>,
    part: Resource,
)
    ensures
        parts(accounts, entries, credentials).contains(part) <==> {
            ||| part.kind == Kind::User && part.at == 0 && is_listed(accounts, part.name)
            ||| is_folder_part(entries, part)
            ||| part.kind == Kind::Keyring && part.at == 0 && is_shown(credentials, part.name)
        },
{
    let users = accounts.map_values(
        |a: AccountData| Resource { kind: Kind::User, name: a.id@, at: 0 },
    );
    assert(users.contains(part) <==> part.kind == Kind::User && part.at == 0 && is_listed(
        accounts,
        part.name,
    )) by {
        if users.contains(part) {
            let i = choose|i: int| 0 <= i < users.len() && users[i] == part;
            assert(accounts[i].id@ == part.name);
        }
        if part.kind == Kind::User && part.at == 0 && is_listed(accounts, part.name) {
            let i = choose|i: int|
                0 <= i < accounts.len() && (#[trigger] accounts[i]).id@ == part.name;
            assert(users[i] == part);
        }
    }
    let folder = parts_of_folder(entries);
    let keyring = parts_of_keyring(credentials);
    lemma_contains_in_sum(users + folder, keyring, part);
    lemma_contains_in_sum(users, folder, part);
    lemma_parts_of_folder(entries, part);
    lemma_parts_of_keyring(credentials, part);
}

proof fn lemma_has_part(all: Seq<Resource>, kind: Kind, name: Seq<char>)
    ensures
        has_part(all, kind, name) <==> exists|part: Resource| #[trigger]
            all.contains(part) && part.kind == kind && part.name == name,
{
    if has_part(all, kind, name) {
        let i = choose|i: int|
            0 <= i < all.len() && (#[trigger] all[i]).kind == kind && all[i].name == name;
        assert(all.contains(all[i]));
    }
    if exists|part: Resource| #[trigger]
        all.contains(part) && part.kind == kind && part.name == name {
        let part = choose|part: Resource| #[trigger]
            all.contains(part) && part.kind == kind && part.name == name;
        let i = choose|i: int| 0 <= i < all.len() && all[i] == part;
        assert(all[i].kind == kind);
    }
}

/// An account has all its parts in listings that show all exactly where it is whole.
proof fn lemma_whole(
    accounts: Seq<AccountData>,
    world: World,
    entries: Seq<FolderEntry>,
    credentials: Seq<Option<Credential>>,
    id: Seq<char>,
)
    requires
        shows(world, entries),
        shows_keyring(world, credentials),
    ensures
        whole(parts(accounts, entries, credentials), id) <==> stands_whole(accounts, world, id),
{
    let all = parts(accounts, entries, credentials);
    assert forall|part: Resource| #[trigger] all.contains(part) implies {
        ||| part.kind == Kind::User && is_listed(accounts, part.name)
        ||| is_folder_part(entries, part)
        ||| part.kind == Kind::Keyring && is_shown(credentials, part.name)
    } by {
        lemma_parts(accounts, entries, credentials, part);
    }
    lemma_has_part(all, Kind::User, id);
    lemma_has_part(all, Kind::File, id);
    lemma_has_part(all, Kind::Folder, id);
    lemma_has_part(all, Kind::Keyring, id);
    if is_listed(accounts, id) {
        lemma_parts(
            accounts,
            entries,
            credentials,
            Resource { kind: Kind::User, name: id, at: 0 },
        );
    }
    if has_file(world, id) {
        let file = choose|file: Seq<u8>| #[trigger]
            world.files.contains_key(file) && file_account(file) == Some(id);
        let i = choose|i: int| 0 <= i < entries.len() && #[trigger] entries[i].name@ == file;
        assert(entries[i].is_file);
        let part = Resource { kind: Kind::File, name: id, at: i };
        lemma_parts(accounts, entries, credentials, part);
        assert(all.contains(part));
    }
    if world.folders.contains(encode_utf8(id)) {
        let folder = encode_utf8(id);
        encode_utf8_valid_utf8(id);
        encode_utf8_decode_utf8(id);
        let i = choose|i: int| 0 <= i < entries.len() && #[trigger] entries[i].name@ == folder;
        assert(entries[i].is_folder);
        let part = Resource { kind: Kind::Folder, name: id, at: i };
        lemma_parts(accounts, entries, credentials, part);
        assert(all.contains(part));
    }
    if world.keyring.contains_key(id) {
        let part = Resource { kind: Kind::Keyring, name: id, at: 0 };
        lemma_parts(accounts, entries, credentials, part);
        assert(is_shown(credentials, id));
        assert(all.contains(part));
    }
    if has_part(all, Kind::File, id) {
        let part = choose|part: Resource| #[trigger]
            all.contains(part) && part.kind == Kind::File && part.name == id;
        assert(entries[part.at].is_file);
        assert(world.files.contains_key(entries[part.at].name@));
    }
    if has_part(all, Kind::Folder, id) {
        let part = choose|part: Resource| #[trigger]
            all.contains(part) && part.kind == Kind::Folder && part.name == id;
        assert(entries[part.at].is_folder);
        decode_utf8_encode_utf8(entries[part.at].name@);
    }
    if has_part(all, Kind::Keyring, id) {
        let part = choose|part: Resource| #[trigger]
            all.contains(part) && part.kind == Kind::Keyring && part.name == id;
        let i = choose|i: int|
            0 <= i < credentials.len() && ((#[trigger] credentials[i]) matches Some(c) && c.user@
                == id);
        assert(world.keyring.contains_key(id));
    }
}

/// Whether `leftover` is part of an account that is not whole, and there at `start`.
spec fn is_orphan(
    accounts: Seq<AccountData>,
    start: World,
    entries: Seq<FolderEntry>,
    leftover: Leftover,
) -> bool {
    match leftover {
        Leftover::Folder(at) => {
            &&& at < entries.len()
            &&& orphaned(accounts, start, folder_account(entries[at as int].name@))
        },
        Leftover::File(at) => {
            &&& at < entries.len()
            &&& orphaned(accounts, start, file_account(entries[at as int].name@))
        },
        Leftover::KeyringEntry(id) => !stands_whole(accounts, start, id@),
    }
}

/// Whether the plan has that removal.
spec fn removes_named(
    entries: Seq<FolderEntry>,
    leftover: Leftover,
    kind: Kind,
    name: Seq<u8>,
) -> bool {
    match leftover {
        Leftover::Folder(at) => kind == Kind::Folder && entries[at as int].name@ == name,
        Leftover::File(at) => kind == Kind::File && entries[at as int].name@ == name,
        Leftover::KeyringEntry(_) => false,
    }
}

/// Whether the plan removes what is left of accounts that are not whole, all of that and no more.
spec fn well_planned(
    format: Format,
    start: World,
    entries: Seq<FolderEntry>,
    plan: Sweep,
) -> bool {
    let pending = plan.pending@;
    &&& start.files.contains_key(key(AccountFile::Users))
    &&& accounts_of(format, start) matches Some(accounts)
    &&& plan.kept@ == accounts.filter(standing(accounts, start))
    &&& forall|i: int|
        0 <= i < pending.len() ==> is_orphan(accounts, start, entries, #[trigger] pending[i])
    &&& forall|file: Seq<u8>| #[trigger]
        start.files.contains_key(file) && orphaned(accounts, start, file_account(file))
            ==> exists|i: int|
            0 <= i < pending.len() && removes_named(
                entries,
                #[trigger] pending[i],
                Kind::File,
                file,
            )
    &&& forall|folder: Seq<u8>| #[trigger]
        start.folders.contains(folder) && orphaned(accounts, start, folder_account(folder))
            ==> exists|i: int|
            0 <= i < pending.len() && removes_named(
                entries,
                #[trigger] pending[i],
                Kind::Folder,
                folder,
            )
    &&& forall|id: Seq<char>| #[trigger]
        start.keyring.contains_key(id) && !stands_whole(accounts, start, id) ==> exists|i: int|
            0 <= i < pending.len() && ((#[trigger] pending[i]) matches Leftover::KeyringEntry(name)
                && name@ == id)
}

/// A part of an account that is not whole is in the plan.
proof fn lemma_in_plan(all: Seq<Resource>, plan: Sweep, accounts: Seq<AccountData>, part: Resource)
    requires
        sweeps(accounts, all, plan),
        all.contains(part),
        part.kind != Kind::User,
        !whole(all, part.name),
    ensures
        exists|i: int|
            0 <= i < plan.pending@.len() && is_part(#[trigger] plan.pending@[i], part),
{
    let i = choose|i: int| 0 <= i < all.len() && all[i] == part;
    all.lemma_filter_contains(is_leftover(all), i);
    let j = choose|j: int| 0 <= j < leftovers(all).len() && leftovers(all)[j] == part;
    assert(is_part(plan.pending@[j], part));
}

proof fn lemma_well_planned(
    format: Format,
    start: World,
    accounts: Seq<AccountData>,
    entries: Seq<FolderEntry>,
    credentials: Seq<Option<Credential>>,
    plan: Sweep,
)
    requires
        start.files.contains_key(key(AccountFile::Users)),
        accounts_of(format, start) == Some(accounts),
        shows(start, entries),
        shows_keyring(start, credentials),
        sweeps(accounts, parts(accounts, entries, credentials), plan),
    ensures
        well_planned(format, start, entries, plan),
{
    let all = parts(accounts, entries, credentials);
    let pending = plan.pending@;
    assert forall|id: Seq<char>|
        whole(all, id) <==> #[trigger] stands_whole(accounts, start, id) by {
        lemma_whole(accounts, start, entries, credentials, id);
    }
    assert(has_all_parts(all) =~= standing(accounts, start));
    assert forall|i: int| 0 <= i < pending.len() implies is_orphan(
        accounts,
        start,
        entries,
        #[trigger] pending[i],
    ) by {
        let part = leftovers(all)[i];
        all.lemma_filter_pred(is_leftover(all), i);
        assert(leftovers(all).contains(part));
        all.lemma_filter_contains_rev(is_leftover(all), part);
        lemma_parts(accounts, entries, credentials, part);
        assert(is_part(pending[i], part));
        assert(!stands_whole(accounts, start, part.name));
    }
    assert forall|file: Seq<u8>| #[trigger]
        start.files.contains_key(file) && orphaned(
            accounts,
            start,
            file_account(file),
        ) implies exists|i: int|
        0 <= i < pending.len() && removes_named(
            entries,
            #[trigger] pending[i],
            Kind::File,
            file,
        ) by {
        let id = file_account(file)->0;
        let at = choose|i: int| 0 <= i < entries.len() && #[trigger] entries[i].name@ == file;
        assert(entries[at].is_file);
        let part = Resource { kind: Kind::File, name: id, at };
        lemma_parts(accounts, entries, credentials, part);
        assert(!stands_whole(accounts, start, id));
        lemma_in_plan(all, plan, accounts, part);
        let i = choose|i: int| 0 <= i < pending.len() && is_part(#[trigger] pending[i], part);
        assert(removes_named(entries, pending[i], Kind::File, file));
    }
    assert forall|folder: Seq<u8>| #[trigger]
        start.folders.contains(folder) && orphaned(
            accounts,
            start,
            folder_account(folder),
        ) implies exists|i: int|
        0 <= i < pending.len() && removes_named(
            entries,
            #[trigger] pending[i],
            Kind::Folder,
            folder,
        ) by {
        let id = folder_account(folder)->0;
        let at = choose|i: int| 0 <= i < entries.len() && #[trigger] entries[i].name@ == folder;
        assert(entries[at].is_folder);
        let part = Resource { kind: Kind::Folder, name: id, at };
        lemma_parts(accounts, entries, credentials, part);
        assert(!stands_whole(accounts, start, id));
        lemma_in_plan(all, plan, accounts, part);
        let i = choose|i: int| 0 <= i < pending.len() && is_part(#[trigger] pending[i], part);
        assert(removes_named(entries, pending[i], Kind::Folder, folder));
    }
    assert forall|id: Seq<char>| #[trigger]
        start.keyring.contains_key(id) && !stands_whole(accounts, start, id) implies exists|i: int|
        0 <= i < pending.len() && ((#[trigger] pending[i]) matches Leftover::KeyringEntry(name)
            && name@ == id) by {
        let part = Resource { kind: Kind::Keyring, name: id, at: 0 };
        assert(is_shown(credentials, id));
        lemma_parts(accounts, entries, credentials, part);
        lemma_in_plan(all, plan, accounts, part);
        let i = choose|i: int| 0 <= i < pending.len() && is_part(#[trigger] pending[i], part);
        assert(pending[i] is KeyringEntry);
    }
}

/// Whether `leftover` is not there.
spec fn is_gone(world: World, leftover: Leftover) -> bool {
    match leftover {
        Leftover::Folder(at) => !world.folders.contains(world.listing[at as int].name@),
        Leftover::File(at) => !world.files.contains_key(world.listing[at as int].name@),
        Leftover::KeyringEntry(id) => !world.keyring.contains_key(id@),
    }
}

/// Whether the first `done` removals of the plan are done.
spec fn gone_until(world: World, plan: Sweep, done: int) -> bool {
    forall|i: int| 0 <= i < done ==> is_gone(world, #[trigger] plan.pending@[i])
}

/// What is left and what is not, while the plan is carried out. `clean` says that nothing
/// hindered it so far.
spec fn carried_out(
    format: Format,
    start: World,
    clean: bool,
    plan: Sweep,
    done: int,
    world: World,
) -> bool {
    &&& well_planned(format, start, world.listing, plan)
    &&& 0 <= done <= plan.pending@.len()
    &&& spares_whole_accounts(accounts_of(format, start)->0, start, world)
    &&& only_removes(start, world)
    &&& same_file(world, start, key(AccountFile::Users))
    &&& clean ==> gone_until(world, plan, done)
}

/// Whether `sweep` is the plan but for its first `done` removals.
spec fn is_left(plan: Sweep, done: int, sweep: Sweep) -> bool {
    &&& sweep.pending@ == plan.pending@.skip(done)
    &&& sweep.kept == plan.kept
}

/// Whether the sweep asks for the removal that follows the first `done`, or, after all of them,
/// for the list of accounts.
spec fn is_at(plan: Sweep, done: int, progress: Sweeping) -> bool {
    if done == plan.pending@.len() {
        progress == Sweeping::Ask {
            state: RemoveOrphanedAccounts::EncodingAccounts,
            request: Request::EncodeAccounts(plan.kept),
        }
    } else {
        match (plan.pending@[done], progress) {
            (
                Leftover::Folder(at),
                Progress::Ask { state: RemoveOrphanedAccounts::Removing { sweep }, request },
            ) => is_left(plan, done + 1, sweep) && request == Request::RemoveListedFolder(at),
            (
                Leftover::File(at),
                Progress::Ask { state: RemoveOrphanedAccounts::Removing { sweep }, request },
            ) => is_left(plan, done + 1, sweep) && request == Request::RemoveListedFile(at),
            (
                Leftover::KeyringEntry(id),
                Progress::Ask {
                    state: RemoveOrphanedAccounts::OpeningKeyring { name, sweep },
                    request,
                },
            ) => name == id && is_left(plan, done + 1, sweep) && request == Request::OpenKeyring(
                id,
            ),
            (
                Leftover::KeyringEntry(id),
                Progress::Ask { state: RemoveOrphanedAccounts::Removing { sweep }, request },
            ) => is_left(plan, done + 1, sweep) && request == Request::DeletePassphrase(id),
            _ => false,
        }
    }
}

proof fn lemma_sweeps_on(plan: Sweep, done: int, sweep: Sweep, next: Sweeping)
    requires
        0 <= done <= plan.pending@.len(),
        is_left(plan, done, sweep),
        sweeps_on(sweep, next),
    ensures
        is_at(plan, done, next),
{
    if done < plan.pending@.len() {
        assert(sweep.pending@[0] == plan.pending@[done]);
        assert(sweep.pending@.skip(1) =~= plan.pending@.skip(done + 1));
    }
}

/// Whether the sweep is at the removal that follows the first `done` of the plan.
spec fn sweep_at(
    format: Format,
    start: World,
    clean: bool,
    plan: Sweep,
    done: int,
    progress: Sweeping,
    world: World,
) -> bool {
    &&& carried_out(format, start, clean, plan, done, world)
    &&& is_at(plan, done, progress)
}

/// Whether the whole plan is carried out.
spec fn planned_out(format: Format, start: World, clean: bool, plan: Sweep, world: World) -> bool {
    carried_out(format, start, clean, plan, plan.pending@.len() as int, world)
}

/// Whether only parts of accounts that are not whole are gone, and the list of accounts is what
/// it was or was written to.
spec fn stopped_soundly(format: Format, start: World, world: World) -> bool {
    &&& only_removes(start, world)
    &&& match accounts_of(format, start) {
        Some(accounts) => spares_whole_accounts(accounts, start, world),
        None => world == start,
    }
}

/// Whether the list of accounts that are kept is in its place, and, where nothing hindered the
/// sweep, all else is gone.
spec fn swept(format: Format, start: World, clean: bool, plan: Sweep, world: World) -> bool {
    &&& well_planned(format, start, world.listing, plan)
    &&& accounts_of(format, world) == Some(plan.kept@)
    &&& clean ==> gone_until(world, plan, plan.pending@.len() as int)
}

/// What holds at each moment of a sweep. `clean` says that nothing hindered it so far, `written`
/// that the list of accounts was written, `spoilt` that it was but badly.
pub(crate) closed spec fn sweep_invariant(
    format: Format,
    start: World,
    clean: bool,
    written: bool,
    spoilt: bool,
    progress: Sweeping,
    world: World,
) -> bool {
    &&& stopped_soundly(format, start, world)
    &&& match progress {
        Progress::Ask { state, request } => !written && !spoilt && same_file(
            world,
            start,
            key(AccountFile::Users),
        ) && match state {
            RemoveOrphanedAccounts::ReadingAccounts => {
                &&& world == start
                &&& request == Request::ReadAccounts
            },
            RemoveOrphanedAccounts::ListingFolder { accounts } => {
                &&& world == start
                &&& start.files.contains_key(key(AccountFile::Users))
                &&& accounts_of(format, start) == Some(accounts@)
                &&& request == Request::ListFolder
            },
            RemoveOrphanedAccounts::ListingKeyring { accounts, entries } => {
                &&& world == World { listing: entries@, ..start }
                &&& start.files.contains_key(key(AccountFile::Users))
                &&& accounts_of(format, start) == Some(accounts@)
                &&& shows(start, entries@)
                &&& request == Request::ListKeyring
            },
            RemoveOrphanedAccounts::Removing { .. } => exists|plan: Sweep, done: int| #[trigger]
                sweep_at(format, start, clean, plan, done, progress, world) && done
                    < plan.pending@.len(),
            RemoveOrphanedAccounts::OpeningKeyring { .. } => exists|plan: Sweep, done: int|
                #[trigger]
                sweep_at(format, start, clean, plan, done, progress, world) && done
                    < plan.pending@.len(),
            RemoveOrphanedAccounts::EncodingAccounts => exists|plan: Sweep| #[trigger]
                planned_out(format, start, clean, plan, world) && request
                    == Request::EncodeAccounts(plan.kept),
            RemoveOrphanedAccounts::WritingAccounts => exists|plan: Sweep| #[trigger]
                planned_out(format, start, clean, plan, world) && (
                request matches Request::WriteFile(AccountFile::Users, bytes)
                    && (format.accounts)(bytes@) == Some(plan.kept@)),
        },
        Progress::Finished(_) => {
            &&& written ==> exists|plan: Sweep| #[trigger] swept(format, start, clean, plan, world)
            &&& !written && !spoilt ==> same_file(world, start, key(AccountFile::Users))
        },
    }
}

/// Whether the answer is to the writing of the list of accounts, and it was written.
pub open spec fn sweep_written<E>(progress: Sweeping, reply: Reply<E>) -> bool {
    &&& progress matches Progress::Ask { state: RemoveOrphanedAccounts::WritingAccounts, .. }
    &&& reply is Done
}

/// Whether the answer is to the writing of the list of accounts, and it failed.
pub open spec fn sweep_spoilt<E>(progress: Sweeping, reply: Reply<E>) -> bool {
    &&& progress matches Progress::Ask { state: RemoveOrphanedAccounts::WritingAccounts, .. }
    &&& reply is Failed
}

/// One more removal keeps what holds of a plan.
proof fn lemma_removal<E>(
    format: Format,
    start: World,
    clean: bool,
    plan: Sweep,
    done: int,
    progress: Sweeping,
    world: World,
    reply: Reply<E>,
    after: World,
)
    requires
        sweep_at(format, start, clean, plan, done, progress, world),
        done < plan.pending@.len(),
        progress matches Progress::Ask {
            state: RemoveOrphanedAccounts::Removing { .. },
            request,
        } && performs(format, world, request, reply, after),
    ensures
        carried_out(
            format,
            start,
            clean && unhindered(world, progress->request, reply),
            plan,
            done + 1,
            after,
        ),
{
    let accounts = accounts_of(format, start)->0;
    let users = key(AccountFile::Users);
    let leftover = plan.pending@[done];
    assert(is_orphan(accounts, start, world.listing, leftover));
    assert(after.listing == world.listing);
    assert(only_removes(world, after));
    assert(same_file(after, world, users));
    assert forall|file: Seq<u8>|
        file != users && !orphaned(accounts, start, file_account(file)) implies #[trigger] same_file(
        after,
        start,
        file,
    ) by {
        assert(same_file(world, start, file));
        assert(same_file(after, world, file));
    }
    assert forall|folder: Seq<u8>|
        !orphaned(accounts, start, folder_account(folder)) implies (#[trigger] after.folders.contains(
        folder,
    ) <==> start.folders.contains(folder)) by {
        assert(world.folders.contains(folder) <==> start.folders.contains(folder));
    }
    assert forall|id: Seq<char>| #[trigger]
        stands_whole(accounts, start, id) implies same_passphrase(after, start, id) by {
        assert(same_passphrase(world, start, id));
    }
    if clean && unhindered(world, progress->request, reply) {
        assert forall|i: int| 0 <= i < done + 1 implies is_gone(
            after,
            #[trigger] plan.pending@[i],
        ) by {
            if i < done {
                assert(is_gone(world, plan.pending@[i]));
            }
        }
    }
}

/// One answer keeps what holds of a sweep.
pub(crate) proof fn lemma_sweep_step<E>(
    format: Format,
    start: World,
    clean: bool,
    progress: Sweeping,
    world: World,
    reply: Reply<E>,
    next: Sweeping,
    after: World,
)
    requires
        sweep_invariant(format, start, clean, false, false, progress, world),
        progress matches Progress::Ask { state, request } && performs(
            format,
            world,
            request,
            reply,
            after,
        ) && sweep_step(state, reply, next),
    ensures
        sweep_invariant(
            format,
            start,
            clean && unhindered(world, progress->request, reply),
            sweep_written(progress, reply),
            sweep_spoilt(progress, reply),
            next,
            after,
        ),
{
    let request = progress->request;
    let clean_now = clean && unhindered(world, request, reply);
    let users = key(AccountFile::Users);
    match progress->state {
        RemoveOrphanedAccounts::ReadingAccounts => {},
        RemoveOrphanedAccounts::ListingFolder { .. } => {},
        RemoveOrphanedAccounts::ListingKeyring { accounts, entries } => {
            if let Reply::Credentials(credentials) = reply {
                let plan = choose|sweep: Sweep|
                    sweeps(accounts@, parts(accounts@, entries@, credentials@), sweep)
                        && #[trigger] sweeps_on(sweep, next);
                lemma_well_planned(format, start, accounts@, entries@, credentials@, plan);
                assert(plan.pending@.skip(0) =~= plan.pending@);
                lemma_sweeps_on(plan, 0, plan, next);
                assert(carried_out(format, start, clean_now, plan, 0, after));
                assert(sweep_at(format, start, clean_now, plan, 0, next, after));
                assert(plan.pending@.len() == 0 ==> planned_out(
                    format,
                    start,
                    clean_now,
                    plan,
                    after,
                ));
            }
        },
        RemoveOrphanedAccounts::Removing { sweep } => {
            let (plan, done) = choose|plan: Sweep, done: int| #[trigger]
                sweep_at(format, start, clean, plan, done, progress, world) && done
                    < plan.pending@.len();
            lemma_removal(format, start, clean, plan, done, progress, world, reply, after);
            lemma_sweeps_on(plan, done + 1, sweep, next);
            assert(sweep_at(format, start, clean_now, plan, done + 1, next, after));
            assert(plan.pending@.len() == done + 1 ==> planned_out(
                format,
                start,
                clean_now,
                plan,
                after,
            ));
        },
        RemoveOrphanedAccounts::OpeningKeyring { .. } => {
            let (plan, done) = choose|plan: Sweep, done: int| #[trigger]
                sweep_at(format, start, clean, plan, done, progress, world) && done
                    < plan.pending@.len();
            assert(after == world);
            if reply is Done {
                assert(sweep_at(format, start, clean_now, plan, done, next, after));
            }
        },
        RemoveOrphanedAccounts::EncodingAccounts => {
            let plan = choose|plan: Sweep| #[trigger]
                planned_out(format, start, clean, plan, world) && request
                    == Request::EncodeAccounts(plan.kept);
            assert(after == world);
            assert(planned_out(format, start, clean_now, plan, after));
        },
        RemoveOrphanedAccounts::WritingAccounts => {
            let plan = choose|plan: Sweep| #[trigger]
                planned_out(format, start, clean, plan, world) && (
                request matches Request::WriteFile(AccountFile::Users, bytes)
                    && (format.accounts)(bytes@) == Some(plan.kept@));
            lemma_list_write(format, start, plan, clean, world, request, reply, after);
            if reply is Done {
                assert(swept(format, start, clean_now, plan, after));
            }
        },
    }
}

/// The writing of the list of accounts touches nothing else.
proof fn lemma_list_write<E>(
    format: Format,
    start: World,
    plan: Sweep,
    clean: bool,
    world: World,
    request: Request,
    reply: Reply<E>,
    after: World,
)
    requires
        planned_out(format, start, clean, plan, world),
        request matches Request::WriteFile(AccountFile::Users, bytes) && (format.accounts)(bytes@)
            == Some(plan.kept@),
        performs(format, world, request, reply, after),
    ensures
        stopped_soundly(format, start, after),
        reply is Done ==> swept(format, start, clean, plan, after),
{
    let accounts = accounts_of(format, start)->0;
    let users = key(AccountFile::Users);
    if reply is Failed {
        lemma_but_for_file(world, after, users);
    }
    assert forall|file: Seq<u8>| file != users implies #[trigger] same_file(after, world, file) by {}
    assert forall|file: Seq<u8>|
        file != users && !orphaned(accounts, start, file_account(file)) implies #[trigger] same_file(
        after,
        start,
        file,
    ) by {
        assert(same_file(world, start, file));
        assert(same_file(after, world, file));
    }
    assert forall|folder: Seq<u8>|
        !orphaned(accounts, start, folder_account(folder)) implies (#[trigger] after.folders.contains(
        folder,
    ) <==> start.folders.contains(folder)) by {
        assert(world.folders.contains(folder) <==> start.folders.contains(folder));
    }
    assert forall|file: Seq<u8>| #[trigger]
        after.files.contains_key(file) && file != users implies start.files.contains_key(file)
        && after.files[file] == start.files[file] by {
        assert(same_file(after, world, file));
    }
    if reply is Done && clean {
        assert forall|i: int| 0 <= i < plan.pending@.len() implies is_gone(
            after,
            #[trigger] plan.pending@[i],
        ) by {
            assert(is_gone(world, plan.pending@[i]));
            assert(is_orphan(accounts, start, world.listing, plan.pending@[i]));
        }
    }
}

/// A sweep begins with nothing touched.
pub(crate) proof fn lemma_sweep_begins(format: Format, start: World)
    ensures
        sweep_invariant(format, start, true, false, false, begun_sweep(), start),
{
}

/// A sweep that spoils the list of accounts does so by a writing that fails.
pub(crate) proof fn lemma_sweep_spoilt<E>(
    format: Format,
    start: World,
    clean: bool,
    progress: Sweeping,
    world: World,
    reply: Reply<E>,
)
    requires
        sweep_invariant(format, start, clean, false, false, progress, world),
        sweep_spoilt(progress, reply),
    ensures
        progress matches Progress::Ask { request: Request::WriteFile(..), .. },
        reply is Failed,
{
}

/// Whether the accounts listed are those that were at `start`, or those of them that were whole.
pub open spec fn lists_whole_accounts(
    accounts: Seq<AccountData>,
    format: Format,
    start: World,
    world: World,
) -> bool {
    ||| accounts_of(format, world) == Some(accounts)
    ||| accounts_of(format, world) == Some(accounts.filter(standing(accounts, start)))
}

/// What a sweep has left when it is over and did not spoil the list of accounts: all of the
/// accounts that were whole, and the list as it was or with these only.
pub open spec fn leaves_whole_accounts(
    accounts: Seq<AccountData>,
    format: Format,
    start: World,
    world: World,
) -> bool {
    &&& spares_whole_accounts(accounts, start, world)
    &&& lists_whole_accounts(accounts, format, start, world)
}

pub(crate) proof fn lemma_sweep_ends(
    format: Format,
    start: World,
    accounts: Seq<AccountData>,
    clean: bool,
    written: bool,
    world: World,
)
    requires
        accounts_of(format, start) == Some(accounts),
        sweep_invariant(format, start, clean, written, false, Sweeping::Finished(()), world),
    ensures
        leaves_whole_accounts(accounts, format, start, world),
{
}

/// A run of a sweep.
pub open spec fn is_sweep_run<E>(format: Format, run: Run<RemoveOrphanedAccounts, (), E>) -> bool {
    &&& is_run(
        format,
        |state: RemoveOrphanedAccounts, reply: Reply<E>, next: Sweeping|
            sweep_step(state, reply, next),
        run,
    )
    &&& run.progress[0] == begun_sweep()
}

/// Whether nothing hindered the sweep in the first `until` answers.
pub open spec fn sweep_unhindered<E>(
    run: Run<RemoveOrphanedAccounts, (), E>,
    until: int,
) -> bool {
    forall|i: int|
        0 <= i < until ==> unhindered(
            run.worlds[i],
            run.progress[i]->request,
            #[trigger] run.replies[i],
        )
}

proof fn lemma_sweep_run<E>(format: Format, run: Run<RemoveOrphanedAccounts, (), E>, at: int)
    requires
        is_sweep_run(format, run),
        0 <= at <= run.replies.len(),
    ensures
        sweep_invariant(
            format,
            run.worlds[0],
            sweep_unhindered(run, at),
            at > 0 && sweep_written(run.progress[at - 1], run.replies[at - 1]),
            at > 0 && sweep_spoilt(run.progress[at - 1], run.replies[at - 1]),
            run.progress[at],
            run.worlds[at],
        ),
    decreases at,
{
    if at > 0 {
        let before = at - 1;
        lemma_sweep_run(format, run, before);
        let reply = run.replies[before];
        lemma_sweep_step(
            format,
            run.worlds[0],
            sweep_unhindered(run, before),
            run.progress[before],
            run.worlds[before],
            reply,
            run.progress[at],
            run.worlds[at],
        );
        if sweep_unhindered(run, at) {
            assert(sweep_unhindered(run, before));
        }
    } else {
        lemma_sweep_begins(format, run.worlds[0]);
    }
}

/// With the list of accounts written a sweep is over.
proof fn lemma_written_sweep_is_over<E>(
    format: Format,
    run: Run<RemoveOrphanedAccounts, (), E>,
    at: int,
)
    requires
        is_sweep_run(format, run),
        0 < at <= run.replies.len(),
        sweep_written(run.progress[at - 1], run.replies[at - 1]),
    ensures
        run.progress[at] is Finished,
{
}

/// A sweep spoils the list of accounts only by a writing of it that fails.
pub(crate) proof fn lemma_spoilt_by_a_writing<E>(
    format: Format,
    run: Run<RemoveOrphanedAccounts, (), E>,
    at: int,
)
    requires
        is_sweep_run(format, run),
        0 < at <= run.replies.len(),
        sweep_spoilt(run.progress[at - 1], run.replies[at - 1]),
    ensures
        run.progress[at - 1] matches Progress::Ask { request: Request::WriteFile(..), .. },
{
    lemma_sweep_run(format, run, at - 1);
}

/// A sweep leaves the list of accounts as it was until it writes it. So one that stops before has
/// not touched it.
pub proof fn law_sweep_keeps_the_list_until_it_writes<E>(
    format: Format,
    run: Run<RemoveOrphanedAccounts, (), E>,
    at: int,
)
    requires
        is_sweep_run(format, run),
        0 <= at <= run.replies.len(),
        at > 0 ==> !(run.progress[at - 1]->state is WritingAccounts),
    ensures
        same_file(run.worlds[at], run.worlds[0], key(AccountFile::Users)),
{
    lemma_sweep_run(format, run, at);
}

/// The accounts listed at any moment of a sweep are those that were listed, or those of them that
/// were whole, as they were and in their order, unless the writing of the list failed.
pub proof fn law_sweep_lists_soundly<E>(
    format: Format,
    accounts: Seq<AccountData>,
    run: Run<RemoveOrphanedAccounts, (), E>,
    at: int,
)
    requires
        is_sweep_run(format, run),
        0 <= at <= run.replies.len(),
        accounts_of(format, run.worlds[0]) == Some(accounts),
        at > 0 ==> !sweep_spoilt(run.progress[at - 1], run.replies[at - 1]),
    ensures
        lists_whole_accounts(accounts, format, run.worlds[0], run.worlds[at]),
{
    lemma_sweep_run(format, run, at);
    if at > 0 && sweep_written(run.progress[at - 1], run.replies[at - 1]) {
        lemma_written_sweep_is_over(format, run, at);
    }
}

/// Whether the sweep is still to learn what there is.
pub open spec fn is_listing(progress: Sweeping) -> bool {
    progress matches Progress::Ask { state, .. } && {
        ||| state is ReadingAccounts
        ||| state is ListingFolder
        ||| state is ListingKeyring
    }
}

/// A sweep takes nothing away before it has read the list of accounts and listed the folder and
/// the keyring. Where one of these fails, or there is no list of accounts, it is over.
pub proof fn law_sweep_that_cannot_list_removes_nothing<E>(
    format: Format,
    run: Run<RemoveOrphanedAccounts, (), E>,
    at: int,
)
    requires
        is_sweep_run(format, run),
        0 < at <= run.replies.len(),
        is_listing(run.progress[at - 1]),
    ensures
        run.worlds[at].files == run.worlds[0].files,
        run.worlds[at].folders == run.worlds[0].folders,
        run.worlds[at].keyring == run.worlds[0].keyring,
        run.progress[at] is Finished <==> {
            ||| run.replies[at - 1] is Failed
            ||| run.replies[at - 1] matches Reply::Accounts(None)
        },
{
    lemma_sweep_run(format, run, at - 1);
}

/// At no moment does a sweep touch an account that is whole, or a thing that counts for no
/// account, but for the list of accounts; and it only ever takes away. Where the list of accounts
/// cannot be read it does nothing.
pub proof fn law_sweep_spares_whole_accounts<E>(
    format: Format,
    run: Run<RemoveOrphanedAccounts, (), E>,
    at: int,
)
    requires
        is_sweep_run(format, run),
        0 <= at <= run.replies.len(),
    ensures
        only_removes(run.worlds[0], run.worlds[at]),
        match accounts_of(format, run.worlds[0]) {
            Some(accounts) => spares_whole_accounts(accounts, run.worlds[0], run.worlds[at]),
            None => run.worlds[at] == run.worlds[0],
        },
{
    lemma_sweep_run(format, run, at);
}

/// A sweep that nothing hindered and that came to write the list of accounts leaves whole
/// accounts only: these are listed, as they were and in their order, and all else that counted
/// for an account is gone.
pub proof fn law_sweep_leaves_whole_accounts_only<E>(
    format: Format,
    run: Run<RemoveOrphanedAccounts, (), E>,
)
    requires
        is_sweep_run(format, run),
        run.replies.len() > 0,
        sweep_unhindered(run, run.replies.len() as int),
        sweep_written(run.progress[run.replies.len() - 1], run.replies.last()),
    ensures
        accounts_of(format, run.worlds[0]) matches Some(accounts) && {
            let left = accounts.filter(standing(accounts, run.worlds[0]));
            &&& accounts_of(format, run.worlds.last()) == Some(left)
            &&& all_whole(left, run.worlds.last())
        },
{
    let end = run.replies.len() as int;
    lemma_sweep_run(format, run, end);
    lemma_written_sweep_is_over(format, run, end);
    let start = run.worlds[0];
    let world = run.worlds[end];
    let plan = choose|plan: Sweep| #[trigger] swept(format, start, true, plan, world);
    let accounts = accounts_of(format, start)->0;
    let left = accounts.filter(standing(accounts, start));
    assert forall|id: Seq<char>| #[trigger]
        stands_whole(accounts, start, id) implies stands_whole(left, world, id) by {
        lemma_still_whole(accounts, start, world, id);
    }
    assert forall|file: Seq<u8>| #[trigger] world.files.contains_key(file) implies !orphaned(
        left,
        world,
        file_account(file),
    ) by {
        if orphaned(accounts, start, file_account(file)) {
            assert(start.files.contains_key(file));
            let i = choose|i: int|
                0 <= i < plan.pending@.len() && removes_named(
                    world.listing,
                    #[trigger] plan.pending@[i],
                    Kind::File,
                    file,
                );
            assert(is_gone(world, plan.pending@[i]));
        }
    }
    assert forall|folder: Seq<u8>| #[trigger] world.folders.contains(folder) implies !orphaned(
        left,
        world,
        folder_account(folder),
    ) by {
        if orphaned(accounts, start, folder_account(folder)) {
            assert(start.folders.contains(folder));
            let i = choose|i: int|
                0 <= i < plan.pending@.len() && removes_named(
                    world.listing,
                    #[trigger] plan.pending@[i],
                    Kind::Folder,
                    folder,
                );
            assert(is_gone(world, plan.pending@[i]));
        }
    }
    assert forall|id: Seq<char>| #[trigger] world.keyring.contains_key(id) implies stands_whole(
        left,
        world,
        id,
    ) by {
        if !stands_whole(accounts, start, id) {
            assert(start.keyring.contains_key(id));
            let i = choose|i: int|
                0 <= i < plan.pending@.len() && ((
                #[trigger] plan.pending@[i]) matches Leftover::KeyringEntry(name) && name@ == id);
            assert(is_gone(world, plan.pending@[i]));
        }
    }
    assert forall|i: int| 0 <= i < left.len() implies stands_whole(
        left,
        world,
        (#[trigger] left[i]).id@,
    ) by {
        accounts.lemma_filter_pred(standing(accounts, start), i);
        assert(stands_whole(accounts, start, left[i].id@));
    }
}

/// An account that is whole is still whole when all but parts of others is as it was.
proof fn lemma_still_whole(
    accounts: Seq<AccountData>,
    start: World,
    world: World,
    id: Seq<char>,
)
    requires
        stands_whole(accounts, start, id),
        spares_whole_accounts(accounts, start, world),
    ensures
        stands_whole(accounts.filter(standing(accounts, start)), world, id),
{
    let left = accounts.filter(standing(accounts, start));
    let i = choose|i: int| 0 <= i < accounts.len() && (#[trigger] accounts[i]).id@ == id;
    accounts.lemma_filter_contains(standing(accounts, start), i);
    let j = choose|j: int| 0 <= j < left.len() && left[j] == accounts[i];
    assert(left[j].id@ == id);
    let file = choose|file: Seq<u8>| #[trigger]
        start.files.contains_key(file) && file_account(file) == Some(id);
    assert(same_file(world, start, file));
    assert(world.files.contains_key(file));
    let folder = encode_utf8(id);
    encode_utf8_valid_utf8(id);
    encode_utf8_decode_utf8(id);
    assert(world.folders.contains(folder) <==> start.folders.contains(folder));
    assert(same_passphrase(world, start, id));
}

/// Where all accounts are whole and nothing else is there, a sweep takes nothing away, and the
/// accounts that it lists are those that were listed. So a sweep that follows another changes
/// nothing.
pub proof fn law_sweep_keeps_what_is_whole<E>(
    format: Format,
    accounts: Seq<AccountData>,
    run: Run<RemoveOrphanedAccounts, (), E>,
    at: int,
)
    requires
        is_sweep_run(format, run),
        0 <= at <= run.replies.len(),
        accounts_of(format, run.worlds[0]) == Some(accounts),
        all_whole(accounts, run.worlds[0]),
    ensures
        run.worlds[at].folders == run.worlds[0].folders,
        run.worlds[at].keyring == run.worlds[0].keyring,
        forall|file: Seq<u8>|
            file != key(AccountFile::Users) ==> #[trigger] same_file(
                run.worlds[at],
                run.worlds[0],
                file,
            ),
        at > 0 && sweep_written(run.progress[at - 1], run.replies[at - 1]) ==> accounts_of(
            format,
            run.worlds[at],
        ) == Some(accounts),
{
    lemma_sweep_run(format, run, at);
    let start = run.worlds[0];
    let world = run.worlds[at];
    assert forall|folder: Seq<u8>| #[trigger]
        start.folders.contains(folder) implies world.folders.contains(folder) by {
        assert(world.folders.contains(folder) <==> start.folders.contains(folder));
    }
    assert(world.folders =~= start.folders);
    assert forall|id: Seq<char>| #[trigger] start.keyring.contains_key(id) implies same_passphrase(
        world,
        start,
        id,
    ) by {
        assert(stands_whole(accounts, start, id));
    }
    assert(world.keyring =~= start.keyring);
    assert forall|file: Seq<u8>| file != key(AccountFile::Users) implies #[trigger] same_file(
        world,
        start,
        file,
    ) by {
        if start.files.contains_key(file) {
            assert(!orphaned(accounts, start, file_account(file)));
        }
    }
    lemma_all_kept(accounts, standing(accounts, start));
    if at > 0 && sweep_written(run.progress[at - 1], run.replies[at - 1]) {
        lemma_written_sweep_is_over(format, run, at);
    }
}

/// An account that was created and has its store is whole: a sweep spares it.
pub proof fn law_created_account_is_whole(
    format: Format,
    start: World,
    world: World,
    new: NewAccount,
    data: SecureAccountData,
)
    requires
        file_counts_for(new.data.id),
        kept(format, start, world, new, data),
        world.folders.contains(key(AccountFile::Store(new.data.id))),
    ensures
        accounts_of(format, world) matches Some(accounts) && stands_whole(
            accounts,
            world,
            new.data.id@,
        ),
{
    let accounts = accounts_of(format, start)->0;
    let listed = added_to(accounts, new.data);
    assert(listed[accounts.len() as int] == new.data);
    assert(world.files.contains_key(key(AccountFile::Secure(new.data.id))));
}

/// An id that is not empty, is in ASCII and has no dot but at its begin is one that the sweep
/// finds by the encrypted file. So is every id that is drawn.
pub proof fn law_encrypted_file_counts_for_its_account(id: String)
    requires
        names_no_extension(id@) || is_credential(id@),
    ensures
        file_counts_for(id),
{
    if is_credential(id@) {
        assert forall|i: int| 0 <= i < id@.len() implies '\0' <= #[trigger] id@[i] <= '\u{7f}'
            && id@[i] != '.' by {
            assert(alphanumeric(id@[i]));
        }
    }
    law_encrypted_file_tells_its_account(id);
}

/// An account that was created, and has its store, survives a sweep: at every moment its entry is
/// in the list, unless the writing of that failed, and its encrypted file, its store and its
/// passphrase are there as they were created.
pub proof fn law_created_account_survives_a_sweep<E>(
    format: Format,
    new: NewAccount,
    data: SecureAccountData,
    save: Run<SaveNewAccount<E>, Result<(), AccountError<E>>, E>,
    run: Run<RemoveOrphanedAccounts, (), E>,
    at: int,
)
    requires
        file_counts_for(new.data.id),
        is_save_run(format, new, data, save),
        save.progress.last() matches Progress::Finished(Ok(_)),
        save.worlds[0].folders.contains(key(AccountFile::Store(new.data.id))),
        is_sweep_run(format, run),
        run.worlds[0] == save.worlds.last(),
        0 <= at <= run.replies.len(),
    ensures
        keeps_secure_data(format, run.worlds[at], new.data.id, new.passphrase@, data),
        run.worlds[at].folders.contains(key(AccountFile::Store(new.data.id))),
        run.worlds[at].keyring.contains_key(new.data.id@),
        run.worlds[at].keyring[new.data.id@] == new.passphrase@,
        !(at > 0 && sweep_spoilt(run.progress[at - 1], run.replies[at - 1])) ==> (accounts_of(
            format,
            run.worlds[at],
        ) matches Some(accounts) && accounts.contains(new.data)),
{
    let before = save.worlds[0];
    let start = run.worlds[0];
    let world = run.worlds[at];
    let id = new.data.id;
    law_save_keeps_the_account(format, new, data, save);
    law_created_account_is_whole(format, before, start, new, data);
    law_sweep_spares_whole_accounts(format, run, at);
    let accounts = accounts_of(format, start)->0;
    assert(stands_whole(accounts, start, id@));
    let secure = key(AccountFile::Secure(id));
    assert(same_file(world, start, secure));
    assert(same_passphrase(world, start, id@));
    let store = encode_utf8(id@);
    encode_utf8_valid_utf8(id@);
    encode_utf8_decode_utf8(id@);
    assert(world.folders.contains(store) <==> start.folders.contains(store));
    assert(key(AccountFile::Store(id)) == store);
    if !(at > 0 && sweep_spoilt(run.progress[at - 1], run.replies[at - 1])) {
        law_sweep_lists_soundly(format, accounts, run, at);
        let last = accounts.len() - 1;
        assert(accounts[last] == new.data);
        accounts.lemma_filter_contains(standing(accounts, start), last);
    }
}

/// Whether no request failed in the first `until` answers, but to take away what was not there.
pub open spec fn sweep_never_fails<E>(
    run: Run<RemoveOrphanedAccounts, (), E>,
    until: int,
) -> bool {
    forall|i: int|
        0 <= i < until ==> ((#[trigger] run.replies[i]) is Failed ==> (match run.progress[i] {
            Progress::Ask { request, .. } => {
                ||| request is RemoveListedFile
                ||| request is RemoveListedFolder
                ||| request is DeletePassphrase
            },
            Progress::Finished(_) => false,
        }) && unhindered(run.worlds[i], run.progress[i]->request, run.replies[i]))
}

/// Where there is a list of accounts, a sweep of which no request fails, and which comes to its
/// end, leaves whole accounts only: these are listed, as they were and in their order, and all else
/// that counted for an account is gone.
pub proof fn law_sweep_succeeds<E>(
    format: Format,
    accounts: Seq<AccountData>,
    run: Run<RemoveOrphanedAccounts, (), E>,
)
    requires
        is_sweep_run(format, run),
        run.worlds[0].files.contains_key(key(AccountFile::Users)),
        accounts_of(format, run.worlds[0]) == Some(accounts),
        sweep_never_fails(run, run.replies.len() as int),
        run.progress.last() is Finished,
    ensures
        ({
            let left = accounts.filter(standing(accounts, run.worlds[0]));
            &&& accounts_of(format, run.worlds.last()) == Some(left)
            &&& all_whole(left, run.worlds.last())
        }),
{
    let end = run.replies.len() as int;
    assert(run.progress[0] is Ask);
    let before = end - 1;
    lemma_sweep_run(format, run, before);
    let reply = run.replies[before];
    let state = run.progress[before]->state;
    let next = run.progress[end];
    assert(sweep_step(state, reply, next));
    assert(performs(
        format,
        run.worlds[before],
        run.progress[before]->request,
        reply,
        run.worlds[end],
    ));
    match state {
        RemoveOrphanedAccounts::ListingKeyring { accounts: a, entries } => {
            if let Reply::Credentials(credentials) = reply {
                let plan = choose|sweep: Sweep|
                    sweeps(a@, parts(a@, entries@, credentials@), sweep) && #[trigger] sweeps_on(
                        sweep,
                        next,
                    );
                assert(sweeps_on(plan, next));
            }
        },
        RemoveOrphanedAccounts::Removing { sweep } => {
            assert(sweeps_on(sweep, next));
        },
        RemoveOrphanedAccounts::OpeningKeyring { .. } => {
            let (plan, done) = choose|plan: Sweep, done: int| #[trigger]
                sweep_at(
                    format,
                    run.worlds[0],
                    sweep_unhindered(run, before),
                    plan,
                    done,
                    run.progress[before],
                    run.worlds[before],
                ) && done < plan.pending@.len();
            assert(is_at(plan, done, run.progress[before]));
        },
        _ => {},
    }
    assert(state is WritingAccounts && reply is Done);
    assert(sweep_unhindered(run, end)) by {
        assert forall|i: int| 0 <= i < end implies unhindered(
            run.worlds[i],
            run.progress[i]->request,
            #[trigger] run.replies[i],
        ) by {}
    }
    assert(run.replies.last() == reply);
    law_sweep_leaves_whole_accounts_only(format, run);
}

/// Whether a sweep may ask for that: to read the list of accounts, to list the folder and the
/// keyring, to take away what is listed, and to write the list of accounts.
pub open spec fn is_sweep_request(request: Request) -> bool {
    match request {
        Request::ReadAccounts => true,
        Request::ListFolder => true,
        Request::ListKeyring => true,
        Request::RemoveListedFile(_) => true,
        Request::RemoveListedFolder(_) => true,
        Request::OpenKeyring(_) => true,
        Request::DeletePassphrase(_) => true,
        Request::EncodeAccounts(_) => true,
        Request::WriteFile(file, _) => file == AccountFile::Users,
        _ => false,
    }
}

/// A sweep asks for nothing but what it is for.
pub proof fn law_sweep_asks_for_its_own_only<E>(
    state: RemoveOrphanedAccounts,
    reply: Reply<E>,
    next: Sweeping,
)
    requires
        sweep_step(state, reply, next),
    ensures
        next matches Progress::Ask { request, .. } ==> is_sweep_request(request),
        is_sweep_request(begun_sweep()->request),
{
    match state {
        RemoveOrphanedAccounts::ListingKeyring { accounts, entries } => {
            if let Reply::Credentials(credentials) = reply {
                let plan = choose|sweep: Sweep|
                    sweeps(accounts@, parts(accounts@, entries@, credentials@), sweep)
                        && #[trigger] sweeps_on(sweep, next);
                assert(sweeps_on(plan, next));
            }
        },
        RemoveOrphanedAccounts::Removing { sweep } => {
            assert(sweeps_on(sweep, next));
        },
        _ => {},
    }
}

/// A sweep goes on though a thing is not taken away. It is over where the keyring does not open at
/// an entry that is to go, and has then changed nothing by that.
pub proof fn law_sweep_passes_over_failed_removals<E>(
    format: Format,
    run: Run<RemoveOrphanedAccounts, (), E>,
    at: int,
)
    requires
        is_sweep_run(format, run),
        0 <= at < run.replies.len(),
        run.replies[at] is Failed,
    ensures
        match run.progress[at] {
            Progress::Ask { request, .. } => match request {
                Request::RemoveListedFile(_) => run.progress[at + 1] is Ask,
                Request::RemoveListedFolder(_) => run.progress[at + 1] is Ask,
                Request::DeletePassphrase(_) => run.progress[at + 1] is Ask,
                Request::OpenKeyring(_) => run.progress[at + 1] is Finished && run.worlds[at + 1]
                    == run.worlds[at],
                _ => run.progress[at + 1] is Finished,
            },
            Progress::Finished(_) => false,
        },
{
    lemma_sweep_run(format, run, at);
    let reply = run.replies[at];
    let state = run.progress[at]->state;
    assert(sweep_step(state, reply, run.progress[at + 1]));
    if state is Removing || state is OpeningKeyring {
        let (plan, done) = choose|plan: Sweep, done: int| #[trigger]
            sweep_at(
                format,
                run.worlds[0],
                sweep_unhindered(run, at),
                plan,
                done,
                run.progress[at],
                run.worlds[at],
            ) && done < plan.pending@.len();
        assert(is_at(plan, done, run.progress[at]));
    }
}

/// How many answers a sweep that has listed everything can still have.
pub open spec fn answers_left(progress: Sweeping) -> nat {
    match progress {
        Progress::Ask { state, .. } => match state {
            RemoveOrphanedAccounts::Removing { sweep } => 2 * sweep.pending@.len() + 3,
            RemoveOrphanedAccounts::OpeningKeyring { sweep, .. } => 2 * sweep.pending@.len() + 4,
            RemoveOrphanedAccounts::EncodingAccounts => 2,
            _ => 1,
        },
        Progress::Finished(_) => 0,
    }
}

/// A sweep ends: it has listed everything, or is over, after three answers, and from there every
/// answer leaves fewer to come.
pub proof fn law_sweep_ends<E>(
    format: Format,
    run: Run<RemoveOrphanedAccounts, (), E>,
    at: int,
)
    requires
        is_sweep_run(format, run),
        0 <= at <= run.replies.len(),
    ensures
        is_listing(run.progress[at]) ==> at < 3,
        !is_listing(run.progress[at]) && at < run.replies.len() ==> {
            &&& !is_listing(run.progress[at + 1])
            &&& answers_left(run.progress[at + 1]) < answers_left(run.progress[at])
        },
{
    lemma_listing(format, run, at);
    if at < run.replies.len() {
        let reply = run.replies[at];
        let state = run.progress[at]->state;
        let next = run.progress[at + 1];
        assert(sweep_step(state, reply, next));
        if let RemoveOrphanedAccounts::Removing { sweep } = state {
            assert(sweeps_on(sweep, next));
        }
    }
}

proof fn lemma_listing<E>(format: Format, run: Run<RemoveOrphanedAccounts, (), E>, at: int)
    requires
        is_sweep_run(format, run),
        0 <= at <= run.replies.len(),
    ensures
        run.progress[at] matches Progress::Ask { state, .. } ==> match state {
            RemoveOrphanedAccounts::ReadingAccounts => at == 0,
            RemoveOrphanedAccounts::ListingFolder { .. } => at == 1,
            RemoveOrphanedAccounts::ListingKeyring { .. } => at == 2,
            _ => true,
        },
    decreases at,
{
    if at > 0 {
        let before = at - 1;
        lemma_listing(format, run, before);
        let reply = run.replies[before];
        let state = run.progress[before]->state;
        let next = run.progress[at];
        assert(sweep_step(state, reply, next));
        match state {
            RemoveOrphanedAccounts::ListingKeyring { accounts, entries } => {
                if let Reply::Credentials(credentials) = reply {
                    let plan = choose|sweep: Sweep|
                        sweeps(accounts@, parts(accounts@, entries@, credentials@), sweep)
                            && #[trigger] sweeps_on(sweep, next);
                    assert(sweeps_on(plan, next));
                }
            },
            RemoveOrphanedAccounts::Removing { sweep } => {
                assert(sweeps_on(sweep, next));
            },
            _ => {},
        }
    }
}

} // verus!
