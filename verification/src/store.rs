//! What can be done to the store of accounts.

use vstd::prelude::*;

use crate::clock;
use crate::clock::Timestamp;
use crate::text;
use crate::types;
use crate::types::AccountsStore;
use crate::types::AppSettings;
use crate::types::StoreView;
use crate::types::StoredAccount;
use crate::words;

verus! {

// ---------------------------------------------------------------------------
// Errors
// ---------------------------------------------------------------------------

/// Why the store was not changed
#[derive(Debug)]
pub enum StoreError {
    /// Another account has this name.
    NameTaken(String),
    /// No account has this identifier.
    UnknownAccount(String),
    /// The account to update is not there.
    NotFound,
    /// The account has no OAuth tokens to update.
    NotOAuth,
}

impl StoreError {
    pub open spec fn text(self) -> Seq<char> {
        match self {
            StoreError::NameTaken(name) => "An account with name '"@ + name@ + "' already exists"@,
            StoreError::UnknownAccount(id) => "Account not found: "@ + id@,
            StoreError::NotFound => "Account not found"@,
            StoreError::NotOAuth => "Cannot update OAuth tokens for this account type"@,
        }
    }

    pub fn message(&self) -> (r: String)
        ensures
            r@ == self.text(),
    {
        match self {
            StoreError::NameTaken(name) => {
                let start = text::joined("An account with name '", name.as_str());
                text::joined(start.as_str(), "' already exists")
            },
            StoreError::UnknownAccount(id) => text::joined("Account not found: ", id.as_str()),
            StoreError::NotFound => "Account not found".to_string(),
            StoreError::NotOAuth => {
                "Cannot update OAuth tokens for this account type".to_string()
            },
        }
    }
}

// ---------------------------------------------------------------------------
// Model
// ---------------------------------------------------------------------------

/// The first account with the identifier `id`.
pub open spec fn position(accounts: Seq<StoredAccount>, id: Seq<char>) -> Option<int>
    decreases accounts.len(),
{
    if accounts.len() == 0 {
        None
    } else if accounts[0].id@ == id {
        Some(0)
    } else {
        match position(accounts.drop_first(), id) {
            Some(at) => Some(at + 1),
            None => None,
        }
    }
}

pub open spec fn has_id(accounts: Seq<StoredAccount>, id: Seq<char>) -> bool {
    exists|i: int| 0 <= i < accounts.len() && (#[trigger] accounts[i]).id@ == id
}

pub open spec fn has_name(accounts: Seq<StoredAccount>, name: Seq<char>) -> bool {
    exists|i: int| 0 <= i < accounts.len() && (#[trigger] accounts[i]).name@ == name
}

/// The account with the identifier `id`.
pub open spec fn account_with(accounts: Seq<StoredAccount>, id: Seq<char>) -> Option<
    StoredAccount,
> {
    match position(accounts, id) {
        Some(at) => Some(accounts[at]),
        None => None,
    }
}

/// The identifier of the first account.
pub open spec fn first_id(accounts: Seq<StoredAccount>) -> Option<Seq<char>> {
    if accounts.len() == 0 {
        None
    } else {
        Some(accounts[0].id@)
    }
}

/// The accounts whose identifier is not `id`.
pub open spec fn without(accounts: Seq<StoredAccount>, id: Seq<char>) -> Seq<StoredAccount>
    decreases accounts.len(),
{
    if accounts.len() == 0 {
        Seq::empty()
    } else {
        let before = without(accounts.drop_last(), id);
        if accounts.last().id@ == id {
            before
        } else {
            before.push(accounts.last())
        }
    }
}

/// The store with a new account at its end. The first account becomes active.
pub open spec fn added(store: StoreView, account: StoredAccount) -> StoreView {
    StoreView {
        accounts: store.accounts.push(account),
        active: if store.accounts.len() == 0 {
            Some(account.id@)
        } else {
            store.active
        },
        ..store
    }
}

/// The store without an account. Where it was active, the first account that is
/// left becomes active.
pub open spec fn removed(store: StoreView, id: Seq<char>) -> StoreView {
    let accounts = without(store.accounts, id);
    StoreView {
        accounts,
        active: if store.active == Some(id) {
            first_id(accounts)
        } else {
            store.active
        },
        ..store
    }
}

/// An account with new metadata, where there is any.
pub open spec fn revised(
    account: StoredAccount,
    name: Option<String>,
    email: Option<String>,
    plan_type: Option<String>,
    subscription_expires_at: Option<Option<Timestamp>>,
) -> StoredAccount {
    StoredAccount {
        name: match name {
            Some(name) => name,
            None => account.name,
        },
        email: match email {
            Some(email) => Some(email),
            None => account.email,
        },
        plan_type: match plan_type {
            Some(plan_type) => Some(plan_type),
            None => account.plan_type,
        },
        subscription_expires_at: match subscription_expires_at {
            Some(expires_at) => expires_at,
            None => account.subscription_expires_at,
        },
        ..account
    }
}

/// Another account than the one with the identifier `id` has the name.
pub open spec fn taken_by_other(
    accounts: Seq<StoredAccount>,
    id: Seq<char>,
    name: Seq<char>,
) -> bool {
    exists|i: int|
        0 <= i < accounts.len() && (#[trigger] accounts[i]).id@ != id && accounts[i].name@ == name
}

/// The store after a switch to an account.
pub open spec fn switched(store: StoreView, id: Seq<char>, now: Timestamp) -> StoreView {
    StoreView {
        accounts: match position(store.accounts, id) {
            Some(at) => store.accounts.update(
                at,
                StoredAccount { last_used_at: Some(now), ..store.accounts[at] },
            ),
            None => store.accounts,
        },
        active: Some(id),
        ..store
    }
}

pub proof fn lemma_position(accounts: Seq<StoredAccount>, id: Seq<char>)
    ensures
        position(accounts, id) matches Some(at) ==> {
            &&& 0 <= at < accounts.len()
            &&& accounts[at].id@ == id
            &&& forall|i: int| 0 <= i < at ==> (#[trigger] accounts[i]).id@ != id
        },
        position(accounts, id) is None ==> forall|i: int|
            0 <= i < accounts.len() ==> (#[trigger] accounts[i]).id@ != id,
        position(accounts, id) is Some <==> has_id(accounts, id),
    decreases accounts.len(),
{
    if accounts.len() > 0 && accounts[0].id@ != id {
        let rest = accounts.drop_first();
        lemma_position(rest, id);
        assert forall|i: int| 0 < i < accounts.len() implies #[trigger] accounts[i] == rest[
            i - 1
        ] by {}
        if position(rest, id) is Some {
            assert(accounts[position(rest, id)->0 + 1].id@ == id);
        }
    }
}

// ---------------------------------------------------------------------------
// Looking for accounts
// ---------------------------------------------------------------------------

/// Where the first account with the identifier stands.
pub fn find(accounts: &Vec<StoredAccount>, id: &str) -> (r: Option<usize>)
    ensures
        match r {
            Some(at) => at < accounts@.len() && position(accounts@, id@) == Some(at as int),
            None => position(accounts@, id@) is None,
        },
{
    let mut i: usize = 0;
    assert(accounts@.skip(0) =~= accounts@);
    while i < accounts.len()
        invariant
            i <= accounts@.len(),
            position(accounts@, id@) == (match position(accounts@.skip(i as int), id@) {
                Some(at) => Some(at + i),
                None => None,
            }),
        decreases accounts@.len() - i,
    {
        proof {
            assert(accounts@.skip(i as int)[0] == accounts@[i as int]);
            assert(accounts@.skip(i as int).drop_first() =~= accounts@.skip(i + 1));
        }
        if text::same(accounts[i].id.as_str(), id) {
            return Some(i);
        }
        i = i + 1;
    }
    None
}

/// Whether an account has the name.
pub fn name_is_taken(accounts: &Vec<StoredAccount>, name: &str) -> (r: bool)
    ensures
        r == has_name(accounts@, name@),
{
    let mut i: usize = 0;
    while i < accounts.len()
        invariant
            i <= accounts@.len(),
            forall|k: int| 0 <= k < i ==> (#[trigger] accounts@[k]).name@ != name@,
        decreases accounts@.len() - i,
    {
        if text::same(accounts[i].name.as_str(), name) {
            assert(accounts@[i as int].name@ == name@);
            return true;
        }
        i = i + 1;
    }
    false
}

/// The account with the identifier.
pub fn get_account(store: &AccountsStore, account_id: &str) -> (r: Option<StoredAccount>)
    ensures
        r == account_with(store@.accounts, account_id@),
{
    match find(&store.accounts, account_id) {
        Some(at) => Some(store.accounts[at].clone()),
        None => None,
    }
}

/// The active account.
pub open spec fn active_account(store: StoreView) -> Option<StoredAccount> {
    match store.active {
        Some(id) => account_with(store.accounts, id),
        None => None,
    }
}

/// The active account.
pub fn get_active_account(store: &AccountsStore) -> (r: Option<StoredAccount>)
    ensures
        r == active_account(store@),
{
    match &store.active_account_id {
        Some(id) => get_account(store, id.as_str()),
        None => None,
    }
}

// ---------------------------------------------------------------------------
// Changing the store
// ---------------------------------------------------------------------------

/// The store after an account was to be added, and what is handed back.
pub open spec fn is_addition(
    before: StoreView,
    after: StoreView,
    account: StoredAccount,
    r: Result<StoredAccount, StoreError>,
) -> bool {
    match r {
        Ok(stored) => {
            &&& !has_name(before.accounts, account.name@)
            &&& stored == account
            &&& after == added(before, account)
        },
        Err(error) => {
            &&& has_name(before.accounts, account.name@)
            &&& error == StoreError::NameTaken(account.name)
            &&& after == before
        },
    }
}

/// Adds an account, unless another one has its name.
pub fn add_account(store: &mut AccountsStore, account: StoredAccount) -> (r: Result<
    StoredAccount,
    StoreError,
>)
    ensures
        is_addition(old(store)@, final(store)@, account, r),
{
    if name_is_taken(&store.accounts, account.name.as_str()) {
        return Err(StoreError::NameTaken(account.name));
    }
    let stored = account.clone();
    store.accounts.push(account);
    if store.accounts.len() == 1 {
        store.active_account_id = Some(stored.id.clone());
    }
    Ok(stored)
}

/// The first account's identifier.
fn first_account_id(accounts: &Vec<StoredAccount>) -> (r: Option<String>)
    ensures
        text::opt_text(r) == first_id(accounts@),
{
    if accounts.len() == 0 {
        None
    } else {
        Some(accounts[0].id.clone())
    }
}

proof fn lemma_without_step(accounts: Seq<StoredAccount>, id: Seq<char>, at: int)
    requires
        0 <= at < accounts.len(),
    ensures
        accounts[at].id@ == id ==> without(accounts.take(at + 1), id) == without(
            accounts.take(at),
            id,
        ),
        accounts[at].id@ != id ==> without(accounts.take(at + 1), id) == without(
            accounts.take(at),
            id,
        ).push(accounts[at]),
{
    assert(accounts.take(at + 1).drop_last() =~= accounts.take(at));
}

proof fn lemma_without(accounts: Seq<StoredAccount>, id: Seq<char>)
    ensures
        without(accounts, id).len() <= accounts.len(),
        without(accounts, id).len() == accounts.len() <==> !has_id(accounts, id),
        !has_id(accounts, id) ==> without(accounts, id) == accounts,
    decreases accounts.len(),
{
    if accounts.len() > 0 {
        let front = accounts.drop_last();
        lemma_without(front, id);
        assert(forall|i: int| 0 <= i < front.len() ==> #[trigger] front[i] == accounts[i]);
        if has_id(front, id) {
            let i = choose|i: int| 0 <= i < front.len() && (#[trigger] front[i]).id@ == id;
            assert(accounts[i].id@ == id);
        }
        if accounts.last().id@ == id {
            assert(accounts[accounts.len() - 1].id@ == id);
        } else if !has_id(front, id) {
            assert forall|i: int| 0 <= i < accounts.len() implies (#[trigger] accounts[i]).id@
                != id by {
                if i < front.len() {
                    assert(front[i].id@ != id);
                }
            }
            assert(front.push(accounts.last()) =~= accounts);
        }
    }
}

/// The store after an account was to be removed, and what is handed back.
pub open spec fn is_removal(
    before: StoreView,
    after: StoreView,
    id: Seq<char>,
    r: Result<(), StoreError>,
) -> bool {
    match r {
        Ok(_) => {
            &&& has_id(before.accounts, id)
            &&& after == removed(before, id)
        },
        Err(error) => {
            &&& !has_id(before.accounts, id)
            &&& error matches StoreError::UnknownAccount(unknown) && unknown@ == id
            &&& after == before
        },
    }
}

/// Removes the account with the identifier.
pub fn remove_account(store: &mut AccountsStore, account_id: &str) -> (r: Result<(), StoreError>)
    ensures
        is_removal(old(store)@, final(store)@, account_id@, r),
{
    let initial_len: usize = store.accounts.len();
    let ghost all = store.accounts@;
    let ghost before = *store;
    let mut at: usize = 0;
    let ghost mut done: int = 0;
    assert(all.take(0) =~= Seq::<StoredAccount>::empty());
    assert(store.accounts@ =~= without(all.take(0), account_id@) + all.skip(0));
    while at < store.accounts.len()
        invariant
            0 <= done <= all.len(),
            at == without(all.take(done), account_id@).len(),
            store.accounts@ == without(all.take(done), account_id@) + all.skip(done),
            store.version == before.version,
            store.active_account_id == before.active_account_id,
            store.masked_account_ids == before.masked_account_ids,
        decreases store.accounts@.len() - at,
    {
        let ghost kept = without(all.take(done), account_id@);
        proof {
            lemma_without_step(all, account_id@, done);
            assert(store.accounts@[at as int] == all[done]);
        }
        if text::same(store.accounts[at].id.as_str(), account_id) {
            store.accounts.remove(at);
            assert(store.accounts@ =~= kept + all.skip(done + 1));
        } else {
            assert(store.accounts@ =~= kept.push(all[done]) + all.skip(done + 1));
            at = at + 1;
        }
        proof {
            done = done + 1;
        }
    }
    proof {
        assert(done == all.len());
        assert(all.take(done) =~= all);
        assert(store.accounts@ =~= without(all, account_id@));
        lemma_without(all, account_id@);
    }
    if store.accounts.len() == initial_len {
        return Err(StoreError::UnknownAccount(account_id.to_string()));
    }
    if text::same_opt(text::as_opt_str(&store.active_account_id), Some(account_id)) {
        store.active_account_id = first_account_id(&store.accounts);
    }
    Ok(())
}

fn name_is_taken_by_other(accounts: &Vec<StoredAccount>, id: &str, name: &str) -> (r: bool)
    ensures
        r == taken_by_other(accounts@, id@, name@),
{
    let mut i: usize = 0;
    while i < accounts.len()
        invariant
            i <= accounts@.len(),
            forall|k: int|
                0 <= k < i ==> !((#[trigger] accounts@[k]).id@ != id@ && accounts@[k].name@
                    == name@),
        decreases accounts@.len() - i,
    {
        if !text::same(accounts[i].id.as_str(), id) && text::same(
            accounts[i].name.as_str(),
            name,
        ) {
            assert(accounts@[i as int].id@ != id@);
            return true;
        }
        i = i + 1;
    }
    false
}

/// The name that an update gives is taken by another account.
pub open spec fn new_name_taken(
    accounts: Seq<StoredAccount>,
    id: Seq<char>,
    name: Option<String>,
) -> bool {
    match name {
        Some(name) => taken_by_other(accounts, id, name@),
        None => false,
    }
}

/// The store after an update of the metadata of an account, and what is handed back.
pub open spec fn is_updated(
    before: StoreView,
    after: StoreView,
    id: Seq<char>,
    name: Option<String>,
    email: Option<String>,
    plan_type: Option<String>,
    subscription_expires_at: Option<Option<Timestamp>>,
    r: Result<StoredAccount, StoreError>,
) -> bool {
    match r {
        Ok(account) => {
            &&& !new_name_taken(before.accounts, id, name)
            &&& position(before.accounts, id) matches Some(at)
            &&& account == revised(
                before.accounts[at],
                name,
                email,
                plan_type,
                subscription_expires_at,
            )
            &&& after == (StoreView { accounts: before.accounts.update(at, account), ..before })
        },
        Err(error) => {
            &&& after == before
            &&& if new_name_taken(before.accounts, id, name) {
                error == StoreError::NameTaken(name->0)
            } else {
                position(before.accounts, id) is None && error == StoreError::NotFound
            }
        },
    }
}

/// Updates the metadata of an account, as far as it is given.
pub fn update_account_metadata(
    store: &mut AccountsStore,
    account_id: &str,
    name: Option<String>,
    email: Option<String>,
    plan_type: Option<String>,
    subscription_expires_at: Option<Option<Timestamp>>,
) -> (r: Result<StoredAccount, StoreError>)
    ensures
        is_updated(
            old(store)@,
            final(store)@,
            account_id@,
            name,
            email,
            plan_type,
            subscription_expires_at,
            r,
        ),
{
    match &name {
        Some(new_name) => {
            if name_is_taken_by_other(&store.accounts, account_id, new_name.as_str()) {
                return Err(StoreError::NameTaken(new_name.clone()));
            }
        },
        None => {},
    }
    let at: usize = match find(&store.accounts, account_id) {
        Some(at) => at,
        None => {
            return Err(StoreError::NotFound);
        },
    };
    let mut account = store.accounts[at].clone();
    match name {
        Some(new_name) => {
            account.name = new_name;
        },
        None => {},
    }
    match email {
        Some(email) => {
            account.email = Some(email);
        },
        None => {},
    }
    match plan_type {
        Some(plan_type) => {
            account.plan_type = Some(plan_type);
        },
        None => {},
    }
    match subscription_expires_at {
        Some(expires_at) => {
            account.subscription_expires_at = expires_at;
        },
        None => {},
    }
    let stored = account.clone();
    store.accounts.set(at, account);
    Ok(stored)
}

/// The accounts that are hidden.
pub fn get_masked_account_ids(store: &AccountsStore) -> (r: Vec<String>)
    ensures
        text::texts(r@) == store@.masked,
{
    let mut r: Vec<String> = Vec::new();
    let mut i: usize = 0;
    let ghost all = store@.masked;
    assert(text::texts(r@) =~= all.take(0));
    while i < store.masked_account_ids.len()
        invariant
            all == text::texts(store.masked_account_ids@),
            i <= store.masked_account_ids@.len(),
            text::texts(r@) == all.take(i as int),
        decreases store.masked_account_ids@.len() - i,
    {
        let id = store.masked_account_ids[i].clone();
        proof {
            words::lemma_texts_push(r@, id);
            assert(all.take(i + 1) =~= all.take(i as int).push(all[i as int]));
        }
        r.push(id);
        i = i + 1;
    }
    assert(all.take(all.len() as int) =~= all);
    r
}

/// Hides exactly the accounts `ids`.
pub fn set_masked_account_ids(store: &mut AccountsStore, ids: Vec<String>)
    ensures
        final(store)@ == (StoreView { masked: text::texts(ids@), ..old(store)@ }),
{
    store.masked_account_ids = ids;
}

/// Makes the account with the identifier the active one, as of now.
pub fn mark_switched(store: &mut AccountsStore, account_id: &str)
    ensures
        exists|now: Timestamp| #[trigger]
            clock::is_reading(now) && final(store)@ == switched(old(store)@, account_id@, now),
{
    let now = clock::utc_now();
    mark_switched_at(store, account_id, now);
}

/// Makes the account with the identifier the active one, as of `now`.
pub fn mark_switched_at(store: &mut AccountsStore, account_id: &str, now: Timestamp)
    ensures
        final(store)@ == switched(old(store)@, account_id@, now),
{
    store.active_account_id = Some(account_id.to_string());
    match find(&store.accounts, account_id) {
        Some(at) => {
            let mut account = store.accounts[at].clone();
            account.last_used_at = Some(now);
            store.accounts.set(at, account);
        },
        None => {},
    }
}

// ---------------------------------------------------------------------------
// Loading
// ---------------------------------------------------------------------------

/// The file holds something.
pub open spec fn holds_data(content: Option<Seq<char>>) -> bool {
    match content {
        Some(content) => !text::blank(content),
        None => false,
    }
}

/// Whether a file, which may be missing, holds something to read.
pub fn file_holds_data(content: Option<&str>) -> (r: bool)
    ensures
        r == holds_data(text::opt_str(content)),
{
    match content {
        Some(content) => !text::is_blank(content),
        None => false,
    }
}

/// The store that is loaded from a file with the given content, where `parsed` is what
/// could be read of it.
pub open spec fn is_loaded(
    loaded: Option<AccountsStore>,
    content: Option<Seq<char>>,
    parsed: Option<AccountsStore>,
) -> bool {
    match loaded {
        Some(store) => if holds_data(content) {
            parsed == Some(store)
        } else {
            store@ == types::empty_store()
        },
        None => holds_data(content) && parsed is None,
    }
}

/// The store in a file with the given content, where `parsed` is what could be
/// read of it. A missing or empty file is a store without accounts; a file that
/// holds something else is never taken for one, so that it is not overwritten.
pub fn load_accounts(content: Option<&str>, parsed: Option<AccountsStore>) -> (r: Option<
    AccountsStore,
>)
    ensures
        is_loaded(r, text::opt_str(content), parsed),
{
    if file_holds_data(content) {
        parsed
    } else {
        Some(AccountsStore::default())
    }
}

/// The settings that are loaded from a file.
pub open spec fn loaded_settings(
    content: Option<Seq<char>>,
    parsed: Option<AppSettings>,
) -> Option<AppSettings> {
    if holds_data(content) {
        parsed
    } else {
        Some(types::default_settings())
    }
}

/// The settings in a file with the given content, where `parsed` is what could be
/// read of it.
pub fn load_app_settings(content: Option<&str>, parsed: Option<AppSettings>) -> (r: Option<
    AppSettings,
>)
    ensures
        r == loaded_settings(text::opt_str(content), parsed),
{
    if file_holds_data(content) {
        parsed
    } else {
        Some(AppSettings::default())
    }
}

// ---------------------------------------------------------------------------
// What every change keeps
// ---------------------------------------------------------------------------

/// No two accounts have the same identifier.
pub open spec fn distinct_ids(accounts: Seq<StoredAccount>) -> bool {
    forall|i: int, j: int|
        0 <= i < j < accounts.len() ==> (#[trigger] accounts[i]).id@ != (#[trigger]
        accounts[j]).id@
}

/// No two accounts have the same name.
pub open spec fn distinct_names(accounts: Seq<StoredAccount>) -> bool {
    forall|i: int, j: int|
        0 <= i < j < accounts.len() ==> (#[trigger] accounts[i]).name@ != (#[trigger]
        accounts[j]).name@
}

/// A store as this application keeps it: accounts can be told apart by their
/// identifier and by their name, and one of them is active, if there is any.
pub open spec fn is_sound(store: StoreView) -> bool {
    &&& distinct_ids(store.accounts)
    &&& distinct_names(store.accounts)
    &&& match store.active {
        Some(id) => has_id(store.accounts, id),
        None => store.accounts.len() == 0,
    }
}

/// A new store is sound.
pub proof fn law_empty_store_is_sound()
    ensures
        is_sound(types::empty_store()),
{
}

/// Adding an account with a new name and a new identifier keeps a store sound,
/// and the account can be found in it.
pub proof fn law_add_keeps_sound(store: StoreView, account: StoredAccount)
    requires
        is_sound(store),
        !has_name(store.accounts, account.name@),
        !has_id(store.accounts, account.id@),
    ensures
        is_sound(added(store, account)),
        account_with(added(store, account).accounts, account.id@) == Some(account),
{
    let more = added(store, account).accounts;
    let n = store.accounts.len() as int;
    assert(more[n] == account);
    assert forall|i: int| 0 <= i < n implies #[trigger] more[i] == store.accounts[i]
        && store.accounts[i].id@ != account.id@ && store.accounts[i].name@ != account.name@ by {
        assert(store.accounts[i].id@ != account.id@);
        assert(store.accounts[i].name@ != account.name@);
    }
    if n > 0 {
        let active = store.active->0;
        let i = choose|i: int|
            0 <= i < store.accounts.len() && (#[trigger] store.accounts[i]).id@ == active;
        assert(more[i].id@ == active);
    }
    lemma_position(more, account.id@);
}

/// What the accounts that are left were before.
proof fn lemma_without_members(accounts: Seq<StoredAccount>, id: Seq<char>)
    ensures
        forall|k: int|
            0 <= k < without(accounts, id).len() ==> {
                &&& (#[trigger] without(accounts, id)[k]).id@ != id
                &&& accounts.contains(without(accounts, id)[k])
            },
        forall|i: int|
            0 <= i < accounts.len() && (#[trigger] accounts[i]).id@ != id ==> without(
                accounts,
                id,
            ).contains(accounts[i]),
    decreases accounts.len(),
{
    if accounts.len() > 0 {
        let front = accounts.drop_last();
        let before = without(front, id);
        let now = without(accounts, id);
        lemma_without_members(front, id);
        assert forall|k: int| 0 <= k < now.len() implies {
            &&& (#[trigger] now[k]).id@ != id
            &&& accounts.contains(now[k])
        } by {
            if k < before.len() {
                assert(before[k] == now[k]);
                let i = choose|i: int| 0 <= i < front.len() && front[i] == before[k];
                assert(accounts[i] == now[k]);
            } else {
                assert(accounts[accounts.len() - 1] == now[k]);
            }
        }
        assert forall|i: int|
            0 <= i < accounts.len() && (#[trigger] accounts[i]).id@ != id implies now.contains(
            accounts[i],
        ) by {
            if i < front.len() {
                assert(front[i] == accounts[i]);
                let k = choose|k: int| 0 <= k < before.len() && before[k] == front[i];
                assert(now[k] == accounts[i]);
            } else {
                assert(now[now.len() - 1] == accounts[i]);
            }
        }
    }
}

proof fn lemma_without_distinct(accounts: Seq<StoredAccount>, id: Seq<char>)
    requires
        distinct_ids(accounts),
        distinct_names(accounts),
    ensures
        distinct_ids(without(accounts, id)),
        distinct_names(without(accounts, id)),
    decreases accounts.len(),
{
    if accounts.len() > 0 {
        let front = accounts.drop_last();
        let before = without(front, id);
        let now = without(accounts, id);
        assert forall|i: int, j: int| 0 <= i < j < front.len() implies (#[trigger] front[i]).id@ != (
        #[trigger] front[j]).id@ && front[i].name@ != front[j].name@ by {
            assert(accounts[i].id@ != accounts[j].id@);
            assert(accounts[i].name@ != accounts[j].name@);
        }
        lemma_without_distinct(front, id);
        lemma_without_members(front, id);
        if accounts.last().id@ != id {
            assert forall|k: int| 0 <= k < before.len() implies (#[trigger] before[k]).id@
                != accounts.last().id@ && before[k].name@ != accounts.last().name@ by {
                let i = choose|i: int| 0 <= i < front.len() && front[i] == before[k];
                assert(accounts[i] == before[k]);
                assert(accounts[i].id@ != accounts[accounts.len() - 1].id@);
                assert(accounts[i].name@ != accounts[accounts.len() - 1].name@);
            }
        }
    }
}

/// Removing an account keeps a store sound. The account is gone, and every other
/// account is still there.
pub proof fn law_remove_keeps_sound(store: StoreView, id: Seq<char>)
    requires
        is_sound(store),
        has_id(store.accounts, id),
    ensures
        is_sound(removed(store, id)),
        !has_id(removed(store, id).accounts, id),
        forall|other: Seq<char>|
            other != id && #[trigger] has_id(store.accounts, other) ==> has_id(
                removed(store, id).accounts,
                other,
            ),
{
    let left = removed(store, id).accounts;
    lemma_without_members(store.accounts, id);
    lemma_without_distinct(store.accounts, id);
    assert forall|other: Seq<char>|
        other != id && #[trigger] has_id(store.accounts, other) implies has_id(left, other) by {
        let i = choose|i: int|
            0 <= i < store.accounts.len() && (#[trigger] store.accounts[i]).id@ == other;
        assert(left.contains(store.accounts[i]));
        let k = choose|k: int| 0 <= k < left.len() && left[k] == store.accounts[i];
        assert(left[k].id@ == other);
    }
    if store.active == Some(id) && left.len() > 0 {
        assert(left[0].id@ == first_id(left)->0);
    }
}

/// Updating an account to a name that no other account has keeps a store sound.
pub proof fn law_update_keeps_sound(
    store: StoreView,
    id: Seq<char>,
    name: Option<String>,
    email: Option<String>,
    plan_type: Option<String>,
    subscription_expires_at: Option<Option<Timestamp>>,
)
    requires
        is_sound(store),
        has_id(store.accounts, id),
        !new_name_taken(store.accounts, id, name),
    ensures
        ({
            let at = position(store.accounts, id)->0;
            let account = revised(
                store.accounts[at],
                name,
                email,
                plan_type,
                subscription_expires_at,
            );
            is_sound(StoreView { accounts: store.accounts.update(at, account), ..store })
        }),
{
    lemma_position(store.accounts, id);
    let at = position(store.accounts, id)->0;
    let account = revised(store.accounts[at], name, email, plan_type, subscription_expires_at);
    let now = store.accounts.update(at, account);
    assert(forall|i: int| 0 <= i < now.len() ==> (#[trigger] now[i]).id@ == store.accounts[i].id@);
    assert forall|i: int, j: int| 0 <= i < j < now.len() implies (#[trigger] now[i]).name@ != (
    #[trigger] now[j]).name@ by {
        assert(store.accounts[i].id@ != store.accounts[j].id@);
        assert(store.accounts[i].name@ != store.accounts[j].name@);
    }
    let active = store.active->0;
    let k = choose|k: int|
        0 <= k < store.accounts.len() && (#[trigger] store.accounts[k]).id@ == active;
    assert(now[k].id@ == active);
}

/// Switching to an account keeps a store sound, makes the account active, and
/// changes nothing else of it than when it was last used.
pub proof fn law_switch_keeps_sound(store: StoreView, id: Seq<char>, now: Timestamp)
    requires
        is_sound(store),
        has_id(store.accounts, id),
    ensures
        is_sound(switched(store, id, now)),
        ({
            let before = account_with(store.accounts, id)->0;
            active_account(switched(store, id, now)) == Some(
                StoredAccount { last_used_at: Some(now), ..before },
            )
        }),
{
    lemma_position(store.accounts, id);
    let at = position(store.accounts, id)->0;
    let after = switched(store, id, now).accounts;
    assert(forall|i: int|
        0 <= i < after.len() ==> (#[trigger] after[i]).id@ == store.accounts[i].id@
            && after[i].name@ == store.accounts[i].name@);
    assert(after[at].id@ == id);
    lemma_position(after, id);
    let found = position(after, id)->0;
    if found < at {
        assert(store.accounts[found].id@ == id);
    }
    assert(found == at);
}

/// Removing an account that was just added gives the accounts back as they were.
pub proof fn law_remove_undoes_add(store: StoreView, account: StoredAccount)
    requires
        !has_id(store.accounts, account.id@),
    ensures
        removed(added(store, account), account.id@).accounts == store.accounts,
        store.accounts.len() > 0 && store.active != Some(account.id@) ==> removed(
            added(store, account),
            account.id@,
        ) == store,
{
    let more = store.accounts.push(account);
    assert(more.drop_last() =~= store.accounts);
    lemma_without(store.accounts, account.id@);
}

/// An account is added exactly where no account has its name. It comes last, the others
/// stay where they are, and it becomes active only where it is the first.
pub proof fn law_added_account_comes_last(
    before: StoreView,
    after: StoreView,
    account: StoredAccount,
    r: Result<StoredAccount, StoreError>,
)
    requires
        is_addition(before, after, account, r),
    ensures
        r is Err <==> exists|i: int|
            0 <= i < before.accounts.len() && (#[trigger] before.accounts[i]).name@
                == account.name@,
        r is Err ==> after == before,
        r matches Err(error) ==> error == StoreError::NameTaken(account.name),
        r matches Ok(stored) ==> {
            &&& stored == account
            &&& after.accounts == before.accounts + seq![account]
            &&& before.accounts.len() == 0 ==> after.active == Some(account.id@)
            &&& before.accounts.len() > 0 ==> after.active == before.active
            &&& after.version == before.version
            &&& after.masked == before.masked
        },
{
    assert(before.accounts.push(account) =~= before.accounts + seq![account]);
}

proof fn lemma_without_filters(accounts: Seq<StoredAccount>, id: Seq<char>)
    ensures
        without(accounts, id) == accounts.filter(|account: StoredAccount| account.id@ != id),
    decreases accounts.len(),
{
    reveal(Seq::filter);
    if accounts.len() > 0 {
        lemma_without_filters(accounts.drop_last(), id);
    }
}

/// An account is removed exactly where there is one with its identifier. The accounts
/// with other identifiers are left in their order; the first of them becomes active
/// where the removed one was, and the active account stays what it was otherwise.
pub proof fn law_removed_account_is_gone(
    before: StoreView,
    after: StoreView,
    id: Seq<char>,
    r: Result<(), StoreError>,
)
    requires
        is_removal(before, after, id, r),
    ensures
        r is Ok <==> exists|i: int|
            0 <= i < before.accounts.len() && (#[trigger] before.accounts[i]).id@ == id,
        r is Err ==> after == before,
        r matches Err(error) ==> (error matches StoreError::UnknownAccount(unknown) && unknown@
            == id),
        r is Ok ==> {
            &&& after.accounts == before.accounts.filter(
                |account: StoredAccount| account.id@ != id,
            )
            &&& before.active != Some(id) ==> after.active == before.active
            &&& before.active == Some(id) && after.accounts.len() > 0 ==> after.active == Some(
                after.accounts[0].id@,
            )
            &&& before.active == Some(id) && after.accounts.len() == 0 ==> after.active is None
            &&& after.version == before.version
            &&& after.masked == before.masked
        },
{
    lemma_without_filters(before.accounts, id);
}

/// An update changes what is given of the metadata of one account, and nothing else: not
/// its credentials, not the other accounts, not which account is active.
pub proof fn law_update_changes_what_is_given(
    before: StoreView,
    after: StoreView,
    id: Seq<char>,
    name: Option<String>,
    email: Option<String>,
    plan_type: Option<String>,
    subscription_expires_at: Option<Option<Timestamp>>,
    r: Result<StoredAccount, StoreError>,
    i: int,
)
    requires
        is_updated(
            before,
            after,
            id,
            name,
            email,
            plan_type,
            subscription_expires_at,
            r,
        ),
        0 <= i < before.accounts.len(),
        before.accounts[i].id@ == id,
        forall|j: int| 0 <= j < i ==> (#[trigger] before.accounts[j]).id@ != id,
    ensures
        r is Err <==> (name matches Some(wanted) && exists|j: int|
            0 <= j < before.accounts.len() && (#[trigger] before.accounts[j]).id@ != id
                && before.accounts[j].name@ == wanted@),
        r is Err ==> after == before,
        r matches Ok(account) ==> {
            let old_account = before.accounts[i];
            &&& after.accounts == before.accounts.update(i, account)
            &&& account.name == (if name is Some {
                name->0
            } else {
                old_account.name
            })
            &&& account.email == (if email is Some {
                email
            } else {
                old_account.email
            })
            &&& account.plan_type == (if plan_type is Some {
                plan_type
            } else {
                old_account.plan_type
            })
            &&& account.subscription_expires_at == (if subscription_expires_at is Some {
                subscription_expires_at->0
            } else {
                old_account.subscription_expires_at
            })
            &&& account.id == old_account.id
            &&& account.auth_mode == old_account.auth_mode
            &&& account.auth_data == old_account.auth_data
            &&& account.created_at == old_account.created_at
            &&& account.last_used_at == old_account.last_used_at
            &&& after.version == before.version
            &&& after.active == before.active
            &&& after.masked == before.masked
        },
{
    lemma_position(before.accounts, id);
    let at = position(before.accounts, id)->0;
    assert(before.accounts[at].id@ == id);
    assert(at == i);
}

/// An account that is not there is not updated, and an account keeps its name without
/// standing in its own way.
pub proof fn law_update_needs_the_account(
    before: StoreView,
    after: StoreView,
    id: Seq<char>,
    name: Option<String>,
    email: Option<String>,
    plan_type: Option<String>,
    subscription_expires_at: Option<Option<Timestamp>>,
    r: Result<StoredAccount, StoreError>,
)
    requires
        is_updated(
            before,
            after,
            id,
            name,
            email,
            plan_type,
            subscription_expires_at,
            r,
        ),
    ensures
        (forall|i: int| 0 <= i < before.accounts.len() ==> (#[trigger] before.accounts[i]).id@ != id)
            ==> r is Err && after == before,
        r matches Err(error) ==> error == StoreError::NotFound || (name is Some && error
            == StoreError::NameTaken(name->0)),
        r == Err::<StoredAccount, StoreError>(StoreError::NotFound) ==> forall|i: int|
            0 <= i < before.accounts.len() ==> (#[trigger] before.accounts[i]).id@ != id,
        (exists|i: int| 0 <= i < before.accounts.len() && (#[trigger] before.accounts[i]).id@ == id)
            && (forall|i: int|
            0 <= i < before.accounts.len() && (#[trigger] before.accounts[i]).id@ != id
                ==> (name matches Some(wanted)
                ==> before.accounts[i].name@ != wanted@)) ==> r is Ok,
{
    lemma_position(before.accounts, id);
}

/// A switch makes the account with the identifier active and notes when; everything else
/// stays as it was.
pub proof fn law_switch_notes_the_time(store: StoreView, id: Seq<char>, now: Timestamp, i: int)
    requires
        0 <= i < store.accounts.len(),
        store.accounts[i].id@ == id,
        forall|j: int| 0 <= j < i ==> (#[trigger] store.accounts[j]).id@ != id,
    ensures
        switched(store, id, now).active == Some(id),
        switched(store, id, now).accounts == store.accounts.update(
            i,
            StoredAccount { last_used_at: Some(now), ..store.accounts[i] },
        ),
        switched(store, id, now).masked == store.masked,
        switched(store, id, now).version == store.version,
{
    lemma_position(store.accounts, id);
    let at = position(store.accounts, id)->0;
    assert(store.accounts[at].id@ == id);
    assert(at == i);
}

/// The account that is found has the identifier that was looked for, and is the first;
/// none is found only where there is none. The active account is found so.
pub proof fn law_accounts_are_found_by_identifier(store: StoreView, id: Seq<char>)
    ensures
        match account_with(store.accounts, id) {
            Some(account) => exists|i: int|
                {
                    &&& 0 <= i < store.accounts.len()
                    &&& #[trigger] store.accounts[i] == account
                    &&& account.id@ == id
                    &&& forall|j: int| 0 <= j < i ==> (#[trigger] store.accounts[j]).id@ != id
                },
            None => forall|i: int|
                0 <= i < store.accounts.len() ==> (#[trigger] store.accounts[i]).id@ != id,
        },
        store.active == Some(id) ==> active_account(store) == account_with(store.accounts, id),
        store.active is None ==> active_account(store) is None,
{
    lemma_position(store.accounts, id);
    if position(store.accounts, id) is Some {
        let at = position(store.accounts, id)->0;
        assert(store.accounts[at] == account_with(store.accounts, id)->0);
    }
}

/// What cannot be read is never taken for an empty store, and only a file that is
/// missing or blank is.
pub proof fn law_unreadable_files_are_not_empty(
    loaded: Option<AccountsStore>,
    content: Option<Seq<char>>,
    parsed: Option<AccountsStore>,
)
    requires
        is_loaded(loaded, content, parsed),
    ensures
        content is Some && !text::blank(content->0) ==> loaded == parsed,
        content is None || text::blank(content->0) ==> (loaded matches Some(store)
            && store@.accounts.len() == 0 && store@.active is None && store@.masked.len() == 0),
{
}

/// Settings that are missing are the default ones, and those that cannot be read are not.
pub proof fn law_missing_settings_are_the_default(
    content: Option<Seq<char>>,
    parsed: Option<AppSettings>,
)
    ensures
        content is Some && !text::blank(content->0) ==> loaded_settings(content, parsed) == parsed,
        content is None || text::blank(content->0) ==> loaded_settings(content, parsed) == Some(
            types::default_settings(),
        ),
{
}

} // verus!
