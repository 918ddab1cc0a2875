//! What the user can do with accounts.

use vstd::prelude::*;

use crate::auth_file;
use crate::auth_file::AuthImportError;
use crate::claims;
use crate::claims::AccountInfo;
use crate::clock;
use crate::closing;
use crate::merging;
use crate::merging::ImportError;
use crate::store;
use crate::store::StoreError;
use crate::text;
use crate::types::AccountsStore;
use crate::types::AuthDotJson;
use crate::types::AuthView;
use crate::types::ImportAccountsSummary;
use crate::types::StoreView;
use crate::types::StoredAccount;

verus! {

/// What is shown of all accounts.
pub open spec fn is_list(store: StoreView, shown: Seq<AccountInfo>) -> bool {
    shown == store.accounts.map_values(
        |account: StoredAccount| claims::shown(account, store.active),
    )
}

/// What is shown of the active account.
pub open spec fn is_active_info(store: StoreView, shown: Option<AccountInfo>) -> bool {
    shown == (match store::active_account(store) {
        Some(account) => Some(claims::shown(account, store.active)),
        None => None,
    })
}

/// All accounts as they are shown.
pub fn list_accounts(store: &AccountsStore) -> (r: Vec<AccountInfo>)
    ensures
        is_list(store@, r@),
{
    let ghost all = store@.accounts.map_values(
        |account: StoredAccount| claims::shown(account, store@.active),
    );
    let mut r: Vec<AccountInfo> = Vec::new();
    let mut i: usize = 0;
    while i < store.accounts.len()
        invariant
            all == store@.accounts.map_values(
                |account: StoredAccount| claims::shown(account, store@.active),
            ),
            i <= store.accounts@.len(),
            r@ == all.take(i as int),
        decreases store.accounts@.len() - i,
    {
        let active = text::as_opt_str(&store.active_account_id);
        r.push(AccountInfo::from_stored(&store.accounts[i], active));
        i = i + 1;
        assert(r@ =~= all.take(i as int));
    }
    assert(all.take(all.len() as int) =~= all);
    r
}

/// The active account as it is shown.
pub fn get_active_account_info(store: &AccountsStore) -> (r: Option<AccountInfo>)
    ensures
        is_active_info(store@, r),
{
    match store::get_active_account(store) {
        Some(account) => {
            let active = text::as_opt_str(&store.active_account_id);
            Some(AccountInfo::from_stored(&account, active))
        },
        None => None,
    }
}

/// Of all accounts that are shown, the active one and no other is marked as active.
pub proof fn law_one_account_is_shown_as_active(store: StoreView, i: int, j: int)
    requires
        store::is_sound(store),
        0 <= i < store.accounts.len(),
        0 <= j < store.accounts.len(),
    ensures
        claims::shown(store.accounts[i], store.active).is_active <==> store::active_account(store)
            == Some(store.accounts[i]),
        claims::shown(store.accounts[i], store.active).is_active && claims::shown(
            store.accounts[j],
            store.active,
        ).is_active ==> i == j,
{
    if store.active is Some {
        store::lemma_position(store.accounts, store.active->0);
        let at = store::position(store.accounts, store.active->0)->0;
        if store.accounts[i].id@ == store.active->0 && i != at {
            assert(store.accounts[i].id@ != store.accounts[at].id@);
        }
        if i < j {
            assert(store.accounts[i].id@ != store.accounts[j].id@);
        } else if j < i {
            assert(store.accounts[j].id@ != store.accounts[i].id@);
        }
    }
}

// ---------------------------------------------------------------------------
// Adding
// ---------------------------------------------------------------------------

/// Why an account was not added
#[derive(Debug)]
pub enum AddError {
    NameRequired,
    TokenRequired,
    Unusable(AuthImportError),
    Store(StoreError),
}

impl AddError {
    pub fn message(&self) -> (r: String)
        ensures
            r@ == (match *self {
                AddError::NameRequired => "Account name is required"@,
                AddError::TokenRequired => "Access token is required"@,
                AddError::Unusable(error) => error.text(),
                AddError::Store(error) => error.text(),
            }),
    {
        match self {
            AddError::NameRequired => "Account name is required".to_string(),
            AddError::TokenRequired => "Access token is required".to_string(),
            AddError::Unusable(error) => error.message(),
            AddError::Store(error) => error.message(),
        }
    }
}

/// The store after an account with a Codex access token was to be added, and what is
/// handed back.
pub open spec fn is_token_addition(
    before: StoreView,
    after: StoreView,
    name: Seq<char>,
    access_token: Seq<char>,
    r: Result<AccountInfo, AddError>,
) -> bool {
    match r {
        Ok(info) => {
            &&& !text::blank(name)
            &&& !text::blank(access_token)
            &&& !store::has_name(before.accounts, text::trim_of(name))
            &&& exists|account: StoredAccount|
                {
                    &&& #[trigger] store::added(before, account) == after
                    &&& claims::is_access_token_account(
                        account,
                        text::trim_of(name),
                        text::trim_of(access_token),
                        claims::access_token_claims(text::trim_of(access_token)),
                    )
                    &&& clock::is_uuid_v4(account.id@)
                    &&& clock::is_reading(account.created_at)
                    &&& info == claims::shown(account, after.active)
                }
        },
        Err(error) => {
            &&& after == before
            &&& if text::blank(name) {
                error == AddError::NameRequired
            } else if text::blank(access_token) {
                error == AddError::TokenRequired
            } else {
                &&& store::has_name(before.accounts, text::trim_of(name))
                &&& error matches AddError::Store(StoreError::NameTaken(taken)) && taken@
                    == text::trim_of(name)
            }
        },
    }
}

/// Adds an account with a Codex access token. White space around the name and the
/// token is dropped.
pub fn add_account_from_access_token(
    store: &mut AccountsStore,
    name: &str,
    access_token: &str,
) -> (r: Result<AccountInfo, AddError>)
    ensures
        is_token_addition(old(store)@, final(store)@, name@, access_token@, r),
{
    proof {
        text::lemma_blank_iff_trim_empty(name@);
        text::lemma_blank_iff_trim_empty(access_token@);
    }
    let name = text::trim(name);
    if name.as_str().is_empty() {
        return Err(AddError::NameRequired);
    }
    let token = text::trim(access_token);
    if token.as_str().is_empty() {
        return Err(AddError::TokenRequired);
    }
    let account = StoredAccount::new_codex_access_token(name, token);
    add_new_account(store, account)
}

/// The store after an account was to be added, and how it is shown.
pub open spec fn is_shown_addition(
    before: StoreView,
    after: StoreView,
    account: StoredAccount,
    r: Result<AccountInfo, AddError>,
) -> bool {
    match r {
        Ok(info) => {
            &&& !store::has_name(before.accounts, account.name@)
            &&& after == store::added(before, account)
            &&& info == claims::shown(account, after.active)
        },
        Err(error) => {
            &&& after == before
            &&& store::has_name(before.accounts, account.name@)
            &&& error == AddError::Store(StoreError::NameTaken(account.name))
        },
    }
}

/// Adds an account and shows it.
fn add_new_account(store: &mut AccountsStore, account: StoredAccount) -> (r: Result<
    AccountInfo,
    AddError,
>)
    ensures
        is_shown_addition(old(store)@, final(store)@, account, r),
{
    match store::add_account(store, account) {
        Ok(stored) => {
            let active = text::as_opt_str(&store.active_account_id);
            Ok(AccountInfo::from_stored(&stored, active))
        },
        Err(error) => Err(AddError::Store(error)),
    }
}

/// The store after the account of an auth.json was to be added, and what is handed back.
pub open spec fn is_import_addition(
    before: StoreView,
    after: StoreView,
    auth: AuthView,
    name: String,
    r: Result<AccountInfo, AddError>,
) -> bool {
    match r {
        Ok(info) => {
            &&& auth_file::import_error(auth) is None
            &&& !store::has_name(before.accounts, name@)
            &&& exists|account: StoredAccount|
                {
                    &&& #[trigger] store::added(before, account) == after
                    &&& auth_file::is_import_of(account, auth, name)
                    &&& clock::is_uuid_v4(account.id@)
                    &&& clock::is_reading(account.created_at)
                    &&& info == claims::shown(account, after.active)
                }
        },
        Err(error) => {
            &&& after == before
            &&& match auth_file::import_error(auth) {
                Some(problem) => error == AddError::Unusable(problem),
                None => {
                    &&& store::has_name(before.accounts, name@)
                    &&& error matches AddError::Store(StoreError::NameTaken(taken)) && taken@
                        == name@
                },
            }
        },
    }
}

/// Adds the account that an auth.json makes.
pub fn add_account_from_auth_json_text(
    store: &mut AccountsStore,
    name: String,
    auth: AuthDotJson,
) -> (r: Result<AccountInfo, AddError>)
    ensures
        is_import_addition(old(store)@, final(store)@, auth@, name, r),
{
    match auth_file::import_from_auth_json_contents(auth, name) {
        Ok(account) => add_new_account(store, account),
        Err(error) => Err(AddError::Unusable(error)),
    }
}

// ---------------------------------------------------------------------------
// Switching, renaming, removing
// ---------------------------------------------------------------------------

/// Why accounts were not switched
#[derive(Debug)]
pub enum SwitchError {
    /// Codex processes are active; the text says so.
    Running(String),
    Store(StoreError),
}

impl SwitchError {
    pub fn message(&self) -> (r: String)
        ensures
            r@ == (match *self {
                SwitchError::Running(message) => message@,
                SwitchError::Store(error) => error.text(),
            }),
    {
        match self {
            SwitchError::Running(message) => message.clone(),
            SwitchError::Store(error) => error.message(),
        }
    }
}

/// What a request to switch gives.
pub open spec fn is_switch(
    store: StoreView,
    account_id: Seq<char>,
    running: Seq<u32>,
    r: Result<StoredAccount, SwitchError>,
) -> bool {
    match r {
        Ok(account) => running.len() == 0 && store::account_with(
            store.accounts,
            account_id,
        ) == Some(account),
        Err(error) => if running.len() > 0 {
            error matches SwitchError::Running(message) && message@ == closing::switch_block(
                running.len(),
            )
        } else {
            &&& store::account_with(store.accounts, account_id) is None
            &&& error matches SwitchError::Store(StoreError::UnknownAccount(id)) && id@
                == account_id
        },
    }
}

/// The account to switch to, if no Codex process of `running` is in the way. Once
/// Codex uses it, `store::mark_switched` makes it the active one.
pub fn switch_account_by_id(store: &AccountsStore, account_id: &str, running: &Vec<u32>) -> (r:
    Result<StoredAccount, SwitchError>)
    ensures
        is_switch(store@, account_id@, running@, r),
{
    match closing::ensure_codex_not_running(running) {
        Ok(_) => {},
        Err(message) => {
            return Err(SwitchError::Running(message));
        },
    }
    match store::get_account(store, account_id) {
        Some(account) => Ok(account),
        None => Err(SwitchError::Store(StoreError::UnknownAccount(account_id.to_string()))),
    }
}

/// The store after an account was to get another name.
pub open spec fn is_renaming(
    before: StoreView,
    after: StoreView,
    account_id: Seq<char>,
    new_name: String,
    r: Result<(), StoreError>,
) -> bool {
    match r {
        Ok(_) => {
            &&& !store::taken_by_other(before.accounts, account_id, new_name@)
            &&& store::position(before.accounts, account_id) matches Some(at)
            &&& after == (StoreView {
                accounts: before.accounts.update(
                    at,
                    StoredAccount { name: new_name, ..before.accounts[at] },
                ),
                ..before
            })
        },
        Err(error) => {
            &&& after == before
            &&& if store::taken_by_other(before.accounts, account_id, new_name@) {
                error == StoreError::NameTaken(new_name)
            } else {
                store::position(before.accounts, account_id) is None && error
                    == StoreError::NotFound
            }
        },
    }
}

/// Gives an account another name.
pub fn rename_account(store: &mut AccountsStore, account_id: &str, new_name: String) -> (r: Result<
    (),
    StoreError,
>)
    ensures
        is_renaming(old(store)@, final(store)@, account_id@, new_name, r),
{
    match store::update_account_metadata(store, account_id, Some(new_name), None, None, None) {
        Ok(_) => Ok(()),
        Err(error) => Err(error),
    }
}

/// Removes an account.
pub fn delete_account(store: &mut AccountsStore, account_id: &str) -> (r: Result<(), StoreError>)
    ensures
        store::is_removal(old(store)@, final(store)@, account_id@, r),
{
    store::remove_account(store, account_id)
}

// ---------------------------------------------------------------------------
// Taking over
// ---------------------------------------------------------------------------

/// The store after another one was to be taken over, and the counts that are handed back.
pub open spec fn is_import(
    before: StoreView,
    after: StoreView,
    imported: StoreView,
    r: Result<ImportAccountsSummary, ImportError>,
) -> bool {
    match r {
        Ok(summary) => {
            &&& merging::store_problem(imported) is None
            &&& after == merging::merged(before, imported)
            &&& summary.total_in_payload == imported.accounts.len()
            &&& summary.imported_count == after.accounts.len()
                - before.accounts.len()
            &&& summary.skipped_count == summary.total_in_payload - summary.imported_count
        },
        Err(error) => merging::store_problem(imported) == Some(error@) && after
            == before,
    }
}

/// Takes over the accounts of another store that are new, if nothing is wrong with
/// it.
pub fn import_store(store: &mut AccountsStore, imported: AccountsStore) -> (r: Result<
    ImportAccountsSummary,
    ImportError,
>)
    ensures
        is_import(old(store)@, final(store)@, imported@, r),
{
    match merging::validate_imported_store(&imported) {
        Ok(_) => {},
        Err(error) => {
            return Err(error);
        },
    }
    let mut current = AccountsStore::default();
    std::mem::swap(&mut current, store);
    let (merged, summary) = merging::merge_accounts_store(current, imported);
    *store = merged;
    Ok(summary)
}

// ---------------------------------------------------------------------------
// What holds of the operations
// ---------------------------------------------------------------------------

/// Every account is shown, in the order of the store and under its own name.
pub proof fn law_every_account_is_shown(store: StoreView, shown: Seq<AccountInfo>)
    requires
        is_list(store, shown),
    ensures
        shown.len() == store.accounts.len(),
        forall|i: int|
            #![trigger shown[i]]
            #![trigger store.accounts[i]]
            0 <= i < shown.len() ==> {
                &&& shown[i].id == store.accounts[i].id
                &&& shown[i].name == store.accounts[i].name
                &&& shown[i].email == store.accounts[i].email
                &&& shown[i].plan_type == store.accounts[i].plan_type
                &&& shown[i].auth_mode == store.accounts[i].auth_mode
                &&& shown[i].is_active <==> store.active == Some(store.accounts[i].id@)
            },
{
}

/// The account that is shown as the active one has the identifier of the active account,
/// and there is one exactly where the store holds that account.
pub proof fn law_active_account_is_shown(store: StoreView, shown: Option<AccountInfo>)
    requires
        is_active_info(store, shown),
    ensures
        shown matches Some(info) ==> info.is_active && store.active == Some(info.id@),
        shown is Some <==> exists|i: int|
            0 <= i < store.accounts.len() && store.active == Some(
                (#[trigger] store.accounts[i]).id@,
            ),
{
    if store.active is Some {
        store::lemma_position(store.accounts, store.active->0);
        if store::position(store.accounts, store.active->0) is Some {
            let at = store::position(store.accounts, store.active->0)->0;
            assert(store.active == Some(store.accounts[at].id@));
        }
    }
}

/// An account with an access token is added exactly where a name and a token are given
/// and the name, without the white space around it, is free. It comes last and holds the
/// token without the white space around it. The accounts that were there stay.
pub proof fn law_access_tokens_are_added(
    before: StoreView,
    after: StoreView,
    name: Seq<char>,
    access_token: Seq<char>,
    r: Result<AccountInfo, AddError>,
)
    requires
        is_token_addition(before, after, name, access_token, r),
    ensures
        r is Ok <==> {
            &&& !text::blank(name)
            &&& !text::blank(access_token)
            &&& forall|i: int|
                0 <= i < before.accounts.len() ==> (#[trigger] before.accounts[i]).name@
                    != text::trim_of(name)
        },
        r is Err ==> after == before,
        r matches Ok(info) ==> {
            let account = after.accounts.last();
            &&& after.accounts == before.accounts + seq![account]
            &&& account.name@ == text::trim_of(name)
            &&& account.auth_data is CodexAccessToken
            &&& account.auth_data->CodexAccessToken_token@ == text::trim_of(access_token)
            &&& info.id == account.id
            &&& info.name == account.name
            &&& before.accounts.len() == 0 ==> after.active == Some(account.id@)
            &&& before.accounts.len() > 0 ==> after.active == before.active
            &&& info.is_active <==> after.active == Some(account.id@)
        },
{
    if r is Ok {
        let account = choose|account: StoredAccount|
            {
                &&& #[trigger] store::added(before, account) == after
                &&& claims::is_access_token_account(
                    account,
                    text::trim_of(name),
                    text::trim_of(access_token),
                    claims::access_token_claims(text::trim_of(access_token)),
                )
                &&& clock::is_uuid_v4(account.id@)
                &&& clock::is_reading(account.created_at)
                &&& r->Ok_0 == claims::shown(account, after.active)
            };
        assert(after.accounts.last() == account);
        assert(after.accounts =~= before.accounts + seq![account]);
    }
}

/// The error of an account that is not added tells what is wrong with it: the name is
/// looked at first, then the token, then whether the name is free.
pub proof fn law_first_problem_of_an_account_is_told(
    before: StoreView,
    after: StoreView,
    name: Seq<char>,
    access_token: Seq<char>,
    r: Result<AccountInfo, AddError>,
)
    requires
        is_token_addition(before, after, name, access_token, r),
    ensures
        text::blank(name) <==> (r matches Err(error) && error == AddError::NameRequired),
        !text::blank(name) && text::blank(access_token) <==> (r matches Err(error) && error
            == AddError::TokenRequired),
        r matches Err(AddError::Store(error)) ==> (error matches StoreError::NameTaken(taken)
            && taken@ == text::trim_of(name)),
{
}

/// The account of an auth.json is added exactly where the file can be used and the name is
/// free. It comes last, and the accounts that were there stay.
pub proof fn law_auth_files_are_added(
    before: StoreView,
    after: StoreView,
    auth: AuthView,
    name: String,
    r: Result<AccountInfo, AddError>,
)
    requires
        is_import_addition(before, after, auth, name, r),
    ensures
        r is Ok <==> {
            &&& auth_file::import_error(auth) is None
            &&& forall|i: int|
                0 <= i < before.accounts.len() ==> (#[trigger] before.accounts[i]).name@ != name@
        },
        r is Err ==> after == before,
        r matches Ok(info) ==> {
            let account = after.accounts.last();
            &&& after.accounts == before.accounts + seq![account]
            &&& account.name@ == name@
            &&& auth.openai_api_key is Some ==> account.auth_data is ApiKey
                && account.auth_data->ApiKey_key@ == auth.openai_api_key->0
            &&& auth.openai_api_key is None && auth.tokens is Some
                ==> account.auth_data is ChatGPT && account.auth_data->ChatGPT_access_token@
                == auth.tokens->0.access_token && account.auth_data->ChatGPT_refresh_token@
                == auth.tokens->0.refresh_token
            &&& info.id == account.id
            &&& info.name == account.name
            &&& before.accounts.len() == 0 ==> after.active == Some(account.id@)
            &&& before.accounts.len() > 0 ==> after.active == before.active
        },
{
    if r is Ok {
        let account = choose|account: StoredAccount|
            {
                &&& #[trigger] store::added(before, account) == after
                &&& auth_file::is_import_of(account, auth, name)
                &&& clock::is_uuid_v4(account.id@)
                &&& clock::is_reading(account.created_at)
                &&& r->Ok_0 == claims::shown(account, after.active)
            };
        assert(after.accounts.last() == account);
        assert(after.accounts =~= before.accounts + seq![account]);
        auth_file::law_import_takes_the_credentials(account, auth, name);
    }
}

/// A switch goes through exactly where no Codex process runs and the store holds the
/// account, and the account it goes to is the one with the identifier that was asked for.
/// Processes are told before an unknown account is.
pub proof fn law_running_processes_stop_a_switch(
    store: StoreView,
    account_id: Seq<char>,
    running: Seq<u32>,
    r: Result<StoredAccount, SwitchError>,
)
    requires
        is_switch(store, account_id, running, r),
    ensures
        r is Ok <==> running.len() == 0 && exists|i: int|
            0 <= i < store.accounts.len() && (#[trigger] store.accounts[i]).id@ == account_id,
        r matches Ok(account) ==> store.accounts.contains(account) && account.id@ == account_id,
        r matches Err(error) ==> (error is Running <==> running.len() > 0),
        r matches Err(SwitchError::Store(error)) ==> (error matches StoreError::UnknownAccount(id)
            && id@ == account_id),
{
    store::lemma_position(store.accounts, account_id);
    if store::position(store.accounts, account_id) is Some {
        let at = store::position(store.accounts, account_id)->0;
        assert(store.accounts[at].id@ == account_id);
    }
}

/// An account gets the new name exactly where it is there and no other account has that
/// name. Nothing else of it changes, and nothing of the other accounts.
pub proof fn law_renaming_changes_the_name(
    before: StoreView,
    after: StoreView,
    account_id: Seq<char>,
    new_name: String,
    r: Result<(), StoreError>,
    i: int,
)
    requires
        is_renaming(before, after, account_id, new_name, r),
        store::distinct_ids(before.accounts),
        0 <= i < before.accounts.len(),
    ensures
        before.accounts[i].id@ == account_id ==> (r is Ok <==> forall|j: int|
            0 <= j < before.accounts.len() && j != i ==> (#[trigger] before.accounts[j]).name@
                != new_name@),
        r is Err ==> after == before,
        before.accounts[i].id@ == account_id ==> (r matches Err(error) ==> error
            == StoreError::NameTaken(new_name)),
        r is Ok ==> {
            &&& after.accounts.len() == before.accounts.len()
            &&& after.active == before.active
            &&& before.accounts[i].id@ != account_id ==> after.accounts[i] == before.accounts[i]
            &&& before.accounts[i].id@ == account_id ==> after.accounts[i] == (StoredAccount {
                name: new_name,
                ..before.accounts[i]
            })
        },
{
    store::lemma_position(before.accounts, account_id);
    if before.accounts[i].id@ == account_id {
        let at = store::position(before.accounts, account_id)->0;
        if at < i {
            assert(before.accounts[at].id@ != before.accounts[i].id@);
        }
        assert(at == i);
        assert forall|j: int|
            0 <= j < before.accounts.len() && j != i implies (#[trigger] before.accounts[j]).id@
            != account_id by {
            if j < i {
                assert(before.accounts[j].id@ != before.accounts[i].id@);
            } else {
                assert(before.accounts[i].id@ != before.accounts[j].id@);
            }
        }
    }
}

/// What is taken over comes after the accounts that were there, which stay. Each account
/// that was offered is counted once, as taken over or as left out.
pub proof fn law_import_keeps_the_accounts(
    before: StoreView,
    after: StoreView,
    imported: StoreView,
    r: Result<ImportAccountsSummary, ImportError>,
)
    requires
        is_import(before, after, imported, r),
    ensures
        r is Err ==> after == before,
        r matches Ok(summary) ==> {
            &&& after.accounts.len() >= before.accounts.len()
            &&& after.accounts.take(before.accounts.len() as int) == before.accounts
            &&& summary.total_in_payload == imported.accounts.len()
            &&& summary.imported_count == after.accounts.len() - before.accounts.len()
            &&& summary.imported_count + summary.skipped_count == summary.total_in_payload
        },
{
    merging::law_merge_keeps_current(before.accounts, imported.accounts);
}

} // verus!
