//! Taking accounts over from another store.

use vstd::hash_set::StringHashSet;
use vstd::prelude::*;

use crate::store;
use crate::text;
use crate::types::AccountsStore;
use crate::types::ImportAccountsSummary;
use crate::types::StoreView;
use crate::types::StoredAccount;

verus! {

// ---------------------------------------------------------------------------
// Checking a store that is to be taken over
// ---------------------------------------------------------------------------

/// Why a store cannot be taken over
#[derive(Debug)]
pub enum ImportError {
    EmptyId,
    EmptyName,
    DuplicateId(String),
    DuplicateName(String),
    MissingActive(String),
}

/// What is wrong with a store.
pub enum Problem {
    EmptyId,
    EmptyName,
    DuplicateId(Seq<char>),
    DuplicateName(Seq<char>),
    MissingActive(Seq<char>),
}

impl View for ImportError {
    type V = Problem;

    open spec fn view(&self) -> Problem {
        match self {
            ImportError::EmptyId => Problem::EmptyId,
            ImportError::EmptyName => Problem::EmptyName,
            ImportError::DuplicateId(id) => Problem::DuplicateId(id@),
            ImportError::DuplicateName(name) => Problem::DuplicateName(name@),
            ImportError::MissingActive(id) => Problem::MissingActive(id@),
        }
    }
}

impl Problem {
    pub open spec fn text(self) -> Seq<char> {
        match self {
            Problem::EmptyId => "Import contains an account with empty id"@,
            Problem::EmptyName => "Import contains an account with empty name"@,
            Problem::DuplicateId(id) => "Import contains duplicate account id: "@ + id,
            Problem::DuplicateName(name) => "Import contains duplicate account name: "@ + name,
            Problem::MissingActive(id) => "Import references a missing active account: "@ + id,
        }
    }
}

impl ImportError {
    pub fn message(&self) -> (r: String)
        ensures
            r@ == self@.text(),
    {
        match self {
            ImportError::EmptyId => "Import contains an account with empty id".to_string(),
            ImportError::EmptyName => "Import contains an account with empty name".to_string(),
            ImportError::DuplicateId(id) => {
                text::joined("Import contains duplicate account id: ", id.as_str())
            },
            ImportError::DuplicateName(name) => {
                text::joined("Import contains duplicate account name: ", name.as_str())
            },
            ImportError::MissingActive(id) => {
                text::joined("Import references a missing active account: ", id.as_str())
            },
        }
    }
}

/// What is wrong with an account that follows the accounts `before`.
pub open spec fn account_problem(
    before: Seq<StoredAccount>,
    account: StoredAccount,
) -> Option<Problem> {
    if text::blank(account.id@) {
        Some(Problem::EmptyId)
    } else if text::blank(account.name@) {
        Some(Problem::EmptyName)
    } else if store::has_id(before, account.id@) {
        Some(Problem::DuplicateId(account.id@))
    } else if store::has_name(before, account.name@) {
        Some(Problem::DuplicateName(account.name@))
    } else {
        None
    }
}

/// What is wrong with the first account that something is wrong with.
pub open spec fn accounts_problem(accounts: Seq<StoredAccount>) -> Option<Problem>
    decreases accounts.len(),
{
    if accounts.len() == 0 {
        None
    } else {
        let before = accounts.drop_last();
        match accounts_problem(before) {
            Some(problem) => Some(problem),
            None => account_problem(before, accounts.last()),
        }
    }
}

/// What is wrong with a store that is to be taken over.
pub open spec fn store_problem(store: StoreView) -> Option<Problem> {
    match accounts_problem(store.accounts) {
        Some(problem) => Some(problem),
        None => match store.active {
            Some(id) if !store::has_id(store.accounts, id) => Some(Problem::MissingActive(id)),
            _ => None,
        },
    }
}

proof fn lemma_problem_stays(accounts: Seq<StoredAccount>, upto: int)
    requires
        0 <= upto <= accounts.len(),
        accounts_problem(accounts.take(upto)) is Some,
    ensures
        accounts_problem(accounts) == accounts_problem(accounts.take(upto)),
    decreases accounts.len(),
{
    if upto == accounts.len() {
        assert(accounts.take(upto) =~= accounts);
    } else {
        assert(accounts.drop_last().take(upto) =~= accounts.take(upto));
        lemma_problem_stays(accounts.drop_last(), upto);
    }
}

pub proof fn lemma_push_has(accounts: Seq<StoredAccount>, account: StoredAccount)
    ensures
        forall|id: Seq<char>| #[trigger]
            store::has_id(accounts.push(account), id) <==> (store::has_id(accounts, id) || id
                == account.id@),
        forall|name: Seq<char>| #[trigger]
            store::has_name(accounts.push(account), name) <==> (store::has_name(accounts, name)
                || name == account.name@),
{
    let more = accounts.push(account);
    assert(more[accounts.len() as int] == account);
    assert forall|id: Seq<char>| #[trigger]
        store::has_id(more, id) <==> (store::has_id(accounts, id) || id == account.id@) by {
        if store::has_id(accounts, id) {
            let i = choose|i: int| 0 <= i < accounts.len() && (#[trigger] accounts[i]).id@ == id;
            assert(more[i].id@ == id);
        }
        if store::has_id(more, id) {
            let i = choose|i: int| 0 <= i < more.len() && (#[trigger] more[i]).id@ == id;
            if i < accounts.len() {
                assert(accounts[i].id@ == id);
            }
        }
    }
    assert forall|name: Seq<char>| #[trigger]
        store::has_name(more, name) <==> (store::has_name(accounts, name) || name
            == account.name@) by {
        if store::has_name(accounts, name) {
            let i = choose|i: int|
                0 <= i < accounts.len() && (#[trigger] accounts[i]).name@ == name;
            assert(more[i].name@ == name);
        }
        if store::has_name(more, name) {
            let i = choose|i: int| 0 <= i < more.len() && (#[trigger] more[i]).name@ == name;
            if i < accounts.len() {
                assert(accounts[i].name@ == name);
            }
        }
    }
}

/// Checks a store that is to be taken over.
pub fn validate_imported_store(store: &AccountsStore) -> (r: Result<(), ImportError>)
    ensures
        match r {
            Ok(_) => store_problem(store@) is None,
            Err(error) => store_problem(store@) == Some(error@),
        },
{
    let accounts = &store.accounts;
    let mut ids = StringHashSet::new();
    let mut names = StringHashSet::new();
    let mut i: usize = 0;
    assert(accounts@.take(0) =~= Seq::<StoredAccount>::empty());
    while i < accounts.len()
        invariant
            accounts@ == store@.accounts,
            i <= accounts@.len(),
            accounts_problem(accounts@.take(i as int)) is None,
            forall|id: Seq<char>| #[trigger]
                ids@.contains(id) <==> store::has_id(accounts@.take(i as int), id),
            forall|name: Seq<char>| #[trigger]
                names@.contains(name) <==> store::has_name(accounts@.take(i as int), name),
        decreases accounts@.len() - i,
    {
        let account = &accounts[i];
        let ghost before = accounts@.take(i as int);
        proof {
            assert(accounts@.take(i + 1) =~= before.push(*account));
            assert(accounts@.take(i + 1).drop_last() =~= before);
            if account_problem(before, *account) is Some {
                lemma_problem_stays(accounts@, i + 1);
            }
            lemma_push_has(before, *account);
        }
        if text::is_blank(account.id.as_str()) {
            return Err(ImportError::EmptyId);
        }
        if text::is_blank(account.name.as_str()) {
            return Err(ImportError::EmptyName);
        }
        if ids.contains(account.id.as_str()) {
            return Err(ImportError::DuplicateId(account.id.clone()));
        }
        if names.contains(account.name.as_str()) {
            return Err(ImportError::DuplicateName(account.name.clone()));
        }
        ids.insert(account.id.clone());
        names.insert(account.name.clone());
        i = i + 1;
    }
    assert(accounts@.take(accounts@.len() as int) =~= accounts@);
    match &store.active_account_id {
        Some(id) => {
            if !ids.contains(id.as_str()) {
                return Err(ImportError::MissingActive(id.clone()));
            }
        },
        None => {},
    }
    Ok(())
}

// ---------------------------------------------------------------------------
// Merging
// ---------------------------------------------------------------------------

/// The accounts of `current`, followed by those of `imported` whose identifier
/// and name are new when they are reached.
pub open spec fn merged_accounts(
    current: Seq<StoredAccount>,
    imported: Seq<StoredAccount>,
) -> Seq<StoredAccount>
    decreases imported.len(),
{
    if imported.len() == 0 {
        current
    } else {
        let before = merged_accounts(current, imported.drop_last());
        let account = imported.last();
        if store::has_id(before, account.id@) || store::has_name(before, account.name@) {
            before
        } else {
            before.push(account)
        }
    }
}

/// The active account after a merge: the one it was, or else that of the other
/// store, or else the first one.
pub open spec fn merged_active(
    accounts: Seq<StoredAccount>,
    current: Option<Seq<char>>,
    imported: Option<Seq<char>>,
) -> Option<Seq<char>> {
    if current is Some && store::has_id(accounts, current->0) {
        current
    } else if imported is Some && store::has_id(accounts, imported->0) {
        imported
    } else {
        store::first_id(accounts)
    }
}

pub open spec fn greatest(a: u32, b: u32) -> u32 {
    if a < b {
        b
    } else {
        a
    }
}

/// The store `current` with what is new in `imported`.
pub open spec fn merged(current: StoreView, imported: StoreView) -> StoreView {
    let accounts = merged_accounts(current.accounts, imported.accounts);
    StoreView {
        version: greatest(greatest(current.version, imported.version), 1),
        accounts,
        active: merged_active(accounts, current.active, imported.active),
        masked: current.masked,
    }
}

fn larger(a: u32, b: u32) -> (r: u32)
    ensures
        r == greatest(a, b),
{
    if a < b {
        b
    } else {
        a
    }
}

/// Takes over what is new in `imported`.
pub fn merge_accounts_store(current: AccountsStore, imported: AccountsStore) -> (r: (
    AccountsStore,
    ImportAccountsSummary,
))
    ensures
        r.0@ == merged(current@, imported@),
        r.1.total_in_payload == imported@.accounts.len(),
        r.1.imported_count == r.0@.accounts.len() - current@.accounts.len(),
        r.1.skipped_count == r.1.total_in_payload - r.1.imported_count,
{
    let ghost before = current@;
    let ghost start = current.accounts@;
    let mut current = current;
    let total_in_payload: usize = imported.accounts.len();
    let mut imported_count: usize = 0;
    let mut ids = StringHashSet::new();
    let mut names = StringHashSet::new();
    let mut i: usize = 0;
    assert(start.take(0) =~= Seq::<StoredAccount>::empty());
    while i < current.accounts.len()
        invariant
            current.accounts@ == start,
            current@ == before,
            i <= start.len(),
            forall|id: Seq<char>| #[trigger]
                ids@.contains(id) <==> store::has_id(start.take(i as int), id),
            forall|name: Seq<char>| #[trigger]
                names@.contains(name) <==> store::has_name(start.take(i as int), name),
        decreases start.len() - i,
    {
        proof {
            assert(start.take(i + 1) =~= start.take(i as int).push(start[i as int]));
            lemma_push_has(start.take(i as int), start[i as int]);
        }
        ids.insert(current.accounts[i].id.clone());
        names.insert(current.accounts[i].name.clone());
        i = i + 1;
    }
    assert(start.take(start.len() as int) =~= start);
    let ghost source = imported.accounts@;
    let mut j: usize = 0;
    assert(source.take(0) =~= Seq::<StoredAccount>::empty());
    while j < imported.accounts.len()
        invariant
            imported.accounts@ == source,
            j <= source.len(),
            current.accounts@ == merged_accounts(start, source.take(j as int)),
            imported_count == current.accounts@.len() - start.len(),
            imported_count <= j,
            current.version == before.version,
            text::opt_text(current.active_account_id) == before.active,
            text::texts(current.masked_account_ids@) == before.masked,
            forall|id: Seq<char>| #[trigger]
                ids@.contains(id) <==> store::has_id(current.accounts@, id),
            forall|name: Seq<char>| #[trigger]
                names@.contains(name) <==> store::has_name(current.accounts@, name),
        decreases source.len() - j,
    {
        let account = &imported.accounts[j];
        proof {
            assert(source.take(j + 1).drop_last() =~= source.take(j as int));
            lemma_push_has(current.accounts@, *account);
        }
        if !ids.contains(account.id.as_str()) && !names.contains(account.name.as_str()) {
            ids.insert(account.id.clone());
            names.insert(account.name.clone());
            current.accounts.push(account.clone());
            imported_count = imported_count + 1;
        }
        j = j + 1;
    }
    assert(source.take(source.len() as int) =~= source);
    current.version = larger(larger(current.version, imported.version), 1);
    let current_active_is_valid = match &current.active_account_id {
        Some(id) => ids.contains(id.as_str()),
        None => false,
    };
    if !current_active_is_valid {
        let first = if current.accounts.len() > 0 {
            Some(current.accounts[0].id.clone())
        } else {
            None
        };
        match imported.active_account_id {
            Some(id) => {
                if ids.contains(id.as_str()) {
                    current.active_account_id = Some(id);
                } else {
                    current.active_account_id = first;
                }
            },
            None => {
                current.active_account_id = first;
            },
        }
    }
    let summary = ImportAccountsSummary {
        total_in_payload,
        imported_count,
        skipped_count: total_in_payload - imported_count,
    };
    (current, summary)
}

// ---------------------------------------------------------------------------
// Laws
// ---------------------------------------------------------------------------

/// Every account has an identifier and a name, both of them its own.
pub open spec fn can_be_told_apart(accounts: Seq<StoredAccount>) -> bool {
    &&& forall|i: int|
        0 <= i < accounts.len() ==> !text::blank((#[trigger] accounts[i]).id@) && !text::blank(
            accounts[i].name@,
        )
    &&& store::distinct_ids(accounts)
    &&& store::distinct_names(accounts)
}

/// Accounts that can be told apart, one of which is active, if any.
pub open spec fn is_importable(store: StoreView) -> bool {
    &&& can_be_told_apart(store.accounts)
    &&& store.active is Some ==> store::has_id(store.accounts, store.active->0)
}

proof fn lemma_told_apart_step(accounts: Seq<StoredAccount>)
    requires
        accounts.len() > 0,
    ensures
        can_be_told_apart(accounts) <==> can_be_told_apart(accounts.drop_last())
            && account_problem(accounts.drop_last(), accounts.last()) is None,
{
    let before = accounts.drop_last();
    let last = accounts.last();
    let n = before.len() as int;
    assert(forall|i: int| 0 <= i < n ==> #[trigger] before[i] == accounts[i]);
    assert(accounts[n] == last);
    if can_be_told_apart(accounts) {
        assert forall|i: int, j: int| 0 <= i < j < n implies (#[trigger] before[i]).id@ != (
        #[trigger] before[j]).id@ && before[i].name@ != before[j].name@ by {
            assert(accounts[i].id@ != accounts[j].id@);
            assert(accounts[i].name@ != accounts[j].name@);
        }
        assert forall|i: int| 0 <= i < n implies (#[trigger] before[i]).id@ != last.id@
            && before[i].name@ != last.name@ by {
            assert(accounts[i].id@ != accounts[n].id@);
            assert(accounts[i].name@ != accounts[n].name@);
        }
        assert(!text::blank(accounts[n].id@));
    }
    if can_be_told_apart(before) && account_problem(before, last) is None {
        assert forall|i: int| 0 <= i < n implies (#[trigger] before[i]).id@ != last.id@
            && before[i].name@ != last.name@ by {}
        assert forall|i: int, j: int| 0 <= i < j < accounts.len() implies (
        #[trigger] accounts[i]).id@ != (#[trigger] accounts[j]).id@ && accounts[i].name@
            != accounts[j].name@ by {
            assert(before[i] == accounts[i]);
            if j < n {
                assert(before[j] == accounts[j]);
            }
        }
        assert forall|i: int| 0 <= i < accounts.len() implies !text::blank(
            (#[trigger] accounts[i]).id@,
        ) && !text::blank(accounts[i].name@) by {
            if i < n {
                assert(before[i] == accounts[i]);
            }
        }
    }
}

proof fn lemma_no_problem(accounts: Seq<StoredAccount>)
    ensures
        accounts_problem(accounts) is None <==> can_be_told_apart(accounts),
    decreases accounts.len(),
{
    if accounts.len() > 0 {
        lemma_no_problem(accounts.drop_last());
        lemma_told_apart_step(accounts);
    }
}

/// The check of a store that is to be taken over lets exactly those stores pass in
/// which every account has an identifier and a name of its own, neither of them
/// blank, and the active account, if any, is one of the accounts.
pub proof fn law_check_is_exact(store: StoreView)
    ensures
        store_problem(store) is None <==> is_importable(store),
{
    lemma_no_problem(store.accounts);
}

/// A merge keeps every account of the current store, as it is and where it is.
pub proof fn law_merge_keeps_current(current: Seq<StoredAccount>, imported: Seq<StoredAccount>)
    ensures
        merged_accounts(current, imported).len() >= current.len(),
        merged_accounts(current, imported).take(current.len() as int) == current,
    decreases imported.len(),
{
    if imported.len() > 0 {
        law_merge_keeps_current(current, imported.drop_last());
        let before = merged_accounts(current, imported.drop_last());
        let after = merged_accounts(current, imported);
        assert(after.take(current.len() as int) =~= before.take(current.len() as int));
    } else {
        assert(current.take(current.len() as int) =~= current);
    }
}

proof fn lemma_merge_knows(
    current: Seq<StoredAccount>,
    imported: Seq<StoredAccount>,
    i: int,
)
    requires
        0 <= i < imported.len(),
    ensures
        store::has_id(merged_accounts(current, imported), imported[i].id@) || store::has_name(
            merged_accounts(current, imported),
            imported[i].name@,
        ),
    decreases imported.len(),
{
    let before = merged_accounts(current, imported.drop_last());
    lemma_push_has(before, imported.last());
    if i < imported.len() - 1 {
        lemma_merge_knows(current, imported.drop_last(), i);
    }
}

proof fn lemma_merge_grows(current: Seq<StoredAccount>, imported: Seq<StoredAccount>, upto: int)
    requires
        0 <= upto <= imported.len(),
    ensures
        merged_accounts(current, imported.take(upto)).is_prefix_of(
            merged_accounts(current, imported),
        ),
    decreases imported.len(),
{
    if upto == imported.len() {
        assert(imported.take(upto) =~= imported);
    } else {
        let front = imported.drop_last();
        assert(front.take(upto) =~= imported.take(upto));
        lemma_merge_grows(current, front, upto);
    }
}

/// After a merge, every account of the other store is there, unless an account with
/// its identifier or its name was there when it was reached.
pub proof fn law_merge_covers_import(
    current: Seq<StoredAccount>,
    imported: Seq<StoredAccount>,
    i: int,
)
    requires
        0 <= i < imported.len(),
    ensures
        ({
            let before = merged_accounts(current, imported.take(i));
            store::has_id(before, imported[i].id@) || store::has_name(before, imported[i].name@)
                || merged_accounts(current, imported).contains(imported[i])
        }),
{
    let before = merged_accounts(current, imported.take(i));
    let after = merged_accounts(current, imported.take(i + 1));
    assert(imported.take(i + 1).drop_last() =~= imported.take(i));
    lemma_merge_grows(current, imported, i + 1);
    if !store::has_id(before, imported[i].id@) && !store::has_name(before, imported[i].name@) {
        assert(after == before.push(imported[i]));
        let all = merged_accounts(current, imported);
        assert(all[before.len() as int] == after[before.len() as int]);
    }
}

/// Merging the same store a second time adds nothing.
pub proof fn law_merge_is_idempotent(current: Seq<StoredAccount>, imported: Seq<StoredAccount>)
    ensures
        merged_accounts(merged_accounts(current, imported), imported) == merged_accounts(
            current,
            imported,
        ),
{
    let once = merged_accounts(current, imported);
    assert forall|i: int| 0 <= i < imported.len() implies store::has_id(
        once,
        (#[trigger] imported[i]).id@,
    ) || store::has_name(once, imported[i].name@) by {
        lemma_merge_knows(current, imported, i);
    }
    lemma_merge_of_known(once, imported);
}

proof fn lemma_merge_of_known(current: Seq<StoredAccount>, imported: Seq<StoredAccount>)
    requires
        forall|i: int|
            0 <= i < imported.len() ==> store::has_id(current, (#[trigger] imported[i]).id@)
                || store::has_name(current, imported[i].name@),
    ensures
        merged_accounts(current, imported) == current,
    decreases imported.len(),
{
    if imported.len() > 0 {
        let front = imported.drop_last();
        assert forall|i: int| 0 <= i < front.len() implies store::has_id(
            current,
            (#[trigger] front[i]).id@,
        ) || store::has_name(current, front[i].name@) by {
            assert(front[i] == imported[i]);
        }
        lemma_merge_of_known(current, front);
        assert(imported[imported.len() - 1] == imported.last());
    }
}

proof fn lemma_merge_distinct(current: Seq<StoredAccount>, imported: Seq<StoredAccount>)
    requires
        store::distinct_ids(current),
        store::distinct_names(current),
    ensures
        store::distinct_ids(merged_accounts(current, imported)),
        store::distinct_names(merged_accounts(current, imported)),
    decreases imported.len(),
{
    if imported.len() > 0 {
        let before = merged_accounts(current, imported.drop_last());
        lemma_merge_distinct(current, imported.drop_last());
        let account = imported.last();
        if !store::has_id(before, account.id@) && !store::has_name(before, account.name@) {
            let after = before.push(account);
            assert forall|i: int, j: int| 0 <= i < j < after.len() implies (
            #[trigger] after[i]).id@ != (#[trigger] after[j]).id@ && after[i].name@
                != after[j].name@ by {
                assert(after[i] == before[i]);
                assert(before[i].id@ != account.id@);
                assert(before[i].name@ != account.name@);
                if j < before.len() {
                    assert(after[j] == before[j]);
                }
            }
        }
    }
}

/// A merge into a store whose accounts can be told apart gives a sound store,
/// whatever is taken over.
pub proof fn law_merge_is_sound(current: StoreView, imported: StoreView)
    requires
        store::distinct_ids(current.accounts),
        store::distinct_names(current.accounts),
    ensures
        store::is_sound(merged(current, imported)),
{
    lemma_merge_distinct(current.accounts, imported.accounts);
    let accounts = merged(current, imported).accounts;
    if accounts.len() > 0 {
        assert(accounts[0].id@ == store::first_id(accounts)->0);
        assert(store::has_id(accounts, accounts[0].id@));
    }
}

/// Taking a store over into an empty one gives its accounts, in their order, and
/// its active account, where it has one.
pub proof fn law_merge_into_empty(current: StoreView, imported: StoreView)
    requires
        store::is_sound(current),
        current.accounts.len() == 0,
        is_importable(imported),
    ensures
        merged(current, imported).accounts == imported.accounts,
        imported.active is Some ==> merged(current, imported).active == imported.active,
{
    lemma_merge_of_distinct(current.accounts, imported.accounts);
    assert(current.accounts + imported.accounts =~= imported.accounts);
}

proof fn lemma_merge_of_distinct(current: Seq<StoredAccount>, imported: Seq<StoredAccount>)
    requires
        current.len() == 0,
        store::distinct_ids(imported),
        store::distinct_names(imported),
    ensures
        merged_accounts(current, imported) == current + imported,
    decreases imported.len(),
{
    if imported.len() == 0 {
        assert(current + imported =~= current);
    } else {
        let front = imported.drop_last();
        assert forall|i: int, j: int| 0 <= i < j < front.len() implies (#[trigger] front[i]).id@ != (
        #[trigger] front[j]).id@ && front[i].name@ != front[j].name@ by {
            assert(imported[i].id@ != imported[j].id@);
            assert(imported[i].name@ != imported[j].name@);
        }
        lemma_merge_of_distinct(current, front);
        let before = merged_accounts(current, front);
        assert(before =~= front);
        assert forall|i: int| 0 <= i < front.len() implies (#[trigger] front[i]).id@
            != imported.last().id@ && front[i].name@ != imported.last().name@ by {
            assert(imported[i].id@ != imported[imported.len() - 1].id@);
            assert(imported[i].name@ != imported[imported.len() - 1].name@);
        }
        assert(current + imported =~= before.push(imported.last()));
    }
}

/// Where the accounts of the other store can be told apart, a merge appends to the current
/// accounts, in their order, all accounts whose identifier and name no current account
/// has, and no others.
pub proof fn law_merge_appends_what_is_new(
    current: Seq<StoredAccount>,
    imported: Seq<StoredAccount>,
)
    requires
        forall|i: int, j: int|
            0 <= i < j < imported.len() ==> (#[trigger] imported[i]).id@ != (
            #[trigger] imported[j]).id@ && imported[i].name@ != imported[j].name@,
    ensures
        merged_accounts(current, imported) == current + imported.filter(
            |account: StoredAccount|
                forall|k: int|
                    0 <= k < current.len() ==> (#[trigger] current[k]).id@ != account.id@
                        && current[k].name@ != account.name@,
        ),
    decreases imported.len(),
{
    reveal(Seq::filter);
    let is_new = |account: StoredAccount|
        forall|k: int|
            0 <= k < current.len() ==> (#[trigger] current[k]).id@ != account.id@
                && current[k].name@ != account.name@;
    if imported.len() == 0 {
        assert(current + imported.filter(is_new) =~= current);
    } else {
        let front = imported.drop_last();
        let last = imported.last();
        let n = front.len() as int;
        assert forall|i: int, j: int| 0 <= i < j < front.len() implies (#[trigger] front[i]).id@
            != (#[trigger] front[j]).id@ && front[i].name@ != front[j].name@ by {
            assert(imported[i].id@ != imported[j].id@);
        }
        law_merge_appends_what_is_new(current, front);
        let added = front.filter(is_new);
        let before = current + added;
        lemma_filter_is_part(front, is_new);
        if store::has_id(before, last.id@) || store::has_name(before, last.name@) {
            let k = if store::has_id(before, last.id@) {
                choose|k: int| 0 <= k < before.len() && (#[trigger] before[k]).id@ == last.id@
            } else {
                choose|k: int| 0 <= k < before.len() && (#[trigger] before[k]).name@ == last.name@
            };
            if k < current.len() {
                assert(current[k] == before[k]);
                assert(!is_new(last));
            } else {
                assert(added[k - current.len()] == before[k]);
                let i = choose|i: int| 0 <= i < front.len() && front[i] == before[k];
                assert(imported[i] == front[i]);
                assert(imported[n] == last);
                assert(imported[i].id@ != imported[n].id@);
                assert(false);
            }
        } else {
            assert forall|k: int| 0 <= k < current.len() implies (#[trigger] current[k]).id@
                != last.id@ && current[k].name@ != last.name@ by {
                assert(before[k] == current[k]);
            }
            assert(is_new(last));
            assert(before.push(last) =~= current + added.push(last));
        }
    }
}

proof fn lemma_filter_is_part(
    accounts: Seq<StoredAccount>,
    keep: spec_fn(StoredAccount) -> bool,
)
    ensures
        forall|c: int|
            0 <= c < accounts.filter(keep).len() ==> accounts.contains(
                #[trigger] accounts.filter(keep)[c],
            ),
    decreases accounts.len(),
{
    reveal(Seq::filter);
    if accounts.len() > 0 {
        let front = accounts.drop_last();
        lemma_filter_is_part(front, keep);
        let kept = accounts.filter(keep);
        assert forall|c: int| 0 <= c < kept.len() implies accounts.contains(#[trigger] kept[c]) by {
            if c < front.filter(keep).len() {
                assert(kept[c] == front.filter(keep)[c]);
                let i = choose|i: int| 0 <= i < front.len() && front[i] == kept[c];
                assert(accounts[i] == kept[c]);
            } else {
                assert(accounts[accounts.len() - 1] == kept[c]);
            }
        }
    }
}

/// After a merge the account that was active still is; where there was none, that of the
/// other store is, and where it had none, the first. What is hidden stays hidden, and
/// the version never falls.
pub proof fn law_merge_keeps_the_active_account(current: StoreView, imported: StoreView)
    ensures
        ({
            let after = merged(current, imported);
            let there = |id: Option<Seq<char>>|
                exists|i: int|
                    0 <= i < after.accounts.len() && Some((#[trigger] after.accounts[i]).id@) == id;
            &&& there(current.active) ==> after.active == current.active
            &&& !there(current.active) && there(imported.active) ==> after.active
                == imported.active
            &&& !there(current.active) && !there(imported.active) && after.accounts.len() > 0
                ==> after.active == Some(after.accounts[0].id@)
            &&& after.accounts.len() == 0 ==> after.active is None
            &&& after.masked == current.masked
            &&& after.version >= current.version
            &&& after.version >= imported.version
            &&& after.version >= 1
            &&& after.version == current.version || after.version == imported.version
                || after.version == 1
        }),
{
    let after = merged(current, imported);
    if current.active is Some && exists|i: int|
        0 <= i < after.accounts.len() && Some((#[trigger] after.accounts[i]).id@)
            == current.active {
        let i = choose|i: int|
            0 <= i < after.accounts.len() && Some((#[trigger] after.accounts[i]).id@)
                == current.active;
        assert(after.accounts[i].id@ == current.active->0);
    }
    if imported.active is Some && exists|i: int|
        0 <= i < after.accounts.len() && Some((#[trigger] after.accounts[i]).id@)
            == imported.active {
        let i = choose|i: int|
            0 <= i < after.accounts.len() && Some((#[trigger] after.accounts[i]).id@)
                == imported.active;
        assert(after.accounts[i].id@ == imported.active->0);
    }
}

proof fn lemma_import_problem_stays(accounts: Seq<StoredAccount>, k: int)
    requires
        0 <= k <= accounts.len(),
        accounts_problem(accounts.take(k)) is Some,
    ensures
        accounts_problem(accounts) == accounts_problem(accounts.take(k)),
    decreases accounts.len(),
{
    if k < accounts.len() {
        assert(accounts.drop_last().take(k) =~= accounts.take(k));
        lemma_import_problem_stays(accounts.drop_last(), k);
    } else {
        assert(accounts.take(k) =~= accounts);
    }
}

/// The problem that is told is that of the first account that has one: a blank identifier
/// or name, or one that an account before it has.
pub proof fn law_first_import_problem_is_told(store: StoreView, k: int)
    requires
        0 <= k < store.accounts.len(),
        store_problem(StoreView { accounts: store.accounts.take(k), active: None, ..store }) is None,
    ensures
        ({
            let account = store.accounts[k];
            let problem = store_problem(store);
            let id_taken = exists|i: int|
                0 <= i < k && (#[trigger] store.accounts[i]).id@ == account.id@;
            let name_taken = exists|i: int|
                0 <= i < k && (#[trigger] store.accounts[i]).name@ == account.name@;
            &&& text::blank(account.id@) ==> problem == Some(Problem::EmptyId)
            &&& !text::blank(account.id@) && text::blank(account.name@) ==> problem == Some(
                Problem::EmptyName,
            )
            &&& !text::blank(account.id@) && !text::blank(account.name@) && id_taken ==> problem
                == Some(Problem::DuplicateId(account.id@))
            &&& !text::blank(account.id@) && !text::blank(account.name@) && !id_taken && name_taken
                ==> problem == Some(Problem::DuplicateName(account.name@))
        }),
{
    let accounts = store.accounts;
    let account = accounts[k];
    let front = accounts.take(k);
    assert forall|i: int| 0 <= i < k implies front[i] == #[trigger] accounts[i] by {}
    if exists|i: int| 0 <= i < k && (#[trigger] accounts[i]).id@ == account.id@ {
        let i = choose|i: int| 0 <= i < k && (#[trigger] accounts[i]).id@ == account.id@;
        assert(front[i].id@ == account.id@);
    }
    if store::has_id(front, account.id@) {
        let i = choose|i: int| 0 <= i < front.len() && (#[trigger] front[i]).id@ == account.id@;
        assert(accounts[i].id@ == account.id@);
    }
    if exists|i: int| 0 <= i < k && (#[trigger] accounts[i]).name@ == account.name@ {
        let i = choose|i: int| 0 <= i < k && (#[trigger] accounts[i]).name@ == account.name@;
        assert(front[i].name@ == account.name@);
    }
    assert(accounts.take(k + 1).drop_last() =~= front);
    assert(accounts.take(k + 1).last() == account);
    if account_problem(front, account) is Some {
        lemma_import_problem_stays(accounts, k + 1);
    }
}

/// An active account that is not one of the accounts is named, where nothing else is
/// wrong.
pub proof fn law_missing_active_account_is_told(store: StoreView, id: Seq<char>)
    requires
        store_problem(StoreView { active: None, ..store }) is None,
        store.active == Some(id),
        forall|i: int| 0 <= i < store.accounts.len() ==> (#[trigger] store.accounts[i]).id@ != id,
    ensures
        store_problem(store) == Some(Problem::MissingActive(id)),
{
}

} // verus!
