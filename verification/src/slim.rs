//! The compact text that carries the least an account needs.
//!
//! The text is a prefix and, in URL-safe base64, the compressed JSON document of
//! a [`SlimPayload`]. Of a ChatGPT account it carries the refresh token only.

use vstd::hash_set::StringHashSet;
use vstd::prelude::*;

use crate::encoding;
use crate::numerals;
use crate::store;
use crate::text;
use crate::types::AccountsStore;
use crate::types::AuthData;
use crate::types::ImportAccountsSummary;
use crate::types::StoreView;
use crate::types::StoredAccount;
use crate::vault;
use crate::vault::InflateError;
use crate::vault::InflateProblem;
use crate::words;

verus! {

pub const SLIM_EXPORT_PREFIX: &'static str = "css1.";

pub const SLIM_FORMAT_VERSION: u8 = 1;

pub const SLIM_AUTH_API_KEY: u8 = 0;

pub const SLIM_AUTH_CHATGPT: u8 = 1;

/// How many accounts are restored at the same time.
pub const SLIM_IMPORT_CONCURRENCY: usize = 6;

/// What the compact text carries
#[derive(Debug)]
pub struct SlimPayload {
    pub version: u8,
    pub active_name: Option<String>,
    pub accounts: Vec<SlimAccountPayload>,
}

/// What the compact text carries of an account
#[derive(Debug)]
pub struct SlimAccountPayload {
    pub name: String,
    pub auth_type: u8,
    pub api_key: Option<String>,
    pub refresh_token: Option<String>,
}

/// What is carried of an account.
pub struct SlimAccountView {
    pub name: Seq<char>,
    pub auth_type: u8,
    pub api_key: Option<Seq<char>>,
    pub refresh_token: Option<Seq<char>>,
}

impl View for SlimAccountPayload {
    type V = SlimAccountView;

    open spec fn view(&self) -> SlimAccountView {
        SlimAccountView {
            name: self.name@,
            auth_type: self.auth_type,
            api_key: text::opt_text(self.api_key),
            refresh_token: text::opt_text(self.refresh_token),
        }
    }
}

/// What is carried.
pub struct SlimView {
    pub version: u8,
    pub active_name: Option<Seq<char>>,
    pub accounts: Seq<SlimAccountView>,
}

impl View for SlimPayload {
    type V = SlimView;

    open spec fn view(&self) -> SlimView {
        SlimView {
            version: self.version,
            active_name: text::opt_text(self.active_name),
            accounts: self.accounts@.map_values(|account: SlimAccountPayload| account@),
        }
    }
}

// ---------------------------------------------------------------------------
// What is carried of a store
// ---------------------------------------------------------------------------

/// What is carried of an account. An account with a Codex access token cannot be
/// carried.
pub open spec fn slim_account(account: StoredAccount) -> Option<SlimAccountView> {
    match account.auth_data {
        AuthData::ApiKey { key } => Some(
            SlimAccountView {
                name: account.name@,
                auth_type: SLIM_AUTH_API_KEY,
                api_key: Some(key@),
                refresh_token: None,
            },
        ),
        AuthData::ChatGPT { refresh_token, .. } => Some(
            SlimAccountView {
                name: account.name@,
                auth_type: SLIM_AUTH_CHATGPT,
                api_key: None,
                refresh_token: Some(refresh_token@),
            },
        ),
        AuthData::CodexAccessToken { .. } => None,
    }
}

/// What is carried of the accounts, where all of them can be carried.
pub open spec fn slim_accounts(accounts: Seq<StoredAccount>) -> Option<Seq<SlimAccountView>>
    decreases accounts.len(),
{
    if accounts.len() == 0 {
        Some(Seq::empty())
    } else {
        match (slim_accounts(accounts.drop_last()), slim_account(accounts.last())) {
            (Some(before), Some(account)) => Some(before.push(account)),
            _ => None,
        }
    }
}

/// The name of the active account.
pub open spec fn active_name(store: StoreView) -> Option<Seq<char>> {
    match store::active_account(store) {
        Some(account) => Some(account.name@),
        None => None,
    }
}

/// What is carried of a store, where all its accounts can be carried.
pub open spec fn slim_of(store: StoreView) -> Option<SlimView> {
    match slim_accounts(store.accounts) {
        Some(accounts) => Some(
            SlimView { version: SLIM_FORMAT_VERSION, active_name: active_name(store), accounts },
        ),
        None => None,
    }
}

/// What an account that cannot be carried is answered with.
pub fn access_token_export_message() -> (r: String)
    ensures
        r@
            == "Slim export does not support CODEX_ACCESS_TOKEN accounts. Use full encrypted export instead."@,
{
    "Slim export does not support CODEX_ACCESS_TOKEN accounts. Use full encrypted export instead.".to_string()
}

fn slim_of_account(account: &StoredAccount) -> (r: Option<SlimAccountPayload>)
    ensures
        (match r {
            Some(payload) => Some(payload@),
            None => None,
        }) == slim_account(*account),
{
    match &account.auth_data {
        AuthData::ApiKey { key } => Some(
            SlimAccountPayload {
                name: account.name.clone(),
                auth_type: SLIM_AUTH_API_KEY,
                api_key: Some(key.clone()),
                refresh_token: None,
            },
        ),
        AuthData::ChatGPT { refresh_token, .. } => Some(
            SlimAccountPayload {
                name: account.name.clone(),
                auth_type: SLIM_AUTH_CHATGPT,
                api_key: None,
                refresh_token: Some(refresh_token.clone()),
            },
        ),
        AuthData::CodexAccessToken { .. } => None,
    }
}

proof fn lemma_not_slim(accounts: Seq<StoredAccount>, upto: int)
    requires
        0 <= upto <= accounts.len(),
        slim_accounts(accounts.take(upto)) is None,
    ensures
        slim_accounts(accounts) is None,
    decreases accounts.len(),
{
    if upto == accounts.len() {
        assert(accounts.take(upto) =~= accounts);
    } else {
        assert(accounts.drop_last().take(upto) =~= accounts.take(upto));
        lemma_not_slim(accounts.drop_last(), upto);
    }
}

/// What is carried of a store, where all its accounts can be carried.
pub fn slim_payload_from_store(store: &AccountsStore) -> (r: Option<SlimPayload>)
    ensures
        (match r {
            Some(payload) => Some(payload@),
            None => None,
        }) == slim_of(store@),
{
    let active_name: Option<String> = match store::get_active_account(store) {
        Some(account) => Some(account.name),
        None => None,
    };
    let mut accounts: Vec<SlimAccountPayload> = Vec::new();
    let ghost all = store.accounts@;
    let mut i: usize = 0;
    assert(accounts@.map_values(|account: SlimAccountPayload| account@) =~= Seq::<
        SlimAccountView,
    >::empty());
    while i < store.accounts.len()
        invariant
            all == store.accounts@,
            i <= all.len(),
            slim_accounts(all.take(i as int)) == Some(
                accounts@.map_values(|account: SlimAccountPayload| account@),
            ),
        decreases all.len() - i,
    {
        assert(all.take(i + 1).drop_last() =~= all.take(i as int));
        match slim_of_account(&store.accounts[i]) {
            Some(account) => {
                let ghost before = accounts@.map_values(|account: SlimAccountPayload| account@);
                accounts.push(account);
                assert(accounts@.map_values(|account: SlimAccountPayload| account@)
                    =~= before.push(account@));
            },
            None => {
                proof {
                    lemma_not_slim(all, i + 1);
                }
                return None;
            },
        }
        i = i + 1;
    }
    assert(all.take(all.len() as int) =~= all);
    Some(SlimPayload { version: SLIM_FORMAT_VERSION, active_name, accounts })
}

// ---------------------------------------------------------------------------
// The text
// ---------------------------------------------------------------------------

/// Why a compact text cannot be read
#[derive(Debug, Clone, PartialEq, Eq)]
pub enum SlimTextError {
    Empty,
    /// What is wrong with the characters
    NotBase64(String),
    /// What is wrong with the compressed data
    Uninflatable(String),
    TooLarge,
}

/// What is wrong with a compact text.
pub enum SlimTextProblem {
    Empty,
    NotBase64(Seq<char>),
    Uninflatable(Seq<char>),
    TooLarge,
}

impl View for SlimTextError {
    type V = SlimTextProblem;

    open spec fn view(&self) -> SlimTextProblem {
        match self {
            SlimTextError::Empty => SlimTextProblem::Empty,
            SlimTextError::NotBase64(cause) => SlimTextProblem::NotBase64(cause@),
            SlimTextError::Uninflatable(cause) => SlimTextProblem::Uninflatable(cause@),
            SlimTextError::TooLarge => SlimTextProblem::TooLarge,
        }
    }
}

impl SlimTextProblem {
    pub open spec fn text(self) -> Seq<char> {
        match self {
            SlimTextProblem::Empty => "Import string is empty"@,
            SlimTextProblem::NotBase64(cause) => "Invalid slim import string (base64 decode failed): "@
                + cause,
            SlimTextProblem::Uninflatable(cause) => "Invalid slim import string (decompression failed): "@
                + cause,
            SlimTextProblem::TooLarge => "Invalid slim import string (decompression failed): Import data is too large"@,
        }
    }
}

impl SlimTextError {
    /// What went wrong, and what caused it.
    pub fn message(&self) -> (r: String)
        ensures
            r@ == self@.text(),
    {
        match self {
            SlimTextError::Empty => "Import string is empty".to_string(),
            SlimTextError::NotBase64(cause) => text::joined(
                "Invalid slim import string (base64 decode failed): ",
                cause.as_str(),
            ),
            SlimTextError::Uninflatable(cause) => text::joined(
                "Invalid slim import string (decompression failed): ",
                cause.as_str(),
            ),
            SlimTextError::TooLarge => {
                "Invalid slim import string (decompression failed): Import data is too large".to_string()
            },
        }
    }
}

/// A text without its prefix, where it has it.
pub open spec fn without_prefix(s: Seq<char>) -> Seq<char> {
    if text::starts_with_of(s, SLIM_EXPORT_PREFIX@) {
        s.skip(SLIM_EXPORT_PREFIX@.len() as int)
    } else {
        s
    }
}

/// The JSON document that a compact text carries. White space in the text is
/// passed over, and the prefix may be missing.
pub open spec fn slim_contents(payload: Seq<char>) -> Result<Seq<u8>, SlimTextProblem> {
    let bare = words::squeeze_of(payload);
    if bare.len() == 0 {
        Err(SlimTextProblem::Empty)
    } else {
        match encoding::base64_url_decoded(without_prefix(bare)) {
            Err(cause) => Err(SlimTextProblem::NotBase64(cause)),
            Ok(compressed) => match vault::inflated(compressed, vault::MAX_IMPORT_JSON_BYTES) {
                Ok(json) => Ok(json),
                Err(InflateProblem::Broken(cause)) => Err(SlimTextProblem::Uninflatable(cause)),
                Err(InflateProblem::TooLarge) => Err(SlimTextProblem::TooLarge),
            },
        }
    }
}

proof fn lemma_no_space(encoded: Seq<char>)
    requires
        forall|i: int| 0 <= i < encoded.len() ==> encoding::is_base64_url_char(
            #[trigger] encoded[i],
        ),
    ensures
        words::squeeze_of(encoded) == encoded,
{
    assert forall|i: int| 0 <= i < encoded.len() implies !text::is_space(#[trigger] encoded[i]) by {
        assert(encoding::is_base64_url_char(encoded[i]));
    }
    words::lemma_squeeze_fixed(encoded);
}

proof fn lemma_no_space_in_prefixed(encoded: Seq<char>)
    requires
        forall|i: int| 0 <= i < encoded.len() ==> encoding::is_base64_url_char(
            #[trigger] encoded[i],
        ),
    ensures
        words::squeeze_of(SLIM_EXPORT_PREFIX@ + encoded) == SLIM_EXPORT_PREFIX@ + encoded,
        without_prefix(SLIM_EXPORT_PREFIX@ + encoded) == encoded,
        (SLIM_EXPORT_PREFIX@ + encoded).len() > 0,
{
    reveal_strlit("css1.");
    let full = SLIM_EXPORT_PREFIX@ + encoded;
    let n = SLIM_EXPORT_PREFIX@.len() as int;
    assert forall|i: int| 0 <= i < full.len() implies !text::is_space(#[trigger] full[i]) by {
        if i >= n {
            assert(full[i] == encoded[i - n]);
            assert(encoding::is_base64_url_char(encoded[i - n]));
        }
    }
    words::lemma_squeeze_fixed(full);
    assert(full.take(n) =~= SLIM_EXPORT_PREFIX@);
    assert(full.skip(n) =~= encoded);
}

/// The compact text that carries a JSON document. Reading it gives the document
/// back, unless it is too large to be taken over: also with white space put in
/// anywhere, and without its prefix.
pub fn encode_slim_payload(json: &[u8]) -> (r: Option<String>)
    ensures
        match r {
            Some(payload) => {
                &&& encoding::zlib_compressed(json@) matches Some(compressed) && payload@
                    == SLIM_EXPORT_PREFIX@ + encoding::base64_url_text(compressed)
                &&& slim_contents(payload@) == (if json@.len() <= vault::MAX_IMPORT_JSON_BYTES {
                    Ok::<Seq<u8>, SlimTextProblem>(json@)
                } else {
                    Err::<Seq<u8>, SlimTextProblem>(SlimTextProblem::TooLarge)
                })
                &&& slim_contents(payload@.skip(SLIM_EXPORT_PREFIX@.len() as int))
                    == slim_contents(payload@)
                &&& forall|other: Seq<char>|
                    words::squeeze_of(other) == payload@ || words::squeeze_of(other)
                        == payload@.skip(SLIM_EXPORT_PREFIX@.len() as int) ==> #[trigger] slim_contents(
                        other,
                    ) == slim_contents(payload@)
            },
            None => encoding::zlib_compressed(json@) is None,
        },
{
    let compressed = match vault::compress_bytes(json) {
        Some(compressed) => compressed,
        None => {
            return None;
        },
    };
    let encoded = encoding::encode_base64_url(compressed.as_slice());
    let payload = text::joined(SLIM_EXPORT_PREFIX, encoded.as_str());
    proof {
        lemma_no_space_in_prefixed(encoded@);
        assert(vault::inflated(compressed@, vault::MAX_IMPORT_JSON_BYTES) is Ok <==> json@.len()
            <= vault::MAX_IMPORT_JSON_BYTES);
        assert(payload@.skip(SLIM_EXPORT_PREFIX@.len() as int) =~= encoded@);
        law_prefix_is_optional(encoded@);
        lemma_no_space(encoded@);
        assert forall|other: Seq<char>|
            words::squeeze_of(other) == payload@ || words::squeeze_of(other)
                == encoded@ implies #[trigger] slim_contents(other) == slim_contents(payload@) by {
            if words::squeeze_of(other) == payload@ {
                law_white_space_is_ignored(other, payload@);
            } else {
                law_white_space_is_ignored(other, encoded@);
            }
        }
    }
    Some(payload)
}

/// The JSON document that a compact text carries.
pub fn decode_slim_payload(payload: &str) -> (r: Result<Vec<u8>, SlimTextError>)
    ensures
        match r {
            Ok(json) => slim_contents(payload@) == Ok::<Seq<u8>, SlimTextProblem>(json@),
            Err(error) => slim_contents(payload@) == Err::<Seq<u8>, SlimTextProblem>(error@),
        },
{
    let bare = words::squeeze(payload);
    if bare.as_str().is_empty() {
        return Err(SlimTextError::Empty);
    }
    let encoded = match text::strip_prefix_text(bare.as_str(), SLIM_EXPORT_PREFIX) {
        Some(rest) => rest,
        None => bare,
    };
    let compressed = match encoding::decode_base64_url(encoded.as_str()) {
        Ok(compressed) => compressed,
        Err(cause) => {
            return Err(SlimTextError::NotBase64(cause));
        },
    };
    match vault::decompress_bytes_with_limit(
        compressed.as_slice(),
        vault::MAX_IMPORT_JSON_BYTES,
    ) {
        Ok(json) => Ok(json),
        Err(InflateError::Broken(cause)) => Err(SlimTextError::Uninflatable(cause)),
        Err(InflateError::TooLarge) => Err(SlimTextError::TooLarge),
    }
}

/// White space in a compact text, and where it stands, makes no difference.
pub proof fn law_white_space_is_ignored(a: Seq<char>, b: Seq<char>)
    requires
        words::squeeze_of(a) == words::squeeze_of(b),
    ensures
        slim_contents(a) == slim_contents(b),
{
}

/// A compact text reads the same with its prefix and without it.
pub proof fn law_prefix_is_optional(encoded: Seq<char>)
    requires
        encoded.len() > 0,
        forall|i: int| 0 <= i < encoded.len() ==> encoding::is_base64_url_char(
            #[trigger] encoded[i],
        ),
    ensures
        slim_contents(SLIM_EXPORT_PREFIX@ + encoded) == slim_contents(encoded),
{
    lemma_no_space_in_prefixed(encoded);
    lemma_no_space(encoded);
    reveal_strlit("css1.");
    if text::starts_with_of(encoded, SLIM_EXPORT_PREFIX@) {
        assert(encoded.take(5)[4] == encoded[4]);
        assert(encoding::is_base64_url_char(encoded[4]));
    }
}

// ---------------------------------------------------------------------------
// Checking what was carried
// ---------------------------------------------------------------------------

/// Why what was carried cannot be taken over
#[derive(Debug)]
pub enum SlimError {
    UnknownVersion(u8),
    EmptyName,
    DuplicateName(String),
    NoApiKey(String),
    NoRefreshToken(String),
    UnknownAuthType(u8, String),
    MissingActive(String),
}

/// What is wrong with what was carried.
pub enum SlimProblem {
    UnknownVersion(u8),
    EmptyName,
    DuplicateName(Seq<char>),
    NoApiKey(Seq<char>),
    NoRefreshToken(Seq<char>),
    UnknownAuthType(u8, Seq<char>),
    MissingActive(Seq<char>),
}

impl View for SlimError {
    type V = SlimProblem;

    open spec fn view(&self) -> SlimProblem {
        match self {
            SlimError::UnknownVersion(version) => SlimProblem::UnknownVersion(*version),
            SlimError::EmptyName => SlimProblem::EmptyName,
            SlimError::DuplicateName(name) => SlimProblem::DuplicateName(name@),
            SlimError::NoApiKey(name) => SlimProblem::NoApiKey(name@),
            SlimError::NoRefreshToken(name) => SlimProblem::NoRefreshToken(name@),
            SlimError::UnknownAuthType(kind, name) => SlimProblem::UnknownAuthType(*kind, name@),
            SlimError::MissingActive(name) => SlimProblem::MissingActive(name@),
        }
    }
}

impl SlimProblem {
    pub open spec fn text(self) -> Seq<char> {
        match self {
            SlimProblem::UnknownVersion(version) => "Unsupported slim payload version: "@
                + numerals::decimal_of(version as nat),
            SlimProblem::EmptyName => "Slim import contains an account with empty name"@,
            SlimProblem::DuplicateName(name) => "Slim import contains duplicate account name: "@
                + name,
            SlimProblem::NoApiKey(name) => "API key is missing for account "@ + name,
            SlimProblem::NoRefreshToken(name) => "Refresh token is missing for account "@ + name,
            SlimProblem::UnknownAuthType(kind, name) => "Unsupported auth type "@
                + numerals::decimal_of(kind as nat) + " for account "@ + name,
            SlimProblem::MissingActive(name) => "Slim import references missing active account: "@
                + name,
        }
    }
}

impl SlimError {
    pub fn message(&self) -> (r: String)
        ensures
            r@ == self@.text(),
    {
        match self {
            SlimError::UnknownVersion(version) => {
                let number = numerals::decimal(*version as u64);
                text::joined("Unsupported slim payload version: ", number.as_str())
            },
            SlimError::EmptyName => "Slim import contains an account with empty name".to_string(),
            SlimError::DuplicateName(name) => {
                text::joined("Slim import contains duplicate account name: ", name.as_str())
            },
            SlimError::NoApiKey(name) => {
                text::joined("API key is missing for account ", name.as_str())
            },
            SlimError::NoRefreshToken(name) => {
                text::joined("Refresh token is missing for account ", name.as_str())
            },
            SlimError::UnknownAuthType(kind, name) => {
                let number = numerals::decimal(*kind as u64);
                let start = text::joined("Unsupported auth type ", number.as_str());
                let middle = text::joined(start.as_str(), " for account ");
                text::joined(middle.as_str(), name.as_str())
            },
            SlimError::MissingActive(name) => {
                text::joined("Slim import references missing active account: ", name.as_str())
            },
        }
    }
}

/// One of the accounts has the name.
pub open spec fn is_named(accounts: Seq<SlimAccountView>, name: Seq<char>) -> bool {
    exists|i: int| 0 <= i < accounts.len() && (#[trigger] accounts[i]).name == name
}

/// There is nothing, or nothing but white space.
pub open spec fn is_missing(s: Option<Seq<char>>) -> bool {
    match s {
        Some(s) => text::blank(s),
        None => true,
    }
}

/// What is wrong with an account that follows the accounts `before`.
pub open spec fn slim_account_problem(
    before: Seq<SlimAccountView>,
    account: SlimAccountView,
) -> Option<SlimProblem> {
    if text::blank(account.name) {
        Some(SlimProblem::EmptyName)
    } else if is_named(before, account.name) {
        Some(SlimProblem::DuplicateName(account.name))
    } else if account.auth_type == SLIM_AUTH_API_KEY {
        if is_missing(account.api_key) {
            Some(SlimProblem::NoApiKey(account.name))
        } else {
            None
        }
    } else if account.auth_type == SLIM_AUTH_CHATGPT {
        if is_missing(account.refresh_token) {
            Some(SlimProblem::NoRefreshToken(account.name))
        } else {
            None
        }
    } else {
        Some(SlimProblem::UnknownAuthType(account.auth_type, account.name))
    }
}

/// What is wrong with the first account that something is wrong with.
pub open spec fn slim_accounts_problem(accounts: Seq<SlimAccountView>) -> Option<SlimProblem>
    decreases accounts.len(),
{
    if accounts.len() == 0 {
        None
    } else {
        match slim_accounts_problem(accounts.drop_last()) {
            Some(problem) => Some(problem),
            None => slim_account_problem(accounts.drop_last(), accounts.last()),
        }
    }
}

/// What is wrong with what was carried.
pub open spec fn slim_problem(payload: SlimView) -> Option<SlimProblem> {
    if payload.version != SLIM_FORMAT_VERSION {
        Some(SlimProblem::UnknownVersion(payload.version))
    } else {
        match slim_accounts_problem(payload.accounts) {
            Some(problem) => Some(problem),
            None => match payload.active_name {
                Some(name) if !is_named(payload.accounts, name) => Some(
                    SlimProblem::MissingActive(name),
                ),
                _ => None,
            },
        }
    }
}

proof fn lemma_slim_problem_stays(accounts: Seq<SlimAccountView>, upto: int)
    requires
        0 <= upto <= accounts.len(),
        slim_accounts_problem(accounts.take(upto)) is Some,
    ensures
        slim_accounts_problem(accounts) == slim_accounts_problem(accounts.take(upto)),
    decreases accounts.len(),
{
    if upto == accounts.len() {
        assert(accounts.take(upto) =~= accounts);
    } else {
        assert(accounts.drop_last().take(upto) =~= accounts.take(upto));
        lemma_slim_problem_stays(accounts.drop_last(), upto);
    }
}

proof fn lemma_push_named(accounts: Seq<SlimAccountView>, account: SlimAccountView)
    ensures
        forall|name: Seq<char>| #[trigger]
            is_named(accounts.push(account), name) <==> (is_named(accounts, name) || name
                == account.name),
{
    let more = accounts.push(account);
    assert(more[accounts.len() as int] == account);
    assert forall|name: Seq<char>| #[trigger]
        is_named(more, name) <==> (is_named(accounts, name) || name == account.name) by {
        if is_named(accounts, name) {
            let i = choose|i: int|
                0 <= i < accounts.len() && (#[trigger] accounts[i]).name == name;
            assert(more[i].name == name);
        }
        if is_named(more, name) {
            let i = choose|i: int| 0 <= i < more.len() && (#[trigger] more[i]).name == name;
            if i < accounts.len() {
                assert(accounts[i].name == name);
            }
        }
    }
}

fn missing(s: &Option<String>) -> (r: bool)
    ensures
        r == is_missing(text::opt_text(*s)),
{
    match s {
        Some(s) => text::is_blank(s.as_str()),
        None => true,
    }
}

/// Checks what was carried.
pub fn validate_slim_payload(payload: &SlimPayload) -> (r: Result<(), SlimError>)
    ensures
        match r {
            Ok(_) => slim_problem(payload@) is None,
            Err(error) => slim_problem(payload@) == Some(error@),
        },
{
    if payload.version != SLIM_FORMAT_VERSION {
        return Err(SlimError::UnknownVersion(payload.version));
    }
    let ghost all = payload@.accounts;
    let mut names = StringHashSet::new();
    let mut i: usize = 0;
    assert(all.take(0) =~= Seq::<SlimAccountView>::empty());
    while i < payload.accounts.len()
        invariant
            all == payload@.accounts,
            payload.version == SLIM_FORMAT_VERSION,
            i <= payload.accounts@.len(),
            slim_accounts_problem(all.take(i as int)) is None,
            forall|name: Seq<char>| #[trigger]
                names@.contains(name) <==> is_named(all.take(i as int), name),
        decreases payload.accounts@.len() - i,
    {
        let account = &payload.accounts[i];
        let ghost before = all.take(i as int);
        proof {
            assert(all[i as int] == account@);
            assert(all.take(i + 1) =~= before.push(account@));
            assert(all.take(i + 1).drop_last() =~= before);
            if slim_account_problem(before, account@) is Some {
                lemma_slim_problem_stays(all, i + 1);
            }
            lemma_push_named(before, account@);
        }
        if text::is_blank(account.name.as_str()) {
            return Err(SlimError::EmptyName);
        }
        if names.contains(account.name.as_str()) {
            return Err(SlimError::DuplicateName(account.name.clone()));
        }
        names.insert(account.name.clone());
        if account.auth_type == SLIM_AUTH_API_KEY {
            if missing(&account.api_key) {
                return Err(SlimError::NoApiKey(account.name.clone()));
            }
        } else if account.auth_type == SLIM_AUTH_CHATGPT {
            if missing(&account.refresh_token) {
                return Err(SlimError::NoRefreshToken(account.name.clone()));
            }
        } else {
            return Err(SlimError::UnknownAuthType(account.auth_type, account.name.clone()));
        }
        i = i + 1;
    }
    assert(all.take(all.len() as int) =~= all);
    match &payload.active_name {
        Some(name) => {
            if !names.contains(name.as_str()) {
                return Err(SlimError::MissingActive(name.clone()));
            }
        },
        None => {},
    }
    Ok(())
}

/// The account has credentials that can be carried.
pub open spec fn has_credentials(account: StoredAccount) -> bool {
    match account.auth_data {
        AuthData::ApiKey { key } => !text::blank(key@),
        AuthData::ChatGPT { refresh_token, .. } => !text::blank(refresh_token@),
        AuthData::CodexAccessToken { .. } => false,
    }
}

proof fn lemma_carried(accounts: Seq<StoredAccount>)
    requires
        slim_accounts(accounts) is Some,
    ensures
        slim_accounts(accounts)->0.len() == accounts.len(),
        forall|i: int|
            0 <= i < accounts.len() ==> Some(#[trigger] slim_accounts(accounts)->0[i])
                == slim_account(accounts[i]),
    decreases accounts.len(),
{
    if accounts.len() > 0 {
        let front = accounts.drop_last();
        lemma_carried(front);
        let before = slim_accounts(front)->0;
        let now = slim_accounts(accounts)->0;
        assert forall|i: int| 0 <= i < accounts.len() implies Some(#[trigger] now[i])
            == slim_account(accounts[i]) by {
            if i < front.len() {
                assert(before[i] == now[i]);
                assert(front[i] == accounts[i]);
            }
        }
    }
}

proof fn lemma_slim_accounts(accounts: Seq<StoredAccount>)
    requires
        forall|i: int|
            0 <= i < accounts.len() ==> has_credentials(#[trigger] accounts[i]) && !text::blank(
                accounts[i].name@,
            ),
        store::distinct_names(accounts),
    ensures
        slim_accounts(accounts) matches Some(slim) && {
            &&& slim.len() == accounts.len()
            &&& forall|i: int|
                0 <= i < accounts.len() ==> Some(#[trigger] slim[i]) == slim_account(accounts[i])
            &&& slim_accounts_problem(slim) is None
        },
    decreases accounts.len(),
{
    if accounts.len() > 0 {
        let front = accounts.drop_last();
        assert forall|i: int| 0 <= i < front.len() implies has_credentials(#[trigger] front[i])
            && !text::blank(front[i].name@) by {
            assert(front[i] == accounts[i]);
        }
        assert forall|i: int, j: int| 0 <= i < j < front.len() implies (#[trigger] front[i]).name@
            != (#[trigger] front[j]).name@ by {
            assert(accounts[i].name@ != accounts[j].name@);
        }
        lemma_slim_accounts(front);
        let before = slim_accounts(front)->0;
        let last = accounts.last();
        assert(accounts[accounts.len() - 1] == last);
        let now = slim_accounts(accounts)->0;
        assert(now.drop_last() =~= before);
        assert forall|i: int| 0 <= i < accounts.len() implies Some(#[trigger] now[i])
            == slim_account(accounts[i]) by {
            if i < front.len() {
                assert(before[i] == now[i]);
                assert(front[i] == accounts[i]);
            }
        }
        assert(!is_named(before, last.name@)) by {
            assert forall|i: int| 0 <= i < before.len() implies (#[trigger] before[i]).name
                != last.name@ by {
                assert(Some(before[i]) == slim_account(front[i]));
                assert(accounts[i].name@ != accounts[accounts.len() - 1].name@);
            }
        }
    }
}

/// What is carried of a store whose accounts have names of their own, none of them
/// blank, and credentials that can be carried, passes the check on the other side.
pub proof fn law_export_passes_the_check(store: StoreView)
    requires
        store::distinct_names(store.accounts),
        forall|i: int|
            0 <= i < store.accounts.len() ==> has_credentials(#[trigger] store.accounts[i])
                && !text::blank(store.accounts[i].name@),
    ensures
        slim_of(store) is Some,
        slim_problem(slim_of(store)->0) is None,
{
    lemma_slim_accounts(store.accounts);
    let slim = slim_of(store)->0;
    if store::active_account(store) is Some {
        store::lemma_position(store.accounts, store.active->0);
        let at = store::position(store.accounts, store.active->0)->0;
        assert(Some(slim.accounts[at]) == slim_account(store.accounts[at]));
        assert(slim.accounts[at].name == store.accounts[at].name@);
    }
}

// ---------------------------------------------------------------------------
// Restoring accounts
// ---------------------------------------------------------------------------

/// The accounts whose name is not among `existing`.
pub open spec fn new_accounts(accounts: Seq<SlimAccountView>, existing: Set<Seq<char>>) -> Seq<
    SlimAccountView,
>
    decreases accounts.len(),
{
    if accounts.len() == 0 {
        Seq::empty()
    } else {
        let before = new_accounts(accounts.drop_last(), existing);
        if existing.contains(accounts.last().name) {
            before
        } else {
            before.push(accounts.last())
        }
    }
}

/// The names of the accounts.
pub open spec fn names_of(accounts: Seq<StoredAccount>) -> Set<Seq<char>> {
    Set::new(|name: Seq<char>| store::has_name(accounts, name))
}

/// The carried accounts whose name no account of the store has yet.
pub fn import_candidates(payload: SlimPayload, current: &AccountsStore) -> (r: Vec<
    SlimAccountPayload,
>)
    ensures
        r@.map_values(|account: SlimAccountPayload| account@) == new_accounts(
            payload@.accounts,
            names_of(current@.accounts),
        ),
{
    let ghost all = payload@.accounts;
    let ghost existing = names_of(current@.accounts);
    let mut rest = payload.accounts;
    let mut r: Vec<SlimAccountPayload> = Vec::new();
    let mut i: usize = 0;
    let ghost entries = rest@;
    assert(r@.map_values(|account: SlimAccountPayload| account@) =~= new_accounts(
        all.take(0),
        existing,
    ));
    while i < rest.len()
        invariant
            all == entries.map_values(|account: SlimAccountPayload| account@),
            rest@ == entries,
            existing == names_of(current@.accounts),
            i <= entries.len(),
            r@.map_values(|account: SlimAccountPayload| account@) == new_accounts(
                all.take(i as int),
                existing,
            ),
        decreases entries.len() - i,
    {
        proof {
            assert(all.take(i + 1).drop_last() =~= all.take(i as int));
            assert(all[i as int] == entries[i as int]@);
        }
        let entry = &rest[i];
        if !store::name_is_taken(&current.accounts, entry.name.as_str()) {
            let ghost before = r@.map_values(|account: SlimAccountPayload| account@);
            let copy = SlimAccountPayload {
                name: entry.name.clone(),
                auth_type: entry.auth_type,
                api_key: text::copy_opt(&entry.api_key),
                refresh_token: text::copy_opt(&entry.refresh_token),
            };
            assert(copy@ == entry@);
            r.push(copy);
            assert(r@.map_values(|account: SlimAccountPayload| account@) =~= before.push(copy@));
        }
        i = i + 1;
    }
    assert(all.take(all.len() as int) =~= all);
    r
}

/// How an account is restored
#[derive(Debug)]
pub enum RestoreAction {
    /// It is an account with an API key.
    UseApiKey(String),
    /// Its tokens come from the refresh token.
    UseRefreshToken(String),
}

/// Why an account cannot be restored
#[derive(Debug, Clone, Copy, PartialEq, Eq, Structural)]
pub enum RestoreError {
    NoApiKey,
    NoRefreshToken,
    UnknownAuthType,
}

impl RestoreError {
    pub fn message(&self) -> (r: String)
        ensures
            r@ == (match *self {
                RestoreError::NoApiKey => "API key payload is missing"@,
                RestoreError::NoRefreshToken => "Refresh token payload is missing"@,
                RestoreError::UnknownAuthType => "Unsupported auth type in slim payload"@,
            }),
    {
        match self {
            RestoreError::NoApiKey => "API key payload is missing".to_string(),
            RestoreError::NoRefreshToken => "Refresh token payload is missing".to_string(),
            RestoreError::UnknownAuthType => "Unsupported auth type in slim payload".to_string(),
        }
    }
}

/// What an account is restored from.
pub enum RestoreView {
    UseApiKey(Seq<char>),
    UseRefreshToken(Seq<char>),
}

impl View for RestoreAction {
    type V = RestoreView;

    open spec fn view(&self) -> RestoreView {
        match self {
            RestoreAction::UseApiKey(key) => RestoreView::UseApiKey(key@),
            RestoreAction::UseRefreshToken(token) => RestoreView::UseRefreshToken(token@),
        }
    }
}

/// How an account is restored.
pub open spec fn restored_from(entry: SlimAccountView) -> Result<RestoreView, RestoreError> {
    if entry.auth_type == SLIM_AUTH_API_KEY {
        match entry.api_key {
            Some(key) => Ok(RestoreView::UseApiKey(key)),
            None => Err(RestoreError::NoApiKey),
        }
    } else if entry.auth_type == SLIM_AUTH_CHATGPT {
        match entry.refresh_token {
            Some(token) => Ok(RestoreView::UseRefreshToken(token)),
            None => Err(RestoreError::NoRefreshToken),
        }
    } else {
        Err(RestoreError::UnknownAuthType)
    }
}

/// How an account is restored.
pub fn restore_action(entry: &SlimAccountPayload) -> (r: Result<RestoreAction, RestoreError>)
    ensures
        match r {
            Ok(action) => restored_from(entry@) == Ok::<RestoreView, RestoreError>(action@),
            Err(error) => restored_from(entry@) == Err::<RestoreView, RestoreError>(error),
        },
{
    if entry.auth_type == SLIM_AUTH_API_KEY {
        match &entry.api_key {
            Some(key) => Ok(RestoreAction::UseApiKey(key.clone())),
            None => Err(RestoreError::NoApiKey),
        }
    } else if entry.auth_type == SLIM_AUTH_CHATGPT {
        match &entry.refresh_token {
            Some(token) => Ok(RestoreAction::UseRefreshToken(token.clone())),
            None => Err(RestoreError::NoRefreshToken),
        }
    } else {
        Err(RestoreError::UnknownAuthType)
    }
}

/// The first account with the name.
pub open spec fn id_by_name(accounts: Seq<StoredAccount>, name: Seq<char>) -> Option<Seq<char>>
    decreases accounts.len(),
{
    if accounts.len() == 0 {
        None
    } else if accounts[0].name@ == name {
        Some(accounts[0].id@)
    } else {
        id_by_name(accounts.drop_first(), name)
    }
}

/// The account that becomes active: the one with the given name, or else the
/// first one.
pub open spec fn restored_active(
    accounts: Seq<StoredAccount>,
    name: Option<Seq<char>>,
) -> Option<Seq<char>> {
    match name {
        Some(name) => match id_by_name(accounts, name) {
            Some(id) => Some(id),
            None => store::first_id(accounts),
        },
        None => store::first_id(accounts),
    }
}

/// The store of the accounts that were restored.
pub open spec fn restored_store(
    accounts: Seq<StoredAccount>,
    active_name: Option<Seq<char>>,
) -> StoreView {
    StoreView {
        version: 1,
        accounts,
        active: restored_active(accounts, active_name),
        masked: Seq::empty(),
    }
}

/// The store of the accounts that were restored.
pub fn build_store_from_slim_payload(
    accounts: Vec<StoredAccount>,
    active_name: Option<String>,
) -> (r: AccountsStore)
    ensures
        r@ == restored_store(accounts@, text::opt_text(active_name)),
{
    let mut active_account_id: Option<String> = None;
    match &active_name {
        Some(name) => {
            let mut i: usize = 0;
            assert(accounts@.skip(0) =~= accounts@);
            while i < accounts.len() && active_account_id.is_none()
                invariant
                    i <= accounts@.len(),
                    active_account_id is None ==> id_by_name(accounts@, name@) == id_by_name(
                        accounts@.skip(i as int),
                        name@,
                    ),
                    active_account_id is Some ==> id_by_name(accounts@, name@)
                        == text::opt_text(active_account_id),
                decreases accounts@.len() - i,
            {
                proof {
                    assert(accounts@.skip(i as int)[0] == accounts@[i as int]);
                    assert(accounts@.skip(i as int).drop_first() =~= accounts@.skip(i + 1));
                }
                if text::same(accounts[i].name.as_str(), name.as_str()) {
                    active_account_id = Some(accounts[i].id.clone());
                }
                i = i + 1;
            }
        },
        None => {},
    }
    if active_account_id.is_none() && accounts.len() > 0 {
        active_account_id = Some(accounts[0].id.clone());
    }
    let r = AccountsStore {
        version: 1,
        accounts,
        active_account_id,
        masked_account_ids: Vec::new(),
    };
    assert(r@.masked =~= Seq::<Seq<char>>::empty());
    r
}

proof fn lemma_id_by_name(accounts: Seq<StoredAccount>, name: Seq<char>)
    ensures
        id_by_name(accounts, name) matches Some(id) ==> store::has_id(accounts, id),
    decreases accounts.len(),
{
    if accounts.len() > 0 {
        if accounts[0].name@ == name {
            assert(accounts[0].id@ == id_by_name(accounts, name)->0);
        } else {
            let rest = accounts.drop_first();
            lemma_id_by_name(rest, name);
            if id_by_name(rest, name) is Some {
                let id = id_by_name(rest, name)->0;
                let i = choose|i: int| 0 <= i < rest.len() && (#[trigger] rest[i]).id@ == id;
                assert(accounts[i + 1].id@ == id);
            }
        }
    }
}

/// The store of restored accounts, which can be told apart, is sound, whatever name
/// was carried for the active one.
pub proof fn law_restored_store_is_sound(
    accounts: Seq<StoredAccount>,
    active_name: Option<Seq<char>>,
)
    requires
        store::distinct_ids(accounts),
        store::distinct_names(accounts),
    ensures
        store::is_sound(restored_store(accounts, active_name)),
{
    if active_name is Some {
        lemma_id_by_name(accounts, active_name->0);
    }
    if accounts.len() > 0 {
        assert(accounts[0].id@ == store::first_id(accounts)->0);
    }
}

proof fn lemma_named_account(accounts: Seq<StoredAccount>, name: Seq<char>)
    requires
        store::distinct_ids(accounts),
        store::has_name(accounts, name),
    ensures
        id_by_name(accounts, name) matches Some(id) && store::account_with(
            accounts,
            id,
        ) matches Some(found) && found.name@ == name,
    decreases accounts.len(),
{
    let rest = accounts.drop_first();
    if accounts[0].name@ != name {
        let i = choose|i: int| 0 <= i < accounts.len() && (#[trigger] accounts[i]).name@ == name;
        assert(rest[i - 1].name@ == name);
        assert forall|a: int, b: int| 0 <= a < b < rest.len() implies (#[trigger] rest[a]).id@
            != (#[trigger] rest[b]).id@ by {
            assert(accounts[a + 1].id@ != accounts[b + 1].id@);
        }
        lemma_named_account(rest, name);
        let id = id_by_name(rest, name)->0;
        store::lemma_position(rest, id);
        let at = store::position(rest, id)->0;
        assert(accounts[0].id@ != accounts[at + 1].id@);
        assert(accounts[at + 1] == rest[at]);
    }
}

/// What is carried of a store is enough to restore it: each account comes back from
/// the API key or the refresh token that it has, and once the accounts are there under
/// their names, the one that becomes active has the name of the one that was.
pub proof fn law_export_is_restored(store: StoreView, restored: Seq<StoredAccount>)
    requires
        slim_of(store) is Some,
        store::distinct_ids(restored),
        restored.len() == store.accounts.len(),
        forall|i: int|
            0 <= i < restored.len() ==> (#[trigger] restored[i]).name@ == store.accounts[i].name@,
    ensures
        slim_of(store)->0.accounts.len() == store.accounts.len(),
        forall|i: int|
            0 <= i < store.accounts.len() ==> {
                &&& (#[trigger] slim_of(store)->0.accounts[i]).name == store.accounts[i].name@
                &&& match store.accounts[i].auth_data {
                    AuthData::ApiKey { key } => restored_from(slim_of(store)->0.accounts[i]) == Ok::<
                        RestoreView,
                        RestoreError,
                    >(RestoreView::UseApiKey(key@)),
                    AuthData::ChatGPT { refresh_token, .. } => restored_from(
                        slim_of(store)->0.accounts[i],
                    ) == Ok::<RestoreView, RestoreError>(
                        RestoreView::UseRefreshToken(refresh_token@),
                    ),
                    AuthData::CodexAccessToken { .. } => false,
                }
            },
        store::active_account(store) matches Some(account) ==> store::active_account(
            restored_store(restored, slim_of(store)->0.active_name),
        ) matches Some(again) && again.name@ == account.name@,
{
    lemma_carried(store.accounts);
    let slim = slim_of(store)->0;
    assert forall|i: int| 0 <= i < store.accounts.len() implies Some(
        #[trigger] slim.accounts[i],
    ) == slim_account(store.accounts[i]) by {}
    if store::active_account(store) is Some {
        store::lemma_position(store.accounts, store.active->0);
        let at = store::position(store.accounts, store.active->0)->0;
        let name = store.accounts[at].name@;
        assert(restored[at].name@ == name);
        lemma_named_account(restored, name);
    }
}

/// What came of an import.
pub open spec fn is_slim_summary(
    summary: ImportAccountsSummary,
    total_in_payload: usize,
    merged: ImportAccountsSummary,
) -> bool {
    &&& summary.total_in_payload == total_in_payload
    &&& summary.imported_count == merged.imported_count
    &&& summary.skipped_count == (if total_in_payload >= merged.imported_count {
        total_in_payload - merged.imported_count
    } else {
        0
    })
}

/// What came of an import: every carried account that was not added counts as
/// skipped, also one that was not even restored.
pub fn slim_summary(total_in_payload: usize, merged: ImportAccountsSummary) -> (r:
    ImportAccountsSummary)
    ensures
        is_slim_summary(r, total_in_payload, merged),
{
    ImportAccountsSummary {
        total_in_payload,
        imported_count: merged.imported_count,
        skipped_count: if total_in_payload >= merged.imported_count {
            total_in_payload - merged.imported_count
        } else {
            0
        },
    }
}

// ---------------------------------------------------------------------------
// Laws
// ---------------------------------------------------------------------------

/// The candidates of an import are the carried accounts, in their order, whose name no
/// account of the store has: all of those, and no others.
pub proof fn law_candidates_are_the_new_names(
    accounts: Seq<SlimAccountView>,
    current: Seq<StoredAccount>,
)
    ensures
        new_accounts(accounts, names_of(current)) == accounts.filter(
            |entry: SlimAccountView|
                !exists|i: int| 0 <= i < current.len() && (#[trigger] current[i]).name@ == entry.name,
        ),
    decreases accounts.len(),
{
    reveal(Seq::filter);
    if accounts.len() > 0 {
        law_candidates_are_the_new_names(accounts.drop_last(), current);
    }
}

/// Every carried account with a new name is among the candidates, and every candidate is
/// such an account; where all names are new, all accounts are candidates.
pub proof fn law_no_candidate_is_lost(accounts: Seq<SlimAccountView>, current: Seq<StoredAccount>)
    ensures
        forall|k: int|
            0 <= k < accounts.len() && (forall|i: int|
                0 <= i < current.len() ==> (#[trigger] current[i]).name@ != accounts[k].name)
                ==> new_accounts(accounts, names_of(current)).contains(#[trigger] accounts[k]),
        forall|c: int|
            0 <= c < new_accounts(accounts, names_of(current)).len() ==> {
                let candidate = #[trigger] new_accounts(accounts, names_of(current))[c];
                &&& accounts.contains(candidate)
                &&& forall|i: int|
                    0 <= i < current.len() ==> (#[trigger] current[i]).name@ != candidate.name
            },
        (forall|k: int, i: int|
            0 <= k < accounts.len() && 0 <= i < current.len() ==> (#[trigger] current[i]).name@ != (
            #[trigger] accounts[k]).name) ==> new_accounts(accounts, names_of(current))
            == accounts,
    decreases accounts.len(),
{
    let candidates = new_accounts(accounts, names_of(current));
    if accounts.len() == 0 {
        assert(candidates =~= accounts);
    } else {
        let front = accounts.drop_last();
        let last = accounts.last();
        law_no_candidate_is_lost(front, current);
        let before = new_accounts(front, names_of(current));
        assert forall|k: int|
            0 <= k < accounts.len() && (forall|i: int|
                0 <= i < current.len() ==> (#[trigger] current[i]).name@
                    != accounts[k].name) implies candidates.contains(#[trigger] accounts[k]) by {
            if k < front.len() {
                assert(front[k] == accounts[k]);
                let c = choose|c: int| 0 <= c < before.len() && before[c] == accounts[k];
                assert(candidates[c] == accounts[k]);
            } else {
                assert(candidates.last() == last);
            }
        }
        assert forall|c: int| 0 <= c < candidates.len() implies {
            let candidate = #[trigger] candidates[c];
            &&& accounts.contains(candidate)
            &&& forall|i: int|
                0 <= i < current.len() ==> (#[trigger] current[i]).name@ != candidate.name
        } by {
            if c < before.len() {
                assert(before[c] == candidates[c]);
                let k = choose|k: int| 0 <= k < front.len() && front[k] == candidates[c];
                assert(accounts[k] == candidates[c]);
            } else {
                assert(accounts[accounts.len() - 1] == last);
            }
        }
        if forall|k: int, i: int|
            0 <= k < accounts.len() && 0 <= i < current.len() ==> (#[trigger] current[i]).name@ != (
            #[trigger] accounts[k]).name {
            assert forall|k: int, i: int| 0 <= k < front.len() && 0 <= i < current.len() implies (
            #[trigger] current[i]).name@ != (#[trigger] front[k]).name by {
                assert(front[k] == accounts[k]);
                assert(current[i].name@ != accounts[k].name);
            }
            assert(accounts[accounts.len() - 1] == last);
            assert(candidates =~= accounts);
        }
    }
}

proof fn lemma_carried_accounts(accounts: Seq<StoredAccount>)
    ensures
        slim_accounts(accounts) is Some <==> forall|i: int|
            0 <= i < accounts.len() ==> !((#[trigger] accounts[i]).auth_data is CodexAccessToken),
        slim_accounts(accounts) matches Some(slim) ==> slim.len() == accounts.len() && forall|i: int|
            0 <= i < accounts.len() ==> slim_account(accounts[i]) == Some(#[trigger] slim[i]),
    decreases accounts.len(),
{
    if accounts.len() > 0 {
        let front = accounts.drop_last();
        lemma_carried_accounts(front);
        assert(accounts[accounts.len() - 1] == accounts.last());
        assert forall|i: int| 0 <= i < front.len() implies front[i] == #[trigger] accounts[i] by {}
        if slim_accounts(accounts) is Some {
            let slim = slim_accounts(accounts)->0;
            let before = slim_accounts(front)->0;
            assert forall|i: int| 0 <= i < accounts.len() implies slim_account(accounts[i]) == Some(
                #[trigger] slim[i],
            ) by {
                if i < front.len() {
                    assert(slim[i] == before[i]);
                    assert(front[i] == accounts[i]);
                }
            }
        } else {
            if slim_accounts(front) is None {
                let i = choose|i: int|
                    0 <= i < front.len() && (#[trigger] front[i]).auth_data is CodexAccessToken;
                assert(accounts[i].auth_data is CodexAccessToken);
            }
        }
    }
}

/// An export carries, of each account in its place, the name and the one thing that
/// brings it back: the API key, or the refresh token and no other token. The name of the
/// active account goes along. A store with an account that cannot be carried is not
/// exported.
pub proof fn law_export_carries_what_is_needed(store: StoreView)
    ensures
        slim_of(store) is Some <==> forall|i: int|
            0 <= i < store.accounts.len() ==> !((
            #[trigger] store.accounts[i]).auth_data is CodexAccessToken),
        slim_of(store) matches Some(slim) ==> {
            &&& slim.version == 1
            &&& slim.accounts.len() == store.accounts.len()
            &&& forall|i: int|
                0 <= i < store.accounts.len() ==> {
                    let entry = #[trigger] slim.accounts[i];
                    let account = store.accounts[i];
                    &&& entry.name == account.name@
                    &&& account.auth_data is ApiKey ==> entry.auth_type == 0 && entry.api_key
                        == Some(account.auth_data->ApiKey_key@) && entry.refresh_token is None
                    &&& account.auth_data is ChatGPT ==> entry.auth_type == 1 && entry.refresh_token
                        == Some(account.auth_data->ChatGPT_refresh_token@) && entry.api_key is None
                }
            &&& forall|k: int|
                0 <= k < store.accounts.len() && store.active == Some(
                    (#[trigger] store.accounts[k]).id@,
                ) && (forall|j: int|
                    0 <= j < k ==> (#[trigger] store.accounts[j]).id@ != store.accounts[k].id@)
                    ==> slim.active_name == Some(store.accounts[k].name@)
            &&& (forall|k: int|
                0 <= k < store.accounts.len() ==> store.active != Some(
                    (#[trigger] store.accounts[k]).id@,
                )) ==> slim.active_name is None
        },
{
    lemma_carried_accounts(store.accounts);
    if store.active is Some {
        store::lemma_position(store.accounts, store.active->0);
    }
    if slim_of(store) is Some {
        let slim = slim_of(store)->0;
        assert forall|i: int| 0 <= i < store.accounts.len() implies {
            let entry = #[trigger] slim.accounts[i];
            let account = store.accounts[i];
            &&& entry.name == account.name@
            &&& account.auth_data is ApiKey ==> entry.auth_type == 0 && entry.api_key == Some(
                account.auth_data->ApiKey_key@,
            ) && entry.refresh_token is None
            &&& account.auth_data is ChatGPT ==> entry.auth_type == 1 && entry.refresh_token == Some(
                account.auth_data->ChatGPT_refresh_token@,
            ) && entry.api_key is None
        } by {
            assert(slim_account(store.accounts[i]) == Some(slim.accounts[i]));
        }
        assert forall|k: int|
            0 <= k < store.accounts.len() && store.active == Some(
                (#[trigger] store.accounts[k]).id@,
            ) && (forall|j: int|
                0 <= j < k ==> (#[trigger] store.accounts[j]).id@
                    != store.accounts[k].id@) implies slim.active_name == Some(
            store.accounts[k].name@,
        ) by {
            let at = store::position(store.accounts, store.active->0)->0;
            assert(store.accounts[at].id@ == store.accounts[k].id@);
        }
        if forall|k: int|
            0 <= k < store.accounts.len() ==> store.active != Some(
                (#[trigger] store.accounts[k]).id@,
            ) {
            if store::active_account(store) is Some {
                let at = store::position(store.accounts, store.active->0)->0;
                assert(store.active == Some(store.accounts[at].id@));
            }
        }
    }
}

/// What was carried passes the check exactly where it has the right version, names that
/// are not blank and occur once, and for each account the API key or the refresh token
/// that its kind needs; and where the active account is one of them.
pub proof fn law_slim_check_is_exact(payload: SlimView)
    ensures
        slim_problem(payload) is None <==> {
            &&& payload.version == 1
            &&& forall|i: int|
                0 <= i < payload.accounts.len() ==> {
                    let account = #[trigger] payload.accounts[i];
                    &&& !text::blank(account.name)
                    &&& account.auth_type == 0 || account.auth_type == 1
                    &&& account.auth_type == 0 ==> (account.api_key matches Some(key)
                        && !text::blank(key))
                    &&& account.auth_type == 1 ==> (account.refresh_token matches Some(token)
                        && !text::blank(token))
                }
            &&& forall|i: int, j: int|
                0 <= i < j < payload.accounts.len() ==> (#[trigger] payload.accounts[i]).name != (
                #[trigger] payload.accounts[j]).name
            &&& payload.active_name matches Some(name) ==> exists|i: int|
                0 <= i < payload.accounts.len() && (#[trigger] payload.accounts[i]).name == name
        },
{
    lemma_accounts_pass(payload.accounts);
}

proof fn lemma_accounts_pass(accounts: Seq<SlimAccountView>)
    ensures
        slim_accounts_problem(accounts) is None <==> {
            &&& forall|i: int|
                0 <= i < accounts.len() ==> {
                    let account = #[trigger] accounts[i];
                    &&& !text::blank(account.name)
                    &&& account.auth_type == 0 || account.auth_type == 1
                    &&& account.auth_type == 0 ==> (account.api_key matches Some(key)
                        && !text::blank(key))
                    &&& account.auth_type == 1 ==> (account.refresh_token matches Some(token)
                        && !text::blank(token))
                }
            &&& forall|i: int, j: int|
                0 <= i < j < accounts.len() ==> (#[trigger] accounts[i]).name != (
                #[trigger] accounts[j]).name
        },
    decreases accounts.len(),
{
    if accounts.len() > 0 {
        let front = accounts.drop_last();
        let n = front.len() as int;
        lemma_accounts_pass(front);
        assert(accounts[n] == accounts.last());
        assert forall|i: int| 0 <= i < n implies front[i] == #[trigger] accounts[i] by {}
        if slim_accounts_problem(accounts) is None {
            assert forall|i: int| 0 <= i < accounts.len() implies {
                let account = #[trigger] accounts[i];
                &&& !text::blank(account.name)
                &&& account.auth_type == 0 || account.auth_type == 1
                &&& account.auth_type == 0 ==> (account.api_key matches Some(key)
                    && !text::blank(key))
                &&& account.auth_type == 1 ==> (account.refresh_token matches Some(token)
                    && !text::blank(token))
            } by {
                if i < n {
                    assert(front[i] == accounts[i]);
                }
            }
            assert forall|i: int, j: int| 0 <= i < j < accounts.len() implies (
            #[trigger] accounts[i]).name != (#[trigger] accounts[j]).name by {
                assert(front[i] == accounts[i]);
                if j < n {
                    assert(front[j] == accounts[j]);
                }
            }
        } else if slim_accounts_problem(front) is None {
            if is_named(front, accounts.last().name) {
                let i = choose|i: int|
                    0 <= i < front.len() && (#[trigger] front[i]).name == accounts.last().name;
                assert(accounts[i].name == accounts[n].name);
            }
        } else {
            assert((forall|i: int, j: int|
                0 <= i < j < accounts.len() ==> (#[trigger] accounts[i]).name != (
                #[trigger] accounts[j]).name) ==> (forall|i: int, j: int|
                0 <= i < j < front.len() ==> (#[trigger] front[i]).name != (
                #[trigger] front[j]).name)) by {
                if forall|i: int, j: int|
                    0 <= i < j < accounts.len() ==> (#[trigger] accounts[i]).name != (
                    #[trigger] accounts[j]).name {
                    assert forall|i: int, j: int| 0 <= i < j < front.len() implies (
                    #[trigger] front[i]).name != (#[trigger] front[j]).name by {
                        assert(accounts[i].name != accounts[j].name);
                    }
                }
            }
        }
    }
}

/// The problem that is told is that of the first account that has one, and it names the
/// account; an unknown version comes before all others.
pub proof fn law_first_slim_problem_is_told(payload: SlimView, k: int)
    requires
        0 <= k < payload.accounts.len(),
        slim_problem(
            SlimView { accounts: payload.accounts.take(k), active_name: None, ..payload },
        ) is None,
    ensures
        ({
            let account = payload.accounts[k];
            let problem = slim_problem(payload);
            let taken = exists|i: int|
                0 <= i < k && (#[trigger] payload.accounts[i]).name == account.name;
            let key_missing = !(account.api_key matches Some(key) && !text::blank(key));
            let token_missing = !(account.refresh_token matches Some(token) && !text::blank(token));
            &&& text::blank(account.name) ==> problem == Some(SlimProblem::EmptyName)
            &&& !text::blank(account.name) && taken ==> problem == Some(
                SlimProblem::DuplicateName(account.name),
            )
            &&& !text::blank(account.name) && !taken && account.auth_type == 0 && key_missing
                ==> problem == Some(SlimProblem::NoApiKey(account.name))
            &&& !text::blank(account.name) && !taken && account.auth_type == 1 && token_missing
                ==> problem == Some(SlimProblem::NoRefreshToken(account.name))
            &&& !text::blank(account.name) && !taken && account.auth_type > 1 ==> problem == Some(
                SlimProblem::UnknownAuthType(account.auth_type, account.name),
            )
        }),
{
    let accounts = payload.accounts;
    let account = accounts[k];
    let front = accounts.take(k);
    assert forall|i: int| 0 <= i < k implies front[i] == #[trigger] accounts[i] by {}
    if is_named(front, account.name) {
        let i = choose|i: int| 0 <= i < front.len() && (#[trigger] front[i]).name == account.name;
        assert(accounts[i].name == account.name);
    }
    if exists|i: int| 0 <= i < k && (#[trigger] accounts[i]).name == account.name {
        let i = choose|i: int| 0 <= i < k && (#[trigger] accounts[i]).name == account.name;
        assert(front[i].name == account.name);
    }
    assert(accounts.take(k + 1).drop_last() =~= front);
    assert(accounts.take(k + 1).last() == account);
    if slim_account_problem(front, account) is Some {
        lemma_problem_stays(accounts, k + 1);
    }
}

proof fn lemma_problem_stays(accounts: Seq<SlimAccountView>, k: int)
    requires
        0 <= k <= accounts.len(),
        slim_accounts_problem(accounts.take(k)) is Some,
    ensures
        slim_accounts_problem(accounts) == slim_accounts_problem(accounts.take(k)),
    decreases accounts.len(),
{
    if k < accounts.len() {
        assert(accounts.drop_last().take(k) =~= accounts.take(k));
        lemma_problem_stays(accounts.drop_last(), k);
    } else {
        assert(accounts.take(k) =~= accounts);
    }
}

/// Another version is refused, whatever else is carried, and an active account that is
/// not carried is named.
pub proof fn law_version_and_active_are_checked(payload: SlimView)
    ensures
        payload.version != 1 ==> slim_problem(payload) == Some(
            SlimProblem::UnknownVersion(payload.version),
        ),
        slim_problem(SlimView { active_name: None, ..payload }) is None ==> (
        payload.active_name matches Some(name) ==> (slim_problem(payload) is None <==> exists|i: int|
            0 <= i < payload.accounts.len() && (#[trigger] payload.accounts[i]).name == name) && (
        slim_problem(payload) is Some ==> slim_problem(payload) == Some(
            SlimProblem::MissingActive(name),
        ))),
{
}

/// An account is restored from the credentials of its kind, as they were carried.
pub proof fn law_restored_from_what_was_carried(entry: SlimAccountView)
    ensures
        entry.auth_type == 0 ==> match restored_from(entry) {
            Ok(RestoreView::UseApiKey(key)) => entry.api_key == Some(key),
            Err(error) => error == RestoreError::NoApiKey && entry.api_key is None,
            _ => false,
        },
        entry.auth_type == 1 ==> match restored_from(entry) {
            Ok(RestoreView::UseRefreshToken(token)) => entry.refresh_token == Some(token),
            Err(error) => error == RestoreError::NoRefreshToken && entry.refresh_token is None,
            _ => false,
        },
        entry.auth_type > 1 ==> restored_from(entry) == Err::<RestoreView, RestoreError>(
            RestoreError::UnknownAuthType,
        ),
{
}

proof fn lemma_first_by_name(accounts: Seq<StoredAccount>, name: Seq<char>)
    ensures
        match id_by_name(accounts, name) {
            Some(id) => exists|k: int|
                {
                    &&& 0 <= k < accounts.len()
                    &&& (#[trigger] accounts[k]).name@ == name
                    &&& accounts[k].id@ == id
                    &&& forall|j: int| 0 <= j < k ==> (#[trigger] accounts[j]).name@ != name
                },
            None => forall|k: int|
                0 <= k < accounts.len() ==> (#[trigger] accounts[k]).name@ != name,
        },
    decreases accounts.len(),
{
    if accounts.len() > 0 {
        if accounts[0].name@ == name {
        } else {
            let rest = accounts.drop_first();
            lemma_first_by_name(rest, name);
            if id_by_name(accounts, name) is Some {
                let id = id_by_name(accounts, name)->0;
                let k = choose|k: int|
                    {
                        &&& 0 <= k < rest.len()
                        &&& (#[trigger] rest[k]).name@ == name
                        &&& rest[k].id@ == id
                        &&& forall|j: int| 0 <= j < k ==> (#[trigger] rest[j]).name@ != name
                    };
                assert(accounts[k + 1].name@ == name);
                assert forall|j: int| 0 <= j < k + 1 implies (#[trigger] accounts[j]).name@
                    != name by {
                    if j > 0 {
                        assert(rest[j - 1] == accounts[j]);
                    }
                }
            } else {
                assert forall|k: int| 0 <= k < accounts.len() implies (
                #[trigger] accounts[k]).name@ != name by {
                    if k > 0 {
                        assert(rest[k - 1] == accounts[k]);
                    }
                }
            }
        }
    }
}

/// The store of restored accounts holds them in their order, hides none, and has as its
/// active account the first with the carried name, or else the first of all.
pub proof fn law_restored_store_holds_the_accounts(
    accounts: Seq<StoredAccount>,
    active_name: Option<Seq<char>>,
    k: int,
)
    requires
        0 <= k < accounts.len(),
        match active_name {
            Some(name) => {
                ||| accounts[k].name@ == name && forall|j: int|
                    0 <= j < k ==> (#[trigger] accounts[j]).name@ != name
                ||| k == 0 && forall|j: int|
                    0 <= j < accounts.len() ==> (#[trigger] accounts[j]).name@ != name
            },
            None => k == 0,
        },
    ensures
        restored_store(accounts, active_name).accounts == accounts,
        restored_store(accounts, active_name).active == Some(accounts[k].id@),
        restored_store(accounts, active_name).masked.len() == 0,
        restored_store(accounts, active_name).version == 1,
{
    if active_name is Some {
        let name = active_name->0;
        lemma_first_by_name(accounts, name);
        if id_by_name(accounts, name) is Some {
            let id = id_by_name(accounts, name)->0;
            let m = choose|m: int|
                {
                    &&& 0 <= m < accounts.len()
                    &&& (#[trigger] accounts[m]).name@ == name
                    &&& accounts[m].id@ == id
                    &&& forall|j: int| 0 <= j < m ==> (#[trigger] accounts[j]).name@ != name
                };
            assert(accounts[m].name@ == name);
        }
    }
}

/// Every carried account counts as imported or as skipped.
pub proof fn law_import_counts_every_account(
    summary: ImportAccountsSummary,
    total_in_payload: usize,
    merged: ImportAccountsSummary,
)
    requires
        is_slim_summary(summary, total_in_payload, merged),
        merged.imported_count <= total_in_payload,
    ensures
        summary.imported_count + summary.skipped_count == summary.total_in_payload,
        summary.total_in_payload == total_in_payload,
        summary.imported_count == merged.imported_count,
{
}

/// A text of nothing but white space carries nothing, and says so; a document that was
/// read is never longer than 2 MiB.
pub proof fn law_compact_text_is_limited(payload: Seq<char>)
    ensures
        slim_contents(payload) == Err::<Seq<u8>, SlimTextProblem>(SlimTextProblem::Empty)
            <==> text::blank(payload),
        slim_contents(payload) matches Ok(json) ==> json.len() <= 2_097_152,
{
    words::law_squeezing_takes_out_white_space(payload);
}

} // verus!
