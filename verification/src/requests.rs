//! The headers of requests to the ChatGPT backend, and what they answer.

use vstd::prelude::*;

use crate::agent;
use crate::agent::AgentError;
use crate::auth_file;
use crate::claims;
use crate::claims::AccessClaims;
use crate::claims::CodexAccessTokenClaims;
use crate::headers;
use crate::text;
use crate::types::AuthData;
use crate::types::StoredAccount;

verus! {

pub const CHATGPT_BACKEND_API: &'static str = "https://chatgpt.com/backend-api";

pub const CHATGPT_ACCOUNTS_CHECK_API: &'static str =
    "https://chatgpt.com/backend-api/accounts/check/v4-2023-04-27";

pub const CHATGPT_CODEX_USAGE_API: &'static str = "https://chatgpt.com/backend-api/wham/usage";

pub const CHATGPT_CODEX_RESPONSES_API: &'static str =
    "https://chatgpt.com/backend-api/codex/responses";

pub const OPENAI_API: &'static str = "https://api.openai.com/v1";

pub const CODEX_USER_AGENT: &'static str = "codex-cli/1.0.0";

/// Where the usage of an account with an access token is asked for.
pub fn codex_usage_url() -> (r: &'static str)
    ensures
        r@ == "https://chatgpt.com/backend-api/wham/usage"@,
{
    CHATGPT_CODEX_USAGE_API
}

/// Why a request cannot be made
#[derive(Debug, Clone, Copy, PartialEq, Eq, Structural)]
pub enum RequestError {
    NotOAuth,
    NotAccessToken,
    InvalidAccessToken,
    InvalidAgentHeader,
    InvalidHeaderValue,
    Agent(AgentError),
}

impl RequestError {
    pub open spec fn text(self) -> Seq<char> {
        match self {
            RequestError::NotOAuth => "Account is not using ChatGPT OAuth"@,
            RequestError::NotAccessToken => "Account is not using a Codex access token"@,
            RequestError::InvalidAccessToken => "Invalid access token"@,
            RequestError::InvalidAgentHeader => "Invalid Agent Identity header"@,
            RequestError::InvalidHeaderValue => "failed to parse header value"@,
            RequestError::Agent(error) => error.text(),
        }
    }

    pub fn message(&self) -> (r: String)
        ensures
            r@ == self.text(),
    {
        match self {
            RequestError::NotOAuth => "Account is not using ChatGPT OAuth".to_string(),
            RequestError::NotAccessToken => "Account is not using a Codex access token".to_string(),
            RequestError::InvalidAccessToken => "Invalid access token".to_string(),
            RequestError::InvalidAgentHeader => "Invalid Agent Identity header".to_string(),
            RequestError::InvalidHeaderValue => "failed to parse header value".to_string(),
            RequestError::Agent(error) => error.message(),
        }
    }
}

// ---------------------------------------------------------------------------
// Headers
// ---------------------------------------------------------------------------

/// There are at most `count` names.
pub open spec fn few(fields: Map<Seq<char>, Seq<Seq<u8>>>, count: nat) -> bool {
    fields.dom().finite() && fields.dom().len() <= count
}

/// How many names headers may have for one more to be added.
pub const MOST_NAMES: u32 = 6553;

/// Puts a value under a name.
pub(crate) fn put(headers: &mut reqwest::header::HeaderMap, name: &str, value: &str) -> (r: bool)
    requires
        headers::is_header_name(name@),
        few(headers::header_fields(*old(headers)), MOST_NAMES as nat),
    ensures
        r == headers::is_header_value(value@),
        headers::header_fields(*final(headers)) == (if r {
            headers::with_field(headers::header_fields(*old(headers)), name@, value@)
        } else {
            headers::header_fields(*old(headers))
        }),
        forall|count: nat| #[trigger]
            few(headers::header_fields(*old(headers)), count) ==> few(
                headers::header_fields(*final(headers)),
                count + 1,
            ),
{
    headers::insert_header(headers, name, value)
}

/// The authorization with a bearer token.
pub open spec fn bearer(token: Seq<char>) -> Seq<char> {
    "Bearer "@ + token
}

/// The headers that name the client and carry the authorization.
pub open spec fn authorized(authorization: Seq<char>) -> Map<Seq<char>, Seq<Seq<u8>>> {
    headers::with_field(
        headers::with_field(headers::no_fields(), "user-agent"@, CODEX_USER_AGENT@),
        "authorization"@,
        authorization,
    )
}

/// The headers with the identifier of an account, where there is one that can be
/// sent.
pub open spec fn with_account(
    fields: Map<Seq<char>, Seq<Seq<u8>>>,
    account_id: Option<Seq<char>>,
) -> Map<Seq<char>, Seq<Seq<u8>>> {
    match account_id {
        Some(id) if headers::is_header_value(id) => headers::with_field(
            fields,
            "chatgpt-account-id"@,
            id,
        ),
        _ => fields,
    }
}

/// The names of headers that are sent.
pub proof fn lemma_header_names()
    ensures
        headers::is_header_name("user-agent"@),
        headers::is_header_name("authorization"@),
        headers::is_header_name("chatgpt-account-id"@),
        headers::is_header_name("x-openai-fedramp"@),
        headers::is_header_name("accept"@),
        headers::is_header_name("openai-beta"@),
        headers::is_header_name("originator"@),
        headers::is_header_value(CODEX_USER_AGENT@),
        headers::is_header_value("true"@),
        headers::is_header_value("application/json"@),
        headers::is_header_value("codex-1"@),
        headers::is_header_value("Codex Desktop"@),
{
    reveal_strlit("user-agent");
    reveal_strlit("authorization");
    reveal_strlit("chatgpt-account-id");
    reveal_strlit("x-openai-fedramp");
    reveal_strlit("accept");
    reveal_strlit("openai-beta");
    reveal_strlit("originator");
    lemma_ascii_values();
}

proof fn lemma_ascii_values()
    ensures
        headers::is_header_value(CODEX_USER_AGENT@),
        headers::is_header_value("true"@),
        headers::is_header_value("application/json"@),
        headers::is_header_value("codex-1"@),
        headers::is_header_value("Codex Desktop"@),
{
    reveal_strlit("codex-cli/1.0.0");
    reveal_strlit("true");
    reveal_strlit("application/json");
    reveal_strlit("codex-1");
    reveal_strlit("Codex Desktop");
    lemma_printable_is_value(CODEX_USER_AGENT@);
    lemma_printable_is_value("true"@);
    lemma_printable_is_value("application/json"@);
    lemma_printable_is_value("codex-1"@);
    lemma_printable_is_value("Codex Desktop"@);
}

/// Printable ASCII text can be the value of a header.
pub proof fn lemma_printable_is_value(value: Seq<char>)
    requires
        forall|i: int| 0 <= i < value.len() ==> ' ' <= #[trigger] value[i] <= '~',
    ensures
        headers::is_header_value(value),
{
    assert(vstd::utf8::is_ascii_chars(value));
    vstd::utf8::is_ascii_chars_encode_utf8(value);
    let bytes = vstd::utf8::encode_utf8(value);
    assert forall|i: int| 0 <= i < bytes.len() implies headers::is_value_byte(
        #[trigger] bytes[i],
    ) by {
        assert(bytes[i] == value[i] as u8);
    }
}

/// The headers of a request with a bearer token, for an account.
pub open spec fn chatgpt_headers(
    access_token: Seq<char>,
    account_id: Option<Seq<char>>,
) -> Result<Map<Seq<char>, Seq<Seq<u8>>>, RequestError> {
    if headers::is_header_value(bearer(access_token)) {
        Ok(with_account(authorized(bearer(access_token)), account_id))
    } else {
        Err(RequestError::InvalidAccessToken)
    }
}

/// The headers that name the client and carry the authorization, if it can be
/// sent.
pub(crate) fn authorized_headers(authorization: &str) -> (r: Option<reqwest::header::HeaderMap>)
    ensures
        match r {
            Some(headers) => {
                &&& headers::is_header_value(authorization@)
                &&& headers::header_fields(headers) == authorized(authorization@)
                &&& few(headers::header_fields(headers), 2)
            },
            None => !headers::is_header_value(authorization@),
        },
{
    proof {
        lemma_header_names();
    }
    let mut headers = headers::new_headers();
    assert(few(headers::header_fields(headers), 0));
    put(&mut headers, "user-agent", CODEX_USER_AGENT);
    assert(few(headers::header_fields(headers), 1));
    if put(&mut headers, "authorization", authorization) {
        assert(few(headers::header_fields(headers), 2));
        Some(headers)
    } else {
        None
    }
}

/// Adds the identifier of an account, where it can be sent.
fn put_account(headers: &mut reqwest::header::HeaderMap, account_id: Option<&str>)
    requires
        few(headers::header_fields(*old(headers)), 100),
    ensures
        headers::header_fields(*final(headers)) == with_account(
            headers::header_fields(*old(headers)),
            text::opt_str(account_id),
        ),
        few(headers::header_fields(*final(headers)), 101),
{
    proof {
        lemma_header_names();
    }
    match account_id {
        Some(id) => {
            assert(few(headers::header_fields(*headers), 100));
            put(headers, "chatgpt-account-id", id);
        },
        None => {},
    }
}

/// The headers of a request with a bearer token, for an account. An identifier
/// that cannot be sent is left out.
pub fn build_chatgpt_headers(access_token: &str, chatgpt_account_id: Option<&str>) -> (r: Result<
    reqwest::header::HeaderMap,
    RequestError,
>)
    ensures
        match r {
            Ok(headers) => chatgpt_headers(access_token@, text::opt_str(chatgpt_account_id))
                == Ok::<Map<Seq<char>, Seq<Seq<u8>>>, RequestError>(
                headers::header_fields(headers),
            ),
            Err(error) => chatgpt_headers(access_token@, text::opt_str(chatgpt_account_id))
                == Err::<Map<Seq<char>, Seq<Seq<u8>>>, RequestError>(error),
        },
{
    let authorization = text::joined("Bearer ", access_token);
    match authorized_headers(authorization.as_str()) {
        Some(mut headers) => {
            put_account(&mut headers, chatgpt_account_id);
            Ok(headers)
        },
        None => Err(RequestError::InvalidAccessToken),
    }
}

/// What a token and an account, or an error, are.
pub open spec fn auth_result(r: Result<(&str, Option<&str>), RequestError>) -> Result<
    (Seq<char>, Option<Seq<char>>),
    RequestError,
> {
    match r {
        Ok((token, id)) => Ok((token@, text::opt_str(id))),
        Err(error) => Err(error),
    }
}

/// The token and the account that requests with a bearer token are made with.
pub open spec fn bearer_auth(auth: AuthData) -> Result<
    (Seq<char>, Option<Seq<char>>),
    RequestError,
> {
    match auth {
        AuthData::ChatGPT { access_token, account_id, .. } => Ok(
            (access_token@, text::opt_text(account_id)),
        ),
        AuthData::CodexAccessToken { token, account_id, .. } => Ok(
            (token@, text::opt_text(account_id)),
        ),
        AuthData::ApiKey { .. } => Err(RequestError::NotOAuth),
    }
}

/// The token and the account that requests with a bearer token are made with.
pub fn extract_chatgpt_auth(account: &StoredAccount) -> (r: Result<
    (&str, Option<&str>),
    RequestError,
>)
    ensures
        auth_result(r) == bearer_auth(account.auth_data),
{
    match &account.auth_data {
        AuthData::ChatGPT { access_token, account_id, .. } => Ok(
            (access_token.as_str(), text::as_opt_str(account_id)),
        ),
        AuthData::CodexAccessToken { token, account_id, .. } => Ok(
            (token.as_str(), text::as_opt_str(account_id)),
        ),
        AuthData::ApiKey { .. } => Err(RequestError::NotOAuth),
    }
}

// ---------------------------------------------------------------------------
// Access tokens
// ---------------------------------------------------------------------------

/// What requests with a Codex access token are made with
#[derive(Debug)]
pub struct CodexAccess {
    pub token: String,
    pub account_id: Option<String>,
    pub agent: Option<AgentAccess>,
    pub is_fedramp: bool,
}

/// What requests in the name of an agent are made with
#[derive(Debug)]
pub struct AgentAccess {
    pub runtime_id: String,
    pub private_key: String,
    /// The task that is already registered
    pub task_id: Option<String>,
}

/// What requests with an access token are made with.
pub struct AccessView {
    pub token: Seq<char>,
    pub account_id: Option<Seq<char>>,
    pub agent: Option<AgentView>,
    pub is_fedramp: bool,
}

/// What requests in the name of an agent are made with.
pub struct AgentView {
    pub runtime_id: Seq<char>,
    pub private_key: Seq<char>,
    pub task_id: Option<Seq<char>>,
}

impl View for AgentAccess {
    type V = AgentView;

    open spec fn view(&self) -> AgentView {
        AgentView {
            runtime_id: self.runtime_id@,
            private_key: self.private_key@,
            task_id: text::opt_text(self.task_id),
        }
    }
}

impl View for CodexAccess {
    type V = AccessView;

    open spec fn view(&self) -> AccessView {
        AccessView {
            token: self.token@,
            account_id: text::opt_text(self.account_id),
            agent: match self.agent {
                Some(agent) => Some(agent@),
                None => None,
            },
            is_fedramp: self.is_fedramp,
        }
    }
}

/// A task that is not blank.
pub open spec fn usable_task(task_id: Option<Seq<char>>) -> Option<Seq<char>> {
    match task_id {
        Some(task) if !text::blank(task) => Some(task),
        _ => None,
    }
}

/// What requests for an account with an access token are made with. What the store
/// does not say of the account, the claims of its token say. An agent needs both a
/// runtime and a key.
pub open spec fn access_of(auth: AuthData, claims: AccessClaims) -> Option<AccessView> {
    match auth {
        AuthData::CodexAccessToken {
            token,
            account_id,
            agent_runtime_id,
            agent_private_key,
            chatgpt_user_id,
            chatgpt_account_is_fedramp,
            task_id,
        } => {
            let runtime = auth_file::either(
                text::opt_text(agent_runtime_id),
                claims.agent_runtime_id,
            );
            let key = auth_file::either(
                text::opt_text(agent_private_key),
                claims.agent_private_key,
            );
            Some(
                AccessView {
                    token: token@,
                    account_id: auth_file::either(text::opt_text(account_id), claims.account_id),
                    agent: match (runtime, key) {
                        (Some(runtime_id), Some(private_key)) => Some(
                            AgentView {
                                runtime_id,
                                private_key,
                                task_id: usable_task(text::opt_text(task_id)),
                            },
                        ),
                        _ => None,
                    },
                    is_fedramp: chatgpt_account_is_fedramp || claims.chatgpt_account_is_fedramp,
                },
            )
        },
        _ => None,
    }
}

fn own_or_claimed(own: &Option<String>, claimed: Option<String>) -> (r: Option<String>)
    ensures
        text::opt_text(r) == auth_file::either(text::opt_text(*own), text::opt_text(claimed)),
{
    match own {
        Some(own) => Some(own.clone()),
        None => claimed,
    }
}

/// What requests for an account with an access token are made with, given the
/// claims of the token.
pub fn codex_access(account: &StoredAccount, claims: CodexAccessTokenClaims) -> (r: Option<
    CodexAccess,
>)
    ensures
        (match r {
            Some(access) => Some(access@),
            None => None,
        }) == access_of(account.auth_data, claims@),
{
    match &account.auth_data {
        AuthData::CodexAccessToken {
            token,
            account_id,
            agent_runtime_id,
            agent_private_key,
            chatgpt_account_is_fedramp,
            task_id,
            ..
        } => {
            let runtime = own_or_claimed(agent_runtime_id, claims.agent_runtime_id);
            let key = own_or_claimed(agent_private_key, claims.agent_private_key);
            let task = match task_id {
                Some(task) => {
                    if text::is_blank(task.as_str()) {
                        None
                    } else {
                        Some(task.clone())
                    }
                },
                None => None,
            };
            let agent = match (runtime, key) {
                (Some(runtime_id), Some(private_key)) => Some(
                    AgentAccess { runtime_id, private_key, task_id: task },
                ),
                _ => None,
            };
            Some(
                CodexAccess {
                    token: token.clone(),
                    account_id: own_or_claimed(account_id, claims.account_id),
                    agent,
                    is_fedramp: *chatgpt_account_is_fedramp || claims.chatgpt_account_is_fedramp,
                },
            )
        },
        _ => None,
    }
}

/// What a request needs before its headers are complete, or the headers
#[derive(Debug)]
pub enum HeaderStep {
    /// A task has to be registered for this agent.
    Register {
        runtime_id: String,
        private_key: String,
    },
    Headers(reqwest::header::HeaderMap),
}

/// What a header step is.
pub enum StepView {
    Register {
        runtime_id: Seq<char>,
        private_key: Seq<char>,
    },
    Headers(Map<Seq<char>, Seq<Seq<u8>>>),
}

impl View for HeaderStep {
    type V = StepView;

    open spec fn view(&self) -> StepView {
        match self {
            HeaderStep::Register { runtime_id, private_key } => StepView::Register {
                runtime_id: runtime_id@,
                private_key: private_key@,
            },
            HeaderStep::Headers(headers) => StepView::Headers(headers::header_fields(*headers)),
        }
    }
}

/// What a step or an error is.
pub open spec fn step_result(r: Result<HeaderStep, RequestError>) -> Result<
    StepView,
    RequestError,
> {
    match r {
        Ok(step) => Ok(step@),
        Err(error) => Err(error),
    }
}

/// The headers with the account and, where it is one of theirs, the mark of
/// FedRAMP.
pub open spec fn for_access(
    fields: Map<Seq<char>, Seq<Seq<u8>>>,
    access: AccessView,
) -> Map<Seq<char>, Seq<Seq<u8>>> {
    let named = with_account(fields, access.account_id);
    if access.is_fedramp {
        headers::with_field(named, "x-openai-fedramp"@, "true"@)
    } else {
        named
    }
}

/// The headers of a request with an access token at the given time. An agent signs
/// it for its task: the one that is registered already, or else `registered`; where
/// there is neither, a task has to be registered first. Without an agent the token
/// itself is the authorization.
pub open spec fn access_headers(
    access: AccessView,
    registered: Option<Seq<char>>,
    timestamp: Seq<char>,
) -> Result<StepView, RequestError> {
    match access.agent {
        None => {
            let authorization = bearer(text::trim_of(access.token));
            if headers::is_header_value(authorization) {
                Ok(StepView::Headers(for_access(authorized(authorization), access)))
            } else {
                Err(RequestError::InvalidAccessToken)
            }
        },
        Some(agent) => match auth_file::either(agent.task_id, registered) {
            None => Ok(
                StepView::Register {
                    runtime_id: agent.runtime_id,
                    private_key: agent.private_key,
                },
            ),
            Some(task) => match agent::authorization(
                agent.runtime_id,
                agent.private_key,
                task,
                timestamp,
            ) {
                Err(error) => Err(RequestError::Agent(error)),
                Ok(authorization) => if headers::is_header_value(authorization) {
                    Ok(StepView::Headers(for_access(authorized(authorization), access)))
                } else {
                    Err(RequestError::InvalidAgentHeader)
                },
            },
        },
    }
}

fn finish_headers(headers: reqwest::header::HeaderMap, access: &CodexAccess) -> (r:
    reqwest::header::HeaderMap)
    requires
        few(headers::header_fields(headers), 2),
    ensures
        headers::header_fields(r) == for_access(headers::header_fields(headers), access@),
{
    let mut headers = headers;
    put_account(&mut headers, text::as_opt_str(&access.account_id));
    if access.is_fedramp {
        proof {
            lemma_header_names();
        }
        put(&mut headers, "x-openai-fedramp", "true");
    }
    headers
}

/// The headers of a request with an access token at the given time, or what they
/// need first.
pub fn access_headers_at(access: &CodexAccess, registered: Option<&str>, timestamp: &str) -> (r:
    Result<HeaderStep, RequestError>)
    ensures
        step_result(r) == access_headers(access@, text::opt_str(registered), timestamp@),
{
    match &access.agent {
        None => {
            let trimmed = text::trim(access.token.as_str());
            let authorization = text::joined("Bearer ", trimmed.as_str());
            match authorized_headers(authorization.as_str()) {
                Some(headers) => Ok(HeaderStep::Headers(finish_headers(headers, access))),
                None => Err(RequestError::InvalidAccessToken),
            }
        },
        Some(agent) => {
            let task: Option<&str> = match &agent.task_id {
                Some(task) => Some(task.as_str()),
                None => registered,
            };
            match task {
                None => Ok(
                    HeaderStep::Register {
                        runtime_id: agent.runtime_id.clone(),
                        private_key: agent.private_key.clone(),
                    },
                ),
                Some(task) => match agent::authorization_header_at(
                    agent.runtime_id.as_str(),
                    agent.private_key.as_str(),
                    task,
                    timestamp,
                ) {
                    Err(error) => Err(RequestError::Agent(error)),
                    Ok(authorization) => match authorized_headers(authorization.as_str()) {
                        Some(headers) => Ok(HeaderStep::Headers(finish_headers(headers, access))),
                        None => Err(RequestError::InvalidAgentHeader),
                    },
                },
            }
        },
    }
}

/// The headers of a request for an account with an access token, at a time that a clock
/// may show, or what they need first.
pub open spec fn is_account_step(
    auth: AuthData,
    registered: Option<Seq<char>>,
    r: Result<HeaderStep, RequestError>,
) -> bool {
    match auth {
        AuthData::CodexAccessToken { token, .. } => {
            let access = access_of(
                auth,
                claims::access_token_claims(token@),
            )->0;
            exists|timestamp: Seq<char>|
                #![trigger access_headers(access, registered, timestamp)]
                agent::is_agent_timestamp(timestamp) && step_result(r) == access_headers(
                    access,
                    registered,
                    timestamp,
                )
        },
        _ => r == Err::<HeaderStep, RequestError>(RequestError::NotAccessToken),
    }
}

/// The headers of a request for an account with an access token now, or what they
/// need first: a task, which is handed in as `registered` once there is one.
pub fn build_codex_access_token_headers(account: &StoredAccount, registered: Option<&str>) -> (r:
    Result<HeaderStep, RequestError>)
    ensures
        is_account_step(account.auth_data, text::opt_str(registered), r),
{
    let claims = match &account.auth_data {
        AuthData::CodexAccessToken { token, .. } => claims::parse_codex_access_token_claims(
            token.as_str(),
        ),
        _ => {
            return Err(RequestError::NotAccessToken);
        },
    };
    match codex_access(account, claims) {
        Some(access) => {
            let timestamp = agent::agent_timestamp();
            let r = access_headers_at(&access, registered, timestamp.as_str());
            assert(step_result(r) == access_headers(
                access@,
                text::opt_str(registered),
                timestamp@,
            ));
            r
        },
        None => Err(RequestError::NotAccessToken),
    }
}

/// Once a task is registered, no other has to be: with a task in hand, the headers
/// never ask for one.
pub proof fn law_one_registration_is_enough(
    access: AccessView,
    registered: Seq<char>,
    timestamp: Seq<char>,
)
    ensures
        access_headers(access, Some(registered), timestamp) matches Ok(step) ==> step is Headers,
{
}

// ---------------------------------------------------------------------------
// What holds of the headers
// ---------------------------------------------------------------------------

/// The names of headers are in lower case, and no two are the same.
pub proof fn lemma_names_in_lower_case()
    ensures
        text::lower_of("user-agent"@) == "user-agent"@,
        text::lower_of("authorization"@) == "authorization"@,
        text::lower_of("chatgpt-account-id"@) == "chatgpt-account-id"@,
        text::lower_of("x-openai-fedramp"@) == "x-openai-fedramp"@,
        "user-agent"@ != "authorization"@,
        "user-agent"@ != "chatgpt-account-id"@,
        "user-agent"@ != "x-openai-fedramp"@,
        "authorization"@ != "chatgpt-account-id"@,
        "authorization"@ != "x-openai-fedramp"@,
        "chatgpt-account-id"@ != "x-openai-fedramp"@,
{
    reveal_strlit("user-agent");
    reveal_strlit("authorization");
    reveal_strlit("chatgpt-account-id");
    reveal_strlit("x-openai-fedramp");
    assert(text::lower_of("user-agent"@) =~= "user-agent"@);
    assert(text::lower_of("authorization"@) =~= "authorization"@);
    assert(text::lower_of("chatgpt-account-id"@) =~= "chatgpt-account-id"@);
    assert(text::lower_of("x-openai-fedramp"@) =~= "x-openai-fedramp"@);
    assert("user-agent"@.len() == 10);
    assert("authorization"@.len() == 13);
    assert("chatgpt-account-id"@.len() == 18);
    assert("x-openai-fedramp"@.len() == 16);
}

/// A request carries the token behind `Bearer` and names the client; it names the account
/// exactly where there is one whose identifier can be sent. It cannot be made exactly where
/// the token cannot be sent.
pub proof fn law_requests_carry_token_and_account(
    access_token: Seq<char>,
    account_id: Option<Seq<char>>,
)
    ensures
        chatgpt_headers(access_token, account_id) is Ok <==> headers::is_header_value(
            "Bearer "@ + access_token,
        ),
        chatgpt_headers(access_token, account_id) matches Ok(fields) ==> {
            let named = account_id is Some && headers::is_header_value(account_id->0);
            &&& fields.contains_key("user-agent"@)
            &&& fields["user-agent"@] == seq![vstd::utf8::encode_utf8("codex-cli/1.0.0"@)]
            &&& fields.contains_key("authorization"@)
            &&& fields["authorization"@] == seq![
                vstd::utf8::encode_utf8("Bearer "@ + access_token),
            ]
            &&& fields.contains_key("chatgpt-account-id"@) <==> named
            &&& named ==> fields["chatgpt-account-id"@] == seq![
                vstd::utf8::encode_utf8(account_id->0),
            ]
            &&& forall|name: Seq<char>| #[trigger]
                fields.contains_key(name) ==> name == "user-agent"@ || name == "authorization"@
                    || name == "chatgpt-account-id"@
        },
{
    lemma_names_in_lower_case();
}

/// Requests are made with the token and the account that are stored, and never with an API
/// key.
pub proof fn law_requests_use_stored_tokens(auth: AuthData)
    ensures
        auth is ChatGPT ==> bearer_auth(auth) == Ok::<
            (Seq<char>, Option<Seq<char>>),
            RequestError,
        >((auth->ChatGPT_access_token@, text::opt_text(auth->ChatGPT_account_id))),
        auth is CodexAccessToken ==> bearer_auth(auth) == Ok::<
            (Seq<char>, Option<Seq<char>>),
            RequestError,
        >((auth->CodexAccessToken_token@, text::opt_text(auth->CodexAccessToken_account_id))),
        auth is ApiKey <==> bearer_auth(auth) is Err,
{
}

/// What is stored of an account with an access token counts before what its token claims.
/// There is an agent exactly where a runtime and a key are known, and a task is its own only
/// where it is not blank. One that is marked in either place is marked.
pub proof fn law_stored_values_come_first(auth: AuthData, claims: AccessClaims)
    ensures
        access_of(auth, claims) is Some <==> auth is CodexAccessToken,
        access_of(auth, claims) matches Some(access) ==> {
            let account_id = text::opt_text(auth->CodexAccessToken_account_id);
            let runtime_id = text::opt_text(auth->agent_runtime_id);
            let private_key = text::opt_text(auth->agent_private_key);
            let task_id = text::opt_text(auth->task_id);
            &&& access.token == auth->CodexAccessToken_token@
            &&& account_id is Some ==> access.account_id == account_id
            &&& account_id is None ==> access.account_id == claims.account_id
            &&& access.is_fedramp <==> auth->chatgpt_account_is_fedramp
                || claims.chatgpt_account_is_fedramp
            &&& access.agent is Some <==> (runtime_id is Some || claims.agent_runtime_id is Some)
                && (private_key is Some || claims.agent_private_key is Some)
            &&& access.agent matches Some(agent) ==> {
                &&& runtime_id is Some ==> runtime_id == Some(agent.runtime_id)
                &&& runtime_id is None ==> claims.agent_runtime_id == Some(agent.runtime_id)
                &&& private_key is Some ==> private_key == Some(agent.private_key)
                &&& private_key is None ==> claims.agent_private_key == Some(agent.private_key)
                &&& task_id is Some && !text::blank(task_id->0) ==> agent.task_id == task_id
                &&& task_id is None || text::blank(task_id->0) ==> agent.task_id is None
            }
        },
{
}

/// Without an agent, a request carries the token itself, without the white space around it,
/// and nothing has to be registered.
pub proof fn law_tokens_authorize_without_an_agent(
    access: AccessView,
    registered: Option<Seq<char>>,
    timestamp: Seq<char>,
)
    requires
        access.agent is None,
    ensures
        ({
            let authorization = "Bearer "@ + text::trim_of(access.token);
            match access_headers(access, registered, timestamp) {
                Ok(StepView::Headers(fields)) => {
                    &&& headers::is_header_value(authorization)
                    &&& fields.contains_key("authorization"@)
                    &&& fields["authorization"@] == seq![vstd::utf8::encode_utf8(authorization)]
                },
                Ok(StepView::Register { .. }) => false,
                Err(error) => error == RequestError::InvalidAccessToken
                    && !headers::is_header_value(authorization),
            }
        }),
{
    lemma_names_in_lower_case();
}

/// An agent signs a request for its own task, or else for the one that was registered.
/// Where there is neither, one has to be registered for its runtime and with its key.
pub proof fn law_agents_sign_for_their_task(
    access: AccessView,
    registered: Option<Seq<char>>,
    timestamp: Seq<char>,
    task: Seq<char>,
)
    requires
        access.agent is Some,
        access.agent->0.task_id is Some ==> access.agent->0.task_id == Some(task),
        access.agent->0.task_id is None && registered is Some ==> registered == Some(task),
    ensures
        ({
            let agent = access.agent->0;
            let signed = agent::authorization(
                agent.runtime_id,
                agent.private_key,
                task,
                timestamp,
            );
            let asked = agent.task_id is None && registered is None;
            match access_headers(access, registered, timestamp) {
                Ok(StepView::Register { runtime_id, private_key }) => asked && runtime_id
                    == agent.runtime_id && private_key == agent.private_key,
                Ok(StepView::Headers(fields)) => {
                    &&& !asked
                    &&& signed is Ok
                    &&& headers::is_header_value(signed->Ok_0)
                    &&& fields.contains_key("authorization"@)
                    &&& fields["authorization"@] == seq![vstd::utf8::encode_utf8(signed->Ok_0)]
                },
                Err(error) => !asked && match signed {
                    Ok(authorization) => error == RequestError::InvalidAgentHeader
                        && !headers::is_header_value(authorization),
                    Err(problem) => error == RequestError::Agent(problem),
                },
            }
        }),
{
    lemma_names_in_lower_case();
}

/// Whoever authorizes a request with an access token, it names the client, names the
/// account exactly where its identifier can be sent, and is marked exactly where the
/// account is. It carries nothing else.
pub proof fn law_requests_name_the_account(
    access: AccessView,
    registered: Option<Seq<char>>,
    timestamp: Seq<char>,
)
    ensures
        access_headers(access, registered, timestamp) matches Ok(StepView::Headers(fields)) ==> {
            let named = access.account_id is Some && headers::is_header_value(
                access.account_id->0,
            );
            &&& fields.contains_key("user-agent"@)
            &&& fields["user-agent"@] == seq![vstd::utf8::encode_utf8("codex-cli/1.0.0"@)]
            &&& fields.contains_key("authorization"@)
            &&& fields.contains_key("chatgpt-account-id"@) <==> named
            &&& named ==> fields["chatgpt-account-id"@] == seq![
                vstd::utf8::encode_utf8(access.account_id->0),
            ]
            &&& fields.contains_key("x-openai-fedramp"@) <==> access.is_fedramp
            &&& access.is_fedramp ==> fields["x-openai-fedramp"@] == seq![
                vstd::utf8::encode_utf8("true"@),
            ]
            &&& forall|name: Seq<char>| #[trigger]
                fields.contains_key(name) ==> name == "user-agent"@ || name == "authorization"@
                    || name == "chatgpt-account-id"@ || name == "x-openai-fedramp"@
        },
{
    lemma_names_in_lower_case();
}

/// Only accounts with an access token make such requests. A task is registered only where
/// none is known, stored or registered, for the runtime and the key that are stored or that
/// the token claims; what was stored counts first.
pub proof fn law_known_tasks_are_used(
    auth: AuthData,
    registered: Option<Seq<char>>,
    r: Result<HeaderStep, RequestError>,
)
    requires
        is_account_step(auth, registered, r),
    ensures
        !(auth is CodexAccessToken) ==> step_result(r) == Err::<StepView, RequestError>(
            RequestError::NotAccessToken,
        ),
        auth is CodexAccessToken ==> {
            let claims = claims::access_token_claims(auth->CodexAccessToken_token@);
            let known = auth->task_id is Some && !text::blank(auth->task_id->0@);
            &&& r matches Ok(HeaderStep::Register { runtime_id, private_key }) ==> {
                &&& registered is None
                &&& !known
                &&& auth->agent_runtime_id matches Some(id) ==> runtime_id@ == id@
                &&& auth->agent_runtime_id is None ==> claims.agent_runtime_id == Some(runtime_id@)
                &&& auth->agent_private_key matches Some(key) ==> private_key@ == key@
                &&& auth->agent_private_key is None ==> claims.agent_private_key == Some(
                    private_key@,
                )
            }
            &&& auth->agent_runtime_id is Some && auth->agent_private_key is Some && !known
                && registered is None ==> (r matches Ok(step) && step is Register)
        },
{
}

} // verus!
