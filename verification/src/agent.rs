//! Requests in the name of an agent: keys, signatures and tasks.

use vstd::prelude::*;

use crate::clock;
use crate::clock::Timestamp;
use crate::crypto;
use crate::encoding;
use crate::json;
use crate::text;
use crate::vault;

verus! {

pub const AGENT_IDENTITY_AUTHAPI_BASE_URL: &'static str = "https://auth.openai.com/api/accounts";

/// Why a request cannot be made in the name of an agent
#[derive(Debug, Clone, Copy, PartialEq, Eq, Structural)]
pub enum AgentError {
    KeyNotBase64,
    KeyNotPkcs8,
    TaskNotBase64,
    TaskUndecryptable,
    TaskNotUtf8,
    NoTask,
}

impl AgentError {
    pub open spec fn text(self) -> Seq<char> {
        match self {
            AgentError::KeyNotBase64 => "Agent Identity private key is not valid base64"@,
            AgentError::KeyNotPkcs8 => "Agent Identity private key is not valid PKCS#8"@,
            AgentError::TaskNotBase64 => "Encrypted Agent Identity task id is not valid base64"@,
            AgentError::TaskUndecryptable => "Failed to decrypt Agent Identity task id"@,
            AgentError::TaskNotUtf8 => "Decrypted Agent Identity task id is not valid UTF-8"@,
            AgentError::NoTask => "Agent Identity task registration response omitted task_id"@,
        }
    }

    pub fn message(&self) -> (r: String)
        ensures
            r@ == self.text(),
    {
        match self {
            AgentError::KeyNotBase64 => {
                "Agent Identity private key is not valid base64".to_string()
            },
            AgentError::KeyNotPkcs8 => "Agent Identity private key is not valid PKCS#8".to_string(),
            AgentError::TaskNotBase64 => {
                "Encrypted Agent Identity task id is not valid base64".to_string()
            },
            AgentError::TaskUndecryptable => "Failed to decrypt Agent Identity task id".to_string(),
            AgentError::TaskNotUtf8 => {
                "Decrypted Agent Identity task id is not valid UTF-8".to_string()
            },
            AgentError::NoTask => {
                "Agent Identity task registration response omitted task_id".to_string()
            },
        }
    }
}

// ---------------------------------------------------------------------------
// Keys
// ---------------------------------------------------------------------------

/// The secret bytes of a private key.
pub open spec fn signing_seed(private_key: Seq<char>) -> Result<Seq<u8>, AgentError> {
    match encoding::base64_decoded(private_key) {
        None => Err(AgentError::KeyNotBase64),
        Some(der) => match crypto::pkcs8_seed(der) {
            None => Err(AgentError::KeyNotPkcs8),
            Some(seed) => Ok(seed),
        },
    }
}

/// The secret bytes of a private key, which is a PKCS#8 document in base64.
pub fn signing_key_from_private_key_pkcs8_base64(private_key: &str) -> (r: Result<
    Vec<u8>,
    AgentError,
>)
    ensures
        match r {
            Ok(seed) => seed@.len() == 32 && signing_seed(private_key@) == Ok::<
                Seq<u8>,
                AgentError,
            >(seed@),
            Err(error) => signing_seed(private_key@) == Err::<Seq<u8>, AgentError>(error),
        },
{
    match encoding::decode_base64(private_key) {
        None => Err(AgentError::KeyNotBase64),
        Some(der) => match crypto::seed_from_pkcs8(der.as_slice()) {
            None => Err(AgentError::KeyNotPkcs8),
            Some(seed) => Ok(seed),
        },
    }
}

/// The first 32 bytes of a digest as a secret key of Curve25519: the three lowest
/// bits of the first byte and the highest bit of the last one are cleared, the
/// second highest is set.
pub open spec fn clamped(digest: Seq<u8>) -> Seq<u8> {
    digest.take(32).update(0, digest[0] & 248u8).update(31, (digest[31] & 127u8) | 64u8)
}

/// The secret key of Curve25519 that belongs to a signing key.
pub fn curve25519_secret_key_from_signing_key(seed: &[u8]) -> (r: Vec<u8>)
    ensures
        r@ == clamped(crypto::sha512(seed@)),
        r@.len() == 32,
{
    let digest = crypto::sha512_digest(seed);
    let mut secret = vault::byte_range(digest.as_slice(), 0, 32);
    let first: u8 = secret[0] & 248u8;
    let last: u8 = (secret[31] & 127u8) | 64u8;
    secret.set(0, first);
    secret.set(31, last);
    assert(secret@ =~= clamped(digest@));
    secret
}

/// A clamped key is a multiple of eight whose highest bit but one is its highest
/// bit that is set, whatever the digest.
pub proof fn law_clamped_keys_are_valid(digest: Seq<u8>)
    requires
        digest.len() >= 32,
    ensures
        clamped(digest).len() == 32,
        clamped(digest)[0] % 8 == 0,
        64 <= clamped(digest)[31] < 128,
        forall|i: int| 0 < i < 31 ==> #[trigger] clamped(digest)[i] == digest[i],
{
    let a = digest[0];
    let b = digest[31];
    assert((a & 248u8) % 8u8 == 0u8) by (bit_vector);
    assert(((b & 127u8) | 64u8) >= 64u8 && ((b & 127u8) | 64u8) < 128u8) by (bit_vector);
}

// ---------------------------------------------------------------------------
// Signatures
// ---------------------------------------------------------------------------

/// The signature of a text, in base64.
pub open spec fn signature_of(private_key: Seq<char>, payload: Seq<char>) -> Result<
    Seq<char>,
    AgentError,
> {
    match signing_seed(private_key) {
        Ok(seed) => Ok(
            encoding::base64_text(
                crypto::ed25519_signature(seed, vstd::utf8::encode_utf8(payload)),
            ),
        ),
        Err(error) => Err(error),
    }
}

/// The signature of a text, in base64.
pub fn sign_agent_identity_payload(private_key: &str, payload: &str) -> (r: Result<
    String,
    AgentError,
>)
    ensures
        match r {
            Ok(signature) => signature_of(private_key@, payload@) == Ok::<Seq<char>, AgentError>(
                signature@,
            ),
            Err(error) => signature_of(private_key@, payload@) == Err::<Seq<char>, AgentError>(
                error,
            ),
        },
{
    match signing_key_from_private_key_pkcs8_base64(private_key) {
        Ok(seed) => {
            let signature = crypto::sign(seed.as_slice(), payload.as_bytes());
            Ok(encoding::encode_base64(signature.as_slice()))
        },
        Err(error) => Err(error),
    }
}

/// The signature with which an agent registers a task at the given time.
pub fn sign_task_registration_payload(
    agent_runtime_id: &str,
    private_key: &str,
    timestamp: &str,
) -> (r: Result<String, AgentError>)
    ensures
        match r {
            Ok(signature) => signature_of(
                private_key@,
                agent_runtime_id@ + ":"@ + timestamp@,
            ) == Ok::<Seq<char>, AgentError>(signature@),
            Err(error) => signature_of(
                private_key@,
                agent_runtime_id@ + ":"@ + timestamp@,
            ) == Err::<Seq<char>, AgentError>(error),
        },
{
    let mut payload = text::joined(agent_runtime_id, ":");
    payload.append(timestamp);
    sign_agent_identity_payload(private_key, payload.as_str())
}

// ---------------------------------------------------------------------------
// Authorization
// ---------------------------------------------------------------------------

/// What an agent asserts of itself in a request for a task.
pub open spec fn assertion(
    agent_runtime_id: Seq<char>,
    task_id: Seq<char>,
    timestamp: Seq<char>,
    signature: Seq<char>,
) -> Seq<(Seq<char>, Seq<char>)> {
    seq![
        ("agent_runtime_id"@, agent_runtime_id),
        ("signature"@, signature),
        ("task_id"@, task_id),
        ("timestamp"@, timestamp),
    ]
}

/// The header with which an agent makes a request for a task at the given time.
pub open spec fn authorization(
    agent_runtime_id: Seq<char>,
    private_key: Seq<char>,
    task_id: Seq<char>,
    timestamp: Seq<char>,
) -> Result<Seq<char>, AgentError> {
    match signature_of(
        private_key,
        agent_runtime_id + ":"@ + task_id + ":"@ + timestamp,
    ) {
        Err(error) => Err(error),
        Ok(signature) => Ok(
            "AgentAssertion "@ + encoding::base64_url_text(
                json::text_map_bytes(assertion(agent_runtime_id, task_id, timestamp, signature)),
            ),
        ),
    }
}

/// The server can read from a header what the agent asserts: behind the scheme
/// stands, in URL-safe base64, an object with the four texts.
pub open spec fn asserts(header: Seq<char>, entries: Seq<(Seq<char>, Seq<char>)>) -> bool {
    exists|encoded: Seq<char>, bytes: Seq<u8>|
        {
            &&& header == "AgentAssertion "@ + encoded
            &&& #[trigger] encoding::base64_url_decoded(encoded) == encoding::was_read(bytes)
            &&& #[trigger] json::json_document(bytes) == Some(json::text_object(entries))
        }
}

proof fn lemma_assertion_keys_ascend()
    ensures
        text::text_less("agent_runtime_id"@, "signature"@),
        text::text_less("agent_runtime_id"@, "task_id"@),
        text::text_less("agent_runtime_id"@, "timestamp"@),
        text::text_less("signature"@, "task_id"@),
        text::text_less("signature"@, "timestamp"@),
        text::text_less("task_id"@, "timestamp"@),
{
    reveal_strlit("agent_runtime_id");
    reveal_strlit("signature");
    reveal_strlit("task_id");
    reveal_strlit("timestamp");
    reveal_with_fuel(text::text_less, 2);
    assert("task_id"@.drop_first()[0] == 'a');
    assert("timestamp"@.drop_first()[0] == 'i');
}

/// The header with which an agent makes a request for a task at the given time.
/// What the agent asserts can be read back from it.
pub fn authorization_header_at(
    agent_runtime_id: &str,
    private_key: &str,
    task_id: &str,
    timestamp: &str,
) -> (r: Result<String, AgentError>)
    ensures
        match r {
            Ok(header) => {
                &&& authorization(agent_runtime_id@, private_key@, task_id@, timestamp@) == Ok::<
                    Seq<char>,
                    AgentError,
                >(header@)
                &&& signature_of(
                    private_key@,
                    agent_runtime_id@ + ":"@ + task_id@ + ":"@ + timestamp@,
                ) matches Ok(signature) && asserts(
                    header@,
                    assertion(agent_runtime_id@, task_id@, timestamp@, signature),
                )
            },
            Err(error) => authorization(agent_runtime_id@, private_key@, task_id@, timestamp@)
                == Err::<Seq<char>, AgentError>(error),
        },
{
    let mut payload = text::joined(agent_runtime_id, ":");
    payload.append(task_id);
    payload.append(":");
    payload.append(timestamp);
    let signature = match sign_agent_identity_payload(private_key, payload.as_str()) {
        Ok(signature) => signature,
        Err(error) => {
            return Err(error);
        },
    };
    let entries: [(&str, &str); 4] = [
        ("agent_runtime_id", agent_runtime_id),
        ("signature", signature.as_str()),
        ("task_id", task_id),
        ("timestamp", timestamp),
    ];
    proof {
        lemma_assertion_keys_ascend();
        assert(json::pairs(entries@) =~= assertion(
            agent_runtime_id@,
            task_id@,
            timestamp@,
            signature@,
        ));
    }
    let bytes = json::write_text_map(&entries);
    let encoded = encoding::encode_base64_url(bytes.as_slice());
    let header = text::joined("AgentAssertion ", encoded.as_str());
    proof {
        assert(encoding::base64_url_decoded(encoded@) == encoding::was_read(bytes@));
        assert(asserts(
            header@,
            assertion(agent_runtime_id@, task_id@, timestamp@, signature@),
        ));
    }
    Ok(header)
}

/// What a clock may show, as agents write it: in UTC and in whole seconds.
pub open spec fn is_agent_timestamp(timestamp: Seq<char>) -> bool {
    exists|at: Timestamp| #[trigger]
        clock::is_reading(at) && clock::rfc3339_seconds_text(at.seconds, at.nanos) == Some(
            timestamp,
        )
}

/// This point in time as agents write it.
pub fn agent_timestamp() -> (r: String)
    ensures
        is_agent_timestamp(r@),
{
    let now = clock::utc_now();
    match clock::to_rfc3339_seconds(&now) {
        Some(text) => {
            assert(clock::rfc3339_seconds_text(now.seconds, now.nanos) == Some(text@));
            text
        },
        None => String::new(),
    }
}

/// The header with which an agent makes a request for a task now.
pub fn authorization_header_for_agent_task(
    agent_runtime_id: &str,
    private_key: &str,
    task_id: &str,
) -> (r: Result<String, AgentError>)
    ensures
        match r {
            Ok(header) => exists|timestamp: Seq<char>|
                {
                    &&& is_agent_timestamp(timestamp)
                    &&& #[trigger] authorization(
                        agent_runtime_id@,
                        private_key@,
                        task_id@,
                        timestamp,
                    ) == Ok::<Seq<char>, AgentError>(header@)
                },
            Err(error) => signing_seed(private_key@) == Err::<Seq<u8>, AgentError>(error),
        },
{
    let timestamp = agent_timestamp();
    authorization_header_at(agent_runtime_id, private_key, task_id, timestamp.as_str())
}

// ---------------------------------------------------------------------------
// Tasks
// ---------------------------------------------------------------------------

/// The request that registers a task
#[derive(Debug)]
pub struct RegisterTaskRequest {
    pub timestamp: String,
    pub signature: String,
}

/// The answer to it, in any of the spellings it comes in
#[derive(Debug)]
pub struct RegisterTaskResponse {
    pub task_id: Option<String>,
    pub task_id_camel: Option<String>,
    pub encrypted_task_id: Option<String>,
    pub encrypted_task_id_camel: Option<String>,
}

/// Where a task is registered.
pub fn registration_url(agent_runtime_id: &str) -> (r: String)
    ensures
        r@ == AGENT_IDENTITY_AUTHAPI_BASE_URL@ + "/v1/agent/"@ + agent_runtime_id@
            + "/task/register"@,
{
    let mut url = text::joined(AGENT_IDENTITY_AUTHAPI_BASE_URL, "/v1/agent/");
    url.append(agent_runtime_id);
    url.append("/task/register");
    url
}

/// The request that registers a task now.
pub fn registration_request(agent_runtime_id: &str, private_key: &str) -> (r: Result<
    RegisterTaskRequest,
    AgentError,
>)
    ensures
        match r {
            Ok(request) => {
                &&& is_agent_timestamp(request.timestamp@)
                &&& signature_of(private_key@, agent_runtime_id@ + ":"@ + request.timestamp@)
                    == Ok::<Seq<char>, AgentError>(request.signature@)
            },
            Err(error) => signing_seed(private_key@) == Err::<Seq<u8>, AgentError>(error),
        },
{
    let timestamp = agent_timestamp();
    match sign_task_registration_payload(agent_runtime_id, private_key, timestamp.as_str()) {
        Ok(signature) => Ok(RegisterTaskRequest { timestamp, signature }),
        Err(error) => Err(error),
    }
}

/// What a refused registration is answered with.
pub fn registration_failure(status: &str, body: &str) -> (r: String)
    ensures
        r@ == "Agent Identity task registration failed: "@ + status@ + " - "@ + body@,
{
    let mut message = text::joined("Agent Identity task registration failed: ", status);
    message.append(" - ");
    message.append(body);
    message
}

/// The task that an encrypted task identifier names.
pub open spec fn decrypted_task(private_key: Seq<char>, encrypted: Seq<char>) -> Result<
    Seq<char>,
    AgentError,
> {
    match signing_seed(private_key) {
        Err(error) => Err(error),
        Ok(seed) => match encoding::base64_decoded(encrypted) {
            None => Err(AgentError::TaskNotBase64),
            Some(ciphertext) => match crypto::unsealed(
                clamped(crypto::sha512(seed)),
                ciphertext,
            ) {
                None => Err(AgentError::TaskUndecryptable),
                Some(bytes) => if vstd::utf8::valid_utf8(bytes) {
                    Ok(vstd::utf8::decode_utf8(bytes))
                } else {
                    Err(AgentError::TaskNotUtf8)
                },
            },
        },
    }
}

/// The task that an encrypted task identifier names.
pub fn decrypt_task_id_response(private_key: &str, encrypted_task_id: &str) -> (r: Result<
    String,
    AgentError,
>)
    ensures
        match r {
            Ok(task) => decrypted_task(private_key@, encrypted_task_id@) == Ok::<
                Seq<char>,
                AgentError,
            >(task@),
            Err(error) => decrypted_task(private_key@, encrypted_task_id@) == Err::<
                Seq<char>,
                AgentError,
            >(error),
        },
{
    let seed = match signing_key_from_private_key_pkcs8_base64(private_key) {
        Ok(seed) => seed,
        Err(error) => {
            return Err(error);
        },
    };
    let ciphertext = match encoding::decode_base64(encrypted_task_id) {
        Some(ciphertext) => ciphertext,
        None => {
            return Err(AgentError::TaskNotBase64);
        },
    };
    let secret = curve25519_secret_key_from_signing_key(seed.as_slice());
    let plaintext = match crypto::unseal(secret.as_slice(), ciphertext.as_slice()) {
        Some(plaintext) => plaintext,
        None => {
            return Err(AgentError::TaskUndecryptable);
        },
    };
    match crypto::utf8_text(plaintext) {
        Some(task) => Ok(task),
        None => Err(AgentError::TaskNotUtf8),
    }
}

/// The first of two texts that is there.
pub open spec fn first_text(a: Option<String>, b: Option<String>) -> Option<Seq<char>> {
    match a {
        Some(a) => Some(a@),
        None => text::opt_text(b),
    }
}

/// The task that the answer to a registration names, in plain text or encrypted.
pub open spec fn registered_task(
    private_key: Seq<char>,
    response: RegisterTaskResponse,
) -> Result<Seq<char>, AgentError> {
    match first_text(response.task_id, response.task_id_camel) {
        Some(task) => Ok(task),
        None => match first_text(response.encrypted_task_id, response.encrypted_task_id_camel) {
            Some(encrypted) => decrypted_task(private_key, encrypted),
            None => Err(AgentError::NoTask),
        },
    }
}

/// The task that the answer to a registration names.
pub fn task_id_from_register_task_response(
    private_key: &str,
    response: RegisterTaskResponse,
) -> (r: Result<String, AgentError>)
    ensures
        match r {
            Ok(task) => registered_task(private_key@, response) == Ok::<Seq<char>, AgentError>(
                task@,
            ),
            Err(error) => registered_task(private_key@, response) == Err::<Seq<char>, AgentError>(
                error,
            ),
        },
{
    if let Some(task_id) = response.task_id {
        return Ok(task_id);
    }
    if let Some(task_id) = response.task_id_camel {
        return Ok(task_id);
    }
    if let Some(encrypted) = response.encrypted_task_id {
        return decrypt_task_id_response(private_key, encrypted.as_str());
    }
    match response.encrypted_task_id_camel {
        Some(encrypted) => decrypt_task_id_response(private_key, encrypted.as_str()),
        None => Err(AgentError::NoTask),
    }
}

// ---------------------------------------------------------------------------
// What holds of tasks and signatures
// ---------------------------------------------------------------------------

/// A task in plain text is taken as it is, under its first spelling before its second; an
/// encrypted one is decrypted, in the same order, only where there is none in plain text.
/// Without any there is no task.
pub proof fn law_plain_tasks_come_first(private_key: Seq<char>, response: RegisterTaskResponse)
    ensures
        ({
            let task = registered_task(private_key, response);
            let plain = response.task_id is Some || response.task_id_camel is Some;
            &&& response.task_id matches Some(id) ==> task == Ok::<Seq<char>, AgentError>(id@)
            &&& response.task_id is None ==> (response.task_id_camel matches Some(id) ==> task
                == Ok::<Seq<char>, AgentError>(id@))
            &&& !plain ==> (response.encrypted_task_id matches Some(id) ==> task == decrypted_task(
                private_key,
                id@,
            ))
            &&& !plain && response.encrypted_task_id is None ==> (
            response.encrypted_task_id_camel matches Some(id) ==> task == decrypted_task(
                private_key,
                id@,
            ))
            &&& task == Err::<Seq<char>, AgentError>(AgentError::NoTask) <==> !plain
                && response.encrypted_task_id is None && response.encrypted_task_id_camel is None
        }),
{
}

/// A private key is a PKCS#8 document in base64; the error says which of the two it is not.
pub proof fn law_private_keys_are_decoded(private_key: Seq<char>)
    ensures
        encoding::base64_decoded(private_key) is None <==> signing_seed(private_key) == Err::<
            Seq<u8>,
            AgentError,
        >(AgentError::KeyNotBase64),
        encoding::base64_decoded(private_key) matches Some(der) ==> {
            &&& crypto::pkcs8_seed(der) matches Some(seed) ==> signing_seed(private_key) == Ok::<
                Seq<u8>,
                AgentError,
            >(seed)
            &&& crypto::pkcs8_seed(der) is None ==> signing_seed(private_key) == Err::<
                Seq<u8>,
                AgentError,
            >(AgentError::KeyNotPkcs8)
        },
{
}

/// An agent signs its runtime, the task and the time, with colons between them, and sends
/// the four texts in URL-safe base64. It cannot where its key cannot be read.
pub proof fn law_agents_sign_the_task(
    agent_runtime_id: Seq<char>,
    private_key: Seq<char>,
    task_id: Seq<char>,
    timestamp: Seq<char>,
)
    ensures
        signing_seed(private_key) matches Ok(seed) ==> {
            let signed = crypto::ed25519_signature(
                seed,
                vstd::utf8::encode_utf8(
                    agent_runtime_id + ":"@ + task_id + ":"@ + timestamp,
                ),
            );
            authorization(agent_runtime_id, private_key, task_id, timestamp) == Ok::<
                Seq<char>,
                AgentError,
            >(
                "AgentAssertion "@ + encoding::base64_url_text(
                    json::text_map_bytes(
                        seq![
                            ("agent_runtime_id"@, agent_runtime_id),
                            ("signature"@, encoding::base64_text(signed)),
                            ("task_id"@, task_id),
                            ("timestamp"@, timestamp),
                        ],
                    ),
                ),
            )
        },
        signing_seed(private_key) matches Err(error) ==> authorization(
            agent_runtime_id,
            private_key,
            task_id,
            timestamp,
        ) == Err::<Seq<char>, AgentError>(error),
{
}

/// A task is decrypted with the key that belongs to the private key. What comes out has to
/// be text, and each failure is told by its own error.
pub proof fn law_tasks_are_decrypted(private_key: Seq<char>, encrypted: Seq<char>)
    ensures
        decrypted_task(private_key, encrypted) matches Ok(task) ==> {
            &&& signing_seed(private_key) is Ok
            &&& encoding::base64_decoded(encrypted) is Some
            &&& crypto::unsealed(
                clamped(crypto::sha512(signing_seed(private_key)->Ok_0)),
                encoding::base64_decoded(encrypted)->0,
            ) matches Some(bytes) && vstd::utf8::valid_utf8(bytes) && task
                == vstd::utf8::decode_utf8(bytes)
        },
        signing_seed(private_key) is Ok && encoding::base64_decoded(encrypted) is None
            ==> decrypted_task(private_key, encrypted) == Err::<Seq<char>, AgentError>(
            AgentError::TaskNotBase64,
        ),
        signing_seed(private_key) matches Err(error) ==> decrypted_task(private_key, encrypted)
            == Err::<Seq<char>, AgentError>(error),
        signing_seed(private_key) is Ok && encoding::base64_decoded(encrypted) is Some ==> {
            let bytes = crypto::unsealed(
                clamped(crypto::sha512(signing_seed(private_key)->Ok_0)),
                encoding::base64_decoded(encrypted)->0,
            );
            &&& bytes is None <==> decrypted_task(private_key, encrypted) == Err::<
                Seq<char>,
                AgentError,
            >(AgentError::TaskUndecryptable)
            &&& bytes is Some && !vstd::utf8::valid_utf8(bytes->0) <==> decrypted_task(
                private_key,
                encrypted,
            ) == Err::<Seq<char>, AgentError>(AgentError::TaskNotUtf8)
        },
{
}

} // verus!
