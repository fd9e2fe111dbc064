use vstd::prelude::*;

use base64::engine::general_purpose;
use base64::Engine;

verus! {

/// What the upstream service tells about a user once it grants a token.
#[derive(Clone, Debug, PartialEq, Eq)]
pub struct UserInfo {
    pub access_token: String,
    pub refresh_token: String,
    pub student_id: String,
    pub student_phone: String,
    pub student_realname: String,
}

/// What the browser session recovered from the upstream web app's storage.
#[derive(Clone, Debug, PartialEq, Eq)]
pub struct SimulatorResult {
    pub basic_auth_value: Option<String>,
    pub bearer_auth_value: Option<String>,
}

/// The Base64 encoding (standard alphabet, padded) of the UTF-8 bytes of a text.
pub uninterp spec fn base64_of(s: Seq<char>) -> Seq<char>;

/// Relies on `base64`'s `general_purpose::STANDARD.encode`: the encoding
/// depends on the bytes alone.
#[verifier::external_body]
fn encode_base64(s: &str) -> (r: String)
    ensures
        r@ == base64_of(s@),
{
    general_purpose::STANDARD.encode(s.as_bytes())
}

/// The user name and password of the fixed client credential.
pub const BASIC_USERNAME: &'static str = "cat";

pub const BASIC_PASSWORD: &'static str = "cat";

/// The namespace tag put before a user code to form the upstream user id.
pub const UCODE_PREFIX: &'static str = "HUA_TENG-";

pub open spec fn basic_credentials() -> Seq<char> {
    BASIC_USERNAME@ + ":"@ + BASIC_PASSWORD@
}

/// The value of the fixed `Authorization` header.
pub open spec fn basic_auth_value() -> Seq<char> {
    "Basic "@ + base64_of(basic_credentials())
}

/// The fixed client credential as an `Authorization` header value:
/// `Basic` and the Base64 encoding of `user:password`.
pub fn get_basic_auth() -> (r: String)
    ensures
        r@ == basic_auth_value(),
{
    let credentials = String::from_str(BASIC_USERNAME).concat(":").concat(BASIC_PASSWORD);
    let encoded = encode_base64(credentials.as_str());
    String::from_str("Basic ").concat(encoded.as_str())
}

/// The upstream user id of a user code: the code behind the namespace tag.
pub fn composite_ucode(raw_ucode: &str) -> (r: String)
    ensures
        r@ == UCODE_PREFIX@ + raw_ucode@,
{
    String::from_str(UCODE_PREFIX).concat(raw_ucode)
}

/// The `Authorization` header value for an access token.
pub fn bearer_header(token: &str) -> (r: String)
    ensures
        r@ == "Bearer "@ + token@,
{
    String::from_str("Bearer ").concat(token)
}

/// What a browser session hands back: a recovered `Basic` value, or the
/// fixed one where none was recovered, and a recovered `Bearer` value if any.
pub fn simulator_outcome(basic: Option<String>, bearer: Option<String>) -> (r: SimulatorResult)
    ensures
        r.basic_auth_value is Some,
        basic is Some ==> r.basic_auth_value == basic,
        basic is None ==> r.basic_auth_value->0@ == basic_auth_value(),
        r.bearer_auth_value == bearer,
{
    let chosen = match basic {
        Some(b) => b,
        None => get_basic_auth(),
    };
    SimulatorResult { basic_auth_value: Some(chosen), bearer_auth_value: bearer }
}

/// The credential to retry the token exchange with after escalation: the
/// recovered `Basic` value, or the fixed one where none was recovered.
pub fn escalated_credential(recovered: &SimulatorResult) -> (r: String)
    ensures
        match recovered.basic_auth_value {
            Some(b) => r@ == b@,
            None => r@ == basic_auth_value(),
        },
{
    match &recovered.basic_auth_value {
        Some(b) => b.clone(),
        None => get_basic_auth(),
    }
}

/// The status with which the upstream service rejects a credential.
pub const UNAUTHORIZED: u16 = 401;

/// What one token exchange gave.
pub enum TokenReply {
    /// The service granted a token.
    Granted(UserInfo),
    /// The service answered with a failure status and a body.
    Refused { status: u16, body: String },
    /// The service could not be reached or its answer could not be read.
    Unreachable(String),
}

/// Why no credential could be obtained.
#[derive(Clone, Debug, PartialEq, Eq)]
pub enum AuthError {
    /// The service refused the credential; its status and body.
    Rejected { status: u16, body: String },
    /// The service could not be reached or its answer could not be read.
    Unreachable(String),
}

/// Where credential resolution stands.
#[derive(Clone, Copy, Debug, PartialEq, Eq, Structural)]
pub enum AuthStage {
    /// The exchange with the fixed credential is under way.
    Primary,
    /// The browser session is under way.
    AwaitingSimulator,
    /// The one retry with the recovered credential is under way.
    Escalated,
    /// A result was handed out.
    Done,
}

/// What the caller does next.
pub enum AuthAction {
    /// Exchange a token for `ucode` with the given `Authorization` value.
    RequestToken { ucode: String, authorization: String },
    /// Run the browser session for the raw user code.
    RunSimulator { raw_ucode: String },
    /// Resolution is over.
    Finish(Result<UserInfo, AuthError>),
}

/// `a` asks for a token exchange for `raw` with the credential `auth`.
pub open spec fn requests_token(a: AuthAction, raw: Seq<char>, auth: Seq<char>) -> bool {
    match a {
        AuthAction::RequestToken { ucode, authorization } => {
            &&& ucode@ == UCODE_PREFIX@ + raw
            &&& authorization@ == auth
        },
        _ => false,
    }
}

/// `a` ends resolution with the error that `reply` carries.
pub open spec fn fails_with_reply(a: AuthAction, reply: TokenReply) -> bool {
    match (a, reply) {
        (
            AuthAction::Finish(Err(AuthError::Rejected { status, body })),
            TokenReply::Refused { status: s, body: b },
        ) => status == s && body == b,
        (AuthAction::Finish(Err(AuthError::Unreachable(m))), TokenReply::Unreachable(n)) => m == n,
        _ => false,
    }
}

/// The credential of the retry after a browser session: the recovered
/// `Basic` value, or the fixed one where there is none.
pub open spec fn retry_credential(result: Option<SimulatorResult>) -> Seq<char> {
    match result {
        Some(sim) => match sim.basic_auth_value {
            Some(b) => b@,
            None => basic_auth_value(),
        },
        None => basic_auth_value(),
    }
}

/// Resolves a user code to a credential: first with the fixed client
/// credential; where the service rejects that with 401, once through a
/// browser session that recovers another credential, then never again. Any
/// other failure ends resolution at once.
pub struct CredentialResolver {
    pub raw_ucode: String,
    pub stage: AuthStage,
}

impl CredentialResolver {
    /// Starts resolving `raw_ucode`: the first action is the exchange with
    /// the fixed credential.
    pub fn start(raw_ucode: &str) -> (r: (CredentialResolver, AuthAction))
        ensures
            r.0.raw_ucode@ == raw_ucode@,
            r.0.stage == AuthStage::Primary,
            requests_token(r.1, raw_ucode@, basic_auth_value()),
    {
        let action = AuthAction::RequestToken {
            ucode: composite_ucode(raw_ucode),
            authorization: get_basic_auth(),
        };
        (CredentialResolver { raw_ucode: String::from_str(raw_ucode), stage: AuthStage::Primary },
        action)
    }

    /// Takes the reply to a token exchange.
    pub fn on_token_reply(&mut self, reply: TokenReply) -> (r: AuthAction)
        requires
            old(self).stage == AuthStage::Primary || old(self).stage == AuthStage::Escalated,
        ensures
            final(self).raw_ucode == old(self).raw_ucode,
            match reply {
                TokenReply::Granted(u) => r == AuthAction::Finish(Ok(u)) && final(self).stage
                    == AuthStage::Done,
                TokenReply::Refused { status, body } => if status == UNAUTHORIZED && old(
                    self,
                ).stage == AuthStage::Primary {
                    &&& final(self).stage == AuthStage::AwaitingSimulator
                    &&& r matches AuthAction::RunSimulator { raw_ucode }
                    &&& raw_ucode == old(self).raw_ucode
                } else {
                    final(self).stage == AuthStage::Done && fails_with_reply(r, reply)
                },
                TokenReply::Unreachable(_) => final(self).stage == AuthStage::Done
                    && fails_with_reply(r, reply),
            },
            old(self).stage == AuthStage::Escalated ==> r is Finish,
    {
        match reply {
            TokenReply::Granted(u) => {
                self.stage = AuthStage::Done;
                AuthAction::Finish(Ok(u))
            },
            TokenReply::Refused { status, body } => {
                if status == UNAUTHORIZED && self.stage == AuthStage::Primary {
                    self.stage = AuthStage::AwaitingSimulator;
                    AuthAction::RunSimulator { raw_ucode: self.raw_ucode.clone() }
                } else {
                    self.stage = AuthStage::Done;
                    AuthAction::Finish(Err(AuthError::Rejected { status, body }))
                }
            },
            TokenReply::Unreachable(m) => {
                self.stage = AuthStage::Done;
                AuthAction::Finish(Err(AuthError::Unreachable(m)))
            },
        }
    }

    /// Takes what the browser session gave, `None` where it could not run.
    /// The one retry uses the recovered credential, or the fixed one where
    /// the session recovered none or failed.
    pub fn on_simulator_result(&mut self, result: Option<SimulatorResult>) -> (r: AuthAction)
        requires
            old(self).stage == AuthStage::AwaitingSimulator,
        ensures
            final(self).raw_ucode == old(self).raw_ucode,
            final(self).stage == AuthStage::Escalated,
            requests_token(r, old(self).raw_ucode@, retry_credential(result)),
    {
        self.stage = AuthStage::Escalated;
        let authorization = match &result {
            Some(sim) => escalated_credential(sim),
            None => get_basic_auth(),
        };
        AuthAction::RequestToken { ucode: composite_ucode(self.raw_ucode.as_str()), authorization }
    }
}

/// The user code a browser session runs for: the given one, or else the
/// configured test code.
pub fn simulator_ucode(raw_ucode: Option<String>, test_ucode: Option<String>) -> (r: Option<String>)
    ensures
        raw_ucode is Some ==> r == raw_ucode,
        raw_ucode is None ==> r == test_ucode,
{
    match raw_ucode {
        Some(u) => Some(u),
        None => test_ucode,
    }
}

} // verus!
