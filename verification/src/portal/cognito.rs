//! Login to the portal: the `USER_SRP_AUTH` flow of AWS Cognito. The
//! cryptography is done by `aws-cognito-srp`; here is what is asked of Cognito
//! and what its answers come to.

use vstd::prelude::*;

use crate::portal::client;
use crate::portal::client::{truncate, PortalError, PortalErrorView};
use crate::text::same_text;

verus! {

/// Where Cognito is.
pub const COGNITO_IDP_URL: &'static str = "https://cognito-idp.eu-central-1.amazonaws.com/";

/// The user pool of the portal.
pub const POOL_ID: &'static str = "eu-central-1_fVUTz39em";

/// The portal as a client of the user pool.
pub const CLIENT_ID: &'static str = "ugfnsujd3384sshcjehaphlh3";

/// The operation that begins a login.
pub const INITIATE_AUTH: &'static str = "AWSCognitoIdentityProviderService.InitiateAuth";

/// The operation that answers a challenge.
pub const RESPOND_TO_AUTH_CHALLENGE: &'static str =
    "AWSCognitoIdentityProviderService.RespondToAuthChallenge";

/// The challenge that a login answers.
pub const PASSWORD_VERIFIER: &'static str = "PASSWORD_VERIFIER";

/// A token and how many seconds it lives.
#[derive(Debug)]
pub struct CognitoTokens {
    /// The token.
    pub access_token: String,
    /// How many seconds it lives.
    pub expires_in: i64,
}

/// What begins a login.
#[derive(Debug)]
pub struct InitiateAuth {
    /// Name of the user.
    pub username: String,
    /// The client's public value.
    pub srp_a: String,
}

/// What Cognito answers to the beginning of a login.
#[derive(Debug)]
pub struct InitiateAuthResponse {
    /// The challenge.
    pub challenge_name: String,
    /// What the challenge is made of.
    pub challenge_parameters: ChallengeParameters,
}

/// What a challenge is made of.
#[derive(Debug)]
pub struct ChallengeParameters {
    /// The salt, in hexadecimal digits.
    pub salt: String,
    /// A block that is handed back.
    pub secret_block: String,
    /// The server's public value, in hexadecimal digits.
    pub srp_b: String,
    /// The user as the user pool knows them.
    pub user_id_for_srp: String,
}

/// The answer to a challenge.
#[derive(Debug)]
pub struct ChallengeResponse {
    /// The user as the user pool knows them.
    pub username: String,
    /// The block of the challenge.
    pub password_claim_secret_block: String,
    /// The signature that shows knowledge of the password.
    pub password_claim_signature: String,
    /// When the signature was made.
    pub timestamp: String,
}

/// What Cognito answers to the answer to a challenge.
#[derive(Debug)]
pub struct RespondResponse {
    /// The outcome of the login, where there is one.
    pub authentication_result: Option<AuthenticationResult>,
    /// A further challenge.
    pub challenge_name: String,
}

/// The outcome of a login.
#[derive(Debug)]
pub struct AuthenticationResult {
    /// The token.
    pub access_token: String,
    /// How many seconds it lives.
    pub expires_in: i64,
}

/// A proof that the password is known.
#[derive(Debug)]
pub struct PasswordProof {
    /// The block of the challenge.
    pub secret_block: String,
    /// The signature.
    pub signature: String,
    /// When the signature was made.
    pub timestamp: String,
}

/// The client's side of the protocol: an `aws_cognito_srp::SrpClient` for a
/// `User`. It holds what it was made from, and a secret that is drawn at
/// random.
#[verifier::external_body]
pub struct SrpSession {
    client: aws_cognito_srp::SrpClient<aws_cognito_srp::User>,
}

/// What a session was made from: the user pool, the client of the user pool,
/// the name of the user and the password.
pub uninterp spec fn session_inputs(session: SrpSession) -> Seq<Seq<char>>;

/// The public value of a session.
pub uninterp spec fn session_public_value(session: SrpSession) -> Seq<char>;

/// The signature with which a session answers a challenge at some time.
pub uninterp spec fn session_signature(
    session: SrpSession,
    secret_block: Seq<char>,
    user_id: Seq<char>,
    salt: Seq<char>,
    srp_b: Seq<char>,
    timestamp: Seq<char>,
) -> Seq<char>;

/// Why a challenge cannot be answered, from the block, the salt and the
/// server's public value; nothing where it can.
pub uninterp spec fn srp_refusal(
    secret_block: Seq<char>,
    salt: Seq<char>,
    srp_b: Seq<char>,
) -> Option<Seq<char>>;

/// The text that `{:?}` writes for a text.
pub uninterp spec fn quoted_text(s: Seq<char>) -> Seq<char>;

/// The text that `http` writes for a status.
pub uninterp spec fn status_text(status: u16) -> Seq<char>;

/// Calls `aws_cognito_srp::SrpClient::new` on `aws_cognito_srp::User::new`.
/// Claimed of them: the session holds what it was made from.
#[verifier::external_body]
fn new_session(pool_id: &str, client_id: &str, username: &str, password: &str) -> (r: SrpSession)
    ensures
        session_inputs(r) == seq![pool_id@, client_id@, username@, password@],
{
    let user = aws_cognito_srp::User::new(pool_id, username, password);
    SrpSession { client: aws_cognito_srp::SrpClient::new(user, client_id, None) }
}

/// Calls `aws_cognito_srp::SrpClient::get_auth_parameters`. Claimed of it: the
/// name of the user comes back as it went in, and the public value depends on
/// the session alone. The session draws a secret at random, so what the value
/// is is not said.
#[verifier::external_body]
fn auth_parameters(session: &SrpSession) -> (r: InitiateAuth)
    ensures
        r.username@ == session_inputs(*session)[2],
        r.srp_a@ == session_public_value(*session),
{
    let params = session.client.get_auth_parameters();
    InitiateAuth { username: params.username, srp_a: params.a }
}

/// Calls `aws_cognito_srp::SrpClient::verify`, of a session for a user pool
/// whose name has the form `<region>_<name>`. Claimed of it: whether it
/// refuses, and with which words, depends on the block, the salt and the
/// server's public value alone; it hands the block back; and the signature
/// depends on the session, the challenge and the time that it gives alone.
/// That time is read from the clock, and nothing is said of it.
#[verifier::external_body]
fn prove_password(session: &SrpSession, cp: &ChallengeParameters) -> (r: Result<
    PasswordProof,
    String,
>)
    requires
        session_inputs(*session)[0].contains('_'),
    ensures
        match r {
            Ok(claim) => {
                &&& srp_refusal(cp.secret_block@, cp.salt@, cp.srp_b@) is None
                &&& claim.secret_block@ == cp.secret_block@
                &&& claim.signature@ == session_signature(
                    *session,
                    cp.secret_block@,
                    cp.user_id_for_srp@,
                    cp.salt@,
                    cp.srp_b@,
                    claim.timestamp@,
                )
            },
            Err(message) => srp_refusal(cp.secret_block@, cp.salt@, cp.srp_b@) == Some(message@),
        },
{
    session.client.verify(&cp.secret_block, &cp.user_id_for_srp, &cp.salt, &cp.srp_b).map(
        |v|
            PasswordProof {
                secret_block: v.password_claim_secret_block,
                signature: v.password_claim_signature,
                timestamp: v.timestamp,
            },
    ).map_err(|e| e.to_string())
}

/// Calls the `Debug` of `str`. Claimed of it: what it writes depends on the
/// text alone.
#[verifier::external_body]
fn quoted(s: &str) -> (r: String)
    ensures
        r@ == quoted_text(s@),
{
    format!("{:?}", s)
}

/// Calls the `Display` of `reqwest::StatusCode`. Claimed of it: what it writes
/// depends on the status alone.
#[verifier::external_body]
fn print_status(status: u16) -> (r: String)
    requires
        100 <= status <= 999,
    ensures
        r@ == status_text(status),
{
    reqwest::StatusCode::from_u16(status).expect("status in range").to_string()
}

/// A login that has begun.
pub struct Login {
    session: SrpSession,
}

/// What the check of a password proof comes to: the answer to the challenge,
/// or an error.
pub open spec fn proof_outcome(
    cp: ChallengeParameters,
    claim: Result<PasswordProof, String>,
    r: Result<ChallengeResponse, PortalError>,
) -> bool {
    match claim {
        Ok(claim) => {
            &&& r is Ok
            &&& r->Ok_0.username@ == cp.user_id_for_srp@
            &&& r->Ok_0.password_claim_secret_block@ == claim.secret_block@
            &&& r->Ok_0.password_claim_signature@ == claim.signature@
            &&& r->Ok_0.timestamp@ == claim.timestamp@
        },
        Err(message) => {
            &&& r is Err
            &&& r->Err_0@ == PortalErrorView::CognitoAuth("SRP verify failed: "@ + message@)
        },
    }
}

/// The error where Cognito asks for something else than a password proof.
pub open spec fn unexpected_challenge(challenge_name: Seq<char>) -> PortalErrorView {
    PortalErrorView::CognitoAuth(
        "expected PASSWORD_VERIFIER challenge, got "@ + quoted_text(challenge_name),
    )
}

/// Makes the answer to a challenge from a password proof.
pub fn answer_with(cp: &ChallengeParameters, claim: Result<PasswordProof, String>) -> (r: Result<
    ChallengeResponse,
    PortalError,
>)
    ensures
        proof_outcome(*cp, claim, r),
{
    match claim {
        Ok(claim) => Ok(
            ChallengeResponse {
                username: cp.user_id_for_srp.clone(),
                password_claim_secret_block: claim.secret_block,
                password_claim_signature: claim.signature,
                timestamp: claim.timestamp,
            },
        ),
        Err(message) => {
            let mut text = "SRP verify failed: ".to_owned();
            text.append(message.as_str());
            Err(PortalError::CognitoAuth(text))
        },
    }
}

impl Login {
    /// The session of the protocol.
    pub closed spec fn protocol(self) -> SrpSession {
        self.session
    }

    #[verifier::type_invariant]
    spec fn wf(self) -> bool {
        session_inputs(self.session)[0].contains('_')
    }

    /// Begins a login. Gives what is to be sent first.
    pub fn begin(username: &str, password: &str) -> (r: (Login, InitiateAuth))
        ensures
            session_inputs(r.0.protocol()) == seq![POOL_ID@, CLIENT_ID@, username@, password@],
            r.1.username@ == username@,
            r.1.srp_a@ == session_public_value(r.0.protocol()),
    {
        proof {
            reveal_strlit("eu-central-1_fVUTz39em");
            assert(POOL_ID@[12] == '_');
        }
        let session = new_session(POOL_ID, CLIENT_ID, username, password);
        let request = auth_parameters(&session);
        (Login { session }, request)
    }

    /// Answers the challenge of Cognito. Gives what is to be sent next.
    pub fn answer(&self, init: &InitiateAuthResponse) -> (r: Result<ChallengeResponse, PortalError>)
        ensures
            ({
                let cp = init.challenge_parameters;
                let refusal = srp_refusal(cp.secret_block@, cp.salt@, cp.srp_b@);
                if init.challenge_name@ != PASSWORD_VERIFIER@ {
                    r is Err && r->Err_0@ == unexpected_challenge(init.challenge_name@)
                } else if let Some(message) = refusal {
                    r is Err && r->Err_0@ == PortalErrorView::CognitoAuth(
                        "SRP verify failed: "@ + message,
                    )
                } else {
                    &&& r matches Ok(response)
                    &&& response.username@ == cp.user_id_for_srp@
                    &&& response.password_claim_secret_block@ == cp.secret_block@
                    &&& response.password_claim_signature@ == session_signature(
                        self.protocol(),
                        cp.secret_block@,
                        cp.user_id_for_srp@,
                        cp.salt@,
                        cp.srp_b@,
                        response.timestamp@,
                    )
                }
            }),
    {
        if !same_text(init.challenge_name.as_str(), PASSWORD_VERIFIER) {
            let mut text = "expected PASSWORD_VERIFIER challenge, got ".to_owned();
            text.append(quoted(init.challenge_name.as_str()).as_str());
            return Err(PortalError::CognitoAuth(text));
        }
        proof {
            use_type_invariant(self);
        }
        let claim = prove_password(&self.session, &init.challenge_parameters);
        answer_with(&init.challenge_parameters, claim)
    }
}

/// What the last answer of Cognito comes to: the token, or an error where
/// there is none or an empty one.
pub open spec fn login_outcome(resp: RespondResponse, r: Result<CognitoTokens, PortalError>) -> bool {
    match resp.authentication_result {
        None => {
            &&& r is Err
            &&& r->Err_0@ == PortalErrorView::CognitoAuth(
                "no AuthenticationResult (further challenge: "@ + quoted_text(resp.challenge_name@)
                    + ")"@,
            )
        },
        Some(result) => if result.access_token@.len() == 0 {
            r is Err && r->Err_0@ == PortalErrorView::CognitoAuth("empty AccessToken"@)
        } else {
            &&& r is Ok
            &&& r->Ok_0.access_token@ == result.access_token@
            &&& r->Ok_0.expires_in == result.expires_in
        },
    }
}

/// Takes the token from the last answer of Cognito.
pub fn finish(resp: RespondResponse) -> (r: Result<CognitoTokens, PortalError>)
    ensures
        login_outcome(resp, r),
{
    match resp.authentication_result {
        None => {
            let mut text = "no AuthenticationResult (further challenge: ".to_owned();
            text.append(quoted(resp.challenge_name.as_str()).as_str());
            text.append(")");
            Err(PortalError::CognitoAuth(text))
        },
        Some(result) => {
            if result.access_token.as_str().is_empty() {
                Err(PortalError::CognitoAuth("empty AccessToken".to_owned()))
            } else {
                Ok(
                    CognitoTokens {
                        access_token: result.access_token,
                        expires_in: result.expires_in,
                    },
                )
            }
        },
    }
}

/// A login never ends with an empty token.
pub proof fn lemma_token_not_empty(resp: RespondResponse, r: Result<CognitoTokens, PortalError>)
    requires
        login_outcome(resp, r),
    ensures
        r matches Ok(tokens) ==> tokens.access_token@.len() > 0,
{
}

/// What an answer of Cognito comes to: its error, or what `decode` makes of
/// its body.
pub open spec fn cognito_answered<T, F: FnOnce(&str) -> Result<T, String>>(
    decode: F,
    target: Seq<char>,
    status: u16,
    body: &str,
    r: Result<T, PortalError>,
) -> bool {
    if !client::successful(status) {
        r is Err && r->Err_0@ == PortalErrorView::CognitoAuth(
            "HTTP "@ + status_text(status) + " from "@ + target + ": "@ + client::truncated(body@),
        )
    } else {
        match r {
            Ok(value) => decode.ensures((body,), Ok(value)),
            Err(e) => exists|message: String| #[trigger]
                decode.ensures((body,), Err(message)) && e@ == (PortalErrorView::Json {
                    endpoint: "cognito-idp"@,
                    message: message@,
                }),
        }
    }
}

/// Makes sense of an answer of Cognito to an operation.
pub fn cognito_answer<T, F: FnOnce(&str) -> Result<T, String>>(
    status: u16,
    body: &str,
    target: &str,
    decode: F,
) -> (r: Result<T, PortalError>)
    requires
        100 <= status <= 999,
        decode.requires((body,)),
    ensures
        cognito_answered(decode, target@, status, body, r),
{
    if !(200 <= status && status < 300) {
        let mut text = "HTTP ".to_owned();
        text.append(print_status(status).as_str());
        text.append(" from ");
        text.append(target);
        text.append(": ");
        text.append(truncate(body).as_str());
        return Err(PortalError::CognitoAuth(text));
    }
    match decode(body) {
        Ok(value) => Ok(value),
        Err(message) => Err(PortalError::Json { endpoint: "cognito-idp", message }),
    }
}

/// The answer to a challenge hands back the block of the proof with its
/// signature and its time, under the name that the challenge has for the user.
/// Without a proof there is none.
pub proof fn lemma_proof_handed_on(
    cp: ChallengeParameters,
    claim: Result<PasswordProof, String>,
    r: Result<ChallengeResponse, PortalError>,
)
    requires
        proof_outcome(cp, claim, r),
    ensures
        claim is Ok == r is Ok,
        claim matches Ok(shown) ==> r matches Ok(response) && response.username@
            == cp.user_id_for_srp@ && response.password_claim_secret_block@ == shown.secret_block@
            && response.password_claim_signature@ == shown.signature@ && response.timestamp@
            == shown.timestamp@,
        claim matches Err(message) ==> r->Err_0@ == PortalErrorView::CognitoAuth(
            "SRP verify failed: "@ + message@,
        ),
{
}

/// A login ends with the token that the last answer holds, and with how long it
/// lives, exactly where it holds one that is not empty.
pub proof fn lemma_token_taken(resp: RespondResponse, r: Result<CognitoTokens, PortalError>)
    requires
        login_outcome(resp, r),
    ensures
        r is Ok <==> resp.authentication_result is Some
            && resp.authentication_result->0.access_token@.len() > 0,
        r matches Ok(tokens) ==> tokens.access_token@ == resp.authentication_result->0.access_token@
            && tokens.expires_in == resp.authentication_result->0.expires_in,
        resp.authentication_result is Some && r is Err ==> r->Err_0@
            == PortalErrorView::CognitoAuth("empty AccessToken"@),
        resp.authentication_result is None ==> r->Err_0@ == PortalErrorView::CognitoAuth(
            "no AuthenticationResult (further challenge: "@ + quoted_text(resp.challenge_name@)
                + ")"@,
        ),
{
}

/// An answer of Cognito with a status below 200, or of 300 and above, is an
/// error that tells the status, the operation and the body. Any other is what
/// its body decodes to.
pub proof fn lemma_cognito_told<T, F: FnOnce(&str) -> Result<T, String>>(
    decode: F,
    target: Seq<char>,
    status: u16,
    body: &str,
    r: Result<T, PortalError>,
)
    requires
        cognito_answered(decode, target, status, body, r),
    ensures
        status <= 199 || 300 <= status ==> r is Err && r->Err_0@ == PortalErrorView::CognitoAuth(
            "HTTP "@ + status_text(status) + " from "@ + target + ": "@ + client::truncated(body@),
        ),
        200 <= status <= 299 ==> match r {
            Ok(value) => decode.ensures((body,), Ok(value)),
            Err(e) => exists|message: String| #[trigger]
                decode.ensures((body,), Err(message)) && e@ == (PortalErrorView::Json {
                    endpoint: "cognito-idp"@,
                    message: message@,
                }),
        },
{
}

/// A challenge of another kind is told by its name.
pub proof fn lemma_other_challenge(name: Seq<char>)
    ensures
        unexpected_challenge(name) == PortalErrorView::CognitoAuth(
            "expected PASSWORD_VERIFIER challenge, got "@ + quoted_text(name),
        ),
{
}

/// A login answers the challenge for a password and no other. Its answer goes
/// under the name that the challenge has for the user, hands the block of the
/// challenge back, and is signed for that block, that name, the salt and the
/// public value of the server, at the time that it tells.
pub proof fn lemma_challenge_answered(
    login: &Login,
    init: &InitiateAuthResponse,
    r: Result<ChallengeResponse, PortalError>,
)
    requires
        call_ensures(Login::answer, (login, init), r),
    ensures
        r is Ok <==> init.challenge_name@ == "PASSWORD_VERIFIER"@ && srp_refusal(
            init.challenge_parameters.secret_block@,
            init.challenge_parameters.salt@,
            init.challenge_parameters.srp_b@,
        ) is None,
        r matches Ok(response) ==> {
            let cp = init.challenge_parameters;
            &&& response.username@ == cp.user_id_for_srp@
            &&& response.password_claim_secret_block@ == cp.secret_block@
            &&& response.password_claim_signature@ == session_signature(
                login.protocol(),
                cp.secret_block@,
                cp.user_id_for_srp@,
                cp.salt@,
                cp.srp_b@,
                response.timestamp@,
            )
        },
{
}

/// A login begins for the user, with the password, in the pool of the portal and
/// as its client, and sends the name of the user and the public value first.
pub proof fn lemma_login_begun(username: &str, password: &str, r: (Login, InitiateAuth))
    requires
        call_ensures(Login::begin, (username, password), r),
    ensures
        session_inputs(r.0.protocol()) == seq![
            "eu-central-1_fVUTz39em"@,
            "ugfnsujd3384sshcjehaphlh3"@,
            username@,
            password@,
        ],
        r.1.username@ == username@,
        r.1.srp_a@ == session_public_value(r.0.protocol()),
{
}

} // verus!
