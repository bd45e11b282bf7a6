//! Requests to the portal's `/services/` API, what its answers come to, and
//! the token that opens it.

use vstd::prelude::*;
use vstd::utf8;

use crate::portal::cognito::CognitoTokens;
use crate::portal::models::{
    DashboardEnergyResponse, EnergyGraphResponse, LayoutNodeV2, OptimizersInfoResponse,
};
use crate::reading::Reading;
use crate::text;
use crate::text::decimal;
use crate::time;
use crate::time::{checked_add_seconds, local_date, Timestamp};

verus! {

/// Where the portal is.
pub const ORIGIN: &'static str = "https://monitoring.solaredge.com";

/// First day of the window over which battery energy is summed. It lies before
/// any battery of the maker, so that the sums are lifetime totals.
pub const BATTERY_ENERGY_START_DATE: &'static str = "2015-01-01";

/// First day of the window over which the energy of an optimizer is summed.
pub const OPTIMIZER_ENERGY_START_DATE: &'static str = "2010-01-01";

/// How the portal's client names itself.
pub const USER_AGENT: &'static str =
    "Mozilla/5.0 (X11; Linux x86_64) AppleWebKit/537.36 (KHTML, like Gecko) Chrome/120.0.0.0 Safari/537.36";

/// A text that is not to be shown. Its view is the text.
pub struct Secret {
    text: String,
}

impl View for Secret {
    type V = Seq<char>;

    closed spec fn view(&self) -> Seq<char> {
        self.text@
    }
}

impl Secret {
    /// Hides a text.
    pub fn new(s: String) -> (r: Secret)
        ensures
            r@ == s@,
    {
        Secret { text: s }
    }

    /// The text.
    pub fn expose(&self) -> (r: &str)
        ensures
            r@ == self@,
    {
        self.text.as_str()
    }

    /// What is shown in place of the text, whatever it is.
    pub fn debug_text(&self) -> (r: &'static str)
        ensures
            r@ == "<redacted>"@,
    {
        "<redacted>"
    }
}

/// A place that text is written to.
#[verifier::external_type_specification]
#[verifier::external_body]
pub struct ExFormatter<'a>(std::fmt::Formatter<'a>);

/// The error of a place that text is written to.
#[verifier::external_type_specification]
#[verifier::external_body]
pub struct ExFmtError(std::fmt::Error);

/// The text that was written to a place so far.
pub uninterp spec fn written(f: std::fmt::Formatter<'_>) -> Seq<char>;

/// Calls `std::fmt::Formatter::write_str`: where it succeeds, the text, and
/// nothing else, was added to what was written. Whether it succeeds, and what
/// was written where it does not, rests with the place.
#[verifier::external_body]
fn write_shown(f: &mut std::fmt::Formatter<'_>, s: &str) -> (r: std::fmt::Result)
    ensures
        r is Ok ==> written(*final(f)) == written(*old(f)) + s@,
{
    f.write_str(s)
}

impl std::fmt::Debug for Secret {
    fn fmt(&self, f: &mut std::fmt::Formatter<'_>) -> (r: std::fmt::Result)
        ensures
            r is Ok ==> written(*final(f)) == written(*old(f)) + "<redacted>"@,
    {
        write_shown(f, self.debug_text())
    }
}

/// Who logs in.
#[derive(Debug)]
pub struct Credentials {
    /// Name of the user.
    pub username: String,
    /// Password of the user.
    pub password: Secret,
}

/// What can go wrong with the portal.
#[derive(Debug)]
pub enum PortalError {
    /// A request did not get through.
    Http(String),
    /// The answer has a status that tells of a failure.
    Status {
        /// The endpoint.
        endpoint: &'static str,
        /// The status.
        status: u16,
        /// The beginning of the body.
        body: String,
    },
    /// The answer cannot be decoded.
    Json {
        /// The endpoint.
        endpoint: &'static str,
        /// What went wrong.
        message: String,
    },
    /// The login failed.
    CognitoAuth(String),
    /// The answer can be decoded but holds nothing of use.
    EmptyResponse {
        /// The endpoint.
        endpoint: &'static str,
        /// The beginning of the body.
        body: String,
    },
    /// The HTTP client cannot be built.
    BuildClient(String),
    /// A text is not what it should be.
    Parse(String),
}

/// What can go wrong with the portal, in texts.
#[verifier::ext_equal]
pub enum PortalErrorView {
    /// A request did not get through.
    Http(Seq<char>),
    /// The answer has a status that tells of a failure.
    Status {
        /// The endpoint.
        endpoint: Seq<char>,
        /// The status.
        status: u16,
        /// The beginning of the body.
        body: Seq<char>,
    },
    /// The answer cannot be decoded.
    Json {
        /// The endpoint.
        endpoint: Seq<char>,
        /// What went wrong.
        message: Seq<char>,
    },
    /// The login failed.
    CognitoAuth(Seq<char>),
    /// The answer can be decoded but holds nothing of use.
    EmptyResponse {
        /// The endpoint.
        endpoint: Seq<char>,
        /// The beginning of the body.
        body: Seq<char>,
    },
    /// The HTTP client cannot be built.
    BuildClient(Seq<char>),
    /// A text is not what it should be.
    Parse(Seq<char>),
}

impl View for PortalError {
    type V = PortalErrorView;

    open spec fn view(&self) -> PortalErrorView {
        match *self {
            PortalError::Http(m) => PortalErrorView::Http(m@),
            PortalError::Status { endpoint, status, body } => PortalErrorView::Status {
                endpoint: endpoint@,
                status,
                body: body@,
            },
            PortalError::Json { endpoint, message } => PortalErrorView::Json {
                endpoint: endpoint@,
                message: message@,
            },
            PortalError::CognitoAuth(m) => PortalErrorView::CognitoAuth(m@),
            PortalError::EmptyResponse { endpoint, body } => PortalErrorView::EmptyResponse {
                endpoint: endpoint@,
                body: body@,
            },
            PortalError::BuildClient(m) => PortalErrorView::BuildClient(m@),
            PortalError::Parse(m) => PortalErrorView::Parse(m@),
        }
    }
}

/// How many bytes of a body an error carries.
pub const MAX_BODY: usize = 500;

/// The longest beginning of a text that takes no more than some bytes in UTF-8.
pub open spec fn beginning(s: Seq<char>, max: nat) -> Seq<char>
    decreases s.len(),
{
    if s.len() == 0 || utf8::encode_utf8(s).len() <= max {
        s
    } else {
        beginning(s.drop_last(), max)
    }
}

/// A text, cut short with an ellipsis where it takes more bytes than an error
/// carries.
pub open spec fn truncated(s: Seq<char>) -> Seq<char> {
    if utf8::encode_utf8(s).len() <= MAX_BODY {
        s
    } else {
        beginning(s, MAX_BODY as nat) + seq!['…']
    }
}

proof fn lemma_encode_concat(a: Seq<char>, b: Seq<char>)
    ensures
        utf8::encode_utf8(a + b) == utf8::encode_utf8(a) + utf8::encode_utf8(b),
    decreases a.len(),
{
    if a.len() == 0 {
        assert(a + b =~= b);
        assert(utf8::encode_utf8(a) + utf8::encode_utf8(b) =~= utf8::encode_utf8(b));
    } else {
        assert((a + b).drop_first() =~= a.drop_first() + b);
        lemma_encode_concat(a.drop_first(), b);
        assert(utf8::encode_utf8(a + b) =~= utf8::encode_utf8(a) + utf8::encode_utf8(b));
    }
}

proof fn lemma_encode_one(c: char)
    ensures
        utf8::encode_utf8(seq![c]) == utf8::encode_scalar(c as u32),
{
    reveal_with_fuel(utf8::encode_utf8, 2);
    assert(seq![c].drop_first() =~= Seq::<char>::empty());
    assert(utf8::encode_utf8(seq![c]) =~= utf8::encode_scalar(c as u32));
}

proof fn lemma_encode_push(s: Seq<char>, n: int)
    requires
        0 <= n < s.len(),
    ensures
        utf8::encode_utf8(s.take(n + 1)).len() == utf8::encode_utf8(s.take(n)).len()
            + utf8::encode_scalar(s[n] as u32).len(),
{
    assert(s.take(n + 1) =~= s.take(n) + seq![s[n]]);
    lemma_encode_concat(s.take(n), seq![s[n]]);
    lemma_encode_one(s[n]);
}

proof fn lemma_beginning(s: Seq<char>, n: int, max: nat)
    requires
        0 <= n < s.len(),
        utf8::encode_utf8(s.take(n)).len() <= max < utf8::encode_utf8(s.take(n + 1)).len(),
    ensures
        utf8::encode_utf8(s).len() > max,
        beginning(s, max) == s.take(n),
    decreases s.len(),
{
    assert(s =~= s.take(n + 1) + s.skip(n + 1));
    lemma_encode_concat(s.take(n + 1), s.skip(n + 1));
    let head = s.drop_last();
    if n + 1 == s.len() {
        reveal_with_fuel(beginning, 2);
        assert(head =~= s.take(n));
    } else {
        assert(head.take(n) =~= s.take(n));
        assert(head.take(n + 1) =~= s.take(n + 1));
        lemma_beginning(head, n, max);
    }
}

fn utf8_width(c: char) -> (r: usize)
    ensures
        r == utf8::encode_scalar(c as u32).len(),
        1 <= r <= 4,
{
    let v: u32 = c as u32;
    if v <= 0x7f {
        1
    } else if v <= 0x7ff {
        2
    } else if v <= 0xffff {
        3
    } else {
        4
    }
}

/// Cuts a text short where it takes more bytes than an error carries, at the
/// end of a character.
pub fn truncate(s: &str) -> (r: String)
    ensures
        r@ == truncated(s@),
{
    if s.as_bytes().len() <= MAX_BODY {
        return s.to_owned();
    }
    let n = s.unicode_len();
    let mut bytes: usize = 0;
    let mut i: usize = 0;
    assert(s@.take(0) =~= Seq::<char>::empty());
    while i < n
        invariant
            i <= n,
            n == s@.len(),
            bytes == utf8::encode_utf8(s@.take(i as int)).len(),
            bytes <= MAX_BODY < utf8::encode_utf8(s@).len(),
        decreases n - i,
    {
        let width = utf8_width(s.get_char(i));
        proof {
            lemma_encode_push(s@, i as int);
        }
        if bytes + width > MAX_BODY {
            let mut r = s.substring_char(0, i).to_owned();
            proof {
                lemma_beginning(s@, i as int, MAX_BODY as nat);
                assert(s@.subrange(0, i as int) =~= s@.take(i as int));
                reveal_strlit("…");
                assert("…"@ =~= seq!['…']);
            }
            r.append("…");
            return r;
        }
        bytes += width;
        i += 1;
    }
    assert(s@.take(n as int) =~= s@);
    s.to_owned()
}

proof fn lemma_beginning_fits(s: Seq<char>, max: nat)
    ensures
        beginning(s, max).is_prefix_of(s),
        utf8::encode_utf8(beginning(s, max)).len() <= max,
    decreases s.len(),
{
    if s.len() == 0 || utf8::encode_utf8(s).len() <= max {
    } else {
        lemma_beginning_fits(s.drop_last(), max);
        let kept = beginning(s.drop_last(), max);
        assert(kept =~= s.take(kept.len() as int));
    }
}

/// A text that is cut short is the beginning of the whole, with an ellipsis
/// behind it, and takes no more bytes than an error carries besides the
/// ellipsis.
pub proof fn lemma_truncated(s: Seq<char>)
    ensures
        utf8::encode_utf8(truncated(s)).len() <= MAX_BODY + 3,
        truncated(s) != s ==> truncated(s).len() > 0 && truncated(s).last() == '…'
            && truncated(s).drop_last().is_prefix_of(s),
{
    let kept = beginning(s, MAX_BODY as nat);
    lemma_beginning_fits(s, MAX_BODY as nat);
    lemma_encode_concat(kept, seq!['…']);
    lemma_encode_one('…');
    assert((kept + seq!['…']).drop_last() =~= kept);
}

/// True of a status that tells of success.
pub open spec fn successful(status: u16) -> bool {
    200 <= status < 300
}

/// What an answer comes to: its error, or what `decode` makes of its body.
pub open spec fn answered<T, F: FnOnce(&str) -> Result<T, String>>(
    decode: F,
    endpoint: Seq<char>,
    status: u16,
    body: &str,
    r: Result<T, PortalError>,
) -> bool {
    if !successful(status) {
        r is Err && r->Err_0@ == (PortalErrorView::Status {
            endpoint,
            status,
            body: truncated(body@),
        })
    } else {
        match r {
            Ok(value) => decode.ensures((body,), Ok(value)),
            Err(e) => exists|message: String| #[trigger]
                decode.ensures((body,), Err(message)) && e@ == (PortalErrorView::Json {
                    endpoint,
                    message: message@,
                }),
        }
    }
}

/// Makes sense of an answer of the portal.
pub fn services_json<T, F: FnOnce(&str) -> Result<T, String>>(
    status: u16,
    body: &str,
    endpoint: &'static str,
    decode: F,
) -> (r: Result<T, PortalError>)
    requires
        decode.requires((body,)),
    ensures
        answered(decode, endpoint@, status, body, r),
{
    if !(200 <= status && status < 300) {
        return Err(PortalError::Status { endpoint, status, body: truncate(body) });
    }
    match decode(body) {
        Ok(value) => Ok(value),
        Err(message) => Err(PortalError::Json { endpoint, message }),
    }
}

/// Makes sense of the answer to a query for the layout.
pub fn site_structure_answer<F: FnOnce(&str) -> Result<LayoutNodeV2, String>>(
    status: u16,
    body: &str,
    decode: F,
) -> (r: Result<LayoutNodeV2, PortalError>)
    requires
        decode.requires((body,)),
    ensures
        answered(decode, "layout/v2"@, status, body, r),
{
    services_json(status, body, "layout/v2", decode)
}

/// Makes sense of the answer to a query for live telemetry.
pub fn optimizers_live_answer<F: FnOnce(&str) -> Result<OptimizersInfoResponse, String>>(
    status: u16,
    body: &str,
    decode: F,
) -> (r: Result<OptimizersInfoResponse, PortalError>)
    requires
        decode.requires((body,)),
    ensures
        answered(decode, "layout/optimizers"@, status, body, r),
{
    services_json(status, body, "layout/optimizers", decode)
}

/// Makes sense of the answer to a query for the energy of an optimizer.
pub fn optimizer_energy_answer<F: FnOnce(&str) -> Result<EnergyGraphResponse, String>>(
    status: u16,
    body: &str,
    decode: F,
) -> (r: Result<Option<Reading>, PortalError>)
    requires
        decode.requires((body,)),
    ensures
        exists|whole: Result<EnergyGraphResponse, PortalError>| #[trigger]
            answered(decode, "layout/energy-graph"@, status, body, whole) && match whole {
                Ok(graph) => r == Ok::<Option<Reading>, PortalError>(graph.total_energy),
                Err(e) => r == Err::<Option<Reading>, PortalError>(e),
            },
{
    let whole = services_json(status, body, "layout/energy-graph", decode);
    let ghost kept = whole;
    assert(answered(decode, "layout/energy-graph"@, status, body, kept));
    match whole {
        Ok(graph) => Ok(graph.total_energy),
        Err(e) => Err(e),
    }
}

/// What an answer with battery energy comes to: one without any is an error.
pub open spec fn battery_energy_checked(
    body: Seq<char>,
    whole: Result<DashboardEnergyResponse, PortalError>,
    r: Result<DashboardEnergyResponse, PortalError>,
) -> bool {
    match whole {
        Err(e) => r == Err::<DashboardEnergyResponse, PortalError>(e),
        Ok(energy) => if energy.charged() is None && energy.discharged() is None {
            r is Err && r->Err_0@ == (PortalErrorView::EmptyResponse {
                endpoint: "dashboard/energy"@,
                body: truncated(body),
            })
        } else {
            r == Ok::<DashboardEnergyResponse, PortalError>(energy)
        },
    }
}

/// Makes sense of the answer to a query for battery energy. One that holds
/// neither energy is an error, so that it does not go unnoticed.
pub fn battery_energy_answer<F: FnOnce(&str) -> Result<DashboardEnergyResponse, String>>(
    status: u16,
    body: &str,
    decode: F,
) -> (r: Result<DashboardEnergyResponse, PortalError>)
    requires
        decode.requires((body,)),
    ensures
        exists|whole: Result<DashboardEnergyResponse, PortalError>| #[trigger]
            answered(decode, "dashboard/energy"@, status, body, whole) && battery_energy_checked(
                body@,
                whole,
                r,
            ),
{
    let whole = services_json(status, body, "dashboard/energy", decode);
    let ghost kept = whole;
    assert(answered(decode, "dashboard/energy"@, status, body, kept));
    match whole {
        Ok(energy) => {
            if energy.charged_watt_hours().is_none() && energy.discharged_watt_hours().is_none() {
                Err(
                    PortalError::EmptyResponse {
                        endpoint: "dashboard/energy",
                        body: truncate(body),
                    },
                )
            } else {
                Ok(energy)
            }
        },
        Err(e) => Err(e),
    }
}

/// Decides whether a query for live telemetry is sent again: once, after a
/// timeout.
pub fn retry_live(attempts: u32, timed_out: bool) -> (r: bool)
    ensures
        r == (attempts == 1 && timed_out),
{
    attempts == 1 && timed_out
}

/// A token and when it runs out.
struct SeMonitoringAuth {
    access_token: String,
    expires_at: Timestamp,
}

/// A token and when it runs out, in texts and nanoseconds since the Unix epoch.
#[verifier::ext_equal]
pub struct AuthView {
    /// The token.
    pub access_token: Seq<char>,
    /// When it runs out.
    pub expires_at: int,
}

/// A token to use.
#[derive(Debug)]
pub struct ServicesAuth {
    /// The token.
    pub access_token: String,
    /// True where a login was made for it just now.
    pub fresh_login: bool,
}

/// The client of a site: who logs in, and the token at hand.
pub struct PortalClient {
    site_id: u64,
    creds: Credentials,
    auth: Option<SeMonitoringAuth>,
}

/// The client of a site, in texts.
#[verifier::ext_equal]
pub struct PortalClientView {
    /// The site.
    pub site_id: u64,
    /// Name of the user.
    pub username: Seq<char>,
    /// Password of the user.
    pub password: Seq<char>,
    /// The token at hand.
    pub auth: Option<AuthView>,
}

impl View for PortalClient {
    type V = PortalClientView;

    closed spec fn view(&self) -> PortalClientView {
        PortalClientView {
            site_id: self.site_id,
            username: self.creds.username@,
            password: self.creds.password@,
            auth: match self.auth {
                Some(auth) => Some(
                    AuthView { access_token: auth.access_token@, expires_at: auth.expires_at@ },
                ),
                None => None,
            },
        }
    }
}

/// How many seconds a token is used: a minute less than it lives, and a minute
/// at least.
pub open spec fn token_seconds(expires_in: int) -> int {
    if expires_in - 60 > 60 {
        expires_in - 60
    } else {
        60
    }
}

/// When a token that was given out at an instant is no longer used.
pub open spec fn token_end(now: int, expires_in: int) -> int {
    let end = now + token_seconds(expires_in) * time::NANOS_PER_SECOND;
    if time::in_range(end) {
        end
    } else {
        now
    }
}

/// The token that can still be used at an instant, if any.
pub open spec fn usable_token(auth: Option<AuthView>, now: int) -> Option<Seq<char>> {
    match auth {
        Some(auth) => if auth.expires_at > now {
            Some(auth.access_token)
        } else {
            None
        },
        None => None,
    }
}

impl PortalClient {
    /// A client without a token.
    pub fn new(site_id: u64, creds: Credentials) -> (r: PortalClient)
        ensures
            r@ == (PortalClientView {
                site_id,
                username: creds.username@,
                password: creds.password@,
                auth: None,
            }),
    {
        PortalClient { site_id, creds, auth: None }
    }

    /// Who logs in.
    pub fn credentials(&self) -> (r: &Credentials)
        ensures
            r.username@ == self@.username,
            r.password@ == self@.password,
    {
        &self.creds
    }

    /// The token at hand, if it can still be used. Without one a login is due.
    pub fn cached_auth(&self, now: &Timestamp) -> (r: Option<ServicesAuth>)
        ensures
            match usable_token(self@.auth, now@) {
                Some(token) => r is Some && r->0.access_token@ == token && !r->0.fresh_login,
                None => r is None,
            },
    {
        match &self.auth {
            Some(auth) => {
                if auth.expires_at.as_nanosecond() > now.as_nanosecond() {
                    Some(
                        ServicesAuth {
                            access_token: auth.access_token.clone(),
                            fresh_login: false,
                        },
                    )
                } else {
                    None
                }
            },
            None => None,
        }
    }

    /// Takes in the outcome of a login that was begun at an instant. A token
    /// is kept, to be used again until shortly before it runs out; a failure
    /// changes nothing.
    pub fn finish_login(
        &mut self,
        login: Result<CognitoTokens, PortalError>,
        now: &Timestamp,
    ) -> (r: Result<ServicesAuth, PortalError>)
        requires
            login matches Ok(tokens) ==> tokens.expires_in - 60 >= i64::MIN,
        ensures
            match login {
                Ok(tokens) => {
                    &&& r is Ok
                    &&& r->Ok_0.access_token@ == tokens.access_token@
                    &&& r->Ok_0.fresh_login
                    &&& final(self)@ == (PortalClientView {
                        auth: Some(
                            AuthView {
                                access_token: tokens.access_token@,
                                expires_at: token_end(now@, tokens.expires_in as int),
                            },
                        ),
                        ..old(self)@
                    })
                },
                Err(e) => r == Err::<ServicesAuth, PortalError>(e) && final(self)@ == old(self)@,
            },
    {
        let tokens = match login {
            Ok(tokens) => tokens,
            Err(e) => {
                return Err(e);
            },
        };
        let early: i64 = tokens.expires_in - 60;
        let ttl: i64 = if early > 60 {
            early
        } else {
            60
        };
        let nanos: i128 = now.as_nanosecond();
        let expires_at = match checked_add_seconds(nanos, ttl) {
            Some(end) => Timestamp::at(end),
            None => *now,
        };
        self.auth = Some(
            SeMonitoringAuth { access_token: tokens.access_token.clone(), expires_at },
        );
        Ok(ServicesAuth { access_token: tokens.access_token, fresh_login: true })
    }

    /// Where the layout of the site is.
    pub fn site_structure_url(&self) -> (r: String)
        ensures
            r@ == ORIGIN@ + "/services/layout/logical/generic/v2/site/"@ + text::decimal_digits(
                self@.site_id as nat,
            ) + "?include-optimizers=true"@,
    {
        let mut r = ORIGIN.to_owned();
        r.append("/services/layout/logical/generic/v2/site/");
        r.append(decimal(self.site_id).as_str());
        r.append("?include-optimizers=true");
        r
    }

    /// Where live telemetry of optimizers is.
    pub fn optimizers_live_url(&self) -> (r: String)
        ensures
            r@ == ORIGIN@ + "/services/layout/information/optimizers"@,
    {
        let mut r = ORIGIN.to_owned();
        r.append("/services/layout/information/optimizers");
        r
    }

    /// Where the energy of an optimizer is, up to the date at an instant in a
    /// time zone.
    pub fn optimizer_energy_url(
        &self,
        serial: &str,
        now: &Timestamp,
        zone: &jiff::tz::TimeZone,
    ) -> (r: String)
        ensures
            exists|today: Seq<char>| #[trigger]
                time::date_shown_in(today, now@, *zone) && r@ == optimizer_energy_address(
                    self@.site_id,
                    today,
                    serial@,
                ),
    {
        let today = local_date(now, zone);
        let mut r = ORIGIN.to_owned();
        r.append("/services/layout/energy-graph/site/");
        r.append(decimal(self.site_id).as_str());
        r.append("/optimizers?chart-time-unit=years&start-date=");
        r.append(OPTIMIZER_ENERGY_START_DATE);
        r.append("&end-date=");
        r.append(today.as_str());
        r.append("&optimizer-serials=");
        r.append(serial);
        assert(time::date_shown_in(today@, now@, *zone));
        r
    }

    /// Where battery energy is, up to the date at an instant in a time zone.
    pub fn battery_energy_url(&self, now: &Timestamp, zone: &jiff::tz::TimeZone) -> (r: String)
        ensures
            exists|today: Seq<char>| #[trigger]
                time::date_shown_in(today, now@, *zone) && r@ == battery_energy_address(
                    self@.site_id,
                    today,
                ),
    {
        let today = local_date(now, zone);
        let mut r = ORIGIN.to_owned();
        r.append("/services/dashboard/energy/sites/");
        r.append(decimal(self.site_id).as_str());
        r.append("?chart-time-unit=years&start-date=");
        r.append(BATTERY_ENERGY_START_DATE);
        r.append("&end-date=");
        r.append(today.as_str());
        r.append(
            "&measurement-types=production-distribution-with-storage%2Cconsumption-distribution-with-storage&isCniViewer=true",
        );
        assert(time::date_shown_in(today@, now@, *zone));
        r
    }
}

/// Where the energy of an optimizer is, up to a date.
pub open spec fn optimizer_energy_address(
    site_id: u64,
    today: Seq<char>,
    serial: Seq<char>,
) -> Seq<char> {
    ORIGIN@ + "/services/layout/energy-graph/site/"@ + text::decimal_digits(site_id as nat)
        + "/optimizers?chart-time-unit=years&start-date="@ + OPTIMIZER_ENERGY_START_DATE@
        + "&end-date="@ + today + "&optimizer-serials="@ + serial
}

/// Where battery energy is, up to a date.
pub open spec fn battery_energy_address(site_id: u64, today: Seq<char>) -> Seq<char> {
    ORIGIN@ + "/services/dashboard/energy/sites/"@ + text::decimal_digits(site_id as nat)
        + "?chart-time-unit=years&start-date="@ + BATTERY_ENERGY_START_DATE@ + "&end-date="@ + today
        + "&measurement-types=production-distribution-with-storage%2Cconsumption-distribution-with-storage&isCniViewer=true"@
}

/// The cookie that carries a token.
pub fn auth_cookie(token: &str) -> (r: String)
    ensures
        r@ == "se_monitoring_auth="@ + token@,
{
    let mut r = "se_monitoring_auth=".to_owned();
    r.append(token);
    r
}

/// The referrer that every request names.
pub fn referer() -> (r: String)
    ensures
        r@ == ORIGIN@ + "/"@,
{
    let mut r = ORIGIN.to_owned();
    r.append("/");
    r
}

/// One login serves many requests: from the instant of a login on, its token
/// is used until its time is up, and not after.
pub proof fn lemma_token_reused(token: Seq<char>, now: int, expires_in: int, later: int)
    requires
        time::in_range(now + token_seconds(expires_in) * time::NANOS_PER_SECOND),
    ensures
        ({
            let auth = Some(
                AuthView { access_token: token, expires_at: token_end(now, expires_in) },
            );
            if later < now + token_seconds(expires_in) * time::NANOS_PER_SECOND {
                usable_token(auth, later) == Some(token)
            } else {
                usable_token(auth, later) is None
            }
        }),
{
}

/// A text that takes no more than 500 bytes is kept whole.
pub proof fn lemma_short_kept(s: Seq<char>)
    requires
        utf8::encode_utf8(s).len() <= 500,
    ensures
        truncated(s) == s,
{
}

/// Of a longer text all is kept up to the character with which it would take
/// more than 500 bytes, with an ellipsis behind it.
pub proof fn lemma_long_cut(kept: Seq<char>, c: char, rest: Seq<char>)
    requires
        utf8::encode_utf8(kept).len() <= 500,
        utf8::encode_utf8(kept + seq![c]).len() > 500,
    ensures
        truncated(kept + seq![c] + rest) == kept + seq!['…'],
{
    let s = kept + seq![c] + rest;
    let n = kept.len() as int;
    assert(s.take(n) =~= kept);
    assert(s.take(n + 1) =~= kept + seq![c]);
    lemma_beginning(s, n, 500);
}

/// An answer with a status below 200, or of 300 and above, is an error that
/// tells the endpoint, the status and the body, whatever the body would decode
/// to. Any other is what its body decodes to, and an error that tells the
/// endpoint where it does not decode.
pub proof fn lemma_answer_told<T, F: FnOnce(&str) -> Result<T, String>>(
    decode: F,
    endpoint: Seq<char>,
    status: u16,
    body: &str,
    r: Result<T, PortalError>,
)
    requires
        answered(decode, endpoint, status, body, r),
    ensures
        status <= 199 || 300 <= status ==> r is Err && r->Err_0@ == (PortalErrorView::Status {
            endpoint,
            status,
            body: truncated(body@),
        }),
        200 <= status <= 299 ==> match r {
            Ok(value) => decode.ensures((body,), Ok(value)),
            Err(e) => exists|message: String| #[trigger]
                decode.ensures((body,), Err(message)) && e@ == (PortalErrorView::Json {
                    endpoint,
                    message: message@,
                }),
        },
{
}

/// An answer of battery energy that holds one of the two energies, or both, is
/// taken as it is; one that holds neither is an error that tells its body.
pub proof fn lemma_one_energy_enough(
    body: Seq<char>,
    energy: DashboardEnergyResponse,
    r: Result<DashboardEnergyResponse, PortalError>,
)
    requires
        battery_energy_checked(body, Ok(energy), r),
    ensures
        energy.summary.production_distribution.production_to_battery is Some
            || energy.summary.consumption_distribution.consumption_from_battery is Some ==> r == Ok::<
            DashboardEnergyResponse,
            PortalError,
        >(energy),
        energy.summary.production_distribution.production_to_battery is None
            && energy.summary.consumption_distribution.consumption_from_battery is None ==> r is Err
            && r->Err_0@ == (PortalErrorView::EmptyResponse {
            endpoint: "dashboard/energy"@,
            body: truncated(body),
        }),
{
}

/// A token is used until a minute before it runs out, and for a minute at
/// least: it is at hand at every instant before that, and at none from it on.
pub proof fn lemma_token_spared(token: Seq<char>, now: int, lives: int, later: int)
    requires
        0 <= now,
        now + lives * 1_000_000_000 < 253_402_207_000_000_000_000,
        now < 253_402_207_000_000_000_000,
    ensures
        ({
            let auth = Some(AuthView { access_token: token, expires_at: token_end(now, lives) });
            &&& lives >= 120 ==> (usable_token(auth, later) == Some(token)) == (later < now + (lives
                - 60) * 1_000_000_000)
            &&& lives < 120 ==> (usable_token(auth, later) == Some(token)) == (later < now
                + 60_000_000_000)
            &&& usable_token(auth, later) is Some ==> usable_token(auth, later) == Some(token)
        }),
        usable_token(None, later) is None,
{
}

/// A query for live telemetry is sent again after a first attempt that timed
/// out, and never otherwise.
pub proof fn lemma_sent_again(attempts: u32, timed_out: bool, again: bool)
    requires
        call_ensures(retry_live, (attempts, timed_out), again),
    ensures
        again ==> timed_out && attempts == 1,
        timed_out && attempts == 1 ==> again,
{
}

/// The energy of an optimizer is asked for by the number of the site and that of
/// the optimizer, from the first day on up to the date; that of the battery by
/// the number of the site, from its own first day on.
pub proof fn lemma_addresses(site_id: u64, today: Seq<char>, serial: Seq<char>)
    ensures
        optimizer_energy_address(site_id, today, serial) == "https://monitoring.solaredge.com"@
            + "/services/layout/energy-graph/site/"@ + text::decimal_digits(site_id as nat)
            + "/optimizers?chart-time-unit=years&start-date="@ + "2010-01-01"@ + "&end-date="@
            + today + "&optimizer-serials="@ + serial,
        battery_energy_address(site_id, today) == "https://monitoring.solaredge.com"@
            + "/services/dashboard/energy/sites/"@ + text::decimal_digits(site_id as nat)
            + "?chart-time-unit=years&start-date="@ + "2015-01-01"@ + "&end-date="@ + today
            + "&measurement-types=production-distribution-with-storage%2Cconsumption-distribution-with-storage&isCniViewer=true"@,
{
}

/// A token that can still be used is handed out as it is, and no login is made
/// for it; without one, nothing is.
pub proof fn lemma_token_handed_out(client: &PortalClient, now: &Timestamp, r: Option<ServicesAuth>)
    requires
        call_ensures(PortalClient::cached_auth, (client, now), r),
    ensures
        r is Some <==> client@.auth is Some && now@ < client@.auth->0.expires_at,
        r matches Some(auth) ==> auth.access_token@ == client@.auth->0.access_token
            && !auth.fresh_login,
{
}

/// The energy of an optimizer is the total of the answer, where the answer has a
/// status of success and decodes.
pub proof fn lemma_total_taken<F: FnOnce(&str) -> Result<EnergyGraphResponse, String>>(
    status: u16,
    body: &str,
    decode: F,
    r: Result<Option<Reading>, PortalError>,
)
    requires
        call_ensures(optimizer_energy_answer::<F>, (status, body, decode), r),
    ensures
        r is Ok ==> 200 <= status <= 299,
        r matches Ok(total) ==> exists|graph: EnergyGraphResponse| #[trigger]
            decode.ensures((body,), Ok(graph)) && graph.total_energy == total,
{
    let whole = choose|whole: Result<EnergyGraphResponse, PortalError>| #[trigger]
        answered(decode, "layout/energy-graph"@, status, body, whole) && match whole {
            Ok(graph) => r == Ok::<Option<Reading>, PortalError>(graph.total_energy),
            Err(e) => r == Err::<Option<Reading>, PortalError>(e),
        };
    if whole is Ok {
        assert(decode.ensures((body,), Ok(whole->Ok_0)));
    }
}

/// After a login its token is at hand until a minute before it runs out, for a
/// minute at least; after one that failed, what was at hand before still is. Who
/// logs in, and the site, stay.
pub proof fn lemma_login_kept(
    client: &mut PortalClient,
    login: Result<CognitoTokens, PortalError>,
    now: &Timestamp,
    r: Result<ServicesAuth, PortalError>,
)
    requires
        call_ensures(PortalClient::finish_login, (client, login, now), r),
        0 <= now@ < 253_402_207_000_000_000_000,
        login matches Ok(tokens) ==> now@ + tokens.expires_in * 1_000_000_000
            < 253_402_207_000_000_000_000,
    ensures
        final(client)@.site_id == old(client)@.site_id,
        final(client)@.username == old(client)@.username,
        final(client)@.password == old(client)@.password,
        r is Ok <==> login is Ok,
        login is Err ==> final(client)@.auth == old(client)@.auth && r->Err_0 == login->Err_0,
        login matches Ok(tokens) ==> {
            &&& r->Ok_0.access_token@ == tokens.access_token@
            &&& r->Ok_0.fresh_login
            &&& final(client)@.auth is Some
            &&& final(client)@.auth->0.access_token == tokens.access_token@
            &&& final(client)@.auth->0.expires_at == now@ + (if tokens.expires_in >= 120 {
                tokens.expires_in - 60
            } else {
                60
            }) * 1_000_000_000
        },
{
}

} // verus!
