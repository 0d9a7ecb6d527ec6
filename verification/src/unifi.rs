//! Canonical model of the controller's devices, clients and sites, and the
//! session rules for talking to the controller: which of the two
//! authentication schemes is active, when a login is required, how the
//! session token is formed from login cookies, which URL each collection is
//! fetched from, and how a data response's status is acted on — including
//! the single invalidate-login-retry allowed after a 401.
//!
//! The HTTP transport itself is not here: callers perform the requests and
//! hand statuses, cookie headers and decoded bodies back to these rules.

use crate::sample::Rational;
use crate::sample::dec_chars;
use crate::sample::push_u64;
use crate::strutil::join_all;
use crate::strutil::join_view;
use crate::strutil::trim_end_char;
use crate::strutil::trim_end_view;
use core::time::Duration;
use vstd::prelude::*;
use vstd::string::StringExecFns;

verus! {

/// Per-device system statistics: load averages as exact rationals, memory
/// in bytes.
#[derive(Debug, Clone)]
pub struct SysStats {
    pub loadavg_1: Option<Rational>,
    pub loadavg_5: Option<Rational>,
    pub loadavg_15: Option<Rational>,
    pub mem_total: Option<i64>,
    pub mem_used: Option<i64>,
}

impl SysStats {
    pub open spec fn wf(self) -> bool {
        &&& (self.loadavg_1 matches Some(r) ==> r.wf())
        &&& (self.loadavg_5 matches Some(r) ==> r.wf())
        &&& (self.loadavg_15 matches Some(r) ==> r.wf())
    }
}

/// Per-device traffic statistics, as reported by the controller.
#[derive(Debug, Clone)]
pub struct DeviceStats {
    pub bytes: Option<i64>,
    pub tx_bytes: Option<i64>,
    pub rx_bytes: Option<i64>,
    pub tx_packets: Option<i64>,
    pub rx_packets: Option<i64>,
}

/// A managed network appliance.
#[derive(Debug, Clone)]
pub struct Device {
    pub _id: String,
    pub name: Option<String>,
    pub mac: String,
    pub device_type: String,
    pub model: Option<String>,
    pub version: Option<String>,
    pub adopted: bool,
    pub state: i32,
    pub uptime: Option<i64>,
    pub sys_stats: Option<SysStats>,
    pub stat: Option<DeviceStats>,
}

impl Device {
    pub open spec fn wf(self) -> bool {
        self.sys_stats matches Some(s) ==> s.wf()
    }
}

/// An end-station connected to the network.
#[derive(Debug, Clone)]
pub struct Client {
    pub _id: String,
    pub mac: String,
    pub ip: Option<String>,
    pub hostname: Option<String>,
    pub name: Option<String>,
    pub network: Option<String>,
    pub vlan: Option<i32>,
    pub ap_mac: Option<String>,
    pub signal: Option<i32>,
    pub tx_bytes: Option<i64>,
    pub rx_bytes: Option<i64>,
    pub uptime: Option<i64>,
    pub is_wired: bool,
    pub is_guest: bool,
}

/// A logical grouping of devices and clients under one controller.
#[derive(Debug, Clone)]
pub struct Site {
    pub _id: String,
    pub name: String,
    pub desc: String,
    pub attr_hidden_id: Option<String>,
    pub attr_no_delete: Option<bool>,
}

/// Errors surfaced by a poll cycle; each is fatal to the cycle, none to the
/// process.
#[derive(Debug, Clone)]
pub enum UniFiError {
    /// Transport-level failure, with the transport's description.
    RequestFailed(String),
    /// Login rejected, a success response without cookies, or a second 401
    /// after the single retry.
    AuthenticationFailed,
    /// Non-success status or undecodable body.
    ParseError(String),
}

impl UniFiError {
    /// The rendered description of this error.
    pub open spec fn message_view(self) -> Seq<char> {
        match self {
            UniFiError::RequestFailed(m) => "HTTP request failed: "@ + m@,
            UniFiError::AuthenticationFailed => "Authentication failed"@,
            UniFiError::ParseError(m) => "Failed to parse response: "@ + m@,
        }
    }

    pub fn message(&self) -> (r: String)
        ensures
            r@ == self.message_view(),
    {
        match self {
            UniFiError::RequestFailed(m) => {
                let mut s = "HTTP request failed: ".to_owned();
                s.append(m.as_str());
                s
            },
            UniFiError::AuthenticationFailed => "Authentication failed".to_owned(),
            UniFiError::ParseError(m) => {
                let mut s = "Failed to parse response: ".to_owned();
                s.append(m.as_str());
                s
            },
        }
    }
}

/// Exactly one of the two authentication schemes is active for the process
/// lifetime.
#[derive(Debug, Clone)]
pub enum AuthMethod {
    /// Stateless key, attached to every request as a header.
    ApiKey(String),
    /// Credentials for the login endpoint; a session token is held between
    /// requests.
    UserPass { username: String, password: String },
}

/// The body of a login request.
#[derive(Debug, Clone)]
pub struct LoginRequest {
    pub username: String,
    pub password: String,
    pub remember: bool,
}

/// Whether a data request is the first attempt of its cycle or the single
/// retry after a re-login.
#[derive(Debug, Clone, Copy, PartialEq, Eq, Structural)]
pub enum FetchPhase {
    First,
    Retried,
}

/// What to do with a data response, judged from its status alone.
#[derive(Debug)]
pub enum DataAction {
    /// Success: decode the body.
    Proceed,
    /// First 401 under password authentication: the session was invalidated;
    /// log in again and retry the request once.
    Relogin,
    /// The cycle fails with this error.
    Fail(UniFiError),
}

/// Whether an authentication context is ready to be attached to a request.
#[derive(Debug, Clone, Copy, PartialEq, Eq, Structural)]
pub enum AuthStatus {
    Valid,
    LoginRequired,
}

/// Client state for one controller: base URL, scheme, site, and the session
/// token held for password authentication.
#[derive(Debug, Clone)]
pub struct UniFiClient {
    pub base_url: String,
    pub auth_method: AuthMethod,
    pub site: String,
    pub auth_cookies: Option<String>,
    pub timeout: Duration,
    pub verify_ssl: bool,
}

/// Everything but the session token agrees between the two states.
pub open spec fn same_identity(a: UniFiClient, b: UniFiClient) -> bool {
    &&& a.base_url == b.base_url
    &&& a.auth_method == b.auth_method
    &&& a.site == b.site
    &&& a.timeout == b.timeout
    &&& a.verify_ssl == b.verify_ssl
}

/// An HTTP status that counts as success.
pub open spec fn is_success(status: u16) -> bool {
    200 <= status < 300
}

/// A 401 demands the single invalidate-login-retry only on the first
/// attempt of a password-authenticated request.
pub open spec fn retries(c: UniFiClient, phase: FetchPhase, status: u16) -> bool {
    status == 401 && c.auth_method is UserPass && phase is First
}

/// The message carried by a non-success, non-retried status.
pub open spec fn status_error_view(status: u16) -> Seq<char> {
    "API request failed with status: "@ + dec_chars(status as nat)
}

impl UniFiClient {
    /// A request can be authenticated right now: the key is stateless, or a
    /// session token is held.
    pub open spec fn session_valid(self) -> bool {
        self.auth_method is ApiKey || self.auth_cookies is Some
    }

    /// Builds the client state; trailing slashes of the base URL are
    /// dropped, and exactly one authentication scheme must be derivable
    /// from the arguments.
    pub fn new(
        base_url: String,
        api_key: Option<String>,
        username: Option<String>,
        password: Option<String>,
        site: String,
        timeout: Duration,
        verify_ssl: bool,
    ) -> (r: Result<UniFiClient, String>)
        ensures
            r is Ok <==> !(api_key is None && (username is None || password is None)),
            r matches Ok(c) ==> {
                &&& c.base_url@ == trim_end_view(base_url@, '/')
                &&& c.site == site
                &&& c.auth_cookies is None
                &&& c.timeout == timeout
                &&& c.verify_ssl == verify_ssl
                &&& (api_key matches Some(k) ==> (c.auth_method matches AuthMethod::ApiKey(k2)
                    && k2 == k))
                &&& (api_key is None ==> (c.auth_method matches AuthMethod::UserPass {
                    username: u,
                    password: p,
                } && username == Some(u) && password == Some(p)))
            },
            r matches Err(e) ==> e@ == "Either API key or username/password must be provided"@,
    {
        let auth_method = match (api_key, username, password) {
            (Some(key), _, _) => AuthMethod::ApiKey(key),
            (None, Some(user), Some(pass)) => AuthMethod::UserPass {
                username: user,
                password: pass,
            },
            _ => {
                return Err("Either API key or username/password must be provided".to_owned());
            },
        };
        Ok(
            UniFiClient {
                base_url: trim_end_char(base_url.as_str(), '/'),
                auth_method,
                site,
                auth_cookies: None,
                timeout,
                verify_ssl,
            },
        )
    }

    /// Decides whether a login must be performed before data requests: the
    /// key scheme never needs one, the password scheme needs one exactly
    /// when no session token is held.
    pub fn ensure_authenticated(&self) -> (r: AuthStatus)
        ensures
            r is Valid <==> self.session_valid(),
    {
        match &self.auth_method {
            AuthMethod::ApiKey(_) => AuthStatus::Valid,
            AuthMethod::UserPass { .. } => {
                if self.auth_cookies.is_some() {
                    AuthStatus::Valid
                } else {
                    AuthStatus::LoginRequired
                }
            },
        }
    }

    /// Drops any held session token; idempotent, and a no-op in effect for
    /// the key scheme, which holds none.
    pub fn invalidate(&mut self)
        ensures
            same_identity(*old(self), *final(self)),
            final(self).auth_cookies is None,
    {
        self.auth_cookies = None;
    }

    /// The login endpoint and request body for the password scheme; the
    /// remember flag is always false.
    pub fn login_request(&self) -> (r: (String, LoginRequest))
        requires
            self.auth_method is UserPass,
        ensures
            r.0@ == self.base_url@ + "/api/login"@,
            self.auth_method matches AuthMethod::UserPass { username: u, password: p }
                ==> r.1.username@ == u@ && r.1.password@ == p@,
            r.1.remember == false,
    {
        let mut url = self.base_url.clone();
        url.append("/api/login");
        match &self.auth_method {
            AuthMethod::UserPass { username, password } => (
                url,
                LoginRequest {
                    username: username.clone(),
                    password: password.clone(),
                    remember: false,
                },
            ),
            AuthMethod::ApiKey(_) => {
                proof {
                    assert(false);
                }
                (
                    url,
                    LoginRequest {
                        username: String::new(),
                        password: String::new(),
                        remember: false,
                    },
                )
            },
        }
    }

    /// Applies the outcome of a login request: on a success status carrying
    /// at least one cookie header the values are joined with `"; "` and
    /// stored as the session token; anything else is an authentication
    /// failure and the held token is unchanged.
    pub fn login_outcome(&mut self, success: bool, cookies: &Vec<String>) -> (r: Result<
        (),
        UniFiError,
    >)
        ensures
            same_identity(*old(self), *final(self)),
            r is Ok <==> (success && cookies@.len() > 0),
            r is Ok ==> (final(self).auth_cookies matches Some(t) && t@ == join_view(
                cookies.deep_view(),
                "; "@,
            )),
            r matches Err(e) ==> e is AuthenticationFailed && final(self).auth_cookies == old(
                self,
            ).auth_cookies,
    {
        if !success {
            return Err(UniFiError::AuthenticationFailed);
        }
        if cookies.len() == 0 {
            return Err(UniFiError::AuthenticationFailed);
        }
        let token = join_all(cookies, "; ");
        self.auth_cookies = Some(token);
        Ok(())
    }

    /// The header that authenticates a request: the key header for the key
    /// scheme, the cookie header carrying the session token for the
    /// password scheme.
    pub fn attach(&self) -> (r: (String, String))
        requires
            self.session_valid(),
        ensures
            self.auth_method matches AuthMethod::ApiKey(k) ==> r.0@ == "X-API-KEY"@ && r.1 == k,
            self.auth_method is UserPass ==> {
                &&& r.0@ == "Cookie"@
                &&& (self.auth_cookies matches Some(t) && r.1 == t)
            },
    {
        match &self.auth_method {
            AuthMethod::ApiKey(key) => ("X-API-KEY".to_owned(), key.clone()),
            AuthMethod::UserPass { .. } => {
                match &self.auth_cookies {
                    Some(token) => ("Cookie".to_owned(), token.clone()),
                    None => {
                        proof {
                            assert(false);
                        }
                        (String::new(), String::new())
                    },
                }
            },
        }
    }

    /// The URL the device collection is fetched from, by scheme.
    pub fn device_stats_url(&self) -> (r: String)
        ensures
            r@ == device_stats_url_view(*self),
    {
        let mut url = self.base_url.clone();
        match &self.auth_method {
            AuthMethod::ApiKey(_) => url.append("/proxy/network/api/s/"),
            AuthMethod::UserPass { .. } => url.append("/api/s/"),
        }
        url.append(self.site.as_str());
        url.append("/stat/device");
        url
    }

    /// The URL the client collection is fetched from, by scheme.
    pub fn client_stats_url(&self) -> (r: String)
        ensures
            r@ == client_stats_url_view(*self),
    {
        let mut url = self.base_url.clone();
        match &self.auth_method {
            AuthMethod::ApiKey(_) => url.append("/proxy/network/api/s/"),
            AuthMethod::UserPass { .. } => url.append("/api/s/"),
        }
        url.append(self.site.as_str());
        url.append("/stat/sta");
        url
    }

    /// The URL the site collection is fetched from: the paginated
    /// integration endpoint for the key scheme, the root-level sites
    /// endpoint for the password scheme; neither is site-scoped, since the
    /// collection enumerates all sites.
    pub fn sites_url(&self) -> (r: String)
        ensures
            r@ == sites_url_view(*self),
    {
        let mut url = self.base_url.clone();
        match &self.auth_method {
            AuthMethod::ApiKey(_) => url.append("/proxy/network/integration/v1/sites"),
            AuthMethod::UserPass { .. } => url.append("/api/self/sites"),
        }
        url
    }

    /// Acts on the status of a data response.  Success means the body is
    /// decoded; the first 401 under the password scheme invalidates the
    /// session and demands one re-login and retry; a 401 on the retried
    /// request is an authentication failure; any other non-success status
    /// fails the cycle with a parse error naming the status.
    pub fn handle_data_status(&mut self, phase: FetchPhase, status: u16) -> (r: DataAction)
        ensures
            same_identity(*old(self), *final(self)),
            is_success(status) ==> r is Proceed && final(self).auth_cookies == old(
                self,
            ).auth_cookies,
            retries(*old(self), phase, status) ==> r is Relogin && final(self).auth_cookies
                is None,
            !is_success(status) && !retries(*old(self), phase, status) ==> {
                &&& final(self).auth_cookies == old(self).auth_cookies
                &&& (status == 401 && old(self).auth_method is UserPass ==> (r matches
                    DataAction::Fail(e) && e is AuthenticationFailed))
                &&& (!(status == 401 && old(self).auth_method is UserPass) ==> (r matches
                    DataAction::Fail(e) && e matches UniFiError::ParseError(m) && m@
                    == status_error_view(status)))
            },
    {
        if 200 <= status && status < 300 {
            return DataAction::Proceed;
        }
        if status == 401 && matches!(&self.auth_method, AuthMethod::UserPass { .. }) {
            if matches!(phase, FetchPhase::First) {
                self.auth_cookies = None;
                return DataAction::Relogin;
            }
            return DataAction::Fail(UniFiError::AuthenticationFailed);
        }
        let mut m = "API request failed with status: ".to_owned();
        push_u64(&mut m, status as u64);
        DataAction::Fail(UniFiError::ParseError(m))
    }
}

pub open spec fn device_stats_url_view(c: UniFiClient) -> Seq<char> {
    match c.auth_method {
        AuthMethod::ApiKey(_) => c.base_url@ + "/proxy/network/api/s/"@ + c.site@
            + "/stat/device"@,
        AuthMethod::UserPass { .. } => c.base_url@ + "/api/s/"@ + c.site@ + "/stat/device"@,
    }
}

pub open spec fn client_stats_url_view(c: UniFiClient) -> Seq<char> {
    match c.auth_method {
        AuthMethod::ApiKey(_) => c.base_url@ + "/proxy/network/api/s/"@ + c.site@ + "/stat/sta"@,
        AuthMethod::UserPass { .. } => c.base_url@ + "/api/s/"@ + c.site@ + "/stat/sta"@,
    }
}

pub open spec fn sites_url_view(c: UniFiClient) -> Seq<char> {
    match c.auth_method {
        AuthMethod::ApiKey(_) => c.base_url@ + "/proxy/network/integration/v1/sites"@,
        AuthMethod::UserPass { .. } => c.base_url@ + "/api/self/sites"@,
    }
}

/// A data request returning 401 under password authentication triggers
/// exactly one invalidate-login-retry sequence: the first attempt's 401
/// demands the retry, and no status of the retried request can demand
/// another; `handle_data_status` turns a 401 on the retried request into an
/// authentication failure.
pub proof fn lemma_single_reauthentication(c: UniFiClient, status: u16)
    requires
        c.auth_method is UserPass,
    ensures
        retries(c, FetchPhase::First, 401),
        !retries(c, FetchPhase::Retried, status),
        retries(c, FetchPhase::First, status) ==> status == 401,
{
}

} // verus!
