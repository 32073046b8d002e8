//! Authentication of inbound requests and classification of what they
//! carry, and what the router does with each kind.
use vstd::prelude::*;

use crate::command::Update;
use crate::format::{
    forward_message, render_unknown, status_message, unknown_message, AppleMessageFilterQuery,
    StatusReport,
};
use crate::liveness::opt_view;
use crate::text::{
    replace_all, replaced, split_at_first, split_once, strip_prefix_repeats,
    strip_prefixes, text_eq, trim, trim_char, trim_end_char, trim_start_char, trimmed,
};

verus! {

/// The HTTP method of a request, as far as routing cares.
#[derive(Debug, Clone, Copy, PartialEq, Eq, Structural)]
pub enum Method {
    Get,
    Post,
    Other,
}

/// The credential a request presents.
pub enum Credential {
    /// None that can be accepted.
    Rejected,
    /// None: the request may be a chat-platform update, authenticated by
    /// its secret-token header instead.
    BotUpdate,
    /// A device and the token it claims.
    Device { device: String, token: String },
}

/// The credential text of an `Authorization` header: trimmed, with the
/// `Bearer ` scheme removed.
pub open spec fn bearer_value(header: Seq<char>) -> Seq<char> {
    strip_prefixes(trimmed(header), "Bearer "@)
}

/// The credential text of a request path: the path without leading and
/// trailing slashes.
pub open spec fn path_value(path: Seq<char>) -> Seq<char> {
    trim_end_char(trim_start_char(path, '/'), '/')
}

/// The credential text of a request: from its `Authorization` header when
/// it has one, else from its path.
pub open spec fn credential_text(authorization: Option<Seq<char>>, path: Seq<char>) -> Seq<char> {
    match authorization {
        Some(h) => bearer_value(h),
        None => path_value(path),
    }
}

/// Whether `r` is the credential that a request with this method,
/// `Authorization` header and path presents.
pub open spec fn presents(
    r: Credential,
    method: Method,
    authorization: Option<Seq<char>>,
    path: Seq<char>,
) -> bool {
    if method == Method::Other {
        r is Rejected
    } else if authorization is None && path_value(path).len() == 0 {
        if method == Method::Post {
            r is BotUpdate
        } else {
            r is Rejected
        }
    } else {
        match split_once(credential_text(authorization, path), '/') {
            Some((d, t)) => r matches Credential::Device { device, token } && device@ == d
                && token@ == t,
            None => r is Rejected,
        }
    }
}

/// Extracts the credential of a request: `Bearer <device>/<token>` from
/// the `Authorization` header, or else `<device>/<token>` from the path. A
/// POST with neither goes to the chat-update check; methods other than GET
/// and POST are rejected.
pub fn extract_credential(method: Method, authorization: Option<&str>, path: &str) -> (r: Credential)
    ensures
        presents(r, method, opt_view(authorization), path@),
{
    if method == Method::Other {
        return Credential::Rejected;
    }
    let value = match authorization {
        Some(h) => {
            proof {
                reveal_strlit("Bearer ");
            }
            let t = trim(h);
            strip_prefix_repeats(t.as_str(), "Bearer ")
        },
        None => {
            let p = trim_char(path, '/');
            if p.unicode_len() == 0 {
                if method == Method::Post {
                    return Credential::BotUpdate;
                } else {
                    return Credential::Rejected;
                }
            }
            p
        },
    };
    match split_at_first(value.as_str(), '/') {
        Some((device, token)) => Credential::Device { device, token },
        None => Credential::Rejected,
    }
}

/// Whether `token` is the stored secret, when there is one.
pub open spec fn token_matches(token: Seq<char>, secret: Option<Seq<char>>) -> bool {
    match secret {
        Some(s) => token == s,
        None => false,
    }
}

/// Checks a device's token against its stored secret: it passes exactly
/// when a secret is stored and the token equals it.
pub fn check_token(token: &str, secret: Option<&str>) -> (r: bool)
    ensures
        r == token_matches(token@, opt_view(secret)),
{
    match secret {
        Some(s) => text_eq(token, s),
        None => false,
    }
}

/// A token is accepted for exactly the device whose stored secret it
/// equals: the secret of another device does not open this one.
pub proof fn lemma_token_binds_device(token: Seq<char>, own: Seq<char>, other: Seq<char>)
    requires
        token == other,
        own != other,
    ensures
        !token_matches(token, Some(own)),
        token_matches(token, Some(other)),
{
}

/// What an authenticated request asks for.
pub enum AuthorizedRequest {
    /// The device's configuration.
    GetConfig { device: String, token: String },
    /// Forward a filtered message.
    Forward { device: String, query: AppleMessageFilterQuery },
    /// A liveness ping.
    Heartbeat { device: String },
    /// A battery report.
    ReportStatus { device: String, status: StatusReport },
    /// An operator update from the chat platform.
    MessageUpdate { update: Update },
    /// A body of no known shape, to be echoed.
    Unknown { device: String, body: String },
}

/// Whether `r` is what the body `body` posted by `device` amounts to, given
/// its readings as a message-filter query and as a status report. An empty
/// body is a heartbeat; the query shape wins over the status shape.
pub open spec fn classified(
    r: AuthorizedRequest,
    device: String,
    body: String,
    query: Option<AppleMessageFilterQuery>,
    status: Option<StatusReport>,
) -> bool {
    if body@.len() == 0 {
        r matches AuthorizedRequest::Heartbeat { device: d } && d == device
    } else if query is Some {
        r matches AuthorizedRequest::Forward { device: d, query: q } && d == device && q
            == query->Some_0
    } else if status is Some {
        r matches AuthorizedRequest::ReportStatus { device: d, status: s } && d == device && s
            == status->Some_0
    } else {
        r matches AuthorizedRequest::Unknown { device: d, body: b } && d == device && b == body
    }
}

/// Classifies a body posted by an authenticated device.
pub fn classify_body(
    device: String,
    body: String,
    query: Option<AppleMessageFilterQuery>,
    status: Option<StatusReport>,
) -> (r: AuthorizedRequest)
    ensures
        classified(r, device, body, query, status),
{
    if body.unicode_len() == 0 {
        AuthorizedRequest::Heartbeat { device }
    } else {
        match query {
            Some(query) => AuthorizedRequest::Forward { device, query },
            None => match status {
                Some(status) => AuthorizedRequest::ReportStatus { device, status },
                None => AuthorizedRequest::Unknown { device, body },
            },
        }
    }
}

/// Authorizes a request that presented a device credential. The token must
/// equal the device's stored secret; then a GET asks for the configuration,
/// and a POST whose body could be read is classified. Anything else is
/// turned away.
pub fn authorize_device(
    method: Method,
    device: String,
    token: String,
    secret: Option<&str>,
    body: Option<String>,
    query: Option<AppleMessageFilterQuery>,
    status: Option<StatusReport>,
) -> (r: Option<AuthorizedRequest>)
    ensures
        !token_matches(token@, opt_view(secret)) ==> r is None,
        method == Method::Other ==> r is None,
        token_matches(token@, opt_view(secret)) && method == Method::Get ==> (r matches Some(
            AuthorizedRequest::GetConfig { device: d, token: t },
        ) && d == device && t == token),
        token_matches(token@, opt_view(secret)) && method == Method::Post ==> match body {
            Some(b) => r matches Some(x) && classified(x, device, b, query, status),
            None => r is None,
        },
{
    if !check_token(token.as_str(), secret) {
        return None;
    }
    match method {
        Method::Get => Some(AuthorizedRequest::GetConfig { device, token }),
        Method::Post => match body {
            Some(body) => Some(classify_body(device, body, query, status)),
            None => None,
        },
        Method::Other => None,
    }
}

/// Authorizes a chat-platform update: its secret-token header must equal
/// the configured secret, and its body must have read as an update.
pub fn authorize_update(header: Option<&str>, secret: &str, update: Option<Update>) -> (r: Option<
    AuthorizedRequest,
>)
    ensures
        token_matches(secret@, opt_view(header)) && update is Some ==> (r matches Some(
            AuthorizedRequest::MessageUpdate { update: u },
        ) && u == update->Some_0),
        !(token_matches(secret@, opt_view(header)) && update is Some) ==> r is None,
{
    match header {
        Some(h) => if text_eq(h, secret) {
            match update {
                Some(update) => Some(AuthorizedRequest::MessageUpdate { update }),
                None => None,
            }
        } else {
            None
        },
        None => None,
    }
}

// ----------------------------------------------------------------------
// Routing
// ----------------------------------------------------------------------

/// The device whose liveness a request refreshes: every request that
/// carries an authenticated device and an event does.
pub open spec fn refreshed_device(r: AuthorizedRequest) -> Option<Seq<char>> {
    match r {
        AuthorizedRequest::Forward { device, .. } => Some(device@),
        AuthorizedRequest::Heartbeat { device } => Some(device@),
        AuthorizedRequest::ReportStatus { device, .. } => Some(device@),
        AuthorizedRequest::Unknown { device, .. } => Some(device@),
        _ => None,
    }
}

/// The notification a request produces by itself.
pub open spec fn notification_of(r: AuthorizedRequest) -> Option<Seq<char>> {
    match r {
        AuthorizedRequest::Forward { device, query } => Some(
            forward_message(device@, query.sender@, query.text@),
        ),
        AuthorizedRequest::ReportStatus { device, status } => Some(
            status_message(device@, status.battery as int, status.charger),
        ),
        AuthorizedRequest::Unknown { device, body } => Some(unknown_message(device@, body@)),
        _ => None,
    }
}

pub open spec fn opt_string_view(s: Option<String>) -> Option<Seq<char>> {
    match s {
        Some(v) => Some(v@),
        None => None,
    }
}

impl AuthorizedRequest {
    /// The device whose liveness this request refreshes, if any.
    pub fn liveness_device(&self) -> (r: Option<String>)
        ensures
            opt_string_view(r) == refreshed_device(*self),
    {
        match self {
            AuthorizedRequest::Forward { device, .. } => Some(device.clone()),
            AuthorizedRequest::Heartbeat { device } => Some(device.clone()),
            AuthorizedRequest::ReportStatus { device, .. } => Some(device.clone()),
            AuthorizedRequest::Unknown { device, .. } => Some(device.clone()),
            _ => None,
        }
    }

    /// The notification to deliver to the device's chat, if any.
    pub fn notification(&self) -> (r: Option<String>)
        ensures
            opt_string_view(r) == notification_of(*self),
    {
        match self {
            AuthorizedRequest::Forward { device, query } => Some(query.render(device.as_str())),
            AuthorizedRequest::ReportStatus { device, status } => Some(
                status.render(device.as_str()),
            ),
            AuthorizedRequest::Unknown { device, body } => Some(
                render_unknown(device.as_str(), body.as_str()),
            ),
            _ => None,
        }
    }
}

// ----------------------------------------------------------------------
// Configuration
// ----------------------------------------------------------------------

/// The configuration template with the device's credential in place of
/// every `{{token}}`.
pub open spec fn filled_config(template: Seq<char>, device: Seq<char>, token: Seq<char>) -> Seq<
    char,
> {
    replaced(template, "{{token}}"@, device + "/"@ + token)
}

/// Fills a configuration template with a device's credential.
pub fn fill_config(template: &str, device: &str, token: &str) -> (r: String)
    ensures
        r@ == filled_config(template@, device@, token@),
{
    let mut credential = String::new();
    credential.append(device);
    credential.append("/");
    credential.append(token);
    proof {
        reveal_strlit("{{token}}");
    }
    replace_all(template, "{{token}}", credential.as_str())
}

} // verus!
