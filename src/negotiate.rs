//! Negotiation: the connection settings, the URLs they give, the
//! authorization header, and the choice of transport from the server's offer.
use vstd::prelude::*;
use vstd::string::StringExecFns;
use crate::protocol::HubProtocolKind;
use crate::registry::{append_decimal, decimal};

verus! {

broadcast use vstd::string::group_string_axioms;

/// How the negotiation request authenticates.
pub enum Authentication {
    Anonymous,
    Basic { user: String, password: Option<String> },
    Bearer { token: String },
}

/// One transport offered by the server, with its transfer formats.
pub struct AvailableTransport {
    pub transport: String,
    pub transfer_formats: Vec<String>,
}

/// The server's answer to a negotiation request.
pub struct NegotiateResponseV0 {
    pub connection_id: String,
    pub available_transports: Vec<AvailableTransport>,
}

/// Where and how to open the WebSocket once negotiation has succeeded.
pub struct ConnectionData {
    endpoint: String,
    connection_id: String,
    protocol_kind: HubProtocolKind,
}

impl ConnectionData {
    pub closed spec fn endpoint(&self) -> Seq<char> {
        self.endpoint@
    }

    pub closed spec fn connection_id(&self) -> Seq<char> {
        self.connection_id@
    }

    pub closed spec fn protocol_kind(&self) -> HubProtocolKind {
        self.protocol_kind
    }

    /// The WebSocket URL.
    pub fn get_endpoint(&self) -> (r: String)
        ensures
            r@ == self.endpoint(),
    {
        self.endpoint.clone()
    }

    /// The connection id chosen by the server.
    pub fn get_connection_id(&self) -> (r: String)
        ensures
            r@ == self.connection_id(),
    {
        self.connection_id.clone()
    }

    /// The hub protocol of the connection.
    pub fn get_protocol_kind(&self) -> (r: HubProtocolKind)
        ensures
            r == self.protocol_kind(),
    {
        self.protocol_kind
    }
}

/// Whether transport `t` is WebSockets with transfer format `format`.
pub open spec fn fits(t: AvailableTransport, format: Seq<char>) -> bool {
    t.transport@ == "WebSockets"@ && exists|j: int|
        0 <= j < t.transfer_formats@.len() && (#[trigger] t.transfer_formats@[j])@ == format
}

/// Whether the server offers WebSockets with transfer format `format`.
pub open spec fn offers(n: NegotiateResponseV0, format: Seq<char>) -> bool {
    exists|i: int| 0 <= i < n.available_transports@.len() && fits(#[trigger] n.available_transports@[i], format)
}

/// The transfer format that protocol `k` needs.
pub open spec fn format_of(k: HubProtocolKind) -> Seq<char> {
    match k {
        HubProtocolKind::Json => "Text"@,
        HubProtocolKind::MessagePack => "Binary"@,
    }
}

fn has_format(t: &AvailableTransport, format: &String) -> (r: bool)
    ensures
        r == (exists|j: int|
            0 <= j < t.transfer_formats@.len() && (#[trigger] t.transfer_formats@[j])@ == format@),
{
    let mut j: usize = 0;
    while j < t.transfer_formats.len()
        invariant
            j <= t.transfer_formats@.len(),
            forall|q: int| 0 <= q < j ==> (#[trigger] t.transfer_formats@[q])@ != format@,
        decreases t.transfer_formats@.len() - j,
    {
        if t.transfer_formats[j] == *format {
            return true;
        }
        j = j + 1;
    }
    false
}

/// The negotiation client.
pub struct HttpClient {}

impl HttpClient {
    /// Builds the connection descriptor when the server offers WebSockets
    /// with the transfer format that `protocol_kind` needs; `None` otherwise.
    pub fn create_configuration(
        endpoint: String,
        negotiate: NegotiateResponseV0,
        protocol_kind: HubProtocolKind,
    ) -> (r: Option<ConnectionData>)
        ensures
            r is Some <==> offers(negotiate, format_of(protocol_kind)),
            r matches Some(d) ==> d.endpoint() == endpoint@ && d.connection_id()
                == negotiate.connection_id@ && d.protocol_kind() == protocol_kind,
    {
        let websockets = String::from_str("WebSockets");
        let format = String::from_str(protocol_kind.transfer_format());
        let mut i: usize = 0;
        let mut found = false;
        while i < negotiate.available_transports.len()
            invariant
                i <= negotiate.available_transports@.len(),
                websockets@ == "WebSockets"@,
                format@ == format_of(protocol_kind),
                found == (exists|q: int| 0 <= q < i && fits(#[trigger] negotiate.available_transports@[q], format@)),
            decreases negotiate.available_transports@.len() - i,
        {
            let t = &negotiate.available_transports[i];
            if t.transport == websockets && has_format(t, &format) {
                found = true;
            }
            proof {
                if found {
                    if !(exists|q: int| 0 <= q < i && fits(negotiate.available_transports@[q], format@)) {
                        assert(fits(negotiate.available_transports@[i as int], format@));
                    }
                }
            }
            i = i + 1;
        }
        if found {
            Some(ConnectionData { endpoint, connection_id: negotiate.connection_id, protocol_kind })
        } else {
            None
        }
    }

    /// The `Authorization` value for basic authentication: `Basic ` and the
    /// base64 of `user:password` (of `user:` without a password).
    pub fn basic_auth(username: String, password: Option<String>) -> (r: String)
        ensures
            r@ == "Basic "@ + base64_of(
                vstd::utf8::encode_utf8(
                    username@ + ":"@ + match password {
                        Some(p) => p@,
                        None => Seq::<char>::empty(),
                    },
                ),
            ),
    {
        let mut credentials = username;
        credentials.append(":");
        match &password {
            Some(p) => credentials.append(p.as_str()),
            None => {},
        }
        let encoded = base64_encode(credentials.as_str().as_bytes());
        let mut r = String::from_str("Basic ");
        r.append(encoded.as_str());
        proof {
            let pw = match password {
                Some(p) => p@,
                None => Seq::<char>::empty(),
            };
            assert(credentials@ =~= username@ + ":"@ + pw);
        }
        r
    }
}

/// The standard base64 digit for a six-bit value.
pub open spec fn b64_digit(n: nat) -> char {
    "ABCDEFGHIJKLMNOPQRSTUVWXYZabcdefghijklmnopqrstuvwxyz0123456789+/"@[n as int]
}

/// Standard base64 with padding: each group of three bytes becomes four
/// digits of six bits each, most significant first; a last group of one or
/// two bytes is filled with zero bits and padded with `=` to four characters.
pub open spec fn base64_of(b: Seq<u8>) -> Seq<char>
    decreases b.len(),
{
    if b.len() == 0 {
        Seq::empty()
    } else if b.len() == 1 {
        seq![b64_digit((b[0] / 4) as nat), b64_digit(((b[0] % 4) * 16) as nat), '=', '=']
    } else if b.len() == 2 {
        seq![
            b64_digit((b[0] / 4) as nat),
            b64_digit(((b[0] % 4) * 16 + b[1] / 16) as nat),
            b64_digit(((b[1] % 16) * 4) as nat),
            '=',
        ]
    } else {
        seq![
            b64_digit((b[0] / 4) as nat),
            b64_digit(((b[0] % 4) * 16 + b[1] / 16) as nat),
            b64_digit(((b[1] % 16) * 4 + b[2] / 64) as nat),
            b64_digit((b[2] % 64) as nat),
        ] + base64_of(b.subrange(3, b.len() as int))
    }
}

/// Relies on `base64::engine::general_purpose::STANDARD.encode`: the
/// standard alphabet, with padding.
#[verifier::external_body]
fn base64_encode(b: &[u8]) -> (r: String)
    ensures
        r@ == base64_of(b@),
{
    base64::Engine::encode(&base64::engine::general_purpose::STANDARD, b)
}

/// The `Authorization` header value for `auth`, if any.
pub fn authorization_header(auth: &Authentication) -> (r: Option<String>)
    ensures
        match auth {
            Authentication::Anonymous => r is None,
            Authentication::Basic { user, password } => r matches Some(h) && h@ == "Basic "@
                + base64_of(
                vstd::utf8::encode_utf8(
                    user@ + ":"@ + match password {
                        Some(p) => p@,
                        None => Seq::<char>::empty(),
                    },
                ),
            ),
            Authentication::Bearer { token } => r matches Some(h) && h@ == "Bearer "@ + token@,
        },
{
    match auth {
        Authentication::Anonymous => None,
        Authentication::Basic { user, password } => Some(
            HttpClient::basic_auth(user.clone(), password.clone()),
        ),
        Authentication::Bearer { token } => {
            let mut h = String::from_str("Bearer ");
            h.append(token.as_str());
            Some(h)
        },
    }
}

/// The decimal text of a signed number.
pub open spec fn int_text(n: int) -> Seq<char> {
    if n < 0 {
        seq!['-'] + decimal((-n) as nat)
    } else {
        decimal(n as nat)
    }
}

/// The settings of a connection: host, hub, scheme, port, authentication
/// and hub protocol.
pub struct ConnectionConfiguration {
    secure: bool,
    domain: String,
    hub: String,
    port: Option<i32>,
    authentication: Authentication,
    protocol: HubProtocolKind,
}

/// The host part of a URL: the domain, and the port if set.
pub open spec fn host_spec(domain: Seq<char>, port: Option<i32>) -> Seq<char> {
    match port {
        Some(p) => domain + seq![':'] + int_text(p as int),
        None => domain,
    }
}

impl ConnectionConfiguration {
    pub closed spec fn is_secure(&self) -> bool {
        self.secure
    }

    pub closed spec fn domain(&self) -> Seq<char> {
        self.domain@
    }

    pub closed spec fn hub(&self) -> Seq<char> {
        self.hub@
    }

    pub closed spec fn port(&self) -> Option<i32> {
        self.port
    }

    pub closed spec fn protocol(&self) -> HubProtocolKind {
        self.protocol
    }

    pub closed spec fn authentication(&self) -> Authentication {
        self.authentication
    }

    /// The HTTP URL of the hub.
    pub open spec fn web_url(&self) -> Seq<char> {
        (if self.is_secure() {
            "https"@
        } else {
            "http"@
        }) + "://"@ + host_spec(self.domain(), self.port()) + seq!['/'] + self.hub()
    }

    /// The WebSocket URL of the hub; the scheme mirrors the HTTP one.
    pub open spec fn socket_url(&self) -> Seq<char> {
        (if self.is_secure() {
            "wss"@
        } else {
            "ws"@
        }) + "://"@ + host_spec(self.domain(), self.port()) + seq!['/'] + self.hub()
    }

    /// Settings for `domain` and `hub`: secure, default port, no
    /// authentication, JSON protocol.
    pub fn new(domain: String, hub: String) -> (r: Self)
        ensures
            r.is_secure(),
            r.domain() == domain@,
            r.hub() == hub@,
            r.port() is None,
            r.authentication() is Anonymous,
            r.protocol() == HubProtocolKind::Json,
    {
        ConnectionConfiguration {
            secure: true,
            domain,
            hub,
            port: None,
            authentication: Authentication::Anonymous,
            protocol: HubProtocolKind::Json,
        }
    }

    /// Uses `port` instead of the scheme's default port.
    pub fn with_port(&mut self, port: i32)
        ensures
            final(self).port() == Some(port),
            final(self).is_secure() == old(self).is_secure(),
            final(self).domain() == old(self).domain(),
            final(self).hub() == old(self).hub(),
            final(self).protocol() == old(self).protocol(),
            final(self).authentication() == old(self).authentication(),
    {
        self.port = Some(port);
    }

    /// Connects to hub `hub`.
    pub fn with_hub(&mut self, hub: String)
        ensures
            final(self).hub() == hub@,
            final(self).port() == old(self).port(),
            final(self).is_secure() == old(self).is_secure(),
            final(self).domain() == old(self).domain(),
            final(self).protocol() == old(self).protocol(),
            final(self).authentication() == old(self).authentication(),
    {
        self.hub = hub;
    }

    /// Uses https and wss.
    pub fn secure(&mut self)
        ensures
            final(self).is_secure(),
            final(self).hub() == old(self).hub(),
            final(self).port() == old(self).port(),
            final(self).domain() == old(self).domain(),
            final(self).protocol() == old(self).protocol(),
            final(self).authentication() == old(self).authentication(),
    {
        self.secure = true;
    }

    /// Uses http and ws.
    pub fn unsecure(&mut self)
        ensures
            !final(self).is_secure(),
            final(self).hub() == old(self).hub(),
            final(self).port() == old(self).port(),
            final(self).domain() == old(self).domain(),
            final(self).protocol() == old(self).protocol(),
            final(self).authentication() == old(self).authentication(),
    {
        self.secure = false;
    }

    /// Authenticates negotiation with a user name and an optional password.
    pub fn authenticate_basic(&mut self, user: String, password: Option<String>)
        ensures
            final(self).authentication() == (Authentication::Basic { user, password }),
            final(self).is_secure() == old(self).is_secure(),
            final(self).hub() == old(self).hub(),
            final(self).port() == old(self).port(),
            final(self).domain() == old(self).domain(),
            final(self).protocol() == old(self).protocol(),
    {
        self.authentication = Authentication::Basic { user, password };
    }

    /// Authenticates negotiation with a bearer token.
    pub fn authenticate_bearer(&mut self, token: String)
        ensures
            final(self).authentication() == (Authentication::Bearer { token }),
            final(self).is_secure() == old(self).is_secure(),
            final(self).hub() == old(self).hub(),
            final(self).port() == old(self).port(),
            final(self).domain() == old(self).domain(),
            final(self).protocol() == old(self).protocol(),
    {
        self.authentication = Authentication::Bearer { token };
    }

    /// Uses the binary (MessagePack) hub protocol.
    pub fn with_messagepack_protocol(&mut self)
        ensures
            final(self).protocol() == HubProtocolKind::MessagePack,
            final(self).is_secure() == old(self).is_secure(),
            final(self).hub() == old(self).hub(),
            final(self).port() == old(self).port(),
            final(self).domain() == old(self).domain(),
            final(self).authentication() == old(self).authentication(),
    {
        self.protocol = HubProtocolKind::MessagePack;
    }

    /// The hub protocol.
    pub fn get_protocol_kind(&self) -> (r: HubProtocolKind)
        ensures
            r == self.protocol(),
    {
        self.protocol
    }

    /// The authentication settings.
    pub fn get_authentication(&self) -> (r: &Authentication)
        ensures
            *r == self.authentication(),
    {
        &self.authentication
    }

    fn append_host(&self, s: &mut String)
        ensures
            final(s)@ == old(s)@ + host_spec(self.domain(), self.port()),
    {
        s.append(self.domain.as_str());
        match self.port {
            Some(p) => {
                s.append(":");
                proof {
                    reveal_strlit(":");
                }
                if p < 0 {
                    s.append("-");
                    proof {
                        reveal_strlit("-");
                    }
                    append_decimal(s, (-(p as i64)) as u64);
                } else {
                    append_decimal(s, p as u64);
                }
                proof {
                    assert(final(s)@ =~= old(s)@ + host_spec(self.domain(), self.port()));
                }
            },
            None => {},
        }
    }

    /// The HTTP URL of the hub.
    pub fn get_web_url(&self) -> (r: String)
        ensures
            r@ == self.web_url(),
    {
        let mut s = if self.secure {
            String::from_str("https")
        } else {
            String::from_str("http")
        };
        s.append("://");
        self.append_host(&mut s);
        s.append("/");
        proof {
            reveal_strlit("/");
        }
        s.append(self.hub.as_str());
        proof {
            assert(s@ =~= self.web_url());
        }
        s
    }

    /// The WebSocket URL of the hub.
    pub fn get_socket_url(&self) -> (r: String)
        ensures
            r@ == self.socket_url(),
    {
        let mut s = if self.secure {
            String::from_str("wss")
        } else {
            String::from_str("ws")
        };
        s.append("://");
        self.append_host(&mut s);
        s.append("/");
        proof {
            reveal_strlit("/");
        }
        s.append(self.hub.as_str());
        proof {
            assert(s@ =~= self.socket_url());
        }
        s
    }

    /// The negotiation URL: the hub URL followed by
    /// `/negotiate?negotiateVersion=1`.
    pub fn get_negotiate_url(&self) -> (r: String)
        ensures
            r@ == self.web_url() + "/negotiate?negotiateVersion=1"@,
    {
        let mut s = self.get_web_url();
        s.append("/negotiate?negotiateVersion=1");
        s
    }
}

} // verus!
