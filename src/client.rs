use vstd::prelude::*;
use vstd::string::*;
use vstd::utf8::encode_utf8;

use crate::text::{decimal_digits, decimal_text};
use crate::upgrade::{accept_digest, base64_encode, base64_encoding, UpgradeCodec};

verus! {

#[verifier::external_type_specification]
#[verifier::external_body]
pub struct ExParseError(url::ParseError);

/// The parts of a WebSocket URL that the opening handshake reads.
pub struct UrlParts {
    /// The scheme, `ws` or `wss`.
    pub scheme: String,
    /// The host, as it is written in the URL (an IPv6 address in brackets).
    pub host: Option<String>,
    /// The port, or the scheme's default port.
    pub port: Option<u16>,
    /// The path, starting with `/`.
    pub path: String,
    /// The query, without its `?`.
    pub query: Option<String>,
}

/// The parts of a URL as plain values.
pub struct UrlView {
    /// The scheme.
    pub scheme: Seq<char>,
    /// The host, as written in the URL.
    pub host: Option<Seq<char>>,
    /// The port, or the scheme's default port.
    pub port: Option<u16>,
    /// The path.
    pub path: Seq<char>,
    /// The query, without its `?`.
    pub query: Option<Seq<char>>,
}

/// The text of an optional string.
pub open spec fn opt_text(s: Option<String>) -> Option<Seq<char>> {
    match s {
        Some(t) => Some(t@),
        None => None,
    }
}

impl View for UrlParts {
    type V = UrlView;

    open spec fn view(&self) -> UrlView {
        UrlView {
            scheme: self.scheme@,
            host: opt_text(self.host),
            port: self.port,
            path: self.path@,
            query: opt_text(self.query),
        }
    }
}

/// The parts of the URL that `input` spells, or `None` if it is not a URL.
pub uninterp spec fn url_of(input: Seq<char>) -> Option<UrlView>;

/// Relies on url::Url::parse, and on the `Url` getters `scheme`, `host_str`,
/// `port_or_known_default`, `path` and `query` to read the parsed URL.
#[verifier::external_body]
fn parse_url(input: &str) -> (r: Result<UrlParts, url::ParseError>)
    ensures
        match r {
            Ok(parts) => url_of(input@) == Some(parts@),
            Err(_) => url_of(input@) is None,
        },
{
    let url = url::Url::parse(input)?;
    Ok(UrlParts {
        scheme: url.scheme().to_string(),
        host: url.host_str().map(|h| h.to_string()),
        port: url.port_or_known_default(),
        path: url.path().to_string(),
        query: url.query().map(|q| q.to_string()),
    })
}

/// The extra header lines for the first `n` of `headers`.
pub open spec fn header_lines(headers: Seq<(String, String)>, n: nat) -> Seq<char>
    decreases n,
{
    if n == 0 || n > headers.len() {
        Seq::empty()
    } else {
        header_lines(headers, (n - 1) as nat) + headers[n - 1].0@ + ": "@ + headers[n - 1].1@
            + "\r\n"@
    }
}

/// The request line and `Host` line of a handshake request.
pub open spec fn request_head(url: UrlParts) -> Seq<char> {
    "GET "@ + url.path@ + match url.query {
        Some(q) => "?"@ + q@,
        None => Seq::empty(),
    } + " HTTP/1.1\r\n"@ + match url.host {
        Some(h) => "Host: "@ + h@ + match url.port {
            Some(p) => ":"@ + decimal_digits(p as nat),
            None => Seq::empty(),
        } + "\r\n"@,
        None => Seq::empty(),
    }
}

/// The client's opening handshake request for `url`, sending `key`.
pub open spec fn request_text(url: UrlParts, key: Seq<char>, headers: Seq<(String, String)>) -> Seq<
    char,
> {
    request_head(url) + "Upgrade: websocket\r\n"@ + "Connection: Upgrade\r\n"@
        + "Sec-WebSocket-Key: "@ + key + "\r\n"@ + "Sec-WebSocket-Version: 13\r\n"@ + header_lines(
        headers,
        headers.len(),
    ) + "\r\n"@
}

/// Builds the client's opening handshake request.
pub fn build_request(url: &UrlParts, key: &str, headers: &[(String, String)]) -> (r: String)
    ensures
        r@ == request_text(*url, key@, headers@),
{
    let mut s = String::new();
    s.append("GET ");
    s.append(url.path.as_str());
    if let Some(query) = &url.query {
        s.append("?");
        s.append(query.as_str());
    }
    s.append(" HTTP/1.1\r\n");
    if let Some(host) = &url.host {
        s.append("Host: ");
        s.append(host.as_str());
        if let Some(port) = url.port {
            s.append(":");
            let digits = decimal_text(port as u64);
            s.append(digits.as_str());
        }
        s.append("\r\n");
    }
    assert(s@ =~= request_head(*url));
    s.append("Upgrade: websocket\r\n");
    s.append("Connection: Upgrade\r\n");
    s.append("Sec-WebSocket-Key: ");
    s.append(key);
    s.append("\r\n");
    s.append("Sec-WebSocket-Version: 13\r\n");
    let ghost fixed = s@;
    let mut i: usize = 0;
    while i < headers.len()
        invariant
            i <= headers@.len(),
            s@ == fixed + header_lines(headers@, i as nat),
        decreases headers@.len() - i,
    {
        s.append(headers[i].0.as_str());
        s.append(": ");
        s.append(headers[i].1.as_str());
        s.append("\r\n");
        i = i + 1;
        assert(s@ =~= fixed + header_lines(headers@, i as nat));
    }
    s.append("\r\n");
    assert(s@ =~= request_text(*url, key@, headers@));
    s
}

/// Returns the base64 text of the handshake key: `key` if given, else sixteen
/// freshly drawn random bytes.
pub fn make_key(key: Option<[u8; 16]>) -> (r: String)
    ensures
        key matches Some(k) ==> r@ == base64_encoding(k@),
        exists|k: Seq<u8>| k.len() == 16 && r@ == base64_encoding(k),
{
    let bytes: [u8; 16] = match key {
        Some(k) => k,
        None => rand::random::<[u8; 16]>(),
    };
    base64_encode(bytes.as_slice())
}

/// Establishes a WebSocket connection.
pub struct ClientBuilder {
    url: UrlParts,
    key: Option<[u8; 16]>,
    headers: Vec<(String, String)>,
}

impl ClientBuilder {
    /// The URL to connect to.
    pub closed spec fn spec_url(&self) -> UrlParts {
        self.url
    }

    /// The handshake key, if one was pinned.
    pub closed spec fn spec_key(&self) -> Option<Seq<u8>> {
        match self.key {
            Some(k) => Some(k@),
            None => None,
        }
    }

    /// The extra headers to send.
    pub closed spec fn spec_headers(&self) -> Seq<(String, String)> {
        self.headers@
    }

    /// Creates a `ClientBuilder` that connects to a given WebSocket URL, or
    /// fails if the URL does not parse.
    pub fn new(url: &str) -> (r: Result<ClientBuilder, url::ParseError>)
        ensures
            match r {
                Ok(b) => url_of(url@) == Some(b.spec_url()@) && b.spec_key() is None
                    && b.spec_headers().len() == 0,
                Err(_) => url_of(url@) is None,
            },
    {
        match parse_url(url) {
            Ok(parts) => Ok(ClientBuilder::from_url(parts)),
            Err(e) => Err(e),
        }
    }

    /// Creates a `ClientBuilder` that connects to an already parsed URL.
    pub fn from_url(url: UrlParts) -> (r: ClientBuilder)
        ensures
            r.spec_url() == url,
            r.spec_key() is None,
            r.spec_headers().len() == 0,
    {
        ClientBuilder { url, key: None, headers: Vec::new() }
    }

    /// Returns the URL to connect to.
    pub fn url(&self) -> (r: &UrlParts)
        ensures
            *r == self.spec_url(),
    {
        &self.url
    }

    /// Adds an extra HTTP header to the handshake request.
    pub fn add_header(&mut self, name: String, value: String)
        ensures
            final(self).spec_url() == old(self).spec_url(),
            final(self).spec_key() == old(self).spec_key(),
            final(self).spec_headers() == old(self).spec_headers().push((name, value)),
    {
        self.headers.push((name, value));
    }

    /// Pins the sixteen bytes of the handshake key instead of drawing them at random.
    pub fn key(self, key: &[u8]) -> (r: ClientBuilder)
        requires
            key@.len() == 16,
        ensures
            r.spec_url() == self.spec_url(),
            r.spec_key() == Some(key@),
            r.spec_headers() == self.spec_headers(),
    {
        let a: [u8; 16] = [
            key[0],
            key[1],
            key[2],
            key[3],
            key[4],
            key[5],
            key[6],
            key[7],
            key[8],
            key[9],
            key[10],
            key[11],
            key[12],
            key[13],
            key[14],
            key[15],
        ];
        assert(a@ =~= key@);
        ClientBuilder { url: self.url, key: Some(a), headers: self.headers }
    }

    /// Returns the opening handshake request to send, and the decoder that
    /// checks the server's response to it.
    pub fn handshake(&self) -> (r: (String, UpgradeCodec))
        ensures
            exists|key: Seq<char>|
                {
                    &&& r.0@ == request_text(self.spec_url(), key, self.spec_headers())
                    &&& r.1.accept_token() == accept_digest(encode_utf8(key))
                    &&& self.spec_key() matches Some(k) ==> key == base64_encoding(k)
                },
    {
        let key = make_key(self.key);
        let codec = UpgradeCodec::new(key.as_str());
        let request = build_request(&self.url, key.as_str(), self.headers.as_slice());
        assert(request@ == request_text(self.spec_url(), key@, self.spec_headers()));
        assert(codec.accept_token() == accept_digest(encode_utf8(key@)));
        assert(self.spec_key() matches Some(k) ==> key@ == base64_encoding(k));
        (request, codec)
    }
}

} // verus!
