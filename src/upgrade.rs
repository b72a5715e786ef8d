use vstd::prelude::*;
use vstd::slice::slice_to_vec;
use vstd::string::*;

use crate::error::Error;
use crate::text::{contains_ignore_ascii_case, contains_ignore_case, eq_ignore_ascii_case, eq_ignore_case};

verus! {

/// The GUID that RFC 6455 appends to a client's key before hashing it.
pub const WS_GUID: &'static str = "258EAFA5-E914-47DA-95CA-C5AB0DC85B11";

/// The SHA-1 digest of a byte string.
pub uninterp spec fn sha1_digest(data: Seq<u8>) -> Seq<u8>;

/// The standard, padded base64 text of a byte string.
pub uninterp spec fn base64_encoding(data: Seq<u8>) -> Seq<char>;

/// The bytes that a standard base64 text stands for, or `None` if it is not base64.
pub uninterp spec fn base64_decoding(text: Seq<u8>) -> Option<Seq<u8>>;

#[verifier::external_type_specification]
#[verifier::external_body]
pub struct ExDecodeError(base64::DecodeError);

/// Relies on sha1::Sha1 (`new`, `update`, `digest`): the twenty-byte SHA-1 digest of `data`.
#[verifier::external_body]
fn sha1_of(data: &[u8]) -> (r: [u8; 20])
    ensures
        r@ == sha1_digest(data@),
{
    let mut s = sha1::Sha1::new();
    s.update(data);
    s.digest().bytes()
}

/// Relies on base64::encode_config with the standard alphabet: the padded base64 text
/// of `data`. Its size computation cannot overflow for inputs of this length.
#[verifier::external_body]
pub(crate) fn base64_encode(data: &[u8]) -> (r: String)
    requires
        data@.len() <= 0x1000_0000,
    ensures
        r@ == base64_encoding(data@),
{
    base64::encode_config(data, base64::STANDARD)
}

/// Relies on base64::decode_config with the standard alphabet: the bytes that
/// `text` stands for, or an error if it is not base64. Its length estimate
/// cannot overflow for inputs of this length.
#[verifier::external_body]
fn base64_decode(text: &[u8]) -> (r: Result<Vec<u8>, base64::DecodeError>)
    requires
        text@.len() <= usize::MAX - 3,
    ensures
        r matches Ok(v) ==> base64_decoding(text@) == Some(v@),
        r is Err ==> base64_decoding(text@) is None,
{
    base64::decode_config(text, base64::STANDARD)
}

/// An HTTP response head as parsed from bytes.
pub struct HttpResponse {
    /// The length of the head, up to and including the blank line.
    pub len: usize,
    /// The status code.
    pub code: u16,
    /// The reason phrase.
    pub reason: Option<String>,
    /// The headers, as name and value bytes, in order.
    pub headers: Vec<(Vec<u8>, Vec<u8>)>,
}

/// An HTTP response head as plain values, or why there is none.
pub enum ResponseHead {
    /// The head is not complete yet.
    Partial,
    /// The bytes are not an HTTP response head.
    Invalid,
    /// The head's length, status code, reason phrase and headers.
    Complete { len: nat, code: u16, reason: Option<Seq<char>>, headers: Seq<(Seq<u8>, Seq<u8>)> },
}

/// What an HTTP/1.1 parser makes of the response head at the front of `data`.
pub uninterp spec fn response_head(data: Seq<u8>) -> ResponseHead;

impl HttpResponse {
    /// The head as plain values.
    pub open spec fn head(&self) -> ResponseHead {
        ResponseHead::Complete {
            len: self.len as nat,
            code: self.code,
            reason: match self.reason {
                Some(s) => Some(s@),
                None => None,
            },
            headers: headers_view(self.headers@),
        }
    }
}

/// The outcome of parsing an HTTP response head.
pub enum ParsedResponse {
    /// The head is not complete yet.
    Partial,
    /// The head is complete.
    Complete(HttpResponse),
    /// The bytes are not an HTTP response head.
    Invalid,
}

/// Relies on httparse::Response::parse, with room for twenty headers: when
/// the head is complete, the length it reports is an offset into `data`.
#[verifier::external_body]
fn parse_response(data: &[u8]) -> (r: ParsedResponse)
    ensures
        match r {
            ParsedResponse::Partial => response_head(data@) == ResponseHead::Partial,
            ParsedResponse::Invalid => response_head(data@) == ResponseHead::Invalid,
            ParsedResponse::Complete(resp) => response_head(data@) == resp.head() && resp.len
                <= data@.len(),
        },
{
    let mut headers = [httparse::EMPTY_HEADER; 20];
    let mut response = httparse::Response::new(&mut headers);
    match response.parse(data) {
        Err(_) => ParsedResponse::Invalid,
        Ok(httparse::Status::Partial) => ParsedResponse::Partial,
        Ok(httparse::Status::Complete(len)) => ParsedResponse::Complete(HttpResponse {
            len,
            code: response.code.unwrap_or_default(),
            reason: response.reason.map(|s| s.to_string()),
            headers: response.headers.iter().map(|h| (h.name.as_bytes().to_vec(), h.value.to_vec())).collect(),
        }),
    }
}

/// The accept token that a key asks for: the SHA-1 digest of the key followed by the GUID.
pub open spec fn accept_digest(key: Seq<u8>) -> Seq<u8> {
    sha1_digest(key + WS_GUID.spec_bytes())
}

/// Computes the accept token that `key` asks for.
fn build_ws_accept(key: &[u8]) -> (r: [u8; 20])
    ensures
        r@ == accept_digest(key@),
{
    let mut data = slice_to_vec(key);
    let mut guid = slice_to_vec(WS_GUID.as_bytes());
    data.append(&mut guid);
    sha1_of(data.as_slice())
}

/// The value of the first header, from index `i` on, whose name is `name` but for ASCII case.
pub open spec fn find_header_from(headers: Seq<(Seq<u8>, Seq<u8>)>, name: Seq<u8>, i: int) -> Option<
    Seq<u8>,
>
    decreases headers.len() - i,
{
    if i < 0 || i >= headers.len() {
        None
    } else if eq_ignore_case(headers[i].0, name) {
        Some(headers[i].1)
    } else {
        find_header_from(headers, name, i + 1)
    }
}

/// The value of the first header whose name is `name` but for ASCII case.
pub open spec fn find_header(headers: Seq<(Seq<u8>, Seq<u8>)>, name: Seq<u8>) -> Option<Seq<u8>> {
    find_header_from(headers, name, 0)
}

/// Header names and values as plain byte strings.
pub open spec fn headers_view(headers: Seq<(Vec<u8>, Vec<u8>)>) -> Seq<(Seq<u8>, Seq<u8>)> {
    headers.map_values(|h: (Vec<u8>, Vec<u8>)| (h.0@, h.1@))
}

/// Looks up the first header whose name is `name` but for ASCII case.
pub fn header<'a>(headers: &'a [(Vec<u8>, Vec<u8>)], name: &[u8]) -> (r: Option<&'a [u8]>)
    ensures
        match find_header(headers_view(headers@), name@) {
            Some(v) => r matches Some(s) && s@ == v,
            None => r is None,
        },
{
    let mut i: usize = 0;
    while i < headers.len()
        invariant
            i <= headers@.len(),
            find_header(headers_view(headers@), name@) == find_header_from(
                headers_view(headers@),
                name@,
                i as int,
            ),
        decreases headers@.len() - i,
    {
        if eq_ignore_ascii_case(headers[i].0.as_slice(), name) {
            return Some(headers[i].1.as_slice());
        }
        i = i + 1;
    }
    None
}

/// The bytes of an accept header's value; values too long to decode count as not base64.
pub open spec fn accept_value_decoding(v: Seq<u8>) -> Option<Seq<u8>> {
    if v.len() + 3 > usize::MAX {
        None
    } else {
        base64_decoding(v)
    }
}

/// What the server's response to the opening handshake comes to.
pub enum HandshakeOutcome {
    /// The response head is not complete yet.
    Incomplete,
    /// The server accepted; the head spans this many bytes.
    Accepted(nat),
    /// The bytes are not an HTTP response head.
    NotHttp,
    /// The status code is not 101; the code and reason phrase.
    Status(u16, Option<Seq<char>>),
    /// The response has no `Sec-WebSocket-Accept` header.
    MissingAccept,
    /// The accept header is not base64.
    NotBase64,
    /// The accept token is not the one expected; the token received.
    Mismatch(Seq<u8>),
}

/// What a response head comes to, given the accept token expected.
pub open spec fn handshake_outcome(expected: Seq<u8>, head: ResponseHead) -> HandshakeOutcome {
    match head {
        ResponseHead::Partial => HandshakeOutcome::Incomplete,
        ResponseHead::Invalid => HandshakeOutcome::NotHttp,
        ResponseHead::Complete { len, code, reason, headers } => if code != 101 {
            HandshakeOutcome::Status(code, reason)
        } else {
            match find_header(headers, "Sec-WebSocket-Accept".spec_bytes()) {
                None => HandshakeOutcome::MissingAccept,
                Some(v) => match accept_value_decoding(v) {
                    None => HandshakeOutcome::NotBase64,
                    Some(d) => if d == expected {
                        HandshakeOutcome::Accepted(len)
                    } else {
                        HandshakeOutcome::Mismatch(d)
                    },
                },
            }
        },
    }
}

/// The result that reports an outcome: `None` while incomplete, the head's
/// length when accepted, else the error that names the outcome.
pub open spec fn reports(
    expected: Seq<u8>,
    outcome: HandshakeOutcome,
    r: Result<Option<usize>, Error>,
) -> bool {
    match outcome {
        HandshakeOutcome::Incomplete => r == Ok::<Option<usize>, Error>(None),
        HandshakeOutcome::Accepted(n) => r == Ok::<Option<usize>, Error>(Some(n as usize)),
        HandshakeOutcome::NotHttp => r == Err::<Option<usize>, Error>(Error::HttpParse),
        HandshakeOutcome::Status(code, reason) => r matches Err(Error::HttpStatus { code: c, reason: given })
            && c == code && match given {
            Some(g) => reason == Some(g@),
            None => reason is None,
        },
        HandshakeOutcome::MissingAccept => r matches Err(Error::MissingServerHeader(n)) && n@
            == "Sec-WebSocket-Accept"@,
        HandshakeOutcome::NotBase64 => r == Err::<Option<usize>, Error>(Error::Base64),
        HandshakeOutcome::Mismatch(d) => r matches Err(
            Error::AcceptMismatch { expected_token, actual_token },
        ) && expected_token@ == expected && actual_token@ == d,
    }
}

/// Checks a complete response head from the server against the accept token
/// expected, and returns the head's length.
pub fn check_server_response(expected: &[u8], resp: &HttpResponse) -> (r: Result<usize, Error>)
    ensures
        reports(
            expected@,
            handshake_outcome(expected@, resp.head()),
            match r {
                Ok(n) => Ok(Some(n)),
                Err(e) => Err(e),
            },
        ),
{
    if resp.code != 101 {
        let reason = match &resp.reason {
            Some(s) => Some(String::from_str(s.as_str())),
            None => None,
        };
        return Err(Error::HttpStatus { code: resp.code, reason });
    }
    let value = match header(resp.headers.as_slice(), "Sec-WebSocket-Accept".as_bytes()) {
        Some(v) => v,
        None => {
            return Err(Error::MissingServerHeader(String::from_str("Sec-WebSocket-Accept")));
        },
    };
    if value.len() > usize::MAX - 3 {
        return Err(Error::Base64);
    }
    let decoded = match base64_decode(value) {
        Ok(d) => d,
        Err(_) => {
            return Err(Error::Base64);
        },
    };
    if !bytes_equal(decoded.as_slice(), expected) {
        return Err(Error::AcceptMismatch { expected_token: slice_to_vec(expected), actual_token: decoded });
    }
    Ok(resp.len)
}

/// Returns whether two byte strings are equal.
fn bytes_equal(a: &[u8], b: &[u8]) -> (r: bool)
    ensures
        r == (a@ == b@),
{
    if a.len() != b.len() {
        return false;
    }
    let mut i: usize = 0;
    while i < a.len()
        invariant
            i <= a@.len(),
            a@.len() == b@.len(),
            forall|k: int| 0 <= k < i ==> a@[k] == b@[k],
        decreases a@.len() - i,
    {
        if a[i] != b[i] {
            return false;
        }
        i = i + 1;
    }
    assert(a@ =~= b@);
    true
}

/// Parses and checks the server's response to the opening handshake: `None`
/// while the head is incomplete, else the head's length.
fn validate_server_response(expected: &[u8], data: &[u8]) -> (r: Result<Option<usize>, Error>)
    ensures
        reports(expected@, handshake_outcome(expected@, response_head(data@)), r),
        r matches Ok(Some(n)) ==> n <= data@.len(),
{
    match parse_response(data) {
        ParsedResponse::Partial => Ok(None),
        ParsedResponse::Invalid => Err(Error::HttpParse),
        ParsedResponse::Complete(resp) => match check_server_response(expected, &resp) {
            Ok(n) => Ok(Some(n)),
            Err(e) => Err(e),
        },
    }
}

/// Decoder for the server's response to the client's HTTP `Connection: Upgrade` request.
pub struct UpgradeCodec {
    ws_accept: [u8; 20],
}

impl UpgradeCodec {
    /// The accept token that the server must answer with.
    pub closed spec fn accept_token(&self) -> Seq<u8> {
        self.ws_accept@
    }

    /// Returns a decoder for the response to a request that sent `key` in its
    /// `Sec-WebSocket-Key` header.
    pub fn new(key: &str) -> (r: UpgradeCodec)
        ensures
            r.accept_token() == accept_digest(key.spec_bytes()),
    {
        UpgradeCodec { ws_accept: build_ws_accept(key.as_bytes()) }
    }

    /// Checks the response at the front of `src`: `None` while it is
    /// incomplete, else the number of bytes it spans.
    pub fn decode(&mut self, src: &[u8]) -> (r: Result<Option<usize>, Error>)
        ensures
            final(self).accept_token() == old(self).accept_token(),
            reports(old(self).accept_token(), handshake_outcome(old(self).accept_token(), response_head(src@)), r),
            r matches Ok(Some(n)) ==> n <= src@.len(),
    {
        validate_server_response(self.ws_accept.as_slice(), src)
    }
}

/// A client's opening handshake, as the server sees it.
pub struct ClientRequest {
    ws_accept: [u8; 20],
}

impl ClientRequest {
    /// The accept token that the server must answer with.
    pub closed spec fn accept_token(&self) -> Seq<u8> {
        self.ws_accept@
    }

    /// Checks the headers of the client's opening handshake: `Upgrade` is
    /// `websocket`, `Connection` contains `Upgrade`, `Sec-WebSocket-Version`
    /// is `13` (all ignoring ASCII case), and `Sec-WebSocket-Key` is present;
    /// the key then gives the accept token.
    pub fn parse(headers: &[(Vec<u8>, Vec<u8>)]) -> (r: Result<ClientRequest, Error>)
        ensures
            match find_header(headers_view(headers@), "Upgrade".spec_bytes()) {
                None => r matches Err(Error::MissingClientHeader(n)) && n@ == "Upgrade"@,
                Some(upgrade) => if !eq_ignore_case(upgrade, "websocket".spec_bytes()) {
                    r matches Err(Error::WrongClientHeader { name, actual, .. }) && name@
                        == "Upgrade"@ && actual@ == upgrade
                } else {
                    match find_header(headers_view(headers@), "Connection".spec_bytes()) {
                        None => r matches Err(Error::MissingClientHeader(n)) && n@
                            == "Connection"@,
                        Some(connection) => if !contains_ignore_case(
                            connection,
                            "Upgrade".spec_bytes(),
                        ) {
                            r matches Err(Error::ClientHeaderLacks { name, actual, .. }) && name@
                                == "Connection"@ && actual@ == connection
                        } else {
                            match find_header(headers_view(headers@), "Sec-WebSocket-Version".spec_bytes()) {
                                None => r matches Err(Error::MissingClientHeader(n)) && n@
                                    == "Sec-WebSocket-Version"@,
                                Some(version) => if !eq_ignore_case(version, "13".spec_bytes()) {
                                    r matches Err(Error::WrongClientHeader { name, actual, .. })
                                        && name@ == "Sec-WebSocket-Version"@ && actual@ == version
                                } else {
                                    match find_header(headers_view(headers@), "Sec-WebSocket-Key".spec_bytes()) {
                                        None => r matches Err(Error::MissingClientHeader(n)) && n@
                                            == "Sec-WebSocket-Key"@,
                                        Some(key) => r matches Ok(req) && req.accept_token()
                                            == accept_digest(key),
                                    }
                                }
                            }
                        }
                    }
                }
            },
    {
        let upgrade = match header(headers, "Upgrade".as_bytes()) {
            Some(v) => v,
            None => {
                return Err(Error::MissingClientHeader(String::from_str("Upgrade")));
            },
        };
        if !eq_ignore_ascii_case(upgrade, "websocket".as_bytes()) {
            return Err(
                Error::WrongClientHeader {
                    name: String::from_str("Upgrade"),
                    expected: String::from_str("websocket"),
                    actual: slice_to_vec(upgrade),
                },
            );
        }
        let connection = match header(headers, "Connection".as_bytes()) {
            Some(v) => v,
            None => {
                return Err(Error::MissingClientHeader(String::from_str("Connection")));
            },
        };
        if !contains_ignore_ascii_case(connection, "Upgrade".as_bytes()) {
            return Err(
                Error::ClientHeaderLacks {
                    name: String::from_str("Connection"),
                    expected: String::from_str("Upgrade"),
                    actual: slice_to_vec(connection),
                },
            );
        }
        let version = match header(headers, "Sec-WebSocket-Version".as_bytes()) {
            Some(v) => v,
            None => {
                return Err(Error::MissingClientHeader(String::from_str("Sec-WebSocket-Version")));
            },
        };
        if !eq_ignore_ascii_case(version, "13".as_bytes()) {
            return Err(
                Error::WrongClientHeader {
                    name: String::from_str("Sec-WebSocket-Version"),
                    expected: String::from_str("13"),
                    actual: slice_to_vec(version),
                },
            );
        }
        let key = match header(headers, "Sec-WebSocket-Key".as_bytes()) {
            Some(v) => v,
            None => {
                return Err(Error::MissingClientHeader(String::from_str("Sec-WebSocket-Key")));
            },
        };
        Ok(ClientRequest { ws_accept: build_ws_accept(key) })
    }

    /// Returns the value that the client expects to see in the server's
    /// `Sec-WebSocket-Accept` header.
    pub fn ws_accept(&self) -> (r: String)
        ensures
            r@ == base64_encoding(self.accept_token()),
    {
        base64_encode(self.ws_accept.as_slice())
    }

    /// Appends the value that the client expects to see in the server's
    /// `Sec-WebSocket-Accept` header to `s`.
    pub fn ws_accept_buf(&self, s: &mut String)
        ensures
            final(s)@ == old(s)@ + base64_encoding(self.accept_token()),
    {
        let token = self.ws_accept();
        s.append(token.as_str());
    }
}

} // verus!
