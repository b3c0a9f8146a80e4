//! Addressing of the daemon, request assembly, response classification and the splitter of
//! newline-delimited JSON bodies.
use vstd::prelude::*;
use vstd::utf8::{decode_utf8, encode_utf8, valid_utf8};
use crate::conn::headers::Headers;
use crate::conn::payload::Payload;
use crate::conn::Error;
use crate::text::push_char;

verus! {

#[verifier::external_type_specification]
#[verifier::external_body]
pub struct ExMethod(http::Method);

#[verifier::external_type_specification]
#[verifier::external_body]
pub struct ExUri(http::Uri);

/// Whether `http::Uri` accepts a text.
pub uninterp spec fn uri_accepts(s: Seq<char>) -> bool;

/// The string field `message` of the JSON object a text holds, if it holds one with such a
/// field.
pub uninterp spec fn fault_message_of(body: Seq<char>) -> Option<Seq<char>>;

/// The canonical reason phrase of a status code, if it has one.
pub uninterp spec fn reason_phrase_of(code: u16) -> Option<Seq<char>>;

/// Relies on the `FromStr` impl of `http::Uri`: it parses the text or says why it cannot.
#[verifier::external_body]
fn parse_uri(s: &str) -> (r: std::result::Result<http::Uri, http::uri::InvalidUri>)
    ensures
        r is Ok == uri_accepts(s@),
{
    s.parse()
}

/// Relies on `hyperlocal::Uri::new`: it writes `unix://`, the socket path's bytes in
/// lower-case hex, `:0` and the endpoint, and parses that text as a URI, panicking where it
/// is none.
#[verifier::external_body]
fn unix_socket_uri(path: &str, ep: &str) -> (r: http::Uri)
    requires
        uri_accepts(unix_uri_text(path@, ep@)),
{
    hyperlocal::Uri::new(path, ep).into()
}

/// Relies on `String::from_utf8`: it succeeds exactly on valid UTF-8, with the decoded text.
#[verifier::external_body]
fn utf8_string(bytes: Vec<u8>) -> (r: std::result::Result<String, std::string::FromUtf8Error>)
    ensures
        r is Ok == valid_utf8(bytes@),
        r matches Ok(s) ==> s@ == decode_utf8(bytes@),
{
    String::from_utf8(bytes)
}

/// Relies on `serde_json::from_str` into a `serde_json::Value`, then on `Value::get` and
/// `Value::as_str`: the string field `message` of the JSON object the text holds.
#[verifier::external_body]
fn parse_fault_message(body: &str) -> (r: Option<String>)
    ensures
        opt_view(r) == fault_message_of(body@),
{
    serde_json::from_str::<serde_json::Value>(body).ok().and_then(
        |v| v.get("message").and_then(|m| m.as_str()).map(String::from),
    )
}

/// Relies on `http::StatusCode::from_u16` and `StatusCode::canonical_reason`: the standard
/// reason phrase of a status code, where the code is valid and has one.
#[verifier::external_body]
fn canonical_reason(code: u16) -> (r: Option<&'static str>)
    ensures
        opt_str_view(r) == reason_phrase_of(code),
{
    http::StatusCode::from_u16(code).ok().and_then(|s| s.canonical_reason())
}

/// The view of an optional string.
pub open spec fn opt_view(o: Option<String>) -> Option<Seq<char>> {
    match o {
        Some(s) => Some(s@),
        None => None,
    }
}

/// The view of an optional string slice.
pub open spec fn opt_str_view(o: Option<&str>) -> Option<Seq<char>> {
    match o {
        Some(s) => Some(s@),
        None => None,
    }
}

/// Lower-case hexadecimal digit for a value below 16.
pub open spec fn hex_digit_lower(d: u8) -> char {
    seq!['0', '1', '2', '3', '4', '5', '6', '7', '8', '9', 'a', 'b', 'c', 'd', 'e', 'f'][d as int]
}

/// Each byte as two lower-case hexadecimal digits.
pub open spec fn hex_lower(bs: Seq<u8>) -> Seq<char>
    decreases bs.len(),
{
    if bs.len() == 0 {
        Seq::empty()
    } else {
        hex_lower(bs.drop_last()) + seq![hex_digit_lower(bs.last() / 16), hex_digit_lower(bs.last() % 16)]
    }
}

/// The URI text that addresses `ep` through the local socket at `path`.
pub open spec fn unix_uri_text(path: Seq<char>, ep: Seq<char>) -> Seq<char> {
    "unix://"@ + hex_lower(encode_utf8(path)) + ":0"@ + ep
}

#[derive(Debug, Clone)]
/// Where requests go: a TCP host, a TLS host, or a local domain socket. The clients that
/// carry the requests belong to the caller.
pub enum Transport {
    /// A network TCP interface, addressed by its URL.
    Tcp { host: String },
    /// TCP with TLS, addressed by its URL.
    EncryptedTcp { host: String },
    /// A local domain socket, addressed by its path.
    Unix { path: String },
}

impl Transport {
    /// The full request target for an endpoint.
    pub open spec fn target_text(&self, ep: Seq<char>) -> Seq<char> {
        match self {
            Transport::Tcp { host } => host@ + ep,
            Transport::EncryptedTcp { host } => host@ + ep,
            Transport::Unix { path } => unix_uri_text(path@, ep),
        }
    }

    /// The host URL or the socket path.
    pub fn remote_addr(&self) -> (r: &str)
        ensures
            r@ == match self {
                Transport::Tcp { host } => host@,
                Transport::EncryptedTcp { host } => host@,
                Transport::Unix { path } => path@,
            },
    {
        match self {
            Transport::Tcp { host } => host.as_str(),
            Transport::EncryptedTcp { host } => host.as_str(),
            Transport::Unix { path } => path.as_str(),
        }
    }

    /// The full request target for an endpoint, as text.
    pub fn request_target(&self, ep: &str) -> (r: String)
        ensures
            r@ == self.target_text(ep@),
    {
        match self {
            Transport::Tcp { host } => host.clone().concat(ep),
            Transport::EncryptedTcp { host } => host.clone().concat(ep),
            Transport::Unix { path } => {
                let mut r = String::from_str("unix://");
                let bytes = path.as_str().as_bytes();
                let mut i: usize = 0;
                while i < bytes.len()
                    invariant
                        i <= bytes@.len(),
                        bytes@ == encode_utf8(path@),
                        r@ == "unix://"@ + hex_lower(bytes@.subrange(0, i as int)),
                    decreases bytes@.len() - i,
                {
                    let b = bytes[i];
                    let hi = b / 16;
                    let lo = b % 16;
                    push_char(&mut r, hex_char(hi));
                    push_char(&mut r, hex_char(lo));
                    proof {
                        let pre = bytes@.subrange(0, i + 1 as int);
                        assert(pre.drop_last() =~= bytes@.subrange(0, i as int));
                    }
                    i += 1;
                }
                proof {
                    assert(bytes@.subrange(0, bytes@.len() as int) =~= bytes@);
                    reveal_strlit(":0");
                }
                r.append(":0");
                r.append(ep);
                r
            },
        }
    }

    /// The URI of an endpoint, or why it is none.
    pub fn make_uri(&self, ep: &str) -> (r: Result<http::Uri, Error>)
        ensures
            r is Ok == uri_accepts(self.target_text(ep@)),
            r is Err ==> r matches Err(Error::InvalidUri(_)),
    {
        let text = self.request_target(ep);
        match parse_uri(text.as_str()) {
            Ok(u) => match self {
                Transport::Unix { path } => Ok(unix_socket_uri(path.as_str(), ep)),
                _ => Ok(u),
            },
            Err(e) => Err(Error::InvalidUri(e)),
        }
    }
}

/// A lower-case hexadecimal digit.
fn hex_char(d: u8) -> (r: char)
    requires
        d < 16,
    ensures
        r == hex_digit_lower(d),
{
    if d < 10 {
        (('0' as u8) + d) as char
    } else {
        (('a' as u8) + (d - 10)) as char
    }
}

/// Whether a byte sequence ends with the two-byte terminator `\r\n`.
pub open spec fn ends_with_crlf(b: Seq<u8>) -> bool {
    b.len() >= 2 && b[b.len() - 2] == 0x0du8 && b[b.len() - 1] == 0x0au8
}

/// The frames of a JSON stream, from a buffer `acc` already accumulated and the chunks still
/// to come, and the buffer left over at the end.
///
/// Chunks accumulate until the buffer ends with `\r\n`; the buffer is then one frame and
/// starts over empty.
pub open spec fn json_split(acc: Seq<u8>, chunks: Seq<Seq<u8>>) -> (Seq<Seq<u8>>, Seq<u8>)
    decreases chunks.len(),
{
    if chunks.len() == 0 {
        (Seq::empty(), acc)
    } else {
        let b = acc + chunks[0];
        if ends_with_crlf(b) {
            let r = json_split(Seq::empty(), chunks.drop_first());
            (seq![b] + r.0, r.1)
        } else {
            json_split(b, chunks.drop_first())
        }
    }
}

/// All the chunks, one after the other.
pub open spec fn concat_all(chunks: Seq<Seq<u8>>) -> Seq<u8>
    decreases chunks.len(),
{
    if chunks.len() == 0 {
        Seq::empty()
    } else {
        chunks[0] + concat_all(chunks.drop_first())
    }
}

/// Accumulates the chunks of a newline-delimited JSON body into frames.
#[derive(Debug)]
pub struct JsonFrameDecoder {
    buf: Vec<u8>,
}

impl View for JsonFrameDecoder {
    type V = Seq<u8>;

    /// The bytes received since the last frame.
    closed spec fn view(&self) -> Seq<u8> {
        self.buf@
    }
}

impl JsonFrameDecoder {
    /// A decoder that has received nothing.
    pub fn new() -> (r: JsonFrameDecoder)
        ensures
            r@ == Seq::<u8>::empty(),
    {
        JsonFrameDecoder { buf: Vec::new() }
    }

    /// Takes the next chunk. When the bytes received since the last frame now end with
    /// `\r\n`, they are handed out as a frame and the decoder starts over empty.
    pub fn push_chunk(&mut self, chunk: &[u8]) -> (r: Option<Vec<u8>>)
        ensures
            ({
                let b = old(self)@ + chunk@;
                if ends_with_crlf(b) {
                    r matches Some(f) && f@ == b && final(self)@ == Seq::<u8>::empty()
                } else {
                    r is None && final(self)@ == b
                }
            }),
    {
        let ghost start = self.buf@;
        let mut i: usize = 0;
        while i < chunk.len()
            invariant
                i <= chunk@.len(),
                self.buf@ == start + chunk@.subrange(0, i as int),
            decreases chunk@.len() - i,
        {
            self.buf.push(chunk[i]);
            proof {
                assert(chunk@.subrange(0, i + 1 as int) =~= chunk@.subrange(0, i as int).push(
                    chunk@[i as int],
                ));
            }
            i += 1;
        }
        proof {
            assert(chunk@.subrange(0, chunk@.len() as int) =~= chunk@);
        }
        let n = self.buf.len();
        if n >= 2 && self.buf[n - 2] == 0x0du8 && self.buf[n - 1] == 0x0au8 {
            let frame = self.buf.split_off(0);
            Some(frame)
        } else {
            None
        }
    }
}

/// Splits a whole body, given as its chunks, into JSON frames. A trailing buffer that does
/// not end with `\r\n` is dropped: it never makes a frame.
pub fn json_frames(chunks: &[Vec<u8>]) -> (r: Vec<Vec<u8>>)
    ensures
        r@.map_values(|f: Vec<u8>| f@) == json_split(
            Seq::empty(),
            chunks@.map_values(|c: Vec<u8>| c@),
        ).0,
{
    let ghost all = chunks@.map_values(|c: Vec<u8>| c@);
    let mut dec = JsonFrameDecoder::new();
    let mut out: Vec<Vec<u8>> = Vec::new();
    let mut i: usize = 0;
    assert(all.subrange(0, all.len() as int) =~= all);
    while i < chunks.len()
        invariant
            i <= chunks@.len() == all.len(),
            all == chunks@.map_values(|c: Vec<u8>| c@),
            json_split(Seq::empty(), all).0 == out@.map_values(|f: Vec<u8>| f@) + json_split(
                dec@,
                all.subrange(i as int, all.len() as int),
            ).0,
        decreases chunks@.len() - i,
    {
        let ghost rest = all.subrange(i as int, all.len() as int);
        let ghost before = dec@;
        assert(rest.drop_first() =~= all.subrange(i + 1, all.len() as int));
        assert(rest[0] == chunks@[i as int]@);
        match dec.push_chunk(chunks[i].as_slice()) {
            Some(f) => {
                proof {
                    assert(out@.push(f).map_values(|f: Vec<u8>| f@) =~= out@.map_values(
                        |f: Vec<u8>| f@,
                    ).push(f@));
                    assert(out@.map_values(|f: Vec<u8>| f@) + json_split(before, rest).0
                        =~= out@.map_values(|f: Vec<u8>| f@).push(f@) + json_split(
                        dec@,
                        all.subrange(i + 1, all.len() as int),
                    ).0);
                }
                out.push(f);
            },
            None => {},
        }
        i += 1;
    }
    proof {
        assert(all.subrange(i as int, all.len() as int) =~= Seq::<Seq<u8>>::empty());
        assert(out@.map_values(|f: Vec<u8>| f@) + Seq::<Seq<u8>>::empty() =~= out@.map_values(
            |f: Vec<u8>| f@,
        ));
    }
    out
}

/// Nothing is lost or reordered by the splitter but the trailing buffer, and every frame
/// ends with `\r\n`: a body whose end is not terminated yields no frame for that end.
pub proof fn lemma_json_split(acc: Seq<u8>, chunks: Seq<Seq<u8>>)
    ensures
        concat_all(json_split(acc, chunks).0) + json_split(acc, chunks).1 == acc + concat_all(
            chunks,
        ),
        forall|i: int|
            0 <= i < json_split(acc, chunks).0.len() ==> ends_with_crlf(
                #[trigger] json_split(acc, chunks).0[i],
            ),
    decreases chunks.len(),
{
    if chunks.len() == 0 {
        assert(concat_all(Seq::<Seq<u8>>::empty()) =~= Seq::<u8>::empty());
        assert(acc + Seq::<u8>::empty() =~= acc);
    } else {
        let b = acc + chunks[0];
        let rest = chunks.drop_first();
        assert(concat_all(chunks) == chunks[0] + concat_all(rest));
        if ends_with_crlf(b) {
            lemma_json_split(Seq::empty(), rest);
            let r = json_split(Seq::empty(), rest);
            let fs = seq![b] + r.0;
            assert(fs.drop_first() =~= r.0);
            assert(concat_all(fs) == b + concat_all(r.0));
            assert(Seq::<u8>::empty() + concat_all(rest) =~= concat_all(rest));
            assert(b + concat_all(r.0) + r.1 =~= acc + (chunks[0] + concat_all(rest)));
            assert forall|i: int| 0 <= i < fs.len() implies ends_with_crlf(#[trigger] fs[i]) by {
                if i > 0 {
                    assert(fs[i] == r.0[i - 1]);
                }
            }
        } else {
            lemma_json_split(b, rest);
            assert(b + concat_all(rest) =~= acc + (chunks[0] + concat_all(rest)));
        }
    }
}

/// A request ready for the wire: method, target, ordered headers and an optional body.
#[derive(Debug)]
pub struct OutgoingRequest<B> {
    pub method: http::Method,
    pub uri: http::Uri,
    pub headers: Headers,
    pub body: Option<B>,
}

/// The headers of a built request: an empty `host` first, then the caller's headers, then
/// the content type of the payload, if it has one.
pub open spec fn request_headers(
    caller: Seq<(Seq<char>, Seq<char>)>,
    content_type: Option<Seq<char>>,
) -> Seq<(Seq<char>, Seq<char>)> {
    seq![("host"@, ""@)] + caller + match content_type {
        Some(c) => seq![("content-type"@, c)],
        None => Seq::empty(),
    }
}

/// The view of optional headers: none are no pairs.
pub open spec fn headers_view(h: Option<Headers>) -> Seq<(Seq<char>, Seq<char>)> {
    match h {
        Some(h) => h@,
        None => Seq::empty(),
    }
}

/// Builds a request. The content type comes from the payload variant alone, and a body is
/// attached exactly when the payload is not empty.
pub fn build_request<B>(
    method: http::Method,
    uri: http::Uri,
    body: Payload<B>,
    headers: Option<Headers>,
) -> (r: OutgoingRequest<B>)
    ensures
        r.method == method,
        r.uri == uri,
        r.headers@ == request_headers(headers_view(headers), body.content_type()),
        r.body == body.body(),
{
    let mut h = Headers::single("host", "");
    proof {
        reveal_strlit("host");
        reveal_strlit("");
    }
    match &headers {
        Some(extra) => h.extend(extra),
        None => {},
    }
    match body.mime_type() {
        Some(m) => {
            h.add("content-type", m);
        },
        None => {},
    }
    proof {
        assert(h@ =~= request_headers(headers_view(headers), body.content_type()));
    }
    OutgoingRequest { method, uri, headers: h, body: body.into_inner() }
}

/// Plans a request to an endpoint of a transport.
pub fn make_request<B>(
    transport: &Transport,
    method: http::Method,
    endpoint: &str,
    body: Payload<B>,
    headers: Option<Headers>,
) -> (r: Result<OutgoingRequest<B>, Error>)
    ensures
        r is Ok == uri_accepts(transport.target_text(endpoint@)),
        r is Err ==> r matches Err(Error::InvalidUri(_)),
        r matches Ok(q) ==> {
            &&& q.method == method
            &&& q.headers@ == request_headers(headers_view(headers), body.content_type())
            &&& q.body == body.body()
        },
{
    match transport.make_uri(endpoint) {
        Ok(uri) => Ok(build_request(method, uri, body, headers)),
        Err(e) => Err(e),
    }
}

/// The headers that ask the daemon to upgrade the connection to a raw stream.
pub fn upgrade_headers() -> (r: Headers)
    ensures
        r@ == seq![("connection"@, "Upgrade"@), ("upgrade"@, "tcp"@)],
{
    let mut h = Headers::single("connection", "Upgrade");
    h.add("upgrade", "tcp");
    h
}

/// Whether a status code counts as success: 200, 201, 101 or 204.
pub open spec fn is_success_status(code: u16) -> bool {
    code == 200 || code == 201 || code == 101 || code == 204
}

/// Whether a status code counts as success: 200, 201, 101 or 204.
pub fn is_success(code: u16) -> (r: bool)
    ensures
        r == is_success_status(code),
{
    code == 200 || code == 201 || code == 101 || code == 204
}

/// Classifies a response by its status: a success hands the body back untouched; any other
/// status hands it back to be drained into a fault.
pub fn classify<B>(code: u16, body: B) -> (r: std::result::Result<B, B>)
    ensures
        is_success_status(code) ==> r == Ok::<B, B>(body),
        !is_success_status(code) ==> r == Err::<B, B>(body),
{
    if is_success(code) {
        Ok(body)
    } else {
        Err(body)
    }
}

/// The message of a fault: the one the body gave, else the reason phrase of the status, else
/// a generic one.
pub open spec fn fault_text(parsed: Option<Seq<char>>, reason: Option<Seq<char>>) -> Seq<char> {
    match parsed {
        Some(m) => m,
        None => match reason {
            Some(p) => p,
            None => "unknown error code"@,
        },
    }
}

/// The message of a fault, from the message the body gave and the reason phrase of the
/// status.
pub fn fault_message(parsed: Option<String>, reason: Option<&str>) -> (r: String)
    ensures
        r@ == fault_text(opt_view(parsed), opt_str_view(reason)),
{
    match parsed {
        Some(m) => m,
        None => match reason {
            Some(p) => String::from_str(p),
            None => {
                proof {
                    reveal_strlit("unknown error code");
                }
                String::from_str("unknown error code")
            },
        },
    }
}

/// Whether `e` is the error that a drained body makes for a status: a fault with that code
/// and the resolved message where the body is UTF-8, an encoding error where it is not.
pub open spec fn is_fault_for(e: Error, code: u16, body: Seq<u8>) -> bool {
    if valid_utf8(body) {
        e matches Error::Fault { code: c, message: m } && c == code && m@ == fault_text(
            fault_message_of(decode_utf8(body)),
            reason_phrase_of(code),
        )
    } else {
        e is Encoding
    }
}

/// The error for a response whose status is not a success, from its whole body.
pub fn fault_from_body(code: u16, body: Vec<u8>) -> (r: Error)
    ensures
        is_fault_for(r, code, body@),
{
    match utf8_string(body) {
        Ok(text) => {
            let parsed = parse_fault_message(text.as_str());
            let reason = canonical_reason(code);
            Error::Fault { code, message: fault_message(parsed, reason) }
        },
        Err(e) => Error::Encoding(e),
    }
}

/// Classifies a response whose body has been read whole: a success returns the body
/// unchanged, any other status the fault the body makes.
pub fn classify_body(code: u16, body: Vec<u8>) -> (r: Result<Vec<u8>, Error>)
    ensures
        is_success_status(code) ==> (r matches Ok(b) && b@ == body@),
        !is_success_status(code) ==> (r matches Err(e) && is_fault_for(e, code, body@)),
{
    match classify(code, body) {
        Ok(b) => Ok(b),
        Err(b) => Err(fault_from_body(code, b)),
    }
}

/// Decides on the answer to an upgrade request: only 101 lets the connection become a raw
/// stream; any other status refuses the upgrade.
pub fn check_upgrade(code: u16) -> (r: Result<(), Error>)
    ensures
        r is Ok == (code == 101),
        r is Err ==> r matches Err(Error::ConnectionNotUpgraded),
{
    if code == 101 {
        Ok(())
    } else {
        Err(Error::ConnectionNotUpgraded)
    }
}

/// Plans the request of an upgrade: the caller's payload with the upgrade headers.
pub fn upgrade_request<B>(
    transport: &Transport,
    method: http::Method,
    endpoint: &str,
    body: Payload<B>,
) -> (r: Result<OutgoingRequest<B>, Error>)
    ensures
        r is Ok == uri_accepts(transport.target_text(endpoint@)),
        r is Err ==> r matches Err(Error::InvalidUri(_)),
        r matches Ok(q) ==> {
            &&& q.method == method
            &&& q.headers@ == request_headers(
                seq![("connection"@, "Upgrade"@), ("upgrade"@, "tcp"@)],
                body.content_type(),
            )
            &&& q.body == body.body()
        },
{
    let h = upgrade_headers();
    make_request(transport, method, endpoint, body, Some(h))
}

} // verus!
