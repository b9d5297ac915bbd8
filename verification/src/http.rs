//! What the signaling server answers to HTTP requests.
use hyper::header::HeaderValue;
use hyper::HeaderMap;
use vstd::prelude::*;
use vstd::string::*;

use crate::numbers::{append_decimal, decimal};
use crate::text::{
    chars_of, eq_ignore_ascii_case, lower, split, split_on, trim, trimmed,
};

verus! {

/// The address that the signaling server is bound to.
pub const TLS_BIND_IP: &'static str = "127.0.0.1";

/// The port of the signaling server.
pub const TLS_BIND_PORT: u16 = 8002;

/// The host that plain HTTP clients are sent to.
pub const REDIRECT_HOST: &'static str = "localhost";

/// What plain HTTP clients are told.
pub const REDIRECT_BODY: &'static str = "Redirecting to HTTPS\r\n";

/// The value of a header field.
#[verifier::external_type_specification]
#[verifier::external_body]
pub struct ExHeaderValue(HeaderValue);

/// The header fields of a request.
#[verifier::external_type_specification]
#[verifier::external_body]
#[verifier::reject_recursive_types(T)]
pub struct ExHeaderMap<T>(HeaderMap<T>);

/// The first value of each header field of a request, by the field's name in lower case.
pub uninterp spec fn first_values(headers: HeaderMap) -> Map<Seq<char>, Seq<u8>>;

/// The value that belongs to a key in the handshake of a WebSocket.
pub uninterp spec fn accept_key(key: Seq<u8>) -> Seq<char>;

/// `hyper::HeaderMap::get` finds the first value of a field, whose name is given in lower case.
#[verifier::external_body]
fn header_value(headers: &HeaderMap, name: &str) -> (value: Option<Vec<u8>>)
    requires
        lower(name@) == name@,
    ensures
        match value {
            Some(v) => first_values(*headers).dom().contains(name@) && v@ == first_values(
                *headers,
            )[name@],
            None => !first_values(*headers).dom().contains(name@),
        },
{
    headers.get(name).map(|value| value.as_bytes().to_vec())
}

/// `tungstenite::handshake::derive_accept_key` depends on the key alone.
#[verifier::external_body]
fn derive_accept_key(key: &[u8]) -> (accept: String)
    ensures
        accept@ == accept_key(key@),
{
    tungstenite::handshake::derive_accept_key(key)
}

/// A response: its status, its header fields in order, and its body.
pub struct HttpReply {
    pub status: u16,
    pub headers: Vec<(String, String)>,
    pub body: String,
}

/// A response with its parts as texts.
pub struct ReplyView {
    pub status: u16,
    pub headers: Seq<(Seq<char>, Seq<char>)>,
    pub body: Seq<char>,
}

impl View for HttpReply {
    type V = ReplyView;

    open spec fn view(&self) -> ReplyView {
        ReplyView {
            status: self.status,
            headers: Seq::new(
                self.headers@.len(),
                |i: int| (self.headers@[i].0@, self.headers@[i].1@),
            ),
            body: self.body@,
        }
    }
}

/// The answer to a request that asks for no WebSocket.
pub open spec fn index_reply() -> ReplyView {
    ReplyView {
        status: 200,
        headers: seq![
            ("Content-Type"@, "text/plain; charset=utf-8"@),
            ("Connection"@, "close"@),
        ],
        body: "WebRTC Signaling Server - Use WebSocket connection for signaling"@,
    }
}

/// The answer to a request that asks for a WebSocket and lacks its key.
pub open spec fn missing_key_reply() -> ReplyView {
    ReplyView { status: 400, headers: seq![], body: "Missing Sec-WebSocket-Key header"@ }
}

/// The answer that switches to a WebSocket.
pub open spec fn switching_reply(accept: Seq<char>) -> ReplyView {
    ReplyView {
        status: 101,
        headers: seq![
            ("connection"@, "Upgrade"@),
            ("upgrade"@, "websocket"@),
            ("sec-websocket-accept"@, accept),
        ],
        body: seq![],
    }
}

/// Whether a byte can stand in the text of a header field: a visible ASCII
/// character, a space or a tab.
pub open spec fn is_field_byte(b: u8) -> bool {
    32 <= b < 127 || b == 9
}

/// The text of a header field, where it is one.
pub open spec fn field_text(value: Seq<u8>) -> Option<Seq<char>> {
    if forall|i: int| 0 <= i < value.len() ==> is_field_byte(#[trigger] value[i]) {
        Some(Seq::new(value.len(), |i: int| value[i] as char))
    } else {
        None
    }
}

/// Whether one of the items of a list with commas is `token`, in any case.
pub open spec fn lists(list: Seq<char>, token: Seq<char>) -> bool {
    exists|k: int|
        0 <= k < split(list, ',').len() && lower(trim(#[trigger] split(list, ',')[k])) == lower(
            token,
        )
}

/// Whether the header fields ask that the connection be upgraded.
pub open spec fn asks_upgrade(values: Map<Seq<char>, Seq<u8>>) -> bool {
    &&& values.dom().contains("connection"@)
    &&& field_text(values["connection"@]) matches Some(list)
    &&& lists(list, "upgrade"@)
}

/// Whether a request asks for a WebSocket: it is a GET whose header fields ask
/// for an upgrade to a WebSocket and hold a key.
pub open spec fn asks_websocket(method: Seq<char>, values: Map<Seq<char>, Seq<u8>>) -> bool {
    &&& method == "GET"@
    &&& asks_upgrade(values)
    &&& values.dom().contains("upgrade"@)
    &&& (field_text(values["upgrade"@]) matches Some(protocol) && lower(protocol) == lower(
        "websocket"@,
    ))
    &&& values.dom().contains("sec-websocket-key"@)
}

/// The text of a header field, where it is one.
fn read_field(value: &Vec<u8>) -> (text: Option<Vec<char>>)
    ensures
        match text {
            Some(t) => field_text(value@) == Some(t@),
            None => field_text(value@) is None,
        },
{
    let mut text: Vec<char> = Vec::new();
    let mut i: usize = 0;
    while i < value.len()
        invariant
            i <= value@.len(),
            forall|j: int| 0 <= j < i ==> is_field_byte(#[trigger] value@[j]),
            text@ == Seq::new(i as nat, |j: int| value@[j] as char),
        decreases value@.len() - i,
    {
        let b: u8 = value[i];
        if !((32 <= b && b < 127) || b == 9) {
            assert(!is_field_byte(value@[i as int]));
            return None;
        }
        text.push(b as char);
        i = i + 1;
    }
    Some(text)
}

/// Whether the header fields of a request ask that the connection be upgraded.
pub fn connection_header_contains_upgrade(headers: &HeaderMap) -> (yes: bool)
    ensures
        yes == asks_upgrade(first_values(*headers)),
{
    proof {
        reveal_strlit("connection");
        assert(lower("connection"@) == "connection"@);
    }
    let value = match header_value(headers, "connection") {
        Some(value) => value,
        None => {
            return false;
        },
    };
    let list = match read_field(&value) {
        Some(list) => list,
        None => {
            return false;
        },
    };
    let items = split_on(list.as_slice(), ',');
    let ghost shown = split(list@, ',');
    let token = chars_of("upgrade");
    let mut i: usize = 0;
    while i < items.len()
        invariant
            i <= items@.len(),
            first_values(*headers).dom().contains("connection"@),
            field_text(first_values(*headers)["connection"@]) == Some(list@),
            token@ == "upgrade"@,
            shown == split(list@, ','),
            crate::text::texts(items@) == shown,
            forall|k: int| 0 <= k < i ==> lower(trim(#[trigger] shown[k])) != lower("upgrade"@),
        decreases items@.len() - i,
    {
        assert(shown[i as int] == items@[i as int]@);
        if eq_ignore_ascii_case(trimmed(items[i]), token.as_slice()) {
            return true;
        }
        i = i + 1;
    }
    false
}

/// Whether a request asks for a WebSocket.
pub fn is_websocket_upgrade(method: &str, headers: &HeaderMap) -> (yes: bool)
    ensures
        yes == asks_websocket(method@, first_values(*headers)),
{
    proof {
        reveal_strlit("upgrade");
        reveal_strlit("sec-websocket-key");
        assert(lower("upgrade"@) == "upgrade"@);
        assert(lower("sec-websocket-key"@) == "sec-websocket-key"@);
    }
    if method.to_owned() != "GET".to_owned() {
        return false;
    }
    if !connection_header_contains_upgrade(headers) {
        return false;
    }
    let value = match header_value(headers, "upgrade") {
        Some(value) => value,
        None => {
            return false;
        },
    };
    let protocol = match read_field(&value) {
        Some(protocol) => protocol,
        None => {
            return false;
        },
    };
    eq_ignore_ascii_case(protocol.as_slice(), chars_of("websocket").as_slice()) && header_value(
        headers,
        "sec-websocket-key",
    ).is_some()
}

fn header(name: &str, value: &str) -> (field: (String, String))
    ensures
        field.0@ == name@,
        field.1@ == value@,
{
    (name.to_owned(), value.to_owned())
}

/// The answer to a request that asks for a WebSocket, given the value that
/// belongs to its key, if it has one.
pub fn reply_to_upgrade(accept: Option<String>) -> (reply: HttpReply)
    ensures
        reply@ == (match accept {
            Some(value) => switching_reply(value@),
            None => missing_key_reply(),
        }),
{
    match accept {
        Some(value) => {
            let reply = HttpReply {
                status: 101,
                headers: vec![
                    header("connection", "Upgrade"),
                    header("upgrade", "websocket"),
                    header("sec-websocket-accept", value.as_str()),
                ],
                body: String::new(),
            };
            assert(reply@.headers == switching_reply(value@).headers);
            reply
        },
        None => {
            let reply = HttpReply {
                status: 400,
                headers: Vec::new(),
                body: "Missing Sec-WebSocket-Key header".to_owned(),
            };
            assert(reply@.headers == missing_key_reply().headers);
            reply
        },
    }
}

/// The answer to a request. One that asks for a WebSocket gets it, and has a
/// key to get it with; any other is told what the server is for.
pub fn handle_http(method: &str, headers: &HeaderMap) -> (reply: HttpReply)
    ensures
        reply@ == if asks_websocket(method@, first_values(*headers)) {
            switching_reply(accept_key(first_values(*headers)["sec-websocket-key"@]))
        } else {
            index_reply()
        },
{
    if !is_websocket_upgrade(method, headers) {
        let reply = HttpReply {
            status: 200,
            headers: vec![
                header("Content-Type", "text/plain; charset=utf-8"),
                header("Connection", "close"),
            ],
            body: "WebRTC Signaling Server - Use WebSocket connection for signaling".to_owned(),
        };
        assert(reply@.headers == index_reply().headers);
        return reply;
    }
    proof {
        reveal_strlit("sec-websocket-key");
        assert(lower("sec-websocket-key"@) == "sec-websocket-key"@);
    }
    let accept = match header_value(headers, "sec-websocket-key") {
        Some(key) => Some(derive_accept_key(key.as_slice())),
        None => None,
    };
    reply_to_upgrade(accept)
}

/// Whether what a client sends first is plain HTTP, and not the start of TLS:
/// its first byte is a letter.
pub fn is_plain_http(first: Option<u8>) -> (yes: bool)
    ensures
        yes == (first matches Some(b) && (65 <= b <= 90 || 97 <= b <= 122)),
{
    match first {
        Some(b) => (65 <= b && b <= 90) || (97 <= b && b <= 122),
        None => false,
    }
}

/// The head of the response that sends a client to the same server over TLS.
pub open spec fn redirect_head_text(host: Seq<char>, port: nat, length: nat) -> Seq<char> {
    "HTTP/1.1 302 Found\r\nLocation: https://"@ + host + ":"@ + decimal(port)
        + "/\r\nContent-Type: text/plain; charset=utf-8\r\nContent-Length: "@ + decimal(length)
        + "\r\nConnection: close\r\n\r\n"@
}

/// The head of the response that sends a client to the same server over TLS,
/// for a body that follows it.
pub fn redirect_head(host: &str, port: u16, body: &str) -> (head: String)
    ensures
        head@ == redirect_head_text(host@, port as nat, body.spec_bytes().len()),
{
    let mut head = "HTTP/1.1 302 Found\r\nLocation: https://".to_owned();
    head.append(host);
    head.append(":");
    append_decimal(&mut head, port as u64);
    head.append("/\r\nContent-Type: text/plain; charset=utf-8\r\nContent-Length: ");
    append_decimal(&mut head, body.as_bytes().len() as u64);
    head.append("\r\nConnection: close\r\n\r\n");
    head
}

/// The whole response that sends a plain HTTP client to the signaling server over TLS.
pub fn http_redirect() -> (response: String)
    ensures
        response@ == redirect_head_text("localhost"@, 8002, 22) + "Redirecting to HTTPS\r\n"@,
{
    proof {
        reveal_strlit("Redirecting to HTTPS\r\n");
        vstd::utf8::is_ascii_chars_encode_utf8("Redirecting to HTTPS\r\n"@);
    }
    let mut response = redirect_head(REDIRECT_HOST, TLS_BIND_PORT, REDIRECT_BODY);
    response.append(REDIRECT_BODY);
    response
}

/// Whether bytes are a word in small letters, but for the case of its letters.
pub open spec fn spells(bytes: Seq<u8>, word: Seq<u8>) -> bool {
    &&& bytes.len() == word.len()
    &&& forall|i: int|
        0 <= i < word.len() ==> {
            ||| #[trigger] bytes[i] == word[i]
            ||| 97 <= word[i] <= 122 && bytes[i] + 32 == word[i]
        }
}

/// The bytes of `upgrade`.
pub open spec fn upgrade_bytes() -> Seq<u8> {
    seq![117u8, 112, 103, 114, 97, 100, 101]
}

/// The bytes of `websocket`.
pub open spec fn websocket_bytes() -> Seq<u8> {
    seq![119u8, 101, 98, 115, 111, 99, 107, 101, 116]
}

/// Whether bytes are spaces and tabs.
pub open spec fn is_blank(bytes: Seq<u8>) -> bool {
    forall|i: int| 0 <= i < bytes.len() ==> #[trigger] bytes[i] == 32 || bytes[i] == 9
}

spec fn as_chars(bytes: Seq<u8>) -> Seq<char> {
    Seq::new(bytes.len(), |i: int| bytes[i] as char)
}

proof fn lemma_spelled(bytes: Seq<u8>, word: Seq<u8>, text: Seq<char>)
    requires
        text == as_chars(word),
        forall|i: int| 0 <= i < word.len() ==> 97 <= #[trigger] word[i] <= 122,
    ensures
        spells(bytes, word) <==> lower(as_chars(bytes)) == lower(text),
        spells(bytes, word) ==> forall|i: int|
            0 <= i < bytes.len() ==> 65 <= #[trigger] bytes[i] <= 122,
{
    let chars = as_chars(bytes);
    crate::text::lemma_same_but_for_case(chars, text);
    if spells(bytes, word) {
        assert forall|i: int| 0 <= i < chars.len() implies {
            ||| #[trigger] chars[i] == text[i]
            ||| 65 <= chars[i] as int <= 90 && text[i] as int == chars[i] as int + 32
            ||| 65 <= text[i] as int <= 90 && chars[i] as int == text[i] as int + 32
        } by {
            assert(bytes[i] == word[i] || 97 <= word[i] <= 122 && bytes[i] + 32 == word[i]);
        }
        assert forall|i: int| 0 <= i < bytes.len() implies 65 <= #[trigger] bytes[i] <= 122 by {
            assert(97 <= word[i] <= 122);
        }
    }
    if lower(chars) == lower(text) {
        assert forall|i: int| 0 <= i < word.len() implies {
            ||| #[trigger] bytes[i] == word[i]
            ||| 97 <= word[i] <= 122 && bytes[i] + 32 == word[i]
        } by {
            assert(97 <= word[i] <= 122);
            assert(chars[i] == bytes[i] as char);
            assert(text[i] == word[i] as char);
        }
    }
}

proof fn lemma_words_spelled()
    ensures
        "upgrade"@ == as_chars(upgrade_bytes()),
        "websocket"@ == as_chars(websocket_bytes()),
{
    reveal_strlit("upgrade");
    reveal_strlit("websocket");
    assert("upgrade"@ =~= as_chars(upgrade_bytes()));
    assert("websocket"@ =~= as_chars(websocket_bytes()));
}

proof fn lemma_listed(
    value: Seq<u8>,
    before: Seq<u8>,
    left: Seq<u8>,
    token: Seq<u8>,
    right: Seq<u8>,
    after: Seq<u8>,
)
    requires
        value == before + left + token + right + after,
        before.len() == 0 || before.last() == 44,
        after.len() == 0 || after[0] == 44,
        is_blank(left),
        is_blank(right),
        spells(token, upgrade_bytes()),
    ensures
        lists(as_chars(value), "upgrade"@),
{
    lemma_words_spelled();
    lemma_spelled(token, upgrade_bytes(), "upgrade"@);
    let (b, l, t, r, a) = (
        as_chars(before),
        as_chars(left),
        as_chars(token),
        as_chars(right),
        as_chars(after),
    );
    let part = l + t + r;
    assert forall|i: int| 0 <= i < l.len() implies crate::text::is_space(l[i]) by {
        assert(left[i] == 32 || left[i] == 9);
    }
    assert forall|i: int| 0 <= i < r.len() implies crate::text::is_space(r[i]) by {
        assert(right[i] == 32 || right[i] == 9);
    }
    assert forall|i: int| 0 <= i < t.len() implies !crate::text::is_space(t[i]) && t[i] != ',' by {
        assert(65 <= token[i] <= 122);
    }
    crate::text::lemma_trim(l, t, r);
    assert forall|i: int| 0 <= i < part.len() implies part[i] != ',' by {
        if i < l.len() {
            assert(part[i] == l[i]);
        } else if i < l.len() + t.len() {
            assert(part[i] == t[i - l.len()]);
        } else {
            assert(part[i] == r[i - l.len() - t.len()]);
        }
    }
    assert(as_chars(value) =~= b + part + a);
    let k = crate::text::lemma_between_separators(b, part, a, ',');
    assert(lower(trim(split(as_chars(value), ',')[k])) == lower("upgrade"@));
}

/// A GET request whose connection field lists `upgrade`, in any case and with
/// blanks around it, whose upgrade field is `websocket`, in any case, and that
/// has a key, is switched to a WebSocket with the value that belongs to the key.
pub proof fn lemma_websocket_is_granted(
    method: &str,
    headers: &HeaderMap,
    reply: HttpReply,
    before: Seq<u8>,
    left: Seq<u8>,
    token: Seq<u8>,
    right: Seq<u8>,
    after: Seq<u8>,
)
    requires
        call_ensures(handle_http, (method, headers), reply),
        method@ == seq!['G', 'E', 'T'],
        first_values(*headers).dom().contains("connection"@),
        first_values(*headers).dom().contains("upgrade"@),
        first_values(*headers).dom().contains("sec-websocket-key"@),
        first_values(*headers)["connection"@] == before + left + token + right + after,
        forall|i: int|
            0 <= i < first_values(*headers)["connection"@].len() ==> {
                ||| 32 <= #[trigger] first_values(*headers)["connection"@][i] < 127
                ||| first_values(*headers)["connection"@][i] == 9
            },
        before.len() == 0 || before.last() == 44,
        after.len() == 0 || after[0] == 44,
        is_blank(left),
        is_blank(right),
        spells(token, upgrade_bytes()),
        spells(first_values(*headers)["upgrade"@], websocket_bytes()),
    ensures
        reply.status == 101,
        reply.headers@.len() == 3,
        reply.headers@[0].0@ == "connection"@,
        reply.headers@[0].1@ == "Upgrade"@,
        reply.headers@[1].0@ == "upgrade"@,
        reply.headers@[1].1@ == "websocket"@,
        reply.headers@[2].0@ == "sec-websocket-accept"@,
        reply.headers@[2].1@ == accept_key(first_values(*headers)["sec-websocket-key"@]),
        reply.body@.len() == 0,
{
    let values = first_values(*headers);
    reveal_strlit("GET");
    assert("GET"@ =~= seq!['G', 'E', 'T']);
    lemma_words_spelled();
    lemma_listed(values["connection"@], before, left, token, right, after);
    let upgrade = values["upgrade"@];
    lemma_spelled(upgrade, websocket_bytes(), "websocket"@);
    assert forall|i: int| 0 <= i < upgrade.len() implies is_field_byte(#[trigger] upgrade[i]) by {
        assert(65 <= upgrade[i] <= 122);
    }
    assert(field_text(upgrade) == Some(as_chars(upgrade)));
    assert(field_text(values["connection"@]) == Some(as_chars(values["connection"@])));
    assert(asks_websocket(method@, values));
    lemma_reply_fields(reply);
}

proof fn lemma_reply_fields(reply: HttpReply)
    ensures
        reply@.headers.len() == reply.headers@.len(),
        forall|i: int|
            0 <= i < reply.headers@.len() ==> (#[trigger] reply@.headers[i]) == (
            reply.headers@[i].0@,
            reply.headers@[i].1@,
            ),
{
}

/// A request that is switched to a WebSocket is a GET whose connection field
/// lists `upgrade`, whose upgrade field is `websocket`, but for their case, and
/// that has a key. Any other is told what the server is for.
pub proof fn lemma_only_websockets_are_granted(
    method: &str,
    headers: &HeaderMap,
    reply: HttpReply,
) -> (list: (Seq<u8>, Seq<u8>, Seq<u8>, Seq<u8>, Seq<u8>))
    requires
        call_ensures(handle_http, (method, headers), reply),
    ensures
        reply.status == 101 || {
            &&& reply.status == 200
            &&& reply.headers@.len() == 2
            &&& reply.headers@[0].0@ == "Content-Type"@
            &&& reply.headers@[0].1@ == "text/plain; charset=utf-8"@
            &&& reply.headers@[1].0@ == "Connection"@
            &&& reply.headers@[1].1@ == "close"@
            &&& reply.body@ == "WebRTC Signaling Server - Use WebSocket connection for signaling"@
        },
        reply.status == 101 ==> {
            &&& method@ == seq!['G', 'E', 'T']
            &&& first_values(*headers).dom().contains("sec-websocket-key"@)
            &&& first_values(*headers).dom().contains("upgrade"@)
            &&& spells(first_values(*headers)["upgrade"@], websocket_bytes())
            &&& first_values(*headers).dom().contains("connection"@)
            &&& first_values(*headers)["connection"@] == list.0 + list.1 + list.2 + list.3 + list.4
            &&& list.0.len() == 0 || list.0.last() == 44
            &&& is_blank(list.1)
            &&& spells(list.2, upgrade_bytes())
            &&& is_blank(list.3)
            &&& list.4.len() == 0 || list.4[0] == 44
            &&& forall|i: int|
                0 <= i < first_values(*headers)["connection"@].len() ==> {
                    ||| 32 <= #[trigger] first_values(*headers)["connection"@][i] < 127
                    ||| first_values(*headers)["connection"@][i] == 9
                }
        },
{
    let values = first_values(*headers);
    lemma_reply_fields(reply);
    if reply.status == 101 {
        assert(asks_websocket(method@, values));
        reveal_strlit("GET");
        assert("GET"@ =~= seq!['G', 'E', 'T']);
        lemma_words_spelled();
        lemma_spelled(values["upgrade"@], websocket_bytes(), "websocket"@);
        assert(field_text(values["upgrade"@]) == Some(as_chars(values["upgrade"@])));
        let value = values["connection"@];
        let text = as_chars(value);
        assert(field_text(value) == Some(text));
        assert forall|i: int| 0 <= i < value.len() implies 32 <= #[trigger] value[i] < 127
            || value[i] == 9 by {
            assert(is_field_byte(value[i]));
        }
        let k = choose|k: int|
            0 <= k < split(text, ',').len() && lower(trim(#[trigger] split(text, ',')[k])) == lower(
                "upgrade"@,
            );
        let part = split(text, ',')[k];
        let (x, y) = crate::text::lemma_part_of_split(text, ',', k);
        let (l, r) = crate::text::lemma_trim_parts(part);
        let token = trim(part);
        let at = x.len() as int;
        let from = at + l.len();
        let to = from + token.len();
        let end = to + r.len();
        assert(text == x + (l + token + r) + y);
        let cut = (
            value.take(at),
            value.subrange(at, from),
            value.subrange(from, to),
            value.subrange(to, end),
            value.skip(end),
        );
        assert(value =~= cut.0 + cut.1 + cut.2 + cut.3 + cut.4);
        assert(as_chars(cut.2) =~= token) by {
            assert forall|i: int| 0 <= i < token.len() implies as_chars(cut.2)[i] == token[i] by {
                assert(text[from + i] == token[i]);
            }
        }
        lemma_spelled(cut.2, upgrade_bytes(), "upgrade"@);
        assert(is_blank(cut.1)) by {
            assert forall|i: int| 0 <= i < cut.1.len() implies #[trigger] cut.1[i] == 32 || cut.1[i]
                == 9 by {
                assert(text[at + i] == l[i]);
                assert(is_field_byte(value[at + i]));
            }
        }
        assert(is_blank(cut.3)) by {
            assert forall|i: int| 0 <= i < cut.3.len() implies #[trigger] cut.3[i] == 32 || cut.3[i]
                == 9 by {
                assert(text[to + i] == r[i]);
                assert(is_field_byte(value[to + i]));
            }
        }
        if at > 0 {
            assert(text[at - 1] == x.last());
        }
        if end < value.len() {
            assert(text[end] == y[0]);
        }
        cut
    } else {
        (seq![], seq![], seq![], seq![], seq![])
    }
}

/// Whether a request is switched to a WebSocket does not change when letters
/// of its upgrade field change case.
pub proof fn lemma_case_does_not_matter(
    method: &str,
    headers: &HeaderMap,
    reply: HttpReply,
    other_headers: &HeaderMap,
    other_reply: HttpReply,
)
    requires
        call_ensures(handle_http, (method, headers), reply),
        call_ensures(handle_http, (method, other_headers), other_reply),
        first_values(*headers).dom() == first_values(*other_headers).dom(),
        first_values(*headers).dom().contains("upgrade"@),
        first_values(*headers)["connection"@] == first_values(*other_headers)["connection"@],
        first_values(*headers)["upgrade"@].len() == first_values(*other_headers)["upgrade"@].len(),
        forall|i: int|
            0 <= i < first_values(*headers)["upgrade"@].len() ==> {
                let a = #[trigger] first_values(*headers)["upgrade"@][i];
                let b = first_values(*other_headers)["upgrade"@][i];
                ||| a == b
                ||| 65 <= a <= 90 && b == a + 32
                ||| 97 <= a <= 122 && a == b + 32
            },
    ensures
        reply.status == other_reply.status,
{
    let a = first_values(*headers)["upgrade"@];
    let b = first_values(*other_headers)["upgrade"@];
    crate::text::lemma_same_but_for_case(as_chars(a), as_chars(b));
    assert forall|i: int| 0 <= i < as_chars(a).len() implies {
        let x = #[trigger] as_chars(a)[i];
        let y = as_chars(b)[i];
        ||| x == y
        ||| 65 <= x as int <= 90 && y as int == x as int + 32
        ||| 65 <= y as int <= 90 && x as int == y as int + 32
    } by {
        assert(a[i] == b[i] || 65 <= a[i] <= 90 && b[i] == a[i] + 32 || 97 <= a[i] <= 122 && a[i]
            == b[i] + 32);
    }
    assert((field_text(a) is Some) == (field_text(b) is Some)) by {
        assert forall|i: int| 0 <= i < a.len() implies #[trigger] is_field_byte(a[i])
            == is_field_byte(b[i]) by {
            assert(a[i] == b[i] || 65 <= a[i] <= 90 && b[i] == a[i] + 32 || 97 <= a[i] <= 122
                && a[i] == b[i] + 32);
        }
        if field_text(a) is Some {
            assert forall|i: int| 0 <= i < b.len() implies is_field_byte(#[trigger] b[i]) by {
                assert(is_field_byte(a[i]));
            }
        }
        if field_text(b) is Some {
            assert forall|i: int| 0 <= i < a.len() implies is_field_byte(#[trigger] a[i]) by {
                assert(is_field_byte(b[i]) == is_field_byte(a[i]));
            }
        }
    }
}

/// Plain HTTP begins with a letter, and nothing else does.
pub proof fn lemma_plain_http(first: Option<u8>, yes: bool)
    requires
        call_ensures(is_plain_http, (first,), yes),
    ensures
        first is None ==> !yes,
        first is Some ==> (yes <==> 65 <= first->0 <= 90 || 97 <= first->0 <= 122),
{
}

/// A client is sent on by a status line of 302, to the host and port over TLS,
/// and is told how many bytes the body takes. The head ends in an empty line.
pub proof fn lemma_redirect(host: &str, port: u16, body: &str, head: String)
    requires
        call_ensures(redirect_head, (host, port, body), head),
    ensures
        head@ == "HTTP/1.1 302 Found\r\n"@ + "Location: https://"@ + host@ + ":"@ + decimal(
            port as nat,
        ) + "/\r\n"@ + "Content-Type: text/plain; charset=utf-8\r\n"@ + "Content-Length: "@
            + decimal(body.spec_bytes().len()) + "\r\n"@ + "Connection: close\r\n"@ + "\r\n"@,
{
    reveal_strlit("HTTP/1.1 302 Found\r\n");
    reveal_strlit("Location: https://");
    reveal_strlit("/\r\n");
    reveal_strlit("Content-Type: text/plain; charset=utf-8\r\n");
    reveal_strlit("Content-Length: ");
    reveal_strlit("\r\n");
    reveal_strlit("Connection: close\r\n");
    reveal_strlit("HTTP/1.1 302 Found\r\nLocation: https://");
    reveal_strlit("/\r\nContent-Type: text/plain; charset=utf-8\r\nContent-Length: ");
    reveal_strlit("\r\nConnection: close\r\n\r\n");
    assert("HTTP/1.1 302 Found\r\nLocation: https://"@ =~= "HTTP/1.1 302 Found\r\n"@
        + "Location: https://"@);
    assert("/\r\nContent-Type: text/plain; charset=utf-8\r\nContent-Length: "@ =~= "/\r\n"@
        + "Content-Type: text/plain; charset=utf-8\r\n"@ + "Content-Length: "@);
    assert("\r\nConnection: close\r\n\r\n"@ =~= "\r\n"@ + "Connection: close\r\n"@ + "\r\n"@);
    assert(head@ =~= "HTTP/1.1 302 Found\r\n"@ + "Location: https://"@ + host@ + ":"@ + decimal(
        port as nat,
    ) + "/\r\n"@ + "Content-Type: text/plain; charset=utf-8\r\n"@ + "Content-Length: "@ + decimal(
        body.spec_bytes().len(),
    ) + "\r\n"@ + "Connection: close\r\n"@ + "\r\n"@);
}

/// A request is switched to a WebSocket if and only if it asks for one, for
/// which its connection field has to ask for an upgrade.
pub proof fn lemma_asking_is_enough(
    method: &str,
    headers: &HeaderMap,
    asks: bool,
    upgrades: bool,
    reply: HttpReply,
)
    requires
        call_ensures(is_websocket_upgrade, (method, headers), asks),
        call_ensures(connection_header_contains_upgrade, (headers,), upgrades),
        call_ensures(handle_http, (method, headers), reply),
    ensures
        asks <==> reply.status == 101,
        asks ==> upgrades,
{
}

/// Whoever asks to have the connection upgraded says so in the list of the
/// connection field, and whoever says so there asks for it.
pub proof fn lemma_upgrades_are_listed(
    headers: &HeaderMap,
    yes: bool,
    before: Seq<u8>,
    left: Seq<u8>,
    token: Seq<u8>,
    right: Seq<u8>,
    after: Seq<u8>,
)
    requires
        call_ensures(connection_header_contains_upgrade, (headers,), yes),
        first_values(*headers).dom().contains("connection"@),
        first_values(*headers)["connection"@] == before + left + token + right + after,
        forall|i: int|
            0 <= i < first_values(*headers)["connection"@].len() ==> {
                ||| 32 <= #[trigger] first_values(*headers)["connection"@][i] < 127
                ||| first_values(*headers)["connection"@][i] == 9
            },
        before.len() == 0 || before.last() == 44,
        after.len() == 0 || after[0] == 44,
        is_blank(left),
        is_blank(right),
        spells(token, upgrade_bytes()),
    ensures
        yes,
{
    let value = first_values(*headers)["connection"@];
    lemma_listed(value, before, left, token, right, after);
    assert(field_text(value) == Some(as_chars(value)));
}

/// A request with a key is switched with the value that belongs to it; one
/// without is refused as a bad request.
pub proof fn lemma_replies_to_upgrades(accept: Option<String>, reply: HttpReply)
    requires
        call_ensures(reply_to_upgrade, (accept,), reply),
    ensures
        accept is Some ==> {
            &&& reply.status == 101
            &&& reply.headers@.len() == 3
            &&& reply.headers@[2].0@ == "sec-websocket-accept"@
            &&& reply.headers@[2].1@ == accept->0@
        },
        accept is None ==> {
            &&& reply.status == 400
            &&& reply.headers@.len() == 0
            &&& reply.body@ == "Missing Sec-WebSocket-Key header"@
        },
{
    lemma_reply_fields(reply);
}

/// The signaling server is bound to 127.0.0.1 and reached at `localhost`.
pub proof fn lemma_where_the_server_is()
    ensures
        TLS_BIND_IP@ == seq!['1', '2', '7', '.', '0', '.', '0', '.', '1'],
        REDIRECT_HOST@ == seq!['l', 'o', 'c', 'a', 'l', 'h', 'o', 's', 't'],
        TLS_BIND_PORT == 8002,
{
    reveal_strlit("127.0.0.1");
    reveal_strlit("localhost");
}

/// Plain requests are sent on to the encrypted server of this machine: the
/// response has the head of such a redirect and then its body.
pub proof fn lemma_redirects(response: String, host: &str, port: u16, body: &str, head: String)
    requires
        call_ensures(http_redirect, (), response),
        call_ensures(redirect_head, (host, port, body), head),
        host@ == "localhost"@,
        port == 8002,
        body@ == "Redirecting to HTTPS\r\n"@,
    ensures
        response@ == head@ + body@,
{
    reveal_strlit("Redirecting to HTTPS\r\n");
    vstd::utf8::is_ascii_chars_encode_utf8("Redirecting to HTTPS\r\n"@);
}

} // verus!
