//! The headers of requests and responses.
use vstd::prelude::*;

use ntex::http::header::{HeaderMap, HeaderName, HeaderValue};

use crate::key_text::{key_text, parse_key};

verus! {

/// The header that carries the key of a frame.
pub const KEY_HEADER: &'static str = "x-key";

/// The header that says which origins may read a response.
pub const ALLOW_ORIGIN: &'static str = "access-control-allow-origin";

/// The header that says which headers a request may carry.
pub const ALLOW_HEADERS: &'static str = "access-control-allow-headers";

/// The header that says which methods a request may use.
pub const ALLOW_METHODS: &'static str = "access-control-allow-methods";

/// The header that says for how many seconds the answers to a preflight request
/// hold.
pub const MAX_AGE: &'static str = "access-control-max-age";

/// The header that says which headers of a response scripts may read.
pub const EXPOSE_HEADERS: &'static str = "access-control-expose-headers";

/// Any origin is allowed: clients send their tokens in headers and use no
/// cookies.
pub const ALLOWED_ORIGIN: &'static str = "*";

/// The headers that clients send.
pub const ALLOWED_HEADERS: &'static str = "x-key, X-Session-Token, X-Team-Token, content-type";

/// The methods that clients use.
pub const ALLOWED_METHODS: &'static str = "GET, POST, PUT, DELETE, OPTIONS";

/// One day.
pub const MAX_AGE_SECS: &'static str = "86400";

/// `ntex::http::HeaderMap`, a multimap from header names to values.
#[verifier::external_type_specification]
#[verifier::external_body]
pub struct ExHeaderMap(HeaderMap);

/// What a header map holds: under each name, in lower case, the values that
/// were given to it, the first one first.
pub uninterp spec fn header_entries(headers: HeaderMap) -> Map<Seq<char>, Seq<Seq<u8>>>;

/// `c` is a letter in lower case, a digit or a hyphen.
pub open spec fn is_name_char(c: char) -> bool {
    'a' <= c <= 'z' || '0' <= c <= '9' || c == '-'
}

/// `name` is a header name in lower case.
pub open spec fn is_name(name: Seq<char>) -> bool {
    &&& 0 < name.len() <= 64
    &&& forall|i: int| 0 <= i < name.len() ==> is_name_char(#[trigger] name[i])
}

/// `text` can stand in a header: visible ASCII characters and spaces, not many
/// of them.
pub open spec fn is_text(text: Seq<char>) -> bool {
    &&& text.len() <= 64
    &&& forall|i: int| 0 <= i < text.len() ==> ' ' <= #[trigger] text[i] <= '~'
}

/// A header value can be read as text: visible ASCII characters, spaces and
/// tabs.
pub open spec fn is_readable(value: Seq<u8>) -> bool {
    forall|i: int| 0 <= i < value.len() ==> (32 <= #[trigger] value[i] < 127 || value[i] == 9)
}

/// The bytes of an ASCII text.
pub open spec fn bytes_of(text: Seq<char>) -> Seq<u8> {
    Seq::new(text.len(), |i: int| text[i] as u8)
}

/// The text of ASCII bytes.
pub open spec fn text_of(bytes: Seq<u8>) -> Seq<char> {
    Seq::new(bytes.len(), |i: int| bytes[i] as char)
}

/// The first value under `name`, where there is one that can be read as text.
pub open spec fn first_text(
    entries: Map<Seq<char>, Seq<Seq<u8>>>,
    name: Seq<char>,
) -> Option<Seq<char>> {
    if entries.contains_key(name) && entries[name].len() > 0 && is_readable(entries[name][0]) {
        Some(text_of(entries[name][0]))
    } else {
        None
    }
}

/// `entries` with `value` as the only value under `name`.
pub open spec fn put(
    entries: Map<Seq<char>, Seq<Seq<u8>>>,
    name: Seq<char>,
    value: Seq<char>,
) -> Map<Seq<char>, Seq<Seq<u8>>> {
    entries.insert(name, seq![bytes_of(value)])
}

/// `entries` with the CORS headers set.
pub open spec fn cors(entries: Map<Seq<char>, Seq<Seq<u8>>>) -> Map<Seq<char>, Seq<Seq<u8>>> {
    let entries = put(entries, ALLOW_ORIGIN@, ALLOWED_ORIGIN@);
    let entries = put(entries, ALLOW_HEADERS@, ALLOWED_HEADERS@);
    let entries = put(entries, ALLOW_METHODS@, ALLOWED_METHODS@);
    let entries = put(entries, MAX_AGE@, MAX_AGE_SECS@);
    put(entries, EXPOSE_HEADERS@, KEY_HEADER@)
}

/// `name` is one of the names of the CORS headers.
pub open spec fn is_cors_name(name: Seq<char>) -> bool {
    ||| name == ALLOW_ORIGIN@
    ||| name == ALLOW_HEADERS@
    ||| name == ALLOW_METHODS@
    ||| name == MAX_AGE@
    ||| name == EXPOSE_HEADERS@
}

/// The key that `entries` name: the first value of the key header, where that
/// is the text of a key.
pub open spec fn key_in(entries: Map<Seq<char>, Seq<Seq<u8>>>) -> Option<u32> {
    match first_text(entries, KEY_HEADER@) {
        Some(text) => crate::key_text::key_of(text),
        None => None,
    }
}

/// Calls `ntex::http::HeaderMap::insert`, which replaces whatever the map holds
/// under a name, with the name and the value turned into a `HeaderName` and a
/// `HeaderValue`.
///
/// Believed of it: afterwards the map holds the bytes of `value` under `name`
/// and nothing else there, and under other names it holds what it held. The
/// name and the value are such that both turn: neither holds a character that
/// headers refuse, and each is at most 64 characters long, far below the
/// lengths at which the outside types panic.
#[verifier::external_body]
fn put_header(headers: &mut HeaderMap, name: &'static str, value: &str)
    requires
        is_name(name@),
        is_text(value@),
    ensures
        header_entries(*final(headers)) == put(header_entries(*old(headers)), name@, value@),
{
    if let Ok(value) = HeaderValue::from_str(value) {
        headers.insert(HeaderName::from_static(name), value);
    }
}

/// Calls `ntex::http::HeaderMap::get_all`, which walks the values under a name,
/// and reads the first of them as text by `HeaderValue::to_str`.
///
/// Believed of it: there is a text exactly where the map holds a value under the
/// name and the first one is readable, and it is the text of that value.
#[verifier::external_body]
fn header_text<'a>(headers: &'a HeaderMap, name: &'static str) -> (text: Option<&'a str>)
    requires
        is_name(name@),
    ensures
        text is Some <==> first_text(header_entries(*headers), name@) is Some,
        text matches Some(t) ==> first_text(header_entries(*headers), name@) == Some(t@),
{
    match headers.get_all(name).next() {
        Some(value) => value.to_str().ok(),
        None => None,
    }
}

/// Sets the CORS headers, for browser clients of other origins.
///
/// The key header has to be exposed: without that a browser hides it from
/// scripts of other origins, and the client cannot decode the frame. Handlers
/// that answer with an error set these headers themselves, because the service
/// does not see such answers.
pub fn with_cors(headers: &mut HeaderMap)
    ensures
        header_entries(*final(headers)) == cors(header_entries(*old(headers))),
{
    proof {
        lemma_names_and_texts();
    }
    put_header(headers, ALLOW_ORIGIN, ALLOWED_ORIGIN);
    put_header(headers, ALLOW_HEADERS, ALLOWED_HEADERS);
    put_header(headers, ALLOW_METHODS, ALLOWED_METHODS);
    put_header(headers, MAX_AGE, MAX_AGE_SECS);
    put_header(headers, EXPOSE_HEADERS, KEY_HEADER);
}

/// The key that a request names in its key header, if it names one.
pub fn request_key(headers: &HeaderMap) -> (key: Option<u32>)
    ensures
        key == key_in(header_entries(*headers)),
{
    proof {
        lemma_names_and_texts();
    }
    match header_text(headers, KEY_HEADER) {
        Some(text) => parse_key(text),
        None => None,
    }
}

/// Puts the key of a response into its key header.
pub fn set_response_key(headers: &mut HeaderMap, key: u32)
    ensures
        header_entries(*final(headers)) == put(
            header_entries(*old(headers)),
            KEY_HEADER@,
            crate::key_text::decimal(key as nat),
        ),
{
    let text: String = key_text(key);
    proof {
        lemma_names_and_texts();
        crate::key_text::law_key_text_reads_back(key);
        crate::key_text::lemma_decimal_is_short(key);
    }
    put_header(headers, KEY_HEADER, text.as_str());
}

/// The names and values of the library's headers are well-formed.
proof fn lemma_names_and_texts()
    ensures
        is_name(KEY_HEADER@),
        is_name(ALLOW_ORIGIN@),
        is_name(ALLOW_HEADERS@),
        is_name(ALLOW_METHODS@),
        is_name(MAX_AGE@),
        is_name(EXPOSE_HEADERS@),
        is_text(KEY_HEADER@),
        is_text(ALLOWED_ORIGIN@),
        is_text(ALLOWED_HEADERS@),
        is_text(ALLOWED_METHODS@),
        is_text(MAX_AGE_SECS@),
{
    reveal_strlit("x-key");
    reveal_strlit("access-control-allow-origin");
    reveal_strlit("access-control-allow-headers");
    reveal_strlit("access-control-allow-methods");
    reveal_strlit("access-control-max-age");
    reveal_strlit("access-control-expose-headers");
    reveal_strlit("*");
    reveal_strlit("x-key, X-Session-Token, X-Team-Token, content-type");
    reveal_strlit("GET, POST, PUT, DELETE, OPTIONS");
    reveal_strlit("86400");
}

/// The names of the CORS headers and of the key header are all different.
proof fn lemma_names_differ()
    ensures
        !is_cors_name(KEY_HEADER@),
        ALLOW_ORIGIN@ != ALLOW_HEADERS@,
        ALLOW_ORIGIN@ != ALLOW_METHODS@,
        ALLOW_ORIGIN@ != MAX_AGE@,
        ALLOW_ORIGIN@ != EXPOSE_HEADERS@,
        ALLOW_HEADERS@ != ALLOW_METHODS@,
        ALLOW_HEADERS@ != MAX_AGE@,
        ALLOW_HEADERS@ != EXPOSE_HEADERS@,
        ALLOW_METHODS@ != MAX_AGE@,
        ALLOW_METHODS@ != EXPOSE_HEADERS@,
        MAX_AGE@ != EXPOSE_HEADERS@,
{
    reveal_strlit("x-key");
    reveal_strlit("access-control-allow-origin");
    reveal_strlit("access-control-allow-headers");
    reveal_strlit("access-control-allow-methods");
    reveal_strlit("access-control-max-age");
    reveal_strlit("access-control-expose-headers");
    assert(KEY_HEADER@.len() == 5);
    assert(MAX_AGE@.len() == 22);
    assert(ALLOW_ORIGIN@.len() == 27);
    assert(ALLOW_HEADERS@.len() == 28);
    assert(ALLOW_METHODS@.len() == 28);
    assert(EXPOSE_HEADERS@.len() == 29);
    // The two names of equal length differ behind "access-control-allow-".
    assert(ALLOW_HEADERS@[21] != ALLOW_METHODS@[21]);
}

/// `entries` hold each of the CORS headers with its one value.
pub open spec fn carries_cors(entries: Map<Seq<char>, Seq<Seq<u8>>>) -> bool {
    &&& entries.contains_pair(ALLOW_ORIGIN@, seq![bytes_of(ALLOWED_ORIGIN@)])
    &&& entries.contains_pair(ALLOW_HEADERS@, seq![bytes_of(ALLOWED_HEADERS@)])
    &&& entries.contains_pair(ALLOW_METHODS@, seq![bytes_of(ALLOWED_METHODS@)])
    &&& entries.contains_pair(MAX_AGE@, seq![bytes_of(MAX_AGE_SECS@)])
    &&& entries.contains_pair(EXPOSE_HEADERS@, seq![bytes_of(KEY_HEADER@)])
}

/// A response with the CORS headers carries each of them with its one value. It
/// exposes the key header, and it keeps its other headers, the key among them.
pub proof fn law_cors_headers(entries: Map<Seq<char>, Seq<Seq<u8>>>)
    ensures
        carries_cors(cors(entries)),
        forall|name: Seq<char>| !is_cors_name(name) ==> {
            &&& #[trigger] cors(entries).contains_key(name) == entries.contains_key(name)
            &&& entries.contains_key(name) ==> cors(entries)[name] == entries[name]
        },
        key_in(cors(entries)) == key_in(entries),
{
    lemma_names_differ();
}

/// Setting a header replaces all its values by the one, whose bytes are the
/// characters of the text, and touches no other header.
pub proof fn law_put_replaces(
    entries: Map<Seq<char>, Seq<Seq<u8>>>,
    name: Seq<char>,
    value: Seq<char>,
    other: Seq<char>,
)
    ensures
        put(entries, name, value).contains_key(name),
        put(entries, name, value)[name].len() == 1,
        put(entries, name, value)[name][0].len() == value.len(),
        forall|i: int|
            0 <= i < value.len() ==> #[trigger] put(entries, name, value)[name][0][i] == value[i]
                as u8,
        other != name ==> put(entries, name, value).contains_key(other) == entries.contains_key(
            other,
        ),
        other != name && entries.contains_key(other) ==> put(entries, name, value)[other]
            == entries[other],
{
}

/// The headers that browsers ask for, under their names and with their values,
/// whatever was there before, and no other header touched.
pub proof fn law_cors_names_and_values(entries: Map<Seq<char>, Seq<Seq<u8>>>, name: Seq<char>)
    ensures
        ({
            let set = cors(entries);
            &&& set.contains_pair("access-control-allow-origin"@, seq![bytes_of("*"@)])
            &&& set.contains_pair(
                "access-control-allow-headers"@,
                seq![bytes_of("x-key, X-Session-Token, X-Team-Token, content-type"@)],
            )
            &&& set.contains_pair(
                "access-control-allow-methods"@,
                seq![bytes_of("GET, POST, PUT, DELETE, OPTIONS"@)],
            )
            &&& set.contains_pair("access-control-max-age"@, seq![bytes_of("86400"@)])
            &&& set.contains_pair("access-control-expose-headers"@, seq![bytes_of("x-key"@)])
        }),
        name != "access-control-allow-origin"@ && name != "access-control-allow-headers"@ && name
            != "access-control-allow-methods"@ && name != "access-control-max-age"@ && name
            != "access-control-expose-headers"@ ==> {
            &&& cors(entries).contains_key(name) == entries.contains_key(name)
            &&& entries.contains_key(name) ==> cors(entries)[name] == entries[name]
        },
{
    law_cors_headers(entries);
}

/// The key that headers name is the one that the first value of the key header
/// spells, where each of its bytes is a visible ASCII character, a space or a
/// tab. Without such a value they name none, and further values and other
/// headers play no part.
pub proof fn law_key_is_the_first_value(entries: Map<Seq<char>, Seq<Seq<u8>>>)
    ensures
        !entries.contains_key("x-key"@) ==> key_in(entries) is None,
        entries.contains_key("x-key"@) ==> {
            let values = entries["x-key"@];
            &&& values.len() == 0 ==> key_in(entries) is None
            &&& values.len() > 0 ==> {
                let text = Seq::new(values[0].len(), |i: int| values[0][i] as char);
                if forall|i: int|
                    0 <= i < values[0].len() ==> (32 <= #[trigger] values[0][i] < 127
                        || values[0][i] == 9) {
                    key_in(entries) == crate::key_text::key_of(text)
                } else {
                    key_in(entries) is None
                }
            }
        },
{
    if entries.contains_key("x-key"@) && entries["x-key"@].len() > 0 {
        let value = entries["x-key"@][0];
        assert(text_of(value) =~= Seq::new(value.len(), |i: int| value[i] as char));
    }
}

/// Setting the CORS headers again changes nothing.
pub proof fn law_cors_is_idempotent(entries: Map<Seq<char>, Seq<Seq<u8>>>)
    ensures
        cors(cors(entries)) == cors(entries),
{
    lemma_names_differ();
    assert(cors(cors(entries)) =~= cors(entries));
}

/// The key of a response can be read from its headers, also once the CORS
/// headers are set.
pub proof fn law_response_key_reads_back(entries: Map<Seq<char>, Seq<Seq<u8>>>, key: u32)
    ensures
        key_in(put(entries, KEY_HEADER@, crate::key_text::decimal(key as nat))) == Some(key),
        key_in(cors(put(entries, KEY_HEADER@, crate::key_text::decimal(key as nat)))) == Some(key),
{
    let text = crate::key_text::decimal(key as nat);
    crate::key_text::law_key_text_reads_back(key);
    assert(text_of(bytes_of(text)) =~= text);
    law_cors_headers(put(entries, KEY_HEADER@, text));
}

} // verus!
