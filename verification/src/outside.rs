//! What this library takes on trust from the crates it is built on.
//!
//! Every item in this file is a claim about code that lives elsewhere and is
//! not verified here.  The rest of the crate is proved against these claims.

use vstd::prelude::*;

verus! {

/// `serde_json::Value`: a parsed JSON document.
#[verifier::external_type_specification]
#[verifier::external_body]
pub struct ExJsonValue(serde_json::Value);

/// `reqwest::header::InvalidHeaderValue`: the error of a text that is no
/// header value.
#[verifier::external_type_specification]
#[verifier::external_body]
pub struct ExInvalidHeaderValue(reqwest::header::InvalidHeaderValue);

/// `String::push` of std: it appends the character to the end of the string.
pub assume_specification[ String::push ](text: &mut String, c: char)
    ensures
        final(text)@ == old(text)@.push(c),
;

/// The standard base64 encoding, with padding, of the UTF-8 bytes of `text`,
/// as `base64` computes it.
pub uninterp spec fn base64_standard(text: Seq<char>) -> Seq<char>;

/// The members of a JSON document by key: the text of a member that is a
/// string, `None` for a member of another kind.  A document that is no object
/// has no members.
pub uninterp spec fn json_members(doc: serde_json::Value) -> Map<Seq<char>, Option<Seq<char>>>;

/// The members of the JSON document that `body` spells, as `serde_json`
/// reads it, or `None` where `body` is no JSON document.
pub uninterp spec fn json_document(body: Seq<u8>) -> Option<Map<Seq<char>, Option<Seq<char>>>>;

/// The JSON string literal that `serde_json` writes for `text`, quotes
/// included, or `None` where it reports an error.
pub uninterp spec fn json_string(text: Seq<char>) -> Option<Seq<char>>;

/// How `reqwest::StatusCode` shows the status `status`: the number, a space
/// and the reason phrase; `None` where the number is no status code.
pub uninterp spec fn status_text(status: u16) -> Option<Seq<char>>;

/// What `reqwest::Url` makes of the address `text`: the address as the
/// parsed URL writes it, and whether it has a host; `None` where `text` is no
/// URL.
pub uninterp spec fn url_parsed(text: Seq<char>) -> Option<(Seq<char>, bool)>;

/// What a JSON document holds under one key.
#[derive(Debug, PartialEq, Eq)]
pub enum JsonMember {
    /// No member has the key.
    Missing,
    /// The member is no string.
    NotText,
    /// The member is this string.
    Text(String),
}

/// What a [`JsonMember`] holds, as a mathematical value.
pub enum JsonMemberView {
    Missing,
    NotText,
    Text(Seq<char>),
}

impl View for JsonMember {
    type V = JsonMemberView;

    open spec fn view(&self) -> JsonMemberView {
        match self {
            JsonMember::Missing => JsonMemberView::Missing,
            JsonMember::NotText => JsonMemberView::NotText,
            JsonMember::Text(text) => JsonMemberView::Text(text@),
        }
    }
}

/// What `members` holds under `key`.
pub open spec fn member_of(
    members: Map<Seq<char>, Option<Seq<char>>>,
    key: Seq<char>,
) -> JsonMemberView {
    if !members.contains_key(key) {
        JsonMemberView::Missing
    } else {
        match members[key] {
            None => JsonMemberView::NotText,
            Some(text) => JsonMemberView::Text(text),
        }
    }
}

/// A point in time: whole seconds since the Unix epoch, and the nanoseconds
/// within the second.
#[derive(Debug, Clone, Copy, PartialEq, Eq, Structural)]
pub struct Timestamp {
    pub seconds: i64,
    pub nanoseconds: u32,
}

impl Timestamp {
    /// Nanoseconds since the Unix epoch.
    pub open spec fn nanos(self) -> int {
        self.seconds * 1_000_000_000 + self.nanoseconds
    }
}

/// Whether the UTF-8 bytes of `text` can be encoded: the length of the
/// encoding must fit in `usize`.
pub open spec fn base64_fits(text: Seq<char>) -> bool {
    vstd::utf8::encode_utf8(text).len() / 3 * 4 + 4 <= usize::MAX
}

/// `Engine::encode` of `base64`, on the engine `BASE64_STANDARD`: the result
/// is the encoding named [`base64_standard`].  The call panics where the
/// length of the encoding overflows `usize`, which `requires` rules out.
#[verifier::external_body]
pub(crate) fn encode_base64(text: &str) -> (encoded: String)
    requires
        base64_fits(text@),
    ensures
        encoded@ == base64_standard(text@),
{
    base64::Engine::encode(&base64::prelude::BASE64_STANDARD, text)
}

/// `serde_json::from_slice`, read as a `serde_json::Value`: on success the
/// document has the members named by [`json_document`], and it fails exactly
/// where that name is `None`.  The error itself is dropped.
#[verifier::external_body]
pub(crate) fn parse_json(body: &[u8]) -> (parsed: Option<serde_json::Value>)
    ensures
        match parsed {
            Some(doc) => json_document(body@) == Some(json_members(doc)),
            None => json_document(body@) is None,
        },
{
    match serde_json::from_slice::<serde_json::Value>(body) {
        Ok(doc) => Some(doc),
        Err(_) => None,
    }
}

/// `Value::get` of `serde_json` with a string key: the member of an object
/// under that key.  On a document that is no object it finds nothing.
#[verifier::external_body]
pub(crate) fn json_member(doc: &serde_json::Value, key: &str) -> (member: JsonMember)
    ensures
        member@ == member_of(json_members(*doc), key@),
{
    match doc.get(key) {
        None => JsonMember::Missing,
        Some(serde_json::Value::String(text)) => JsonMember::Text(text.clone()),
        Some(_) => JsonMember::NotText,
    }
}

/// `serde_json::to_string` on a string slice: the JSON string literal named
/// by [`json_string`].  The error itself is dropped.
#[verifier::external_body]
pub(crate) fn quote_json(text: &str) -> (quoted: Option<String>)
    ensures
        match quoted {
            Some(literal) => json_string(text@) == Some(literal@),
            None => json_string(text@) is None,
        },
{
    match serde_json::to_string(text) {
        Ok(literal) => Some(literal),
        Err(_) => None,
    }
}

/// `StatusCode::from_u16` and the `Display` of `StatusCode`, of `reqwest`:
/// the status as text, named by [`status_text`].
#[verifier::external_body]
pub(crate) fn show_status(status: u16) -> (shown: Option<String>)
    ensures
        match shown {
            Some(text) => status_text(status) == Some(text@),
            None => status_text(status) is None,
        },
{
    match reqwest::StatusCode::from_u16(status) {
        Ok(code) => Some(code.to_string()),
        Err(_) => None,
    }
}

/// `Url::parse` of `reqwest`, with `Url::as_str` and `Url::has_host` on what
/// it gives: the parsed address, named by [`url_parsed`].  The error itself
/// is dropped.
#[verifier::external_body]
pub(crate) fn parse_url(text: &str) -> (parsed: Option<(String, bool)>)
    ensures
        match parsed {
            Some((url, has_host)) => url_parsed(text@) == Some((url@, has_host)),
            None => url_parsed(text@) is None,
        },
{
    match reqwest::Url::parse(text) {
        Ok(url) => Some((url.as_str().to_owned(), url.has_host())),
        Err(_) => None,
    }
}

/// Whether `c` may stand in a header value: any character but the ASCII
/// control characters, of which only the tab is admitted.
pub open spec fn is_header_char(c: char) -> bool {
    (c as u32 >= 32 && c as u32 != 127) || c as u32 == 9
}

/// Whether every character of `text` may stand in a header value.
pub open spec fn is_header_text(text: Seq<char>) -> bool {
    forall|i: int| 0 <= i < text.len() ==> is_header_char(#[trigger] text[i])
}

/// `HeaderValue::from_str` of `reqwest::header`: it accepts a text exactly
/// where each of its bytes is 32 or more and not 127, or is a tab.  The bytes
/// of a character outside ASCII are all above 127, so the test on bytes is the
/// test on characters of [`is_header_text`].
#[verifier::external_body]
pub(crate) fn check_header_value(text: &str) -> (checked: Result<
    (),
    reqwest::header::InvalidHeaderValue,
>)
    ensures
        checked is Ok <==> is_header_text(text@),
{
    match reqwest::header::HeaderValue::from_str(text) {
        Ok(_) => Ok(()),
        Err(e) => Err(e),
    }
}

/// `OffsetDateTime::now_utc` of `time`, as its Unix timestamp and the
/// nanoseconds within the second.  Nothing is known of the time itself; the
/// nanoseconds stay below one second.
#[verifier::external_body]
pub(crate) fn current_time() -> (now: Timestamp)
    ensures
        now.nanoseconds < 1_000_000_000,
{
    let now = time::OffsetDateTime::now_utc();
    Timestamp { seconds: now.unix_timestamp(), nanoseconds: now.nanosecond() }
}

} // verus!
