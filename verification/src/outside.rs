//! The outside functions the library leans on, each behind one wrapper whose
//! contract states what that crate's source shows. Verus trusts these bodies
//! and nothing else.

use vstd::prelude::*;

verus! {

/// The MD5 digest of a text's bytes, as 32 lowercase hex digits; a function
/// of the text alone.
pub uninterp spec fn md5_hex_of(s: Seq<char>) -> Seq<char>;

/// Relies on md5::compute and its digest's LowerHex rendering: a 16-byte
/// digest of the input bytes, each byte written as two lowercase hex digits.
#[verifier::external_body]
pub fn md5_hex(s: &str) -> (r: String)
    ensures
        r@ == md5_hex_of(s@),
        r@.len() == 32,
{
    format!("{:x}", md5::compute(s.as_bytes()))
}

/// What `str::to_lowercase` returns: a function of the characters alone.
pub uninterp spec fn lower_of(s: Seq<char>) -> Seq<char>;

/// Relies on str::to_lowercase: the Unicode lowercase mapping of the text.
#[verifier::external_body]
pub fn lowercase(s: &str) -> (r: String)
    ensures
        r@ == lower_of(s@),
{
    s.to_lowercase()
}

/// The text inside the first `<title>` element of a parsed document, if the
/// document has one; a function of the document text alone.
pub uninterp spec fn title_text_of(doc: Seq<char>) -> Option<Seq<char>>;

/// Relies on scraper's lenient HTML parser and selectors: parsing never
/// fails, and the result is the concatenated text of the first `<title>`
/// element, or nothing when the document has none.
#[verifier::external_body]
pub fn extract_title(doc: &str) -> (r: Option<String>)
    ensures
        r is Some <==> title_text_of(doc@) is Some,
        r matches Some(t) ==> title_text_of(doc@) == Some(t@),
{
    let document = scraper::Html::parse_document(doc);
    let selector = scraper::Selector::parse("title").unwrap();
    document.select(&selector).next().map(|el| el.text().collect::<String>())
}

/// The text inside the first `<body>` element of a parsed document, if the
/// document has one; a function of the document text alone.
pub uninterp spec fn body_text_of(doc: Seq<char>) -> Option<Seq<char>>;

/// Relies on scraper, as `extract_title` does, but for the `<body>` element.
#[verifier::external_body]
pub fn extract_body_text(doc: &str) -> (r: Option<String>)
    ensures
        r is Some <==> body_text_of(doc@) is Some,
        r matches Some(t) ==> body_text_of(doc@) == Some(t@),
{
    let document = scraper::Html::parse_document(doc);
    let selector = scraper::Selector::parse("body").unwrap();
    document.select(&selector).next().map(|el| el.text().collect::<String>())
}

/// How many `id` elements a parsed document holds; a function of the
/// document text alone.
pub uninterp spec fn id_element_count_of(doc: Seq<char>) -> nat;

/// Relies on scraper: counts the elements the selector `id` matches in the
/// parsed document.
#[verifier::external_body]
pub fn count_id_elements(doc: &str) -> (r: usize)
    ensures
        r as nat == id_element_count_of(doc@),
{
    let document = scraper::Html::parse_document(doc);
    let selector = scraper::Selector::parse("id").unwrap();
    document.select(&selector).count()
}

/// Whether a login response is JSON whose `result` field is the value
/// `true`; a function of the response text alone.
pub uninterp spec fn dahua_login_ok_of(text: Seq<char>) -> bool;

/// Relies on serde_json: parses the response text and tests whether its
/// `result` field equals the JSON `true`; text that is not JSON fails the
/// test rather than erroring.
#[verifier::external_body]
pub fn dahua_login_ok(text: &str) -> (r: bool)
    ensures
        r == dahua_login_ok_of(text@),
{
    match serde_json::from_str::<serde_json::Value>(text) {
        Ok(v) => v["result"] == serde_json::Value::Bool(true),
        Err(_) => false,
    }
}

/// Relies on String::push: appends exactly the one character.
#[verifier::external_body]
pub fn push_char(s: &mut String, c: char)
    ensures
        final(s)@ == old(s)@ + seq![c],
{
    s.push(c);
}

/// Relies on ua_generator::ua::spoof_ua, which picks a browser user-agent
/// string at random from a built-in list; nothing is promised of the choice.
#[verifier::external_body]
pub fn spoof_user_agent() -> String {
    ua_generator::ua::spoof_ua().to_string()
}

/// Relies on ping's datagram-socket echo: true exactly when one echo
/// request got its reply within the timeout. The outcome depends on the
/// network, so nothing more is stated; an address that does not parse gets
/// no echo at all.
#[verifier::external_body]
pub(crate) fn ping_helper(ip: &str, nums: u32, timeout: u64) -> bool {
    let addr = match ip.parse() {
        Ok(addr) => addr,
        Err(_) => return false,
    };
    let timeout = std::time::Duration::from_secs(timeout);
    #[allow(deprecated)]
    ping::dgramsock::ping(addr, Some(timeout), Some(nums), Some(3), Some(5), Some(&rand::random()))
        .is_ok()
}

} // verus!
