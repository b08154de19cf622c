use vstd::prelude::*;
use base64::Engine;
use cbc::cipher::{BlockDecryptMut, KeyIvInit};

verus! {

/// The elements of the HTML document `doc` that CSS `selector` matches, in
/// the order scraper's `select` yields them: for each, its text, its outer
/// HTML and the value of its attribute `attr`.
pub uninterp spec fn html_select(doc: Seq<char>, selector: Seq<char>, attr: Seq<char>) -> Seq<(Seq<char>, Seq<char>, Option<Seq<char>>)>;

/// Within the first element of `doc` that `scope` matches, the elements that
/// `selector` matches, as `html_select` gives them; `None` where nothing
/// matches `scope`.
pub uninterp spec fn html_select_within(doc: Seq<char>, scope: Seq<char>, selector: Seq<char>, attr: Seq<char>) -> Option<Seq<(Seq<char>, Seq<char>, Option<Seq<char>>)>>;

/// The text of the first capture group of the first match of `pattern` in `text`.
pub uninterp spec fn regex_first_group(pattern: Seq<char>, text: Seq<char>) -> Option<Seq<char>>;

/// The bytes that standard, padded base64 `text` writes; `None` where it is malformed.
pub uninterp spec fn base64_decoded(text: Seq<char>) -> Option<Seq<u8>>;

/// AES-128 in CBC mode with PKCS#7 padding, deciphering `data` under `key` and `iv`.
pub uninterp spec fn aes128_cbc_deciphered(key: Seq<u8>, iv: Seq<u8>, data: Seq<u8>) -> Option<Seq<u8>>;

/// The text of `bytes` read as UTF-8, with U+FFFD for each invalid sequence.
pub uninterp spec fn utf8_lossy(bytes: Seq<u8>) -> Seq<char>;

/// One element found in an HTML document.
pub struct HtmlMatch {
    pub text: String,
    pub html: String,
    pub attr: Option<String>,
}

pub open spec fn opt_view(o: Option<String>) -> Option<Seq<char>> {
    match o {
        Some(s) => Some(s@),
        None => None,
    }
}

impl HtmlMatch {
    pub open spec fn model(&self) -> (Seq<char>, Seq<char>, Option<Seq<char>>) {
        (self.text@, self.html@, opt_view(self.attr))
    }
}

/// Relies on scraper's `Html::parse_document`, `Selector::parse` and
/// `Html::select`: the elements that match, each with its text
/// (`ElementRef::text`), its HTML (`ElementRef::html`) and one attribute.
#[verifier::external_body]
pub(crate) fn select_html(doc: &str, selector: &str, attr: &str) -> (r: Vec<HtmlMatch>)
    ensures
        r@.len() == html_select(doc@, selector@, attr@).len(),
        forall|i: int| 0 <= i < r@.len() ==> #[trigger] r@[i].model() == html_select(doc@, selector@, attr@)[i],
{
    let Ok(sel) = scraper::Selector::parse(selector) else { return Vec::new() };
    let document = scraper::Html::parse_document(doc);
    let found = document.select(&sel).map(|e| HtmlMatch {
        text: e.text().collect(),
        html: e.html(),
        attr: e.value().attr(attr).map(|a| a.to_string()),
    }).collect();
    found
}

/// Relies on scraper's `Html::parse_document`, `Selector::parse`,
/// `Html::select` for the first element that `scope` matches, and
/// `ElementRef::select` for the elements inside it.
#[verifier::external_body]
pub(crate) fn select_within(doc: &str, scope: &str, selector: &str, attr: &str) -> (r: Option<Vec<HtmlMatch>>)
    ensures
        match (r, html_select_within(doc@, scope@, selector@, attr@)) {
            (Some(v), Some(ms)) => v@.len() == ms.len()
                && forall|i: int| 0 <= i < v@.len() ==> #[trigger] v@[i].model() == ms[i],
            (None, None) => true,
            _ => false,
        },
{
    let scope_sel = scraper::Selector::parse(scope).ok()?;
    let document = scraper::Html::parse_document(doc);
    let container = document.select(&scope_sel).next()?;
    let Ok(sel) = scraper::Selector::parse(selector) else { return Some(Vec::new()) };
    Some(container.select(&sel).map(|e| HtmlMatch {
        text: e.text().collect(),
        html: e.html(),
        attr: e.value().attr(attr).map(|a| a.to_string()),
    }).collect())
}

/// Relies on regex's `Regex::new` and `Regex::captures`: group 1 of the first match.
#[verifier::external_body]
pub(crate) fn first_group(pattern: &str, text: &str) -> (r: Option<String>)
    ensures
        opt_view(r) == regex_first_group(pattern@, text@),
{
    let re = regex::Regex::new(pattern).ok()?;
    re.captures(text)?.get(1).map(|m| m.as_str().to_string())
}

/// Relies on base64's `general_purpose::STANDARD.decode`.
#[verifier::external_body]
pub(crate) fn decode_base64(text: &str) -> (r: Option<Vec<u8>>)
    ensures
        match r {
            Some(b) => base64_decoded(text@) == Some(b@),
            None => base64_decoded(text@) is None,
        },
{
    base64::engine::general_purpose::STANDARD.decode(text).ok()
}

/// Relies on cbc's `Decryptor::<aes::Aes128>::new_from_slices` and
/// `decrypt_padded_vec_mut::<Pkcs7>`, which fail on a key or IV that is not
/// 16 bytes long and on data whose length is not a multiple of 16.
#[verifier::external_body]
pub(crate) fn aes128_cbc_decrypt(key: &[u8], iv: &[u8], data: &[u8]) -> (r: Option<Vec<u8>>)
    ensures
        match r {
            Some(p) => aes128_cbc_deciphered(key@, iv@, data@) == Some(p@),
            None => aes128_cbc_deciphered(key@, iv@, data@) is None,
        },
        (key@.len() != 16 || iv@.len() != 16 || data@.len() % 16 != 0) ==> r is None,
{
    let dec = cbc::Decryptor::<aes::Aes128>::new_from_slices(key, iv).ok()?;
    dec.decrypt_padded_vec_mut::<cbc::cipher::block_padding::Pkcs7>(data).ok()
}

/// Relies on `String::from_utf8_lossy`.
#[verifier::external_body]
pub(crate) fn lossy_text(bytes: &[u8]) -> (r: String)
    ensures
        r@ == utf8_lossy(bytes@),
{
    String::from_utf8_lossy(bytes).to_string()
}

} // verus!
