//! Bindings to the outside crates (regex, scraper, base64, md5, aes/cbc,
//! encoding, rand) and to std functions that vstd does not specify. Each
//! function here is trusted: its contract is believed, not proved.

use vstd::prelude::*;
use vstd::utf8::{decode_utf8, valid_utf8};
use cipher::{BlockDecryptMut, BlockEncryptMut, KeyIvInit};
use encoding::Encoding;
use rand_core::TryRngCore;
use base64::Engine;

verus! {

/// The text of capture group `group` in the first match of regex `pattern` in
/// `text` (as `Regex::captures` finds it), or `None` when there is no match,
/// the group did not take part, or `pattern` does not compile.
pub uninterp spec fn regex_group(pattern: Seq<char>, text: Seq<char>, group: Seq<char>) -> Option<Seq<char>>;

/// Whether regex `pattern` matches somewhere in `text` (`Regex::is_match`);
/// false when `pattern` does not compile.
pub uninterp spec fn regex_matches(pattern: Seq<char>, text: Seq<char>) -> bool;

/// `text` with every match of `pattern` replaced by the literal `rep`
/// (`Regex::replace_all`); `text` itself when `pattern` does not compile.
pub uninterp spec fn regex_replaced(pattern: Seq<char>, text: Seq<char>, rep: Seq<char>) -> Seq<char>;

/// The pieces of `text` between the matches of `pattern` (`Regex::split`);
/// `[text]` when `pattern` does not compile.
pub uninterp spec fn regex_pieces(pattern: Seq<char>, text: Seq<char>) -> Seq<Seq<char>>;

/// `regex::escape`: `s` with every regex meta character backslash-escaped.
pub uninterp spec fn regex_escaped(s: Seq<char>) -> Seq<char>;

/// `regex::Regex::captures` + `Captures::name`: the named group of the first
/// match. The claim is only that the result is a function of the three
/// arguments, named `regex_group`.
#[verifier::external_body]
pub(crate) fn regex_capture(pattern: &str, text: &str, group: &str) -> (res: Option<String>)
    ensures
        match res {
            Some(g) => regex_group(pattern@, text@, group@) == Some(g@),
            None => regex_group(pattern@, text@, group@) is None,
        },
{
    let re = regex::Regex::new(pattern).ok()?;
    re.captures(text).and_then(|c| c.name(group)).map(|m| m.as_str().to_string())
}

/// `regex::Regex::is_match`; the result is named `regex_matches`.
#[verifier::external_body]
pub(crate) fn regex_is_match(pattern: &str, text: &str) -> (res: bool)
    ensures
        res == regex_matches(pattern@, text@),
{
    match regex::Regex::new(pattern) {
        Ok(re) => re.is_match(text),
        Err(_) => false,
    }
}

/// `regex::Regex::replace_all` with a literal replacement (`NoExpand`); the
/// result is named `regex_replaced`.
#[verifier::external_body]
pub(crate) fn regex_replace_all(pattern: &str, text: &str, rep: &str) -> (res: String)
    ensures
        res@ == regex_replaced(pattern@, text@, rep@),
{
    match regex::Regex::new(pattern) {
        Ok(re) => re.replace_all(text, regex::NoExpand(rep)).into_owned(),
        Err(_) => text.to_string(),
    }
}

/// `regex::Regex::split`; the pieces are named `regex_pieces`.
#[verifier::external_body]
pub(crate) fn regex_split(pattern: &str, text: &str) -> (res: Vec<String>)
    ensures
        res@.map_values(|x: String| x@) == regex_pieces(pattern@, text@),
{
    match regex::Regex::new(pattern) {
        Ok(re) => re.split(text).map(|p| p.to_string()).collect(),
        Err(_) => vec![text.to_string()],
    }
}

/// `regex::escape`; the result is named `regex_escaped`.
#[verifier::external_body]
pub(crate) fn regex_escape(s: &str) -> (res: String)
    ensures
        res@ == regex_escaped(s@),
{
    regex::escape(s)
}

/// For each element matching CSS `selector` in the document `html`, in
/// document order, its first text node (`ElementRef::text().next()`).
pub uninterp spec fn html_first_texts(html: Seq<char>, selector: Seq<char>) -> Seq<Option<Seq<char>>>;

/// All text nodes below the first element matching `selector`, in document
/// order (`ElementRef::text`); `None` when no element matches.
pub uninterp spec fn html_texts_of_first(html: Seq<char>, selector: Seq<char>) -> Option<Seq<Seq<char>>>;

/// `scraper`: the text nodes of the first element matching `selector`; named
/// `html_texts_of_first`.
#[verifier::external_body]
pub(crate) fn select_texts_of_first(html: &str, selector: &str) -> (res: Option<Vec<String>>)
    ensures
        match res {
            Some(v) => html_texts_of_first(html@, selector@) == Some(v@.map_values(|x: String| x@)),
            None => html_texts_of_first(html@, selector@) is None,
        },
{
    let doc = scraper::Html::parse_document(html);
    let el = doc.select(&scraper::Selector::parse(selector).ok()?).next()?;
    Some(el.text().map(|t| t.to_string()).collect())
}

/// The inner HTML of each element matching `selector`, in document order.
pub uninterp spec fn html_inner_htmls(html: Seq<char>, selector: Seq<char>) -> Seq<Seq<char>>;

/// Within the `n`-th element matching `outer`, for each element matching
/// `inner`: its attribute `attr` and its first text node; `None` when there is
/// no `n`-th `outer` element.
pub uninterp spec fn html_links(html: Seq<char>, outer: Seq<char>, n: nat, inner: Seq<char>, attr: Seq<char>)
    -> Option<Seq<(Option<Seq<char>>, Option<Seq<char>>)>>;

/// A node below an element, as the content extraction reads it.
pub enum HtmlNode {
    /// A text node.
    Text(String),
    /// An element: its tag name and its `src` attribute.
    Element(String, Option<String>),
    /// Any other node (comment, doctype, ...).
    Other,
}

/// The abstract form of an `HtmlNode`.
pub enum NodeView {
    Text(Seq<char>),
    Element(Seq<char>, Option<Seq<char>>),
    Other,
}

impl View for HtmlNode {
    type V = NodeView;

    open spec fn view(&self) -> NodeView {
        match self {
            HtmlNode::Text(t) => NodeView::Text(t@),
            HtmlNode::Element(n, s) => NodeView::Element(n@, match s {
                Some(x) => Some(x@),
                None => None,
            }),
            HtmlNode::Other => NodeView::Other,
        }
    }
}

/// The descendants (itself first, in document order) of the first element
/// matching `selector`; `None` when no element matches.
pub uninterp spec fn html_descendants(html: Seq<char>, selector: Seq<char>) -> Option<Seq<NodeView>>;

/// `scraper`: parse `html` as a document and, for each element matching
/// `selector`, take its first text node. The result is named `html_first_texts`.
#[verifier::external_body]
pub(crate) fn select_first_texts(html: &str, selector: &str) -> (res: Vec<Option<String>>)
    ensures
        res@.map_values(|x: Option<String>| match x { Some(s) => Some(s@), None => None })
            == html_first_texts(html@, selector@),
{
    let doc = scraper::Html::parse_document(html);
    match scraper::Selector::parse(selector) {
        Ok(sel) => doc.select(&sel).map(|e| e.text().next().map(|t| t.to_string())).collect(),
        Err(_) => Vec::new(),
    }
}

/// `scraper`: the inner HTML of each element matching `selector`; named
/// `html_inner_htmls`.
#[verifier::external_body]
pub(crate) fn select_inner_htmls(html: &str, selector: &str) -> (res: Vec<String>)
    ensures
        res@.map_values(|x: String| x@) == html_inner_htmls(html@, selector@),
{
    let doc = scraper::Html::parse_document(html);
    match scraper::Selector::parse(selector) {
        Ok(sel) => doc.select(&sel).map(|e| e.inner_html()).collect(),
        Err(_) => Vec::new(),
    }
}

/// `scraper`: attribute and first text of each `inner` match inside the `n`-th
/// `outer` match; named `html_links`.
#[verifier::external_body]
pub(crate) fn select_links(html: &str, outer: &str, n: usize, inner: &str, attr: &str)
    -> (res: Option<Vec<(Option<String>, Option<String>)>>)
    ensures
        match res {
            Some(v) => html_links(html@, outer@, n as nat, inner@, attr@) == Some(v@.map_values(
                |x: (Option<String>, Option<String>)| (
                    match x.0 { Some(s) => Some(s@), None => None },
                    match x.1 { Some(s) => Some(s@), None => None },
                ))),
            None => html_links(html@, outer@, n as nat, inner@, attr@) is None,
        },
{
    let doc = scraper::Html::parse_document(html);
    let (o, i) = (scraper::Selector::parse(outer).ok()?, scraper::Selector::parse(inner).ok()?);
    let el = doc.select(&o).nth(n)?;
    Some(el.select(&i).map(|a| (a.attr(attr).map(|s| s.to_string()), a.text().next().map(|t| t.to_string()))).collect())
}

/// `scraper`: descendants of the first element matching `selector`, each
/// mapped to an `HtmlNode`; named `html_descendants`.
#[verifier::external_body]
pub(crate) fn select_descendants(html: &str, selector: &str) -> (res: Option<Vec<HtmlNode>>)
    ensures
        match res {
            Some(v) => html_descendants(html@, selector@) == Some(v@.map_values(|x: HtmlNode| x@)),
            None => html_descendants(html@, selector@) is None,
        },
{
    let doc = scraper::Html::parse_document(html);
    let el = doc.select(&scraper::Selector::parse(selector).ok()?).next()?;
    Some(el.descendants().map(|n| match n.value() {
        scraper::Node::Text(t) => HtmlNode::Text(t.to_string()),
        scraper::Node::Element(e) => HtmlNode::Element(e.name().to_string(), e.attr("src").map(|s| s.to_string())),
        _ => HtmlNode::Other,
    }).collect())
}

/// For each element matching `outer`, in document order: the first element
/// inside it that matches `inner`, as (its attribute `attr`, its first text
/// node); `None` for an `outer` element without such an element.
pub uninterp spec fn html_in_each(html: Seq<char>, outer: Seq<char>, inner: Seq<char>, attr: Seq<char>)
    -> Seq<Option<(Option<Seq<char>>, Option<Seq<char>>)>>;

/// `scraper`: for each `outer` match, the first `inner` match inside it with
/// its attribute `attr` and first text; named `html_in_each`.
#[verifier::external_body]
pub(crate) fn select_in_each(html: &str, outer: &str, inner: &str, attr: &str)
    -> (res: Vec<Option<(Option<String>, Option<String>)>>)
    ensures
        res@.map_values(|x: Option<(Option<String>, Option<String>)>| match x {
            Some(p) => Some((
                match p.0 { Some(s) => Some(s@), None => None },
                match p.1 { Some(s) => Some(s@), None => None },
            )),
            None => None,
        }) == html_in_each(html@, outer@, inner@, attr@),
{
    let doc = scraper::Html::parse_document(html);
    let (o, i) = match (scraper::Selector::parse(outer), scraper::Selector::parse(inner)) {
        (Ok(o), Ok(i)) => (o, i),
        _ => return Vec::new(),
    };
    doc.select(&o).map(|el| el.select(&i).next()
        .map(|e| (e.attr(attr).map(|s| s.to_string()), e.text().next().map(|t| t.to_string())))).collect()
}

/// Standard base64 (with padding) decoding of `input`: the bytes, or the text
/// of the decode error (`DecodeError`'s display) when it is not valid base64.
pub uninterp spec fn base64_result(input: Seq<u8>) -> Result<Seq<u8>, Seq<char>>;

/// `base64::engine::general_purpose::STANDARD.decode`; named `base64_result`.
#[verifier::external_body]
pub(crate) fn base64_decode(input: &[u8]) -> (res: Result<Vec<u8>, String>)
    ensures
        match res {
            Ok(v) => base64_result(input@) == Ok::<Seq<u8>, Seq<char>>(v@),
            Err(e) => base64_result(input@) == Err::<Seq<u8>, Seq<char>>(e@),
        },
{
    base64::engine::general_purpose::STANDARD.decode(input).map_err(|e| e.to_string())
}

/// The MD5 digest of `data`.
pub uninterp spec fn md5_of(data: Seq<u8>) -> Seq<u8>;

/// `md5::compute`: the 16-byte digest, named `md5_of`.
#[verifier::external_body]
pub(crate) fn md5_digest(data: &[u8]) -> (res: [u8; 16])
    ensures
        res@ == md5_of(data@),
{
    md5::compute(data).0
}

/// AES-128-CBC decryption with PKCS#7 unpadding under a 16-byte key and IV;
/// `None` when the input is not a whole number of blocks or the padding is
/// invalid.
pub uninterp spec fn aes_cbc_decrypted(key: Seq<u8>, iv: Seq<u8>, data: Seq<u8>) -> Option<Seq<u8>>;

/// AES-128-CBC encryption with PKCS#7 padding for a 16-byte key and IV.
pub uninterp spec fn aes_cbc_encrypted(key: Seq<u8>, iv: Seq<u8>, data: Seq<u8>) -> Seq<u8>;

/// `cbc::Decryptor::<aes::Aes128>::new` then `decrypt_padded_mut::<Pkcs7>`;
/// named `aes_cbc_decrypted`.
#[verifier::external_body]
pub(crate) fn aes128_cbc_decrypt(key: &[u8; 16], iv: &[u8; 16], data: &[u8]) -> (res: Option<Vec<u8>>)
    ensures
        match res {
            Some(v) => aes_cbc_decrypted(key@, iv@, data@) == Some(v@),
            None => aes_cbc_decrypted(key@, iv@, data@) is None,
        },
{
    let mut buf = data.to_vec();
    let dec = cbc::Decryptor::<aes::Aes128>::new(key.into(), iv.into());
    dec.decrypt_padded_mut::<cipher::block_padding::Pkcs7>(&mut buf).ok().map(|pt| pt.to_vec())
}

/// `cbc::Encryptor::<aes::Aes128>::new` then `encrypt_padded_vec_mut::<Pkcs7>`;
/// named `aes_cbc_encrypted`. The ciphertext is the input padded to the next
/// whole block, and CBC decryption with the same key and IV gives the input back.
#[verifier::external_body]
pub(crate) fn aes128_cbc_encrypt(key: &[u8; 16], iv: &[u8; 16], data: &[u8]) -> (res: Vec<u8>)
    ensures
        res@ == aes_cbc_encrypted(key@, iv@, data@),
        res@.len() == (data@.len() / 16 + 1) * 16,
        aes_cbc_decrypted(key@, iv@, res@) == Some(data@),
{
    cbc::Encryptor::<aes::Aes128>::new(key.into(), iv.into())
        .encrypt_padded_vec_mut::<cipher::block_padding::Pkcs7>(data)
}

/// `rand_core::TryRngCore::try_fill_bytes` on `rand::rngs::OsRng`: 16 bytes from
/// the operating system's generator. Nothing is stated of their values.
#[verifier::external_body]
pub(crate) fn os_random_16() -> (res: [u8; 16]) {
    let mut bytes = [0u8; 16];
    rand::rngs::OsRng.try_fill_bytes(&mut bytes).unwrap();
    bytes
}

/// GBK decoding of `bytes` with invalid sequences replaced, or `None` when the
/// decoder reports an error.
pub uninterp spec fn gbk_decoded(bytes: Seq<u8>) -> Option<Seq<char>>;

/// `encoding::all::GBK.decode(bytes, DecoderTrap::Replace)`; named `gbk_decoded`.
#[verifier::external_body]
pub(crate) fn gbk_decode(bytes: &[u8]) -> (res: Option<String>)
    ensures
        match res {
            Some(s) => gbk_decoded(bytes@) == Some(s@),
            None => gbk_decoded(bytes@) is None,
        },
{
    encoding::all::GBK.decode(bytes, encoding::DecoderTrap::Replace).ok()
}

/// UTF-8 decoding with each invalid sequence replaced by U+FFFD.
pub uninterp spec fn utf8_lossy(bytes: Seq<u8>) -> Seq<char>;

/// `String::from_utf8_lossy` from std; named `utf8_lossy`, and equal to the
/// exact decoding when the bytes are valid UTF-8.
#[verifier::external_body]
pub(crate) fn from_utf8_lossy(bytes: &[u8]) -> (res: String)
    ensures
        res@ == utf8_lossy(bytes@),
        valid_utf8(bytes@) ==> res@ == decode_utf8(bytes@),
{
    String::from_utf8_lossy(bytes).into_owned()
}

/// `String::from_utf8` from std: `Some` exactly when the bytes are valid
/// UTF-8, holding their decoding.
#[verifier::external_body]
pub(crate) fn from_utf8(bytes: Vec<u8>) -> (res: Option<String>)
    ensures
        match res {
            Some(s) => valid_utf8(bytes@) && s@ == decode_utf8(bytes@),
            None => !valid_utf8(bytes@),
        },
{
    String::from_utf8(bytes).ok()
}

/// `str::as_bytes` copied into a vector: the UTF-8 encoding.
pub fn str_bytes(s: &str) -> (res: Vec<u8>)
    ensures
        res@ == vstd::utf8::encode_utf8(s@),
{
    let b = s.as_bytes();
    let mut v: Vec<u8> = Vec::new();
    let mut i: usize = 0;
    while i < b.len()
        invariant
            i <= b.len(),
            b@ == vstd::utf8::encode_utf8(s@),
            v@ == b@.take(i as int),
        decreases b.len() - i,
    {
        v.push(b[i]);
        i = i + 1;
    }
    assert(b@.take(b.len() as int) =~= b@);
    v
}

} // verus!
