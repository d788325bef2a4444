//! Full-text search helpers: query expressions, tokenizing, snippet markup and
//! the batched index-update queue.

use vstd::prelude::*;
use vstd::string::*;
use vstd::utf8::encode_utf8;
use crate::numfmt::{i64_to_dec, signed_dec_spec};
use crate::text::{
    char_is_whitespace, chars_of, concat, contains_spec, contains_str, count_chars, count_spec,
    from_chars, is_ws, join_chars, replace_str, trim_spec, trim_str, join_spec, lowercase_of, replace_chars, replace_spec,
    str_eq, str_views, to_lowercase, views, all_ascii, ascii_lower,
};

verus! {

/// Which columns a full-text query is restricted to.
#[derive(Debug, Clone, Copy, PartialEq, Eq, Structural)]
pub enum SearchField {
    All,
    Title,
    Author,
    Content,
}

/// The field named by an already lowercased name.
pub open spec fn field_of_lower(s: Seq<char>) -> Option<SearchField> {
    if s == "all"@ {
        Some(SearchField::All)
    } else if s == "title"@ {
        Some(SearchField::Title)
    } else if s == "author"@ {
        Some(SearchField::Author)
    } else if s == "content"@ {
        Some(SearchField::Content)
    } else {
        None
    }
}

/// Maps a lowercased field name to its `SearchField`.
pub fn search_field_from_lower(s: &str) -> (res: Option<SearchField>)
    ensures
        res == field_of_lower(s@),
{
    if str_eq(s, "all") {
        Some(SearchField::All)
    } else if str_eq(s, "title") {
        Some(SearchField::Title)
    } else if str_eq(s, "author") {
        Some(SearchField::Author)
    } else if str_eq(s, "content") {
        Some(SearchField::Content)
    } else {
        None
    }
}

impl SearchField {
    /// Parses a field name case-insensitively: `all`, `title`, `author` or `content`.
    pub fn from_str(s: &str) -> (res: Option<SearchField>)
        ensures
            res == field_of_lower(lowercase_of(s@)),
            all_ascii(s@) ==> res == field_of_lower(s@.map_values(|c: char| ascii_lower(c))),
    {
        let lower = to_lowercase(s);
        search_field_from_lower(lower.as_str())
    }
}

/// `s.replace('\'', "''")`: quotes doubled for an SQL string literal.
pub open spec fn escape_single_quote_spec(s: Seq<char>) -> Seq<char> {
    replace_spec(s, seq!['\''], seq!['\'', '\''])
}

/// Doubles every single quote.
pub fn escape_single_quote(s: &str) -> (res: String)
    ensures
        res@ == escape_single_quote_spec(s@),
{
    let q: [char; 1] = ['\''];
    let qq: [char; 2] = ['\'', '\''];
    assert(q@ =~= seq!['\'']);
    assert(qq@ =~= seq!['\'', '\'']);
    let cs = chars_of(s);
    let v = replace_chars(cs.as_slice(), &q, &qq);
    from_chars(v.as_slice())
}

/// `simple_query('<escaped keyword>')`.
pub open spec fn simple_query_spec(keyword: Seq<char>) -> Seq<char> {
    "simple_query('"@ + escape_single_quote_spec(keyword) + "')"@
}

fn simple_query(keyword: &str) -> (res: String)
    ensures
        res@ == simple_query_spec(keyword@),
{
    let mut s = "simple_query('".to_owned();
    let e = escape_single_quote(keyword);
    s.append(e.as_str());
    s.append("')");
    s
}

/// The `WHERE` condition of an FTS query for `keyword` on `field`.
pub open spec fn fts_match_expr_spec(keyword: Seq<char>, field: SearchField) -> Seq<char> {
    let q = simple_query_spec(keyword);
    match field {
        SearchField::All => "books_fts MATCH "@ + q,
        SearchField::Title => "books_fts MATCH ('title : ' || "@ + q + ")"@,
        SearchField::Author => "books_fts MATCH ('author : ' || "@ + q + ")"@,
        SearchField::Content => "books_fts MATCH ('content : ' || "@ + q + ")"@,
    }
}

/// Builds the FTS `MATCH` condition; `_exact` does not change the expression.
pub fn build_fts_match_expr(keyword: &str, _exact: bool, search_field: SearchField) -> (res: String)
    ensures
        res@ == fts_match_expr_spec(keyword@, search_field),
{
    let q = simple_query(keyword);
    match search_field {
        SearchField::All => {
            let mut s = "books_fts MATCH ".to_owned();
            s.append(q.as_str());
            s
        },
        SearchField::Title => {
            let mut s = "books_fts MATCH ('title : ' || ".to_owned();
            s.append(q.as_str());
            s.append(")");
            s
        },
        SearchField::Author => {
            let mut s = "books_fts MATCH ('author : ' || ".to_owned();
            s.append(q.as_str());
            s.append(")");
            s
        },
        SearchField::Content => {
            let mut s = "books_fts MATCH ('content : ' || ".to_owned();
            s.append(q.as_str());
            s.append(")");
            s
        },
    }
}


/// `simple_query('')` for no tokens, else the tokens' queries joined by ` OR `
/// in parentheses.
pub open spec fn or_expr_spec(tokens: Seq<Seq<char>>) -> Seq<char> {
    if tokens.len() == 0 {
        "simple_query('')"@
    } else {
        "("@ + join_spec(tokens.map_values(|t: Seq<char>| simple_query_spec(t)), " OR "@) + ")"@
    }
}

/// An OR of one `simple_query` per token.
pub fn build_or_expr(tokens: &Vec<String>) -> (res: String)
    ensures
        res@ == or_expr_spec(str_views(tokens@)),
{
    if tokens.len() == 0 {
        return "simple_query('')".to_owned();
    }
    let mut parts: Vec<Vec<char>> = Vec::new();
    let mut i: usize = 0;
    while i < tokens.len()
        invariant
            i <= tokens.len(),
            views(parts@) == str_views(tokens@).take(i as int).map_values(|t: Seq<char>| simple_query_spec(t)),
        decreases tokens.len() - i,
    {
        let q = simple_query(tokens[i].as_str());
        let qv = chars_of(q.as_str());
        let ghost old_parts = parts@;
        parts.push(qv);
        assert(views(parts@) =~= views(old_parts).push(simple_query_spec(tokens@[i as int]@)));
        assert(str_views(tokens@).take(i + 1).map_values(|t: Seq<char>| simple_query_spec(t))
            =~= str_views(tokens@).take(i as int).map_values(|t: Seq<char>| simple_query_spec(t)).push(simple_query_spec(tokens@[i as int]@)));
        i = i + 1;
    }
    assert(str_views(tokens@).take(tokens.len() as int) =~= str_views(tokens@));
    let sep = chars_of(" OR ");
    let joined = join_chars(&parts, sep.as_slice());
    let mut s = "(".to_owned();
    let js = from_chars(joined.as_slice());
    s.append(js.as_str());
    s.append(")");
    s
}

/// A phrase query: `simple_query('<escaped keyword>')`.
pub fn build_phrase_expr(keyword: &str) -> (res: String)
    ensures
        res@ == simple_query_spec(keyword@),
{
    simple_query(keyword)
}

/// A prefix query: `simple_query('<escaped keyword>')`.
pub fn build_prefix_expr(keyword: &str) -> (res: String)
    ensures
        res@ == simple_query_spec(keyword@),
{
    simple_query(keyword)
}

} // verus!

verus! {

/// Whether `char::is_alphanumeric` holds (Unicode `Alphabetic` or `Numeric`).
pub uninterp spec fn char_alphanumeric(c: char) -> bool;

/// The first character of `char::to_lowercase`.
pub uninterp spec fn char_lowercase_first(c: char) -> char;

/// `char::is_alphanumeric` from std; the result is named by `char_alphanumeric`.
/// Among ASCII characters exactly the letters and digits are alphanumeric.
#[verifier::external_body]
fn char_is_alphanumeric(c: char) -> (r: bool)
    ensures
        r == char_alphanumeric(c),
        (c as u32) < 128 ==> r == (('a' <= c && c <= 'z') || ('A' <= c && c <= 'Z') || ('0' <= c && c <= '9')),
{
    c.is_alphanumeric()
}

/// `c.to_lowercase().next()` from std; the lowercase mapping of a `char` is
/// never empty, and its first character is named by `char_lowercase_first`.
/// For an ASCII character it is the ASCII lowercase.
#[verifier::external_body]
fn char_to_lowercase_first(c: char) -> (r: char)
    ensures
        r == char_lowercase_first(c),
        (c as u32) < 128 ==> r == crate::text::ascii_lower(c),
{
    c.to_lowercase().next().unwrap_or(c)
}

/// Code points strictly between U+4E00 and U+9FFF.
pub open spec fn is_cjk_inner(c: char) -> bool {
    0x4E00 < (c as u32) && (c as u32) < 0x9FFF
}

/// CJK Unified Ideographs, Extension A and Extension B.
pub open spec fn is_chinese_spec(c: char) -> bool {
    let cp = c as u32;
    (0x4E00 <= cp && cp <= 0x9FFF) || (0x3400 <= cp && cp <= 0x4DBF) || (0x20000 <= cp && cp <= 0x2A6DF)
}

/// True for CJK ideographs (basic block, Extension A, Extension B).
pub fn is_chinese(ch: char) -> (r: bool)
    ensures
        r == is_chinese_spec(ch),
{
    let cp = ch as u32;
    (cp >= 0x4E00 && cp <= 0x9FFF) || (cp >= 0x3400 && cp <= 0x4DBF) || (cp >= 0x20000 && cp <= 0x2A6DF)
}

/// UTF-8 length in bytes.
pub open spec fn blen(s: Seq<char>) -> nat {
    encode_utf8(s).len()
}

/// A token is kept when it is at least two bytes long in UTF-8.
pub open spec fn keeps(cur: Seq<char>) -> bool {
    cur.len() > 0 && blen(cur) >= 2
}

/// Tokenizer state: (tokens so far, current token).
pub type TokState = (Seq<Seq<char>>, Seq<char>);

/// Ends the current token if it is long enough; a shorter one is kept going.
pub open spec fn flush_spec(st: TokState) -> TokState {
    if keeps(st.1) { (st.0.push(st.1), Seq::empty()) } else { st }
}

/// Starts a new token, keeping the old one only if it is long enough.
pub open spec fn restart_spec(st: TokState) -> TokState {
    (if keeps(st.1) { st.0.push(st.1) } else { st.0 }, Seq::empty())
}

/// One tokenizer step on character `ch`.
pub open spec fn tok_step(st: TokState, ch: char) -> TokState {
    let cur = st.1;
    if is_ws(ch) {
        flush_spec(st)
    } else if is_cjk_inner(ch) {
        let s2 = if cur.len() > 0 && !is_chinese_spec(cur.last()) { restart_spec(st) } else { st };
        (s2.0, s2.1.push(ch))
    } else if char_alphanumeric(ch) {
        let s2 = if cur.len() > 0 && is_chinese_spec(cur.last()) { restart_spec(st) } else { st };
        (s2.0, s2.1.push(char_lowercase_first(ch)))
    } else {
        flush_spec(st)
    }
}

/// Tokenizer state after reading all of `s`.
pub open spec fn tok_state(s: Seq<char>) -> TokState
    decreases s.len(),
{
    if s.len() == 0 {
        (Seq::empty(), Seq::empty())
    } else {
        tok_step(tok_state(s.drop_last()), s.last())
    }
}

/// Tokens of `text`: runs of CJK ideographs and runs of lowercased
/// alphanumerics, split at whitespace and other characters; a token is emitted
/// only when at least two bytes long.
pub open spec fn tokenize_spec(text: Seq<char>) -> Seq<Seq<char>> {
    flush_spec(tok_state(text)).0
}

/// ASCII letters and digits.
pub open spec fn ascii_alnum(c: char) -> bool {
    ('a' <= c && c <= 'z') || ('A' <= c && c <= 'Z') || ('0' <= c && c <= '9')
}

/// `tok_step` on ASCII text, where alphanumerics are the ASCII letters and
/// digits and lowercasing is the ASCII one.
pub open spec fn tok_step_ascii(st: TokState, ch: char) -> TokState {
    let cur = st.1;
    if is_ws(ch) {
        flush_spec(st)
    } else if is_cjk_inner(ch) {
        let s2 = if cur.len() > 0 && !is_chinese_spec(cur.last()) { restart_spec(st) } else { st };
        (s2.0, s2.1.push(ch))
    } else if ascii_alnum(ch) {
        let s2 = if cur.len() > 0 && is_chinese_spec(cur.last()) { restart_spec(st) } else { st };
        (s2.0, s2.1.push(crate::text::ascii_lower(ch)))
    } else {
        flush_spec(st)
    }
}

/// `tok_state` on ASCII text (see `tok_step_ascii`).
pub open spec fn tok_state_ascii(s: Seq<char>) -> TokState
    decreases s.len(),
{
    if s.len() == 0 {
        (Seq::empty(), Seq::empty())
    } else {
        tok_step_ascii(tok_state_ascii(s.drop_last()), s.last())
    }
}

/// The tokens of ASCII text: runs of ASCII letters and digits, lowercased,
/// split at everything else, kept when at least two characters long.
pub open spec fn tokenize_ascii_spec(text: Seq<char>) -> Seq<Seq<char>> {
    flush_spec(tok_state_ascii(text)).0
}

proof fn lemma_blen_ge_len(s: Seq<char>)
    ensures
        blen(s) >= s.len(),
    decreases s.len(),
{
    if s.len() > 0 {
        lemma_blen_ge_len(s.drop_first());
    }
}

proof fn lemma_blen_single(c: char)
    ensures
        blen(seq![c]) >= 2 <==> (c as u32) > 0x7f,
{
    assert(seq![c].drop_first() =~= Seq::<char>::empty());
    let e = vstd::utf8::encode_scalar(c as u32);
    assert(encode_utf8(seq![c]) == e + encode_utf8(Seq::<char>::empty()));
    assert(encode_utf8(seq![c]) =~= e);
}

fn long_enough(cur: &Vec<char>) -> (r: bool)
    ensures
        r == keeps(cur@),
{
    proof {
        lemma_blen_ge_len(cur@);
    }
    if cur.len() == 0 {
        return false;
    }
    if cur.len() >= 2 {
        return true;
    }
    proof {
        assert(cur@ =~= seq![cur@[0]]);
        lemma_blen_single(cur@[0]);
    }
    (cur[0] as u32) > 0x7f
}

fn flush_exec(tokens: &mut Vec<String>, cur: &mut Vec<char>, restart: bool)
    ensures
        ({
            let st = (str_views(old(tokens)@), old(cur)@);
            let r = if restart { restart_spec(st) } else { flush_spec(st) };
            str_views(final(tokens)@) == r.0 && final(cur)@ == r.1
        }),
{
    let ghost ot = tokens@;
    if long_enough(cur) {
        let t = from_chars(cur.as_slice());
        tokens.push(t);
        assert(str_views(tokens@) =~= str_views(ot).push(old(cur)@));
        *cur = Vec::new();
    } else if restart {
        *cur = Vec::new();
    }
}

/// A token made only of ideographs of the basic CJK block.
pub open spec fn all_cjk(t: Seq<char>) -> bool {
    forall|i: int| 0 <= i < t.len() ==> is_cjk_inner(t[i])
}

/// A token with no CJK ideograph in it.
pub open spec fn no_chinese(t: Seq<char>) -> bool {
    forall|i: int| 0 <= i < t.len() ==> !is_chinese_spec(t[i])
}

/// A token that does not mix ideographs with other characters.
pub open spec fn unmixed(t: Seq<char>) -> bool {
    all_cjk(t) || no_chinese(t)
}

proof fn lemma_blen_first_wide(s: Seq<char>)
    requires
        s.len() > 0,
        (s[0] as u32) > 0x7f,
    ensures
        blen(s) >= 2,
{
    lemma_blen_single(s[0]);
    assert(seq![s[0]].drop_first() =~= Seq::<char>::empty());
    assert(encode_utf8(seq![s[0]]) == vstd::utf8::encode_scalar(s[0] as u32) + encode_utf8(Seq::<char>::empty()));
    assert(encode_utf8(s) == vstd::utf8::encode_scalar(s[0] as u32) + encode_utf8(s.drop_first()));
}

proof fn lemma_ascii_lower_ascii(c: char)
    requires
        (c as u32) < 128,
    ensures
        (crate::text::ascii_lower(c) as u32) < 128,
        !is_chinese_spec(crate::text::ascii_lower(c)),
{
}

proof fn lemma_unmixed_step(st: TokState, ch: char)
    requires
        (ch as u32) < 128 || is_cjk_inner(ch),
        forall|k: int| 0 <= k < st.0.len() ==> unmixed(#[trigger] st.0[k]),
        unmixed(st.1),
    ensures
        forall|k: int| 0 <= k < tok_step_ascii(st, ch).0.len() ==> unmixed(#[trigger] tok_step_ascii(st, ch).0[k]),
        unmixed(tok_step_ascii(st, ch).1),
{
    let cur = st.1;
    let f = flush_spec(st);
    let r = restart_spec(st);
    assert forall|k: int| 0 <= k < f.0.len() implies unmixed(#[trigger] f.0[k]) by {
        if k < st.0.len() { assert(f.0[k] == st.0[k]); }
    }
    assert forall|k: int| 0 <= k < r.0.len() implies unmixed(#[trigger] r.0[k]) by {
        if k < st.0.len() { assert(r.0[k] == st.0[k]); }
    }
    assert(unmixed(Seq::<char>::empty()));
    if is_ws(ch) {
    } else if is_cjk_inner(ch) {
        if cur.len() > 0 && !is_chinese_spec(cur.last()) {
            assert(r.1.push(ch) =~= seq![ch]);
            assert(all_cjk(seq![ch]));
        } else {
            if cur.len() > 0 {
                assert(!no_chinese(cur));
            }
            assert(all_cjk(cur.push(ch))) by {
                assert forall|i: int| 0 <= i < cur.push(ch).len() implies is_cjk_inner(cur.push(ch)[i]) by {
                    if i < cur.len() { assert(cur.push(ch)[i] == cur[i]); }
                }
            }
        }
    } else if ascii_alnum(ch) {
        let lc = crate::text::ascii_lower(ch);
        lemma_ascii_lower_ascii(ch);
        if cur.len() > 0 && is_chinese_spec(cur.last()) {
            assert(r.1.push(lc) =~= seq![lc]);
            assert(no_chinese(seq![lc]));
        } else {
            if cur.len() > 0 {
                assert(!all_cjk(cur)) by {
                    assert(!is_cjk_inner(cur[cur.len() - 1]));
                }
            }
            assert(no_chinese(cur.push(lc))) by {
                assert forall|i: int| 0 <= i < cur.push(lc).len() implies !is_chinese_spec(cur.push(lc)[i]) by {
                    if i < cur.len() { assert(cur.push(lc)[i] == cur[i]); }
                }
            }
        }
    }
}

proof fn lemma_unmixed_state(s: Seq<char>)
    requires
        ascii_or_cjk(s),
    ensures
        forall|k: int| 0 <= k < tok_state_ascii(s).0.len() ==> unmixed(#[trigger] tok_state_ascii(s).0[k]),
        unmixed(tok_state_ascii(s).1),
    decreases s.len(),
{
    if s.len() == 0 {
        assert(unmixed(Seq::<char>::empty()));
    } else {
        assert(ascii_or_cjk(s.drop_last())) by {
            assert forall|i: int| 0 <= i < s.drop_last().len() implies (s.drop_last()[i] as u32) < 128
                || is_cjk_inner(s.drop_last()[i]) by {
                assert(s.drop_last()[i] == s[i]);
            }
        }
        lemma_unmixed_state(s.drop_last());
        assert((s.last() as u32) < 128 || is_cjk_inner(s.last()));
        lemma_unmixed_step(tok_state_ascii(s.drop_last()), s.last());
    }
}

/// Search tokens never mix scripts: for text of ASCII characters and CJK
/// ideographs, each token is either made only of ideographs or holds none.
pub proof fn law_tokens_do_not_mix_scripts(text: Seq<char>)
    requires
        ascii_or_cjk(text),
    ensures
        forall|k: int| 0 <= k < tokenize_ascii_spec(text).len() ==> unmixed(#[trigger] tokenize_ascii_spec(text)[k]),
{
    lemma_unmixed_state(text);
    let st = tok_state_ascii(text);
    let f = flush_spec(st);
    assert forall|k: int| 0 <= k < f.0.len() implies unmixed(#[trigger] f.0[k]) by {
        if k < st.0.len() { assert(f.0[k] == st.0[k]); }
    }
}

/// A character a search token may hold: a CJK ideograph, or a lowercase
/// ASCII letter or a digit.
pub open spec fn token_char(c: char) -> bool {
    is_cjk_inner(c) || (ascii_alnum(c) && !('A' <= c && c <= 'Z'))
}

/// A token of the right shape: at least two UTF-8 bytes long, made of token
/// characters only.
pub open spec fn token_shaped(t: Seq<char>) -> bool {
    &&& blen(t) >= 2
    &&& forall|i: int| 0 <= i < t.len() ==> token_char(#[trigger] t[i])
}

proof fn lemma_shape_step(st: TokState, ch: char)
    requires
        forall|k: int| 0 <= k < st.0.len() ==> token_shaped(#[trigger] st.0[k]),
        forall|i: int| 0 <= i < st.1.len() ==> token_char(#[trigger] st.1[i]),
    ensures
        forall|k: int| 0 <= k < tok_step_ascii(st, ch).0.len() ==> token_shaped(#[trigger] tok_step_ascii(st, ch).0[k]),
        forall|i: int| 0 <= i < tok_step_ascii(st, ch).1.len() ==> token_char(#[trigger] tok_step_ascii(st, ch).1[i]),
{
    let cur = st.1;
    let f = flush_spec(st);
    let r = restart_spec(st);
    assert forall|k: int| 0 <= k < f.0.len() implies token_shaped(#[trigger] f.0[k]) by {
        if k < st.0.len() { assert(f.0[k] == st.0[k]); }
    }
    assert forall|k: int| 0 <= k < r.0.len() implies token_shaped(#[trigger] r.0[k]) by {
        if k < st.0.len() { assert(r.0[k] == st.0[k]); }
    }
    if is_ws(ch) {
    } else if is_cjk_inner(ch) {
        let s2 = if cur.len() > 0 && !is_chinese_spec(cur.last()) { r } else { st };
        assert forall|i: int| 0 <= i < s2.1.push(ch).len() implies token_char(#[trigger] s2.1.push(ch)[i]) by {
            if i < s2.1.len() { assert(s2.1.push(ch)[i] == s2.1[i]); }
        }
    } else if ascii_alnum(ch) {
        let lc = crate::text::ascii_lower(ch);
        assert(token_char(lc));
        let s2 = if cur.len() > 0 && is_chinese_spec(cur.last()) { r } else { st };
        assert forall|i: int| 0 <= i < s2.1.push(lc).len() implies token_char(#[trigger] s2.1.push(lc)[i]) by {
            if i < s2.1.len() { assert(s2.1.push(lc)[i] == s2.1[i]); }
        }
    }
}

proof fn lemma_shape_state(s: Seq<char>)
    ensures
        forall|k: int| 0 <= k < tok_state_ascii(s).0.len() ==> token_shaped(#[trigger] tok_state_ascii(s).0[k]),
        forall|i: int| 0 <= i < tok_state_ascii(s).1.len() ==> token_char(#[trigger] tok_state_ascii(s).1[i]),
    decreases s.len(),
{
    if s.len() > 0 {
        lemma_shape_state(s.drop_last());
        lemma_shape_step(tok_state_ascii(s.drop_last()), s.last());
    }
}

/// The shape of search tokens: of the tokens `tokenize_ascii_spec` gives
/// (those of `tokenize_chinese` on text of ASCII characters and CJK
/// ideographs), every one is at least two UTF-8 bytes long and holds only
/// ideographs, lowercase ASCII letters and digits (no white space, no
/// punctuation, no capital letter).
pub proof fn law_token_shape(text: Seq<char>)
    ensures
        forall|k: int| 0 <= k < tokenize_ascii_spec(text).len() ==> token_shaped(#[trigger] tokenize_ascii_spec(text)[k]),
{
    lemma_shape_state(text);
    let st = tok_state_ascii(text);
    let f = flush_spec(st);
    assert forall|k: int| 0 <= k < f.0.len() implies token_shaped(#[trigger] f.0[k]) by {
        if k < st.0.len() { assert(f.0[k] == st.0[k]); }
    }
}

proof fn lemma_cjk_run_state(a: Seq<char>, n: int)
    requires
        0 <= n <= a.len(),
        all_cjk(a),
    ensures
        tok_state_ascii(a.take(n)) == (Seq::<Seq<char>>::empty(), a.take(n)),
    decreases n,
{
    if n == 0 {
        assert(a.take(0) =~= Seq::<char>::empty());
    } else {
        lemma_cjk_run_state(a, n - 1);
        assert(a.take(n).drop_last() =~= a.take(n - 1));
        assert(a.take(n).last() == a[n - 1]);
        assert(is_cjk_inner(a[n - 1]));
        if n > 1 {
            assert(a.take(n - 1).last() == a[n - 2]);
            assert(is_cjk_inner(a[n - 2]));
        }
        assert(a.take(n - 1).push(a[n - 1]) =~= a.take(n));
    }
}

proof fn lemma_latin_run_state(b: Seq<char>, m: int)
    requires
        0 <= m <= b.len(),
        forall|i: int| 0 <= i < b.len() ==> ascii_alnum(#[trigger] b[i]),
    ensures
        tok_state_ascii(b.take(m)) == (Seq::<Seq<char>>::empty(), b.map_values(|c: char| crate::text::ascii_lower(c)).take(m)),
    decreases m,
{
    let lb = b.map_values(|c: char| crate::text::ascii_lower(c));
    if m == 0 {
        assert(b.take(0) =~= Seq::<char>::empty());
        assert(lb.take(0) =~= Seq::<char>::empty());
    } else {
        lemma_latin_run_state(b, m - 1);
        assert(b.take(m).drop_last() =~= b.take(m - 1));
        assert(b.take(m).last() == b[m - 1]);
        assert(ascii_alnum(b[m - 1]));
        if m > 1 {
            assert(ascii_alnum(b[m - 2]));
            lemma_ascii_lower_ascii(b[m - 2]);
            assert(lb.take(m - 1).last() == lb[m - 2]);
        }
        assert(lb.take(m - 1).push(lb[m - 1]) =~= lb.take(m));
    }
}

/// Search tokens split where ideographs meet Latin letters and digits: a run
/// of CJK ideographs followed (or preceded) by a run of at least two ASCII
/// letters or digits gives two tokens, the ideographs as they are and the
/// Latin run lowercased.
pub proof fn law_cjk_and_latin_runs_split(a: Seq<char>, b: Seq<char>)
    requires
        a.len() > 0,
        all_cjk(a),
        b.len() >= 2,
        forall|i: int| 0 <= i < b.len() ==> ascii_alnum(#[trigger] b[i]),
    ensures
        tokenize_ascii_spec(a + b) == seq![a, b.map_values(|c: char| crate::text::ascii_lower(c))],
        tokenize_ascii_spec(b + a) == seq![b.map_values(|c: char| crate::text::ascii_lower(c)), a],
{
    let lb = b.map_values(|c: char| crate::text::ascii_lower(c));
    assert(is_cjk_inner(a[0]));
    lemma_blen_first_wide(a);
    lemma_blen_ge_len(lb);
    // a, then b
    let ab = a + b;
    lemma_cjk_run_state(a, a.len() as int);
    assert(a.take(a.len() as int) =~= a);
    assert forall|m: int| 1 <= m <= b.len() implies tok_state_ascii(#[trigger] ab.take(a.len() + m)) == (seq![a], lb.take(m)) by {
        lemma_ab_state(a, b, m);
    }
    assert(ab.take((a.len() + b.len()) as int) =~= ab);
    assert(lb.take(b.len() as int) =~= lb);
    assert(seq![a].push(lb) =~= seq![a, lb]);
    // b, then a
    let ba = b + a;
    lemma_latin_run_state(b, b.len() as int);
    assert(b.take(b.len() as int) =~= b);
    assert forall|n: int| 1 <= n <= a.len() implies tok_state_ascii(#[trigger] ba.take(b.len() + n)) == (seq![lb], a.take(n)) by {
        lemma_ba_state(a, b, n);
    }
    assert(ba.take((b.len() + a.len()) as int) =~= ba);
    assert(a.take(a.len() as int) =~= a);
    assert(seq![lb].push(a) =~= seq![lb, a]);
}

proof fn lemma_ab_state(a: Seq<char>, b: Seq<char>, m: int)
    requires
        a.len() > 0,
        all_cjk(a),
        b.len() >= 2,
        forall|i: int| 0 <= i < b.len() ==> ascii_alnum(#[trigger] b[i]),
        1 <= m <= b.len(),
    ensures
        tok_state_ascii((a + b).take(a.len() + m)) == (seq![a], b.map_values(|c: char| crate::text::ascii_lower(c)).take(m)),
    decreases m,
{
    let lb = b.map_values(|c: char| crate::text::ascii_lower(c));
    let ab = a + b;
    let k = a.len() + m;
    assert(ab.take(k).drop_last() =~= ab.take(k - 1));
    assert(ab.take(k).last() == b[m - 1]);
    assert(ascii_alnum(b[m - 1]));
    if m == 1 {
        lemma_cjk_run_state(a, a.len() as int);
        assert(a.take(a.len() as int) =~= a);
        assert(ab.take(k - 1) =~= a);
        assert(is_cjk_inner(a[0]));
        lemma_blen_first_wide(a);
        assert(is_cjk_inner(a.last()));
        assert(Seq::<Seq<char>>::empty().push(a) =~= seq![a]);
        assert(Seq::<char>::empty().push(lb[0]) =~= lb.take(1));
    } else {
        lemma_ab_state(a, b, m - 1);
        assert(ascii_alnum(b[m - 2]));
        lemma_ascii_lower_ascii(b[m - 2]);
        assert(lb.take(m - 1).last() == lb[m - 2]);
        assert(lb.take(m - 1).push(lb[m - 1]) =~= lb.take(m));
    }
}

proof fn lemma_ba_state(a: Seq<char>, b: Seq<char>, n: int)
    requires
        a.len() > 0,
        all_cjk(a),
        b.len() >= 2,
        forall|i: int| 0 <= i < b.len() ==> ascii_alnum(#[trigger] b[i]),
        1 <= n <= a.len(),
    ensures
        tok_state_ascii((b + a).take(b.len() + n)) == (seq![b.map_values(|c: char| crate::text::ascii_lower(c))], a.take(n)),
    decreases n,
{
    let lb = b.map_values(|c: char| crate::text::ascii_lower(c));
    let ba = b + a;
    let k = b.len() + n;
    assert(ba.take(k).drop_last() =~= ba.take(k - 1));
    assert(ba.take(k).last() == a[n - 1]);
    assert(is_cjk_inner(a[n - 1]));
    if n == 1 {
        lemma_latin_run_state(b, b.len() as int);
        assert(b.take(b.len() as int) =~= b);
        assert(ba.take(k - 1) =~= b);
        assert(lb.take(b.len() as int) =~= lb);
        lemma_blen_ge_len(lb);
        assert(ascii_alnum(b[b.len() - 1]));
        lemma_ascii_lower_ascii(b[b.len() - 1]);
        assert(lb.last() == lb[b.len() - 1]);
        assert(Seq::<Seq<char>>::empty().push(lb) =~= seq![lb]);
        assert(Seq::<char>::empty().push(a[0]) =~= a.take(1));
    } else {
        lemma_ba_state(a, b, n - 1);
        assert(is_cjk_inner(a[n - 2]));
        assert(a.take(n - 1).last() == a[n - 2]);
        assert(a.take(n - 1).push(a[n - 1]) =~= a.take(n));
    }
}

/// Whether every character of `s` is ASCII or an ideograph of the basic CJK
/// block (as `is_cjk_inner` has it).
pub open spec fn ascii_or_cjk(s: Seq<char>) -> bool {
    forall|i: int| 0 <= i < s.len() ==> (s[i] as u32) < 128 || is_cjk_inner(s[i])
}

/// Splits mixed Chinese/Latin text into search tokens; on text of ASCII and
/// CJK ideographs the tokens are those of `tokenize_ascii_spec`.
pub fn tokenize_chinese(text: &str) -> (res: Vec<String>)
    ensures
        str_views(res@) == tokenize_spec(text@),
        crate::text::all_ascii(text@) ==> str_views(res@) == tokenize_ascii_spec(text@),
        ascii_or_cjk(text@) ==> str_views(res@) == tokenize_ascii_spec(text@),
{
    let mut tokens: Vec<String> = Vec::new();
    let mut cur: Vec<char> = Vec::new();
    let cs = chars_of(text);
    let mut i: usize = 0;
    while i < cs.len()
        invariant
            i <= cs.len(),
            cs@ == text@,
            (str_views(tokens@), cur@) == tok_state(cs@.take(i as int)),
            ascii_or_cjk(cs@.take(i as int)) ==> tok_state(cs@.take(i as int)) == tok_state_ascii(cs@.take(i as int)),
        decreases cs.len() - i,
    {
        let ch = cs[i];
        assert(cs@.take(i + 1).drop_last() =~= cs@.take(i as int));
        assert(cs@.take(i + 1).last() == ch);
        proof {
            if ascii_or_cjk(cs@.take(i + 1)) {
                assert(ascii_or_cjk(cs@.take(i as int))) by {
                    assert forall|k: int| 0 <= k < i implies (cs@.take(i as int)[k] as u32) < 128
                        || is_cjk_inner(cs@.take(i as int)[k]) by {
                        assert(cs@.take(i as int)[k] == cs@.take(i + 1)[k]);
                    }
                }
                assert((ch as u32) < 128 || is_cjk_inner(ch));
            }
        }
        if char_is_whitespace(ch) {
            flush_exec(&mut tokens, &mut cur, false);
        } else if (ch as u32) > 0x4E00 && (ch as u32) < 0x9FFF {
            if cur.len() > 0 && !is_chinese(cur[cur.len() - 1]) {
                flush_exec(&mut tokens, &mut cur, true);
            }
            cur.push(ch);
        } else if char_is_alphanumeric(ch) {
            if cur.len() > 0 && is_chinese(cur[cur.len() - 1]) {
                flush_exec(&mut tokens, &mut cur, true);
            }
            cur.push(char_to_lowercase_first(ch));
        } else {
            flush_exec(&mut tokens, &mut cur, false);
        }
        i = i + 1;
    }
    assert(cs@.take(cs.len() as int) =~= cs@);
    flush_exec(&mut tokens, &mut cur, false);
    tokens
}

} // verus!

verus! {

/// Start and end markers replaced by the ANSI codes for yellow and reset.
pub open spec fn highlight_spec(snippet: Seq<char>, start: Seq<char>, end: Seq<char>) -> Seq<char> {
    replace_spec(replace_spec(snippet, start, "\u{1b}[33m"@), end, "\u{1b}[0m"@)
}

/// Turns highlight markers into terminal colours.
pub fn highlight_snippet(snippet: &str, start_marker: &str, end_marker: &str) -> (res: String)
    ensures
        res@ == highlight_spec(snippet@, start_marker@, end_marker@),
{
    let a = replace_str(snippet, start_marker, "\u{1b}[33m");
    replace_str(a.as_str(), end_marker, "\u{1b}[0m")
}

/// Start and end markers removed.
pub open spec fn strip_markers_spec(snippet: Seq<char>, start: Seq<char>, end: Seq<char>) -> Seq<char> {
    replace_spec(replace_spec(snippet, start, Seq::empty()), end, Seq::empty())
}

/// Removes highlight markers.
pub fn strip_highlight_markers(snippet: &str, start_marker: &str, end_marker: &str) -> (res: String)
    ensures
        res@ == strip_markers_spec(snippet@, start_marker@, end_marker@),
{
    proof {
        reveal_strlit("");
    }
    assert(""@ =~= Seq::<char>::empty());
    let a = replace_str(snippet, start_marker, "");
    replace_str(a.as_str(), end_marker, "")
}

/// No character of `s` is `c`.
pub open spec fn lacks_char(s: Seq<char>, c: char) -> bool {
    forall|i: int| 0 <= i < s.len() ==> s[i] != c
}

proof fn lemma_replace_absent(s: Seq<char>, p: Seq<char>, r: Seq<char>)
    requires
        p.len() > 0,
        lacks_char(s, p[0]),
    ensures
        replace_spec(s, p, r) == s,
    decreases s.len(),
{
    if s.len() >= p.len() {
        assert(s.take(p.len() as int)[0] == s[0]);
        lemma_replace_absent(s.skip(1), p, r);
        assert(seq![s[0]] + s.skip(1) =~= s);
    }
}

proof fn lemma_replace_leading(s: Seq<char>, p: Seq<char>, r: Seq<char>)
    requires
        p.len() > 0,
    ensures
        replace_spec(p + s, p, r) == r + replace_spec(s, p, r),
{
    assert((p + s).take(p.len() as int) =~= p);
    assert((p + s).skip(p.len() as int) =~= s);
}

proof fn lemma_replace_trailing(s: Seq<char>, p: Seq<char>, r: Seq<char>)
    requires
        p.len() > 0,
        lacks_char(s, p[0]),
    ensures
        replace_spec(s + p, p, r) == s + r,
    decreases s.len(),
{
    if s.len() == 0 {
        assert(s + p =~= p + Seq::<char>::empty());
        lemma_replace_leading(Seq::<char>::empty(), p, r);
        assert(s + r =~= r);
        assert(r + Seq::<char>::empty() =~= r);
    } else {
        let t = s + p;
        assert(t.take(p.len() as int)[0] == s[0]);
        assert(t.skip(1) =~= s.skip(1) + p);
        lemma_replace_trailing(s.skip(1), p, r);
        assert(seq![s[0]] + (s.skip(1) + r) =~= s + r);
    }
}

/// Stripping the highlight markers undoes highlighting: for a text `s` with
/// neither `>` nor `<`, stripping `>>>s<<<` gives `s` back, and stripping
/// `s` itself leaves it unchanged.
pub proof fn law_strip_undoes_markers(s: Seq<char>)
    requires
        lacks_char(s, '>'),
        lacks_char(s, '<'),
    ensures
        strip_markers_spec(">>>"@ + s + "<<<"@, ">>>"@, "<<<"@) == s,
        strip_markers_spec(s, ">>>"@, "<<<"@) == s,
{
    reveal_strlit(">>>");
    reveal_strlit("<<<");
    let open = ">>>"@;
    let close = "<<<"@;
    let e = Seq::<char>::empty();
    assert(open + s + close =~= open + (s + close));
    lemma_replace_leading(s + close, open, e);
    assert(lacks_char(s + close, '>'));
    lemma_replace_absent(s + close, open, e);
    assert(e + (s + close) =~= s + close);
    lemma_replace_trailing(s, close, e);
    assert(s + e =~= s);
    lemma_replace_absent(s, open, e);
    lemma_replace_absent(s, close, e);
}

proof fn lemma_count_bound(s: Seq<char>, p: Seq<char>)
    ensures
        count_spec(s, p) <= s.len() + 1,
    decreases s.len(),
{
    if p.len() == 0 {
    } else if s.len() < p.len() {
    } else if s.take(p.len() as int) == p {
        lemma_count_bound(s.skip(p.len() as int), p);
    } else {
        lemma_count_bound(s.skip(1), p);
    }
}

/// The number of complete marker pairs: the smaller of the two marker counts.
pub open spec fn count_matches_spec(text: Seq<char>, start: Seq<char>, end: Seq<char>) -> int {
    let a = count_spec(text, start) as int;
    let b = count_spec(text, end) as int;
    if a < b { a } else { b }
}

/// Counts highlighted matches in a snippet. A string holds fewer than
/// `isize::MAX` bytes, hence fewer characters, so the counts fit in `i64`.
pub fn count_matches(text: &str, start_marker: &str, end_marker: &str) -> (res: i64)
    requires
        text@.len() < i64::MAX,
    ensures
        res == count_matches_spec(text@, start_marker@, end_marker@),
{
    let t = chars_of(text);
    let a = chars_of(start_marker);
    let b = chars_of(end_marker);
    proof {
        lemma_count_bound(text@, start_marker@);
        lemma_count_bound(text@, end_marker@);
    }
    let x = count_chars(t.as_slice(), a.as_slice());
    let y = count_chars(t.as_slice(), b.as_slice());
    let xs = x as i64;
    let ys = y as i64;
    if xs < ys { xs } else { ys }
}

/// `"<label>:<n>"` parts for the positive counts, joined by spaces in
/// parentheses, or `无详细分布` when no count is positive.
pub open spec fn field_distribution_spec(t: i64, a: i64, c: i64) -> Seq<char> {
    let p1: Seq<Seq<char>> = if t > 0 { seq!["标题:"@ + signed_dec_spec(t as int)] } else { seq![] };
    let p2: Seq<Seq<char>> = if a > 0 { seq!["作者:"@ + signed_dec_spec(a as int)] } else { seq![] };
    let p3: Seq<Seq<char>> = if c > 0 { seq!["内容:"@ + signed_dec_spec(c as int)] } else { seq![] };
    let parts = p1 + p2 + p3;
    if parts.len() == 0 {
        "无详细分布"@
    } else {
        "("@ + join_spec(parts, " "@) + ")"@
    }
}

fn labelled(label: &str, n: i64) -> (res: Vec<char>)
    ensures
        res@ == label@ + signed_dec_spec(n as int),
{
    let d = i64_to_dec(n);
    let s = concat(label, d.as_str());
    chars_of(s.as_str())
}

/// How the matches of a result spread over title, author and content.
pub fn build_field_distribution(title_m: i64, author_m: i64, content_m: i64) -> (res: String)
    ensures
        res@ == field_distribution_spec(title_m, author_m, content_m),
{
    let mut parts: Vec<Vec<char>> = Vec::new();
    if title_m > 0 {
        parts.push(labelled("标题:", title_m));
    }
    let ghost v1 = views(parts@);
    if author_m > 0 {
        parts.push(labelled("作者:", author_m));
    }
    let ghost v2 = views(parts@);
    if content_m > 0 {
        parts.push(labelled("内容:", content_m));
    }
    let ghost p1: Seq<Seq<char>> = if title_m > 0 { seq!["标题:"@ + signed_dec_spec(title_m as int)] } else { seq![] };
    let ghost p2: Seq<Seq<char>> = if author_m > 0 { seq!["作者:"@ + signed_dec_spec(author_m as int)] } else { seq![] };
    let ghost p3: Seq<Seq<char>> = if content_m > 0 { seq!["内容:"@ + signed_dec_spec(content_m as int)] } else { seq![] };
    assert(v1 =~= p1);
    assert(v2 =~= p1 + p2);
    assert(views(parts@) =~= p1 + p2 + p3);
    if parts.len() == 0 {
        "无详细分布".to_owned()
    } else {
        let sep = chars_of(" ");
        let j = join_chars(&parts, sep.as_slice());
        let js = from_chars(j.as_slice());
        let mut s = "(".to_owned();
        s.append(js.as_str());
        s.append(")");
        s
    }
}

/// Display name of a search field.
pub open spec fn field_display_name_spec(field: SearchField) -> Seq<char> {
    match field {
        SearchField::All => "全部字段"@,
        SearchField::Title => "标题"@,
        SearchField::Author => "作者"@,
        SearchField::Content => "内容"@,
    }
}

/// The Chinese display name of a search field.
pub fn field_display_name(field: SearchField) -> (res: String)
    ensures
        res@ == field_display_name_spec(field),
{
    match field {
        SearchField::All => "全部字段".to_owned(),
        SearchField::Title => "标题".to_owned(),
        SearchField::Author => "作者".to_owned(),
        SearchField::Content => "内容".to_owned(),
    }
}

/// The snippet shown for a search hit: one labelled line per field whose
/// snippet holds a `>>>` marker (content only if non-blank once markers are
/// stripped), or, if none, the first non-blank of content, title, else author.
pub open spec fn display_snippet_spec(title: Seq<char>, author: Seq<char>, content: Seq<char>) -> Seq<char> {
    let m = ">>>"@;
    let title_clean = strip_markers_spec(title, m, "<<<"@);
    let content_clean = strip_markers_spec(content, m, "<<<"@);
    let p1: Seq<Seq<char>> = if contains_spec(title, m) { seq!["[标题] "@ + title] } else { seq![] };
    let p2: Seq<Seq<char>> = if contains_spec(author, m) { seq!["[作者] "@ + author] } else { seq![] };
    let p3: Seq<Seq<char>> = if contains_spec(content, m) && trim_spec(content_clean).len() != 0 {
        seq!["[内容] "@ + content]
    } else {
        seq![]
    };
    let parts = p1 + p2 + p3;
    if parts.len() == 0 {
        if trim_spec(content_clean).len() != 0 {
            "[内容] "@ + content
        } else if trim_spec(title_clean).len() != 0 {
            "[标题] "@ + title
        } else {
            "[作者] "@ + author
        }
    } else {
        join_spec(parts, "\n"@)
    }
}

/// Builds the display snippet of a search hit from the per-field snippets.
pub fn build_display_snippet(title_snippet: &str, author_snippet: &str, content_snippet: &str) -> (res: String)
    ensures
        res@ == display_snippet_spec(title_snippet@, author_snippet@, content_snippet@),
{
    let title_clean = strip_highlight_markers(title_snippet, ">>>", "<<<");
    let content_clean = strip_highlight_markers(content_snippet, ">>>", "<<<");
    let title_blank = trim_str(title_clean.as_str()).as_str().is_empty();
    let content_blank = trim_str(content_clean.as_str()).as_str().is_empty();
    let mut parts: Vec<Vec<char>> = Vec::new();
    let in_title = contains_str(title_snippet, ">>>");
    let in_author = contains_str(author_snippet, ">>>");
    let in_content = contains_str(content_snippet, ">>>");
    if in_title {
        let s = concat("[标题] ", title_snippet);
        parts.push(chars_of(s.as_str()));
    }
    let ghost v1 = views(parts@);
    if in_author {
        let s = concat("[作者] ", author_snippet);
        parts.push(chars_of(s.as_str()));
    }
    let ghost v2 = views(parts@);
    if in_content && !content_blank {
        let s = concat("[内容] ", content_snippet);
        parts.push(chars_of(s.as_str()));
    }
    let ghost m = ">>>"@;
    let ghost p1: Seq<Seq<char>> = if contains_spec(title_snippet@, m) { seq!["[标题] "@ + title_snippet@] } else { seq![] };
    let ghost p2: Seq<Seq<char>> = if contains_spec(author_snippet@, m) { seq!["[作者] "@ + author_snippet@] } else { seq![] };
    let ghost p3: Seq<Seq<char>> = if contains_spec(content_snippet@, m) && trim_spec(content_clean@).len() != 0 {
        seq!["[内容] "@ + content_snippet@]
    } else {
        seq![]
    };
    assert(v1 =~= p1);
    assert(v2 =~= p1 + p2);
    assert(views(parts@) =~= p1 + p2 + p3);
    if parts.len() == 0 {
        if !content_blank {
            concat("[内容] ", content_snippet)
        } else if !title_blank {
            concat("[标题] ", title_snippet)
        } else {
            concat("[作者] ", author_snippet)
        }
    } else {
        let sep = chars_of("\n");
        let j = join_chars(&parts, sep.as_slice());
        from_chars(j.as_slice())
    }
}

} // verus!

verus! {

/// Queue contents after enqueuing `id`: appended unless already present.
pub open spec fn enqueue_spec(items: Seq<i64>, id: i64) -> Seq<i64> {
    if items.contains(id) { items } else { items.push(id) }
}

/// Book ids waiting for a full-text index update, flushed in batches.
pub struct IndexUpdateQueue {
    queue: Vec<i64>,
    batch_size: usize,
}

impl IndexUpdateQueue {
    /// The queued ids, oldest first.
    pub closed spec fn items(&self) -> Seq<i64> {
        self.queue@
    }

    /// The batch size the queue was made with.
    pub closed spec fn batch(&self) -> nat {
        self.batch_size as nat
    }

    #[verifier::type_invariant]
    spec fn wf(&self) -> bool {
        self.queue@.no_duplicates()
    }

    /// An empty queue that is ready once `batch_size` ids are waiting.
    pub fn new(batch_size: usize) -> (res: Self)
        ensures
            res.items() == Seq::<i64>::empty(),
            res.batch() == batch_size,
    {
        IndexUpdateQueue { queue: Vec::new(), batch_size }
    }

    /// Adds `book_id` unless it is already queued.
    pub fn enqueue(&mut self, book_id: i64)
        ensures
            final(self).items() == enqueue_spec(old(self).items(), book_id),
            final(self).items().no_duplicates(),
            final(self).batch() == old(self).batch(),
    {
        proof {
            use_type_invariant(&*self);
        }
        let mut i: usize = 0;
        let mut found = false;
        while i < self.queue.len()
            invariant
                i <= self.queue.len(),
                found == exists|k: int| 0 <= k < i && self.queue@[k] == book_id,
            decreases self.queue.len() - i,
        {
            if self.queue[i] == book_id {
                found = true;
            }
            i = i + 1;
        }
        if !found {
            let ghost q = self.queue@;
            assert(!q.contains(book_id));
            assert(q.push(book_id).no_duplicates()) by {
                assert forall|a: int, b: int| 0 <= a < q.len() + 1 && 0 <= b < q.len() + 1 && a != b
                    implies q.push(book_id)[a] != q.push(book_id)[b] by {
                    if a == q.len() {
                        assert(q[b] == q.push(book_id)[b]);
                    } else if b == q.len() {
                        assert(q[a] == q.push(book_id)[a]);
                    }
                }
            }
            let mut q = self.queue.clone();
            q.push(book_id);
            self.queue = q;
        } else {
            let ghost k = choose|k: int| 0 <= k < i && self.queue@[k] == book_id;
            assert(self.queue@.contains(book_id));
        }
    }

    /// True once at least `batch_size` ids are waiting.
    pub fn is_ready(&self) -> (r: bool)
        ensures
            r == (self.items().len() >= self.batch()),
    {
        self.queue.len() >= self.batch_size
    }

    /// Takes all queued ids, oldest first, leaving the queue empty.
    pub fn drain(&mut self) -> (res: Vec<i64>)
        ensures
            res@ == old(self).items(),
            res@.no_duplicates(),
            final(self).items() == Seq::<i64>::empty(),
            final(self).batch() == old(self).batch(),
    {
        proof {
            use_type_invariant(&*self);
        }
        let items = self.queue.clone();
        self.queue = Vec::new();
        items
    }

    /// The number of queued ids.
    pub fn len(&self) -> (res: usize)
        ensures
            res == self.items().len(),
    {
        self.queue.len()
    }
}

/// Enqueuing an id that is already queued changes nothing: enqueuing twice is
/// the same as enqueuing once.
pub proof fn law_enqueue_idempotent(items: Seq<i64>, id: i64)
    ensures
        enqueue_spec(enqueue_spec(items, id), id) == enqueue_spec(items, id),
        enqueue_spec(items, id).contains(id),
{
    if !items.contains(id) {
        assert(items.push(id)[items.len() as int] == id);
    }
}

} // verus!

verus! {

/// The query of a full-text search, ranked by BM25 with highlighted snippets
/// of title, author and content, paged by the parameters `?1` (limit) and
/// `?2` (offset).
pub open spec fn fts_search_sql_spec(keyword: Seq<char>, field: SearchField) -> Seq<char> {
    "\n            SELECT\n                fts.rowid,\n                fts.title,\n                fts.author,\n                b.category,\n                b.word_count,\n                b.created_at,\n                bm25(books_fts) as rank,\n                snippet(books_fts, 0, '>>>', '<<<', '...', 32) as title_snippet,\n                snippet(books_fts, 1, '>>>', '<<<', '...', 32) as author_snippet,\n                snippet(books_fts, 2, '>>>', '<<<', '...', 32) as content_snippet\n            FROM books_fts as fts\n            JOIN books b ON fts.rowid = b.id\n            WHERE "@ + fts_match_expr_spec(keyword, field) + "\n            ORDER BY rank DESC\n            LIMIT ?1 OFFSET ?2\n            "@
}

/// The SQL of a full-text search for `keyword` in `field`.
pub fn fts_search_sql(keyword: &str, exact: bool, field: SearchField) -> (res: String)
    ensures
        res@ == fts_search_sql_spec(keyword@, field),
{
    let m = build_fts_match_expr(keyword, exact, field);
    let mut sql = "\n            SELECT\n                fts.rowid,\n                fts.title,\n                fts.author,\n                b.category,\n                b.word_count,\n                b.created_at,\n                bm25(books_fts) as rank,\n                snippet(books_fts, 0, '>>>', '<<<', '...', 32) as title_snippet,\n                snippet(books_fts, 1, '>>>', '<<<', '...', 32) as author_snippet,\n                snippet(books_fts, 2, '>>>', '<<<', '...', 32) as content_snippet\n            FROM books_fts as fts\n            JOIN books b ON fts.rowid = b.id\n            WHERE ".to_owned();
    sql.append(m.as_str());
    sql.append("\n            ORDER BY rank DESC\n            LIMIT ?1 OFFSET ?2\n            ");
    sql
}

/// The SQL counting the books a full-text search for `keyword` finds (in
/// all fields).
pub fn fts_count_sql(keyword: &str, exact: bool) -> (res: String)
    ensures
        res@ == "SELECT COUNT(*) FROM books_fts as fts WHERE "@ + fts_match_expr_spec(keyword@, SearchField::All),
{
    let m = build_fts_match_expr(keyword, exact, SearchField::All);
    concat("SELECT COUNT(*) FROM books_fts as fts WHERE ", m.as_str())
}

/// One book a full-text search found, without its relevance score (which
/// the caller computes from the rank).
#[derive(Debug, Clone)]
pub struct SearchHit {
    pub book_id: i64,
    pub title: String,
    pub author: String,
    pub category: String,
    pub word_count: i64,
    pub created_at: i64,
    pub title_matches: i64,
    pub author_matches: i64,
    pub content_matches: i64,
    pub snippet: String,
}

/// A search hit from one row of the search query: title and author with the
/// markers `>>>`/`<<<` removed, the markers counted per field, and the
/// display snippet highlighted.
pub fn search_hit(
    book_id: i64,
    title: &str,
    author: &str,
    category: &str,
    word_count: i64,
    created_at: i64,
    title_snippet: &str,
    author_snippet: &str,
    content_snippet: &str,
) -> (res: SearchHit)
    requires
        title_snippet@.len() < i64::MAX,
        author_snippet@.len() < i64::MAX,
        content_snippet@.len() < i64::MAX,
    ensures
        res.book_id == book_id,
        res.title@ == strip_markers_spec(title@, ">>>"@, "<<<"@),
        res.author@ == strip_markers_spec(author@, ">>>"@, "<<<"@),
        res.category@ == category@,
        res.word_count == word_count,
        res.created_at == created_at,
        res.title_matches == count_matches_spec(title_snippet@, ">>>"@, "<<<"@),
        res.author_matches == count_matches_spec(author_snippet@, ">>>"@, "<<<"@),
        res.content_matches == count_matches_spec(content_snippet@, ">>>"@, "<<<"@),
        res.snippet@ == highlight_spec(
            display_snippet_spec(title_snippet@, author_snippet@, content_snippet@),
            ">>>"@,
            "<<<"@,
        ),
{
    let snippet = build_display_snippet(title_snippet, author_snippet, content_snippet);
    SearchHit {
        book_id,
        title: strip_highlight_markers(title, ">>>", "<<<"),
        author: strip_highlight_markers(author, ">>>", "<<<"),
        category: category.to_owned(),
        word_count,
        created_at,
        title_matches: count_matches(title_snippet, ">>>", "<<<"),
        author_matches: count_matches(author_snippet, ">>>", "<<<"),
        content_matches: count_matches(content_snippet, ">>>", "<<<"),
        snippet: highlight_snippet(snippet.as_str(), ">>>", "<<<"),
    }
}

} // verus!
