//! Content decryption: RC4, index-array reordering of scrambled sections, and
//! the AES-128-CBC scheme used by the site.

use vstd::prelude::*;
use vstd::string::*;
use vstd::utf8::{decode_utf8, encode_utf8, valid_utf8};
use crate::error::SpiderError;
use crate::ext::{
    base64_decode, base64_result, from_utf8, html_inner_htmls, regex_pieces, regex_replace_all,
    regex_replaced, regex_split, select_inner_htmls, str_bytes,
};
use crate::numfmt::{parse_i64, parse_i64_spec};
use crate::text::{replace_spec, replace_str, split_spec, split_str, str_views, trim_spec, trim_str};

verus! {

/// `s` with the entries at `a` and `b` exchanged.
pub open spec fn swap_spec(s: Seq<u8>, a: int, b: int) -> Seq<u8> {
    s.update(a, s[b]).update(b, s[a])
}

/// RC4 key scheduling after `n` of its 256 rounds: (permutation, j).
pub open spec fn ksa(key: Seq<u8>, n: nat) -> (Seq<u8>, nat)
    decreases n,
{
    if n == 0 {
        (Seq::new(256, |i: int| i as u8), 0)
    } else {
        let (s, j) = ksa(key, (n - 1) as nat);
        let i = n - 1;
        let j2 = ((j + s[i] + key[i % (key.len() as int)]) % 256) as nat;
        (swap_spec(s, i, j2 as int), j2)
    }
}

/// RC4 generator state after producing `n` bytes: (permutation, i, j).
pub open spec fn prga(key: Seq<u8>, n: nat) -> (Seq<u8>, nat, nat)
    decreases n,
{
    if n == 0 {
        (ksa(key, 256).0, 0, 0)
    } else {
        let (s, i, j) = prga(key, (n - 1) as nat);
        let i2 = ((i + 1) % 256) as nat;
        let j2 = ((j + s[i2 as int]) % 256) as nat;
        (swap_spec(s, i2 as int, j2 as int), i2, j2)
    }
}

/// The `k`-th RC4 keystream byte for `key`.
pub open spec fn keystream(key: Seq<u8>, k: nat) -> u8 {
    let (s, i, j) = prga(key, k + 1);
    s[((s[i as int] + s[j as int]) % 256) as int]
}

/// RC4 applied to `msg`: each byte XORed with the keystream byte at its position.
pub open spec fn rc4_spec(msg: Seq<u8>, key: Seq<u8>) -> Seq<u8> {
    Seq::new(msg.len(), |k: int| msg[k] ^ keystream(key, k as nat))
}

proof fn lemma_ksa_len(key: Seq<u8>, n: nat)
    requires
        key.len() > 0,
        n <= 256,
    ensures
        ksa(key, n).0.len() == 256,
        ksa(key, n).1 < 256,
    decreases n,
{
    if n > 0 {
        lemma_ksa_len(key, (n - 1) as nat);
    }
}

proof fn lemma_prga_len(key: Seq<u8>, n: nat)
    requires
        key.len() > 0,
    ensures
        prga(key, n).0.len() == 256,
        prga(key, n).1 < 256,
        prga(key, n).2 < 256,
    decreases n,
{
    if n == 0 {
        lemma_ksa_len(key, 256);
    } else {
        lemma_prga_len(key, (n - 1) as nat);
    }
}

fn swap_exec(s: &mut Vec<u8>, a: usize, b: usize)
    requires
        a < old(s)@.len(),
        b < old(s)@.len(),
    ensures
        final(s)@ == swap_spec(old(s)@, a as int, b as int),
{
    let x = s[a];
    let y = s[b];
    s.set(a, y);
    s.set(b, x);
}

/// RC4 over `ciphertext` with `key` (encryption and decryption are the same
/// operation). The key must be non-empty.
pub fn rc4_decrypt_bytes(ciphertext: &[u8], key: &[u8]) -> (res: Vec<u8>)
    requires
        key@.len() > 0,
    ensures
        res@ == rc4_spec(ciphertext@, key@),
{
    let mut s: Vec<u8> = Vec::new();
    let mut n: usize = 0;
    while n < 256
        invariant
            n <= 256,
            s@ == Seq::new(n as nat, |i: int| i as u8),
        decreases 256 - n,
    {
        s.push(n as u8);
        n = n + 1;
    }
    assert(s@ == ksa(key@, 0).0);
    let mut j: usize = 0;
    let mut i: usize = 0;
    while i < 256
        invariant
            i <= 256,
            key@.len() > 0,
            (s@, j as nat) == ksa(key@, i as nat),
        decreases 256 - i,
    {
        proof {
            lemma_ksa_len(key@, i as nat);
        }
        j = (j + s[i] as usize + key[i % key.len()] as usize) % 256;
        swap_exec(&mut s, i, j);
        i = i + 1;
    }
    assert(s@ == prga(key@, 0).0);
    let mut pi: usize = 0;
    let mut pj: usize = 0;
    let mut result: Vec<u8> = Vec::new();
    let mut k: usize = 0;
    while k < ciphertext.len()
        invariant
            k <= ciphertext.len(),
            key@.len() > 0,
            (s@, pi as nat, pj as nat) == prga(key@, k as nat),
            result@ == rc4_spec(ciphertext@, key@).take(k as int),
        decreases ciphertext.len() - k,
    {
        proof {
            lemma_prga_len(key@, k as nat);
            lemma_prga_len(key@, (k + 1) as nat);
        }
        pi = (pi + 1) % 256;
        pj = (pj + s[pi] as usize) % 256;
        swap_exec(&mut s, pi, pj);
        let kb = s[(s[pi] as usize + s[pj] as usize) % 256];
        result.push(ciphertext[k] ^ kb);
        assert(result@ =~= rc4_spec(ciphertext@, key@).take(k + 1));
        k = k + 1;
    }
    assert(result@ =~= rc4_spec(ciphertext@, key@));
    result
}

/// RC4 is an involution: applying it twice with the same key gives back the
/// message.
pub proof fn law_rc4_roundtrip(msg: Seq<u8>, key: Seq<u8>)
    ensures
        rc4_spec(rc4_spec(msg, key), key) == msg,
{
    let once = rc4_spec(msg, key);
    let twice = rc4_spec(once, key);
    assert forall|k: int| 0 <= k < msg.len() implies twice[k] == msg[k] by {
        let b = msg[k];
        let x = keystream(key, k as nat);
        assert((b ^ x) ^ x == b) by (bit_vector);
    }
    assert(twice =~= msg);
}

} // verus!

verus! {

/// Lowercase hex of a byte string, two digits per byte (`{:x}` of a digest).
pub open spec fn hex_bytes_spec(b: Seq<u8>) -> Seq<char>
    decreases b.len(),
{
    if b.len() == 0 {
        Seq::empty()
    } else {
        hex_bytes_spec(b.drop_last()) + seq![
            crate::numfmt::digit_char((b.last() / 16) as nat),
            crate::numfmt::digit_char((b.last() % 16) as nat),
        ]
    }
}

/// Lowercase hex of a byte string as ASCII bytes.
pub open spec fn hex_ascii_spec(b: Seq<u8>) -> Seq<u8> {
    hex_bytes_spec(b).map_values(|c: char| c as u8)
}

fn hex_ascii(b: &[u8]) -> (res: Vec<u8>)
    ensures
        res@ == hex_ascii_spec(b@),
        res@.len() == 2 * b@.len(),
{
    let mut out: Vec<u8> = Vec::new();
    let mut i: usize = 0;
    while i < b.len()
        invariant
            i <= b.len(),
            out@ == hex_ascii_spec(b@.take(i as int)),
            out@.len() == 2 * i,
        decreases b.len() - i,
    {
        let x = b[i];
        let hi = crate::numfmt::digit_char_exec((x / 16) as u64);
        let lo = crate::numfmt::digit_char_exec((x % 16) as u64);
        let ghost before = out@;
        out.push(hi as u8);
        out.push(lo as u8);
        proof {
            let t = b@.take(i + 1);
            assert(t.drop_last() =~= b@.take(i as int));
            assert(hex_bytes_spec(t) == hex_bytes_spec(b@.take(i as int)) + seq![hi, lo]);
            assert(out@ =~= hex_ascii_spec(t));
        }
        i = i + 1;
    }
    assert(b@.take(b.len() as int) =~= b@);
    out
}

/// `md5(code)` as 32 lowercase hex digits: the first 16 are the IV, the last
/// 16 the key.
pub open spec fn code_iv(code: Seq<u8>) -> Seq<u8> {
    hex_ascii_spec(crate::ext::md5_of(code)).take(16)
}

/// The key half of the hex MD5 digest of `code`.
pub open spec fn code_key(code: Seq<u8>) -> Seq<u8> {
    hex_ascii_spec(crate::ext::md5_of(code)).skip(16)
}

/// Outcome of the site's AES scheme: base64-decode `cipher_text`, then
/// AES-128-CBC/PKCS#7 decrypt with the key and IV derived from `md5(code)`;
/// on failure, the detail of the decoding error.
pub open spec fn aes_scheme_spec(cipher_text: Seq<u8>, code: Seq<u8>) -> Result<Seq<u8>, Seq<char>> {
    match crate::ext::base64_result(cipher_text) {
        Err(e) => Err("base64 decode: "@ + e),
        Ok(ct) => match crate::ext::aes_cbc_decrypted(code_key(code), code_iv(code), ct) {
            Some(pt) => Ok(pt),
            None => Err("invalid AES padding"@),
        },
    }
}

fn bytes16(v: &Vec<u8>, lo: usize) -> (res: [u8; 16])
    requires
        lo + 16 <= v@.len(),
    ensures
        res@ == v@.subrange(lo as int, lo + 16),
{
    let mut a: [u8; 16] = [0u8; 16];
    let mut i: usize = 0;
    while i < 16
        invariant
            i <= 16,
            lo + 16 <= v.len(),
            a@.len() == 16,
            forall|k: int| 0 <= k < i ==> a@[k] == v@[lo + k],
        decreases 16 - i,
    {
        let idx: usize = lo + i;
        a[i] = v[idx];
        i = i + 1;
    }
    assert(a@ =~= v@.subrange(lo as int, lo + 16));
    a
}

/// Decrypts a section encrypted with the site's AES scheme (`secret(cipher,
/// code)`): base64-decode the ciphertext, derive IV and key from the hex MD5 of
/// `code`, and AES-128-CBC decrypt with PKCS#7 padding.
pub fn decrpyt_aes_128_cbc(cipher_text: &[u8], code: &[u8]) -> (res: Result<Vec<u8>, SpiderError>)
    ensures
        match res {
            Ok(v) => aes_scheme_spec(cipher_text@, code@) == Ok::<Seq<u8>, Seq<char>>(v@),
            Err(SpiderError::DecodingError(m)) => aes_scheme_spec(cipher_text@, code@) == Err::<Seq<u8>, Seq<char>>(m@),
            Err(_) => false,
        },
{
    let digest = crate::ext::md5_digest(code);
    let hex = hex_ascii(&digest);
    let iv = bytes16(&hex, 0);
    let key = bytes16(&hex, 16);
    assert(iv@ =~= code_iv(code@));
    assert(key@ =~= code_key(code@));
    let ct = match crate::ext::base64_decode(cipher_text) {
        Ok(v) => v,
        Err(e) => {
            return Err(SpiderError::DecodingError(crate::text::concat("base64 decode: ", e.as_str())));
        },
    };
    match crate::ext::aes128_cbc_decrypt(&key, &iv, ct.as_slice()) {
        Some(pt) => Ok(pt),
        None => Err(SpiderError::DecodingError("invalid AES padding".to_owned())),
    }
}

/// The fixed demonstration key of `encrypt` and `decrypt`.
pub open spec fn demo_key() -> Seq<u8> {
    seq![97u8, 98, 99, 100, 101, 100, 103, 104, 105, 106, 107, 108, 109, 110, 111, 112]
}

fn demo_key_bytes() -> (res: [u8; 16])
    ensures
        res@ == demo_key(),
{
    let k: [u8; 16] = [97u8, 98, 99, 100, 101, 100, 103, 104, 105, 106, 107, 108, 109, 110, 111, 112];
    assert(k@ =~= demo_key());
    k
}

/// Encrypts `plain` (shorter than 48 bytes) with AES-128-CBC under the demo key
/// and a fresh random IV; returns the ciphertext and the IV. Decrypting with
/// the same IV gives `plain` back.
pub fn encrypt(plain: &[u8]) -> (res: (Vec<u8>, [u8; 16]))
    requires
        plain@.len() < 48,
    ensures
        res.0@ == crate::ext::aes_cbc_encrypted(demo_key(), res.1@, plain@),
        res.0@.len() <= 48,
        crate::ext::aes_cbc_decrypted(demo_key(), res.1@, res.0@) == Some(plain@),
{
    let iv = crate::ext::os_random_16();
    let key = demo_key_bytes();
    let ct = crate::ext::aes128_cbc_encrypt(&key, &iv, plain);
    assert(plain@.len() / 16 <= 2);
    (ct, iv)
}

/// Decrypts `cipher` (at most 48 bytes, valid under the demo key and `iv`).
pub fn decrypt(cipher: &[u8], iv: [u8; 16]) -> (res: Vec<u8>)
    requires
        cipher@.len() <= 48,
        crate::ext::aes_cbc_decrypted(demo_key(), iv@, cipher@) is Some,
    ensures
        crate::ext::aes_cbc_decrypted(demo_key(), iv@, cipher@) == Some(res@),
{
    let key = demo_key_bytes();
    match crate::ext::aes128_cbc_decrypt(&key, &iv, cipher) {
        Some(pt) => pt,
        None => Vec::new(),
    }
}

/// Decryption undoes encryption: for the ciphertext and IV `encrypt` returns
/// for `plain`, the bytes `decrypt` returns for them are `plain` (each side
/// stated by the contract of that function).
pub proof fn law_decrypt_undoes_encrypt(plain: Seq<u8>, cipher: Seq<u8>, iv: Seq<u8>, out: Seq<u8>)
    requires
        crate::ext::aes_cbc_decrypted(demo_key(), iv, cipher) == Some(plain),
        crate::ext::aes_cbc_decrypted(demo_key(), iv, cipher) == Some(out),
    ensures
        out == plain,
{
}

/// `decrypt` for any input: `None` where `decrypt` does not apply (input longer
/// than 48 bytes, or not a valid ciphertext under the demo key and `iv`).
pub fn decrypt_checked(cipher: &[u8], iv: [u8; 16]) -> (res: Option<Vec<u8>>)
    ensures
        match res {
            Some(v) => cipher@.len() <= 48 && crate::ext::aes_cbc_decrypted(demo_key(), iv@, cipher@) == Some(v@),
            None => cipher@.len() > 48 || crate::ext::aes_cbc_decrypted(demo_key(), iv@, cipher@) is None,
        },
{
    if cipher.len() > 48 {
        return None;
    }
    let key = demo_key_bytes();
    match crate::ext::aes128_cbc_decrypt(&key, &iv, cipher) {
        Some(_) => Some(decrypt(cipher, iv)),
        None => None,
    }
}

} // verus!

verus! {

/// `ns` decoded: standard base64 over its UTF-8 bytes, the result read as UTF-8.
pub open spec fn decode_ns_spec(ns: Seq<char>) -> Option<Seq<char>> {
    match base64_result(encode_utf8(ns)) {
        Ok(b) => if valid_utf8(b) { Some(decode_utf8(b)) } else { None },
        Err(_) => None,
    }
}

/// Decodes the `ns` value of a section page: base64, then UTF-8. `None` when
/// either step fails.
pub fn decode_ns(ns: &str) -> (res: Option<String>)
    ensures
        match res {
            Some(s) => decode_ns_spec(ns@) == Some(s@),
            None => decode_ns_spec(ns@) is None,
        },
{
    let bytes = str_bytes(ns);
    match base64_decode(bytes.as_slice()) {
        Ok(b) => from_utf8(b),
        Err(_) => None,
    }
}

/// The pieces that hold more than white space, in order.
pub open spec fn nonblank(pieces: Seq<Seq<char>>) -> Seq<Seq<char>>
    decreases pieces.len(),
{
    if pieces.len() == 0 {
        Seq::empty()
    } else {
        let r = nonblank(pieces.drop_last());
        if trim_spec(pieces.last()).len() > 0 { r.push(pieces.last()) } else { r }
    }
}

/// `x` wrapped into the range of `i64` (two's complement), as `i64::wrapping_sub`
/// gives it.
pub open spec fn wrap_i64(x: int) -> int {
    if x > i64::MAX {
        x - 0x1_0000_0000_0000_0000
    } else if x < i64::MIN {
        x + 0x1_0000_0000_0000_0000
    } else {
        x
    }
}

/// The text after the first `n` reordering steps: step `i` (from 1) parses
/// `indices[i]`, and appends segment `indices[i] - base` when that is a valid
/// position; a step past the end of `indices` appends nothing. `None` once an
/// index does not parse.
pub open spec fn reorder_acc(indices: Seq<Seq<char>>, base: int, segs: Seq<Seq<char>>, n: nat) -> Option<Seq<char>>
    decreases n,
{
    if n == 0 {
        Some(Seq::empty())
    } else {
        match reorder_acc(indices, base, segs, (n - 1) as nat) {
            None => None,
            Some(acc) => if n >= indices.len() {
                Some(acc)
            } else {
                match parse_i64_spec(indices[n as int]) {
                    Err(_) => None,
                    Ok(v) => {
                        let d = wrap_i64(v - base);
                        if 0 <= d < segs.len() { Some(acc + segs[d]) } else { Some(acc) }
                    },
                }
            },
        }
    }
}

/// Reordering of the non-blank `pieces` by the index list `indices`: the first
/// entry is the base, the next ones (one per non-blank piece) pick the pieces.
pub open spec fn reorder_spec(indices: Seq<Seq<char>>, pieces: Seq<Seq<char>>) -> Option<Seq<char>> {
    if indices.len() < 2 {
        None
    } else {
        match parse_i64_spec(indices[0]) {
            Err(_) => None,
            Ok(base) => {
                let segs = nonblank(pieces);
                reorder_acc(indices, base, segs, segs.len())
            },
        }
    }
}

proof fn lemma_reorder_none_stays(indices: Seq<Seq<char>>, base: int, segs: Seq<Seq<char>>, n: nat, m: nat)
    requires
        n <= m,
        reorder_acc(indices, base, segs, n) is None,
    ensures
        reorder_acc(indices, base, segs, m) is None,
    decreases m - n,
{
    if n < m {
        lemma_reorder_none_stays(indices, base, segs, n, (m - 1) as nat);
    }
}

/// Keeps the pieces that are not blank.
fn keep_nonblank(pieces: &Vec<String>) -> (res: Vec<String>)
    ensures
        str_views(res@) == nonblank(str_views(pieces@)),
{
    let mut out: Vec<String> = Vec::new();
    let mut i: usize = 0;
    while i < pieces.len()
        invariant
            i <= pieces.len(),
            str_views(out@) == nonblank(str_views(pieces@).take(i as int)),
        decreases pieces.len() - i,
    {
        let ghost t = str_views(pieces@).take(i + 1);
        assert(t.drop_last() =~= str_views(pieces@).take(i as int));
        assert(t.last() == pieces@[i as int]@);
        let tr = trim_str(pieces[i].as_str());
        if !tr.as_str().is_empty() {
            let ghost before = out@;
            let p = pieces[i].clone();
            out.push(p);
            assert(str_views(out@) =~= str_views(before).push(pieces@[i as int]@));
        }
        i = i + 1;
    }
    assert(str_views(pieces@).take(pieces.len() as int) =~= str_views(pieces@));
    out
}

/// Reorders the scrambled pieces of a section: `indices` is the decoded index
/// list (base first), `pieces` the text between line breaks. Blank pieces are
/// dropped; then for each remaining piece, in turn, the next index picks the
/// piece at `index - base` (skipped when out of range, and nothing is picked
/// once the indices run out). `None` when there are fewer than two indices or
/// an index used is not an integer.
pub fn reorder_segments(indices: &Vec<String>, pieces: &Vec<String>) -> (res: Option<String>)
    ensures
        match res {
            Some(s) => reorder_spec(str_views(indices@), str_views(pieces@)) == Some(s@),
            None => reorder_spec(str_views(indices@), str_views(pieces@)) is None,
        },
{
    let ghost iv = str_views(indices@);
    if indices.len() < 2 {
        return None;
    }
    assert(iv[0] == indices@[0]@);
    let base = match parse_i64(indices[0].as_str()) {
        Ok(b) => b,
        Err(_) => return None,
    };
    let segs = keep_nonblank(pieces);
    let ghost sv = str_views(segs@);
    let total = segs.len();
    let mut result = String::new();
    let mut done: usize = 0;
    assert(reorder_acc(iv, base as int, sv, 0) == Some(Seq::<char>::empty()));
    while done < total
        invariant
            done <= total,
            total == segs.len(),
            iv == str_views(indices@),
            sv == str_views(segs@),
            sv == nonblank(str_views(pieces@)),
            iv.len() >= 2,
            parse_i64_spec(iv[0]) == Ok::<int, crate::numfmt::IntErrorKind>(base as int),
            reorder_acc(iv, base as int, sv, done as nat) == Some(result@),
        decreases total - done,
    {
        let i = done + 1;
        if i < indices.len() {
            assert(iv[i as int] == indices@[i as int]@);
            let v = match parse_i64(indices[i].as_str()) {
                Ok(v) => v,
                Err(_) => {
                    assert(reorder_acc(iv, base as int, sv, i as nat) is None);
                    proof {
                        lemma_reorder_none_stays(iv, base as int, sv, i as nat, total as nat);
                    }
                    assert(reorder_spec(iv, str_views(pieces@)) == reorder_acc(iv, base as int, sv, total as nat));
                    return None;
                },
            };
            let d = v.wrapping_sub(base);
            let ghost w = wrap_i64(v - base);
            assert(d as int == w);
            let ghost before = result@;
            if d >= 0 && (d as u64) < (segs.len() as u64) {
                let k = d as usize;
                assert(k as int == w);
                assert(sv[k as int] == segs@[k as int]@);
                result.append(segs[k].as_str());
                assert(result@ == before + sv[w]);
            }
        }
        assert(reorder_acc(iv, base as int, sv, i as nat) == Some(result@));
        done = i;
    }
    assert(reorder_spec(iv, str_views(pieces@)) == reorder_acc(iv, base as int, sv, total as nat));
    Some(result)
}

/// The HTML entities the section text may hold, decoded in this order:
/// `&nbsp;`, `&lt;`, `&gt;`, `&amp;`, `&quot;`, `&#39;`.
pub open spec fn decode_entities_spec(s: Seq<char>) -> Seq<char> {
    let a = replace_spec(s, "&nbsp;"@, " "@);
    let b = replace_spec(a, "&lt;"@, "<"@);
    let c = replace_spec(b, "&gt;"@, ">"@);
    let d = replace_spec(c, "&amp;"@, "&"@);
    let e = replace_spec(d, "&quot;"@, "\""@);
    replace_spec(e, "&#39;"@, "'"@)
}

/// Decodes the six HTML entities of `decode_entities_spec`, one after another.
pub fn decode_entities(s: &str) -> (res: String)
    ensures
        res@ == decode_entities_spec(s@),
{
    let a = replace_str(s, "&nbsp;", " ");
    let b = replace_str(a.as_str(), "&lt;", "<");
    let c = replace_str(b.as_str(), "&gt;", ">");
    let d = replace_str(c.as_str(), "&amp;", "&");
    let e = replace_str(d.as_str(), "&quot;", "\"");
    replace_str(e.as_str(), "&#39;", "'")
}

/// The plain text of a scrambled section page: decode `ns` into the index
/// list, take the inner HTML of the first element whose id starts with
/// `chapter`, drop `[...]` marks, split at `<br>`, reorder, strip the
/// remaining tags and decode entities.
pub open spec fn decrypt_section_spec(html: Seq<char>, ns: Seq<char>) -> Option<Seq<char>> {
    match decode_ns_spec(ns) {
        None => None,
        Some(list) => {
            let indices = split_spec(list, ","@);
            let inner = html_inner_htmls(html, "[id^=\"chapter\"]"@);
            if indices.len() < 2 || parse_i64_spec(indices[0]) is Err || inner.len() == 0 {
                None
            } else {
                let cleaned = regex_replaced("\\[.*?\\]"@, inner[0], ""@);
                let pieces = regex_pieces("<br\\s*/?>"@, cleaned);
                match reorder_spec(indices, pieces) {
                    None => None,
                    Some(joined) => Some(decode_entities_spec(regex_replaced("<[^>]*>"@, joined, ""@))),
                }
            }
        },
    }
}

/// Recovers the text of a section scrambled with an index list (`var ns=...`).
/// `None` when `ns` does not decode, the list is too short or malformed, or
/// the page has no chapter element.
pub fn decrypt_section_data(html: &str, ns: &str) -> (res: Option<String>)
    ensures
        match res {
            Some(s) => decrypt_section_spec(html@, ns@) == Some(s@),
            None => decrypt_section_spec(html@, ns@) is None,
        },
{
    let list = match decode_ns(ns) {
        Some(l) => l,
        None => return None,
    };
    proof {
        reveal_strlit(",");
    }
    let indices = split_str(list.as_str(), ",");
    if indices.len() < 2 {
        return None;
    }
    assert(str_views(indices@)[0] == indices@[0]@);
    if parse_i64(indices[0].as_str()).is_err() {
        return None;
    }
    let inner = select_inner_htmls(html, "[id^=\"chapter\"]");
    if inner.len() == 0 {
        return None;
    }
    assert(inner@.map_values(|x: String| x@)[0] == inner@[0]@);
    let cleaned = regex_replace_all("\\[.*?\\]", inner[0].as_str(), "");
    let pieces = regex_split("<br\\s*/?>", cleaned.as_str());
    assert(str_views(pieces@) =~= pieces@.map_values(|x: String| x@));
    let joined = match reorder_segments(&indices, &pieces) {
        Some(j) => j,
        None => return None,
    };
    let plain = regex_replace_all("<[^>]*>", joined.as_str(), "");
    Some(decode_entities(plain.as_str()))
}

} // verus!
