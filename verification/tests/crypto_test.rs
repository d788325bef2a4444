use base64::Engine;
use cipher::{BlockEncryptMut, KeyIvInit};
use banzhu_spider::crypto::{
    decode_entities, decode_ns, decrpyt_aes_128_cbc, decrypt, decrypt_checked, decrypt_section_data,
    encrypt, rc4_decrypt_bytes, reorder_segments,
};
use banzhu_spider::error::SpiderError;

#[test]
fn test_rc4_roundtrip() {
    let key = b"test_key";
    let msg = b"hello world";
    let encrypted = rc4_decrypt_bytes(msg, key);
    let decrypted = rc4_decrypt_bytes(&encrypted, key);
    assert_eq!(decrypted, msg);
}

#[test]
fn test_decode_ns_simple() {
    let result = decode_ns("Miw1LDEsMyw0");
    assert_eq!(result, Some("2,5,1,3,4".to_string()));
}

#[test]
fn test_decode_ns_single_digit() {
    let result = decode_ns("MSwzLDI=");
    assert_eq!(result, Some("1,3,2".to_string()));
}

#[test]
fn test_decrypt_section_simple() {
    let html = r#"<html><body>
            <div id="chapter1">
                [/a]段落一[/b][/c]<br>[/d]段落二<br>段落三
            </div>
        </body></html>"#;
    let ns = "MSwzLDI=";
    let result = decrypt_section_data(html, ns);
    assert!(result.is_some());
}

#[test]
fn test_aes() {
    let plain = b"This is not a password";
    let (ct, iv) = encrypt(plain);
    let pt = decrypt(&ct, iv);
    assert_eq!(plain.to_vec(), pt);
}

#[test]
fn rc4_known_vector() {
    let out = rc4_decrypt_bytes(b"Plaintext", b"Key");
    assert_eq!(out, vec![0xBB, 0xF3, 0x16, 0xE8, 0xD9, 0x40, 0xAF, 0x0A, 0xD3]);
}

#[test]
fn decrypt_section_reorders_pieces() {
    let html = r#"<div id="chapter1">[/a]一[/b]<br>二<br/>三</div>"#;
    // base 1, then pieces 3, 1, 2
    let ns = "MSwzLDEsMg==";
    assert_eq!(decrypt_section_data(html, ns), Some("三一二".to_string()));
    assert_eq!(decrypt_section_data("<p>none</p>", ns), None);
    assert_eq!(decrypt_section_data(html, "%%%"), None);
}

#[test]
fn reorder_stops_when_indices_run_out() {
    let idx = vec!["10".to_string(), "12".to_string()];
    let pieces = vec!["a".to_string(), "  ".to_string(), "b".to_string(), "c".to_string()];
    assert_eq!(reorder_segments(&idx, &pieces), Some("c".to_string()));
    let bad = vec!["x".to_string(), "1".to_string()];
    assert_eq!(reorder_segments(&bad, &pieces), None);
    let short = vec!["1".to_string()];
    assert_eq!(reorder_segments(&short, &pieces), None);
}

#[test]
fn entities_are_decoded_in_order() {
    assert_eq!(decode_entities("&amp;lt;&nbsp;&#39;&quot;"), "&lt; '\"");
}

#[test]
fn aes_scheme_reports_bad_base64() {
    match decrpyt_aes_128_cbc(b"!!!", b"code") {
        Err(SpiderError::DecodingError(m)) => assert!(m.starts_with("base64 decode: ")),
        _ => panic!("expected a decoding error"),
    }
}

#[test]
fn decrypt_checked_rejects_long_input() {
    let (ct, iv) = encrypt(b"abc");
    assert_eq!(decrypt_checked(&ct, iv), Some(b"abc".to_vec()));
    assert_eq!(decrypt_checked(&[0u8; 64], iv), None);
}

fn site_cipher(plain: &[u8], code: &str) -> String {
    let hex = format!("{:x}", md5::compute(code.as_bytes()));
    let iv = &hex.as_bytes()[..16];
    let key = &hex.as_bytes()[16..];
    let ct = cbc::Encryptor::<aes::Aes128>::new_from_slices(key, iv)
        .unwrap()
        .encrypt_padded_vec_mut::<cipher::block_padding::Pkcs7>(plain);
    base64::engine::general_purpose::STANDARD.encode(ct)
}

#[test]
fn aes_scheme_decrypts_site_text() {
    let ct = site_cipher("第一章 正文".as_bytes(), "k3y");
    assert_eq!(decrpyt_aes_128_cbc(ct.as_bytes(), b"k3y").unwrap(), "第一章 正文".as_bytes().to_vec());
    match decrpyt_aes_128_cbc(ct.as_bytes(), b"other") {
        Err(SpiderError::DecodingError(m)) => assert_eq!(m, "invalid AES padding"),
        Ok(v) => assert_ne!(v, "第一章 正文".as_bytes().to_vec()),
        _ => panic!("expected a decoding error"),
    }
}
