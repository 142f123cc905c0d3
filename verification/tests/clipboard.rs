use prowl::clipboard::{base64, osc52};

const ALPHABET: &[u8; 64] = b"ABCDEFGHIJKLMNOPQRSTUVWXYZabcdefghijklmnopqrstuvwxyz0123456789+/";

/// Decodes standard base64 with padding.
fn decode(encoded: &str) -> Vec<u8> {
    let bits = encoded
        .chars()
        .filter(|c| *c != '=')
        .fold(String::new(), |mut acc, c| {
            let i = ALPHABET.iter().position(|a| *a as char == c).unwrap();
            acc.push_str(&format!("{i:06b}"));
            acc
        });
    bits.as_bytes()
        .chunks(8)
        .filter(|c| c.len() == 8)
        .map(|c| u8::from_str_radix(std::str::from_utf8(c).unwrap(), 2).unwrap())
        .collect()
}

#[test]
fn base64_matches_the_standard_padding() {
    assert_eq!(base64(b""), "");
    assert_eq!(base64(b"f"), "Zg==");
    assert_eq!(base64(b"fo"), "Zm8=");
    assert_eq!(base64(b"foo"), "Zm9v");
    assert_eq!(base64(b"foob"), "Zm9vYg==");
    assert_eq!(base64(b"fooba"), "Zm9vYmE=");
    assert_eq!(base64(b"foobar"), "Zm9vYmFy");
    // The +/ end of the alphabet and a multi-byte character.
    assert_eq!(base64(&[0xff, 0xef, 0xbf]), "/++/");
    assert_eq!(base64("é".as_bytes()), "w6k=");
}

#[test]
fn base64_round_trips_a_markdown_list() {
    let list = "- https://github.com/o/r/pull/1\n- https://github.com/o/r/pull/2";
    let encoded = base64(list.as_bytes());
    assert!(!encoded.contains('\n'));
    // Decode with a tiny inverse to prove the encoder, not just its shape.
    assert_eq!(String::from_utf8(decode(&encoded)).unwrap(), list);
}

#[test]
fn every_byte_survives_the_round_trip() {
    let all: Vec<u8> = (0..=255u8).collect();
    for n in 0..all.len() {
        assert_eq!(decode(&base64(&all[..n])), all[..n].to_vec());
    }
}

#[test]
fn the_clipboard_escape_carries_the_encoded_text() {
    assert_eq!(osc52("foo"), "\x1b]52;c;Zm9v\x07");
    // The bytes of the text are encoded, not its characters.
    assert_eq!(osc52("é"), "\x1b]52;c;w6k=\x07");
    assert_eq!(osc52(""), "\x1b]52;c;\x07");
}
