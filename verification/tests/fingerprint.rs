use danmakuhub::api::{comment_uri, match_uri};
use danmakuhub::digest::{hex_lower, prefix_hash, prefix_range_header, PREFIX_LIMIT};

#[test]
fn hex_encoding_is_two_lowercase_digits_per_byte() {
    assert_eq!(hex_lower(&[]), "");
    assert_eq!(hex_lower(&[0x00]), "00");
    assert_eq!(hex_lower(&[0x0f]), "0f");
    assert_eq!(hex_lower(&[0xf0]), "f0");
    assert_eq!(hex_lower(&[0x00, 0xff, 0x1a]), "00ff1a");
    assert_eq!(hex_lower(&[0xde, 0xad, 0xbe, 0xef]), "deadbeef");
}

#[test]
fn prefix_hash_of_empty_body_is_the_known_digest() {
    assert_eq!(prefix_hash(&[]), "d41d8cd98f00b204e9800998ecf8427e");
}

#[test]
fn prefix_hash_of_known_bytes_is_the_known_digest() {
    assert_eq!(prefix_hash(b"abc"), "900150983cd24fb0d6963f7d28e17f72");
}

#[test]
fn prefix_hash_reads_at_most_the_first_sixteen_mebibytes() {
    let mut body = vec![0xabu8; PREFIX_LIMIT];
    let capped = prefix_hash(&body);
    body.extend_from_slice(b"trailing bytes beyond the fingerprinted prefix");
    assert_eq!(prefix_hash(&body), capped);

    let mut shorter = vec![0xabu8; PREFIX_LIMIT - 1];
    shorter.push(0xcd);
    assert_ne!(prefix_hash(&shorter), capped);
}

#[test]
fn range_header_asks_for_the_first_sixteen_mebibytes() {
    assert_eq!(prefix_range_header(), "bytes=0-16777215");
    assert_eq!(PREFIX_LIMIT, 16 * 1024 * 1024);
}

#[test]
fn upstream_addresses_are_assembled_exactly() {
    assert_eq!(
        comment_uri(&String::from("12345")),
        "https://api.dandanplay.net/api/v2/comment/12345?withRelated=true&chConvert=0"
    );
    assert_eq!(match_uri(), "https://api.dandanplay.net/api/v2/match");
}
