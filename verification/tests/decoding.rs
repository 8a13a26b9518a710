use asciinema::util::{text_of_whole, Utf8Decoder};

#[test]
fn ascii_passes_through() {
    let mut decoder = Utf8Decoder::new();
    assert_eq!(decoder.feed(b""), "");
    assert_eq!(decoder.feed(b"hi\n"), "hi\n");
    assert_eq!(decoder.feed(&[0x1b, b'[', b'm', 0x00, 0x7f]), "\u{1b}[m\u{0}\u{7f}");
}

#[test]
fn split_characters_come_out_whole() {
    let text = "zażółć €uro 🦀 \u{10ffff}";
    let bytes = text.as_bytes();
    for cut in 0..=bytes.len() {
        let mut decoder = Utf8Decoder::new();
        let mut decoded = decoder.feed(&bytes[..cut]);
        decoded.push_str(&decoder.feed(&bytes[cut..]));
        assert_eq!(decoded, text);
    }
    let mut decoder = Utf8Decoder::new();
    let mut decoded = String::new();
    for byte in bytes {
        decoded.push_str(&decoder.feed(&[*byte]));
    }
    assert_eq!(decoded, text);
}

#[test]
fn unfinished_character_is_held_back() {
    let mut decoder = Utf8Decoder::new();
    assert_eq!(decoder.feed(&[b'a', 0xe2, 0x82]), "a");
    assert_eq!(decoder.feed(&[]), "");
    assert_eq!(decoder.feed(&[0xac, b'b']), "€b");
}

#[test]
fn malformed_stretches_are_replaced() {
    let cases: [(&[u8], &str); 7] = [
        (&[0xff, b'a'], "\u{fffd}a"),
        (&[0x80, 0x80, b'a'], "\u{fffd}\u{fffd}a"),
        (&[0xc0, 0xaf, b'a'], "\u{fffd}\u{fffd}a"),
        (&[0xe2, 0x82, b'a'], "\u{fffd}a"),
        (&[0xed, 0xa0, 0x80, b'a'], "\u{fffd}\u{fffd}\u{fffd}a"),
        (&[0xf0, 0x9f, 0xa6, b'a'], "\u{fffd}a"),
        (&[0xf5, b'a'], "\u{fffd}a"),
    ];
    for (bytes, expected) in cases {
        assert_eq!(Utf8Decoder::new().feed(bytes), expected);
    }
}

#[test]
fn malformed_input_reads_as_the_standard_library_reads_it() {
    let bytes: [u8; 24] = [
        0x00, 0x41, 0x7f, 0x80, 0x8f, 0x90, 0x9f, 0xa0, 0xbf, 0xc0, 0xc1, 0xc2, 0xdf, 0xe0, 0xe1,
        0xec, 0xed, 0xef, 0xf0, 0xf1, 0xf3, 0xf4, 0xf5, 0xff,
    ];
    for a in bytes {
        for b in bytes {
            for c in bytes {
                for d in bytes {
                    let stream = [a, b, c, d, b'.'];
                    let expected = String::from_utf8_lossy(&stream);
                    let mut decoder = Utf8Decoder::new();
                    assert_eq!(decoder.feed(&stream), expected);

                    let mut decoder = Utf8Decoder::new();
                    let mut decoded = decoder.feed(&stream[..2]);
                    decoded.push_str(&decoder.feed(&stream[2..]));
                    assert_eq!(decoded, expected);
                }
            }
        }
    }
}

#[test]
fn all_characters_are_read() {
    let mut decoder = Utf8Decoder::new();
    let mut encoded = [0u8; 4];
    for code in 0..=0x10ffffu32 {
        if let Some(c) = char::from_u32(code) {
            let text: &str = c.encode_utf8(&mut encoded);
            assert_eq!(decoder.feed(text.as_bytes()), text);
        }
    }
}

#[test]
fn whole_streams_read_as_the_standard_library_reads_them() {
    let bytes: [u8; 12] = [0x41, 0x80, 0x9f, 0xbf, 0xc2, 0xe0, 0xa0, 0xed, 0xf0, 0x90, 0xf4, 0xff];
    assert_eq!(text_of_whole(b""), "");
    for a in bytes {
        for b in bytes {
            for c in bytes {
                for d in bytes {
                    let stream = [a, b, c, d];
                    for len in 0..=4 {
                        let expected = String::from_utf8_lossy(&stream[..len]);
                        assert_eq!(text_of_whole(&stream[..len]), expected);
                    }
                }
            }
        }
    }
}
