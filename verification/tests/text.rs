use sllm_hip::bytes::{decode_words, i32_to_bytes, push_le_u32, push_le_u64, words_to_bytes};
use sllm_hip::text::{
    bracketed_string, contains, decimal_string, hex_string, hex_word_string, is_before, parse_i32,
    parse_u32, parse_unsigned, signed_bracketed_string, signed_decimal_string, split_at, split_ids,
    starts_with,
};

#[test]
fn numbers_are_written_as_the_formatter_writes_them() {
    for n in [0_u64, 9, 10, 4_294_967_296, u64::MAX] {
        assert_eq!(decimal_string(n), n.to_string());
    }
    for n in [0_i32, -1, i32::MIN, i32::MAX] {
        assert_eq!(signed_decimal_string(n), n.to_string());
    }
    assert_eq!(hex_string(&[0, 255, 16]), "00ff10");
    assert_eq!(hex_word_string(0x0a1f), "0a1f");
    assert_eq!(bracketed_string(&[1, 20]), format!("{:?}", [1, 20]));
    assert_eq!(bracketed_string(&[]), "[]");
    assert_eq!(signed_bracketed_string(&[-1, 2]), format!("{:?}", [-1, 2]));
}

#[test]
fn numbers_are_read_as_the_parser_reads_them() {
    for text in ["0", "+7", "-7", "", "+", "12a", "007", "4294967295", "4294967296", " 1"] {
        assert_eq!(parse_u32(text), text.parse::<u32>().ok(), "{text}");
        assert_eq!(parse_i32(text), text.parse::<i32>().ok(), "{text}");
        assert_eq!(parse_unsigned(text, u64::MAX), text.parse::<u64>().ok(), "{text}");
    }
    assert_eq!(parse_i32("-2147483648"), Some(i32::MIN));
    assert_eq!(parse_unsigned("18446744073709551616", u64::MAX), None);
}

#[test]
fn lists_are_split_like_the_standard_splitter() {
    for text in ["a,b", " a , ,b,", "", ",", "one"] {
        let expected: Vec<String> = text
            .split(',')
            .map(str::trim)
            .filter(|piece| !piece.is_empty())
            .map(str::to_owned)
            .collect();
        assert_eq!(split_ids(text), expected, "{text}");
    }
    for text in ["1x2", "x", "", "1x2x3"] {
        let expected: Vec<String> = text.split('x').map(str::to_owned).collect();
        assert_eq!(split_at(text, 'x'), expected, "{text}");
    }
}

#[test]
fn texts_are_searched_and_ordered() {
    assert!(starts_with("matmul.v1", "matmul."));
    assert!(!starts_with("mat", "matmul."));
    assert!(contains("a-special-case", "special"));
    assert!(!contains("special", "specials"));
    assert!(is_before("a", "b"));
    assert!(is_before("a", "aa"));
    assert!(!is_before("b", "b"));
}

#[test]
fn words_and_bytes_round_trip() {
    let words = [0x1234, 0xabcd];
    let bytes = words_to_bytes(&words);
    assert_eq!(bytes, vec![0x34, 0x12, 0xcd, 0xab]);
    assert_eq!(decode_words(&bytes), Some(words.to_vec()));
    assert_eq!(decode_words(&bytes[..3]), None);
    assert_eq!(i32_to_bytes(&[-2]), (-2_i32).to_le_bytes().to_vec());
    let mut out = Vec::new();
    push_le_u32(&mut out, 0x0102_0304);
    push_le_u64(&mut out, 5);
    assert_eq!(out, [&0x0102_0304_u32.to_le_bytes()[..], &5_u64.to_le_bytes()[..]].concat());
}
