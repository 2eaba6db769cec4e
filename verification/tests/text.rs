use sherpa_onnx_openai_server::text::{
    char_is_whitespace, is_blank_str, join_path, parse_bool, parse_csv, parse_i32, parse_usize, split_on_commas,
    trim_str,
};

#[test]
fn csv_items_are_trimmed_and_non_empty() {
    assert_eq!(parse_csv(" tts-1 , ,tts-1-hd,"), vec!["tts-1", "tts-1-hd"]);
    assert_eq!(parse_csv(""), Vec::<String>::new());
    assert_eq!(parse_csv(" , "), Vec::<String>::new());
    assert_eq!(parse_csv("a"), vec!["a"]);
}

#[test]
fn split_keeps_every_piece() {
    assert_eq!(split_on_commas("a,,b,"), vec!["a", "", "b", ""]);
    assert_eq!(split_on_commas(""), vec![""]);
}

#[test]
fn trim_and_blank() {
    assert_eq!(trim_str("  x y \t\n"), "x y");
    assert_eq!(trim_str("\u{3000}z\u{a0}"), "z");
    assert!(is_blank_str(" \t\n"));
    assert!(is_blank_str(""));
    assert!(!is_blank_str(" a "));
}

#[test]
fn numbers_parse_as_std_does() {
    for s in ["0", "1", "+7", "0042", "18446744073709551615", "", "+", "-1", " 1", "1_0", "99999999999999999999"] {
        assert_eq!(parse_usize(s), s.parse::<usize>().ok(), "usize {s:?}");
    }
    for s in ["0", "-0", "+5", "-2147483648", "2147483647", "2147483648", "-2147483649", "-", "", "1e3", "٣"] {
        assert_eq!(parse_i32(s), s.parse::<i32>().ok(), "i32 {s:?}");
    }
    for s in ["true", "false", "True", "", "1", "true "] {
        assert_eq!(parse_bool(s), s.parse::<bool>().ok(), "bool {s:?}");
    }
}

#[test]
fn paths_join_with_one_slash() {
    assert_eq!(join_path("/models", "kokoro"), "/models/kokoro");
    assert_eq!(join_path("/models/", "kokoro"), "/models/kokoro");
    assert_eq!(join_path("", "model.onnx"), "model.onnx");
}

#[test]
fn whitespace_matches_std_for_every_char() {
    for u in 0..=0x10ffffu32 {
        if let Some(c) = char::from_u32(u) {
            assert_eq!(char_is_whitespace(c), c.is_whitespace(), "U+{u:04X}");
        }
    }
}
