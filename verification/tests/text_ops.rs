use handy::{
    char_is_whitespace, decimal_i64, parse_i32_str, replace_str, starts_with, str_eq,
    strip_prefix, trim_end_matches_char, trim_str,
};

const SAMPLES: &[&str] = &[
    "",
    " ",
    "abc",
    "  abc  ",
    "\t\n a b \r\n",
    "\u{3000}wide\u{2003}",
    "\u{85}x\u{a0}",
    "héllo wörld ",
    "   ",
    "a\u{200b}",
];

#[test]
fn trim_agrees_with_std() {
    for s in SAMPLES {
        assert_eq!(trim_str(s), s.trim());
    }
}

#[test]
fn trim_is_idempotent_on_examples() {
    for s in SAMPLES {
        let once = trim_str(s);
        assert_eq!(trim_str(&once), once);
    }
}

#[test]
fn whitespace_agrees_with_std() {
    for u in 0u32..0x3100 {
        if let Some(c) = char::from_u32(u) {
            assert_eq!(char_is_whitespace(c), c.is_whitespace(), "{:x}", u);
        }
    }
}

#[test]
fn trim_end_matches_slashes() {
    assert_eq!(trim_end_matches_char("https://api.x.ai/v1///", '/'), "https://api.x.ai/v1");
    assert_eq!(trim_end_matches_char("///", '/'), "");
    assert_eq!(trim_end_matches_char("a/b", '/'), "a/b");
}

#[test]
fn equality_and_prefixes() {
    assert!(str_eq("voice", "voice"));
    assert!(!str_eq("voice", "Voice"));
    assert!(!str_eq("voice", "voices"));
    assert!(starts_with("HTTP request failed: x", "HTTP request failed:"));
    assert!(!starts_with("HTTP", "HTTP request failed:"));
    assert_eq!(strip_prefix("custom_prompt_abc", "custom_prompt_"), Some("abc".to_string()));
    assert_eq!(strip_prefix("transcribe", "custom_prompt_"), None);
    assert_eq!(strip_prefix("custom_prompt_", "custom_prompt_"), Some(String::new()));
}

#[test]
fn replace_agrees_with_std() {
    let cases = [
        ("Fix: ${output}", "${output}", "hello"),
        ("${output}${output}", "${output}", "x"),
        ("no placeholder", "${output}", "x"),
        ("aaa", "aa", "b"),
        ("${outpu${output}t}", "${output}", "Z"),
        ("", "${output}", "x"),
        ("héllo", "", "-"),
        ("", "", "-"),
    ];
    for (s, from, to) in cases {
        assert_eq!(replace_str(s, from, to), s.replace(from, to));
    }
}

#[test]
fn decimal_agrees_with_std() {
    for n in [0i64, 7, 10, 99, 100, 1_700_000_000_123, -1, -10, i64::MAX, i64::MIN] {
        assert_eq!(decimal_i64(n), n.to_string());
    }
}

#[test]
fn parse_i32_agrees_with_std() {
    let cases = [
        "0", "42", "+42", "-42", "", "+", "-", "2147483647", "2147483648", "-2147483648",
        "-2147483649", "12a", " 1", "00012", "99999999999999999999", "-0", "+-1", "４２",
    ];
    for s in cases {
        assert_eq!(parse_i32_str(s), s.parse::<i32>().ok(), "{:?}", s);
    }
}
