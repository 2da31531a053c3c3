use head_huntress::text::{contains, push_fixed2, is_blank_str, str_eq, strip_prefix_or_keep_str, strip_suffix_or_keep_str, to_ascii_lowercase, trim};

const SAMPLES: [&str; 9] = [
    "",
    "   ",
    "  Rust\t",
    "\u{3000}\u{a0}wide\u{2009}space\u{205f}\n",
    "\u{85}x\u{1680}",
    "MiXeD CaSe ÄÖ",
    "no-trim",
    "\u{200b}zero width\u{200b}",
    " a b ",
];

#[test]
fn trimming_agrees_with_str_trim() {
    for s in SAMPLES {
        assert_eq!(trim(s), s.trim(), "trimming {s:?}");
        assert_eq!(is_blank_str(s), s.trim().is_empty(), "blank check of {s:?}");
    }
}

#[test]
fn lowercasing_agrees_with_to_ascii_lowercase() {
    for s in SAMPLES {
        assert_eq!(to_ascii_lowercase(s), s.to_ascii_lowercase());
    }
}

#[test]
fn substring_search_agrees_with_str_contains() {
    let text = "backend engineer at example co";
    for pat in ["", "backend", "co", "example co", "ample", "xyz", "backend engineer at example co!", "r a"] {
        assert_eq!(contains(text, pat), text.contains(pat), "searching {pat:?}");
    }
}

#[test]
fn prefixes_and_suffixes_are_stripped_once() {
    assert_eq!(strip_prefix_or_keep_str("```json{}", "```json"), "{}");
    assert_eq!(strip_prefix_or_keep_str("{}", "```"), "{}");
    assert_eq!(strip_suffix_or_keep_str("{}``````", "```"), "{}```");
    assert!(str_eq("same", "same"));
    assert!(!str_eq("same", "sama"));
}

fn fixed2_of(v: i32) -> String {
    let mut out = String::new();
    push_fixed2(&mut out, v);
    out
}

/// The text a configuration or provider value of `v` thousandths has.
fn decimal_text(v: i32) -> String {
    let a = i64::from(v).abs();
    let sign = if v < 0 { "-" } else { "" };
    format!("{sign}{}.{:03}", a / 1000, a % 1000)
}

#[test]
fn two_decimal_rendering_agrees_with_f32_formatting() {
    let mut values: Vec<i32> = (-3000..=3000).collect();
    values.extend([16_775, 16_785, 123_455, 1_048_575, 2_147_483_647, -2_147_483_648, i32::MIN + 5]);
    values.extend((0..2000).map(|i| i * 1_070_005 + 5));
    for v in values {
        let parsed: f32 = decimal_text(v).parse::<f64>().expect("decimal text parses") as f32;
        assert_eq!(fixed2_of(v), format!("{parsed:.2}"), "rendering {v} thousandths");
    }
}

#[test]
fn two_decimal_rendering_rounds_the_float_value() {
    assert_eq!(fixed2_of(700), "0.70");
    assert_eq!(fixed2_of(125), "0.12");
    assert_eq!(fixed2_of(135), "0.14");
    assert_eq!(fixed2_of(145), "0.14");
    assert_eq!(fixed2_of(375), "0.38");
    assert_eq!(fixed2_of(-1250), "-1.25");
    assert_eq!(fixed2_of(-1), "-0.00");
    assert_eq!(fixed2_of(0), "0.00");
}
