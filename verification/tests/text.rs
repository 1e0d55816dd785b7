use std::path::Path;
use vocal_magic::json;
use vocal_magic::metallib;
use vocal_magic::paths;
use vocal_magic::text;

fn sample_paths() -> Vec<&'static str> {
    vec![
        "",
        "/",
        "a",
        "a/b",
        "/a/b.c",
        "a/",
        "a//",
        "a/.",
        "a/./",
        "./a",
        ".",
        "..",
        "a/..",
        "../a",
        ".hidden",
        "a/.hidden.wav",
        "x.tar.gz",
        "x.",
        "a.b/c",
        "a.b/",
        "//a//b//c.d",
        "/.",
        "...",
        "a/...x",
        "song.ncm",
        "歌曲.mp3",
    ]
}

#[test]
fn file_names_agree_with_std() {
    for p in sample_paths() {
        let expected = Path::new(p).file_name().map(|n| n.to_str().unwrap().to_string());
        assert_eq!(paths::path_file_name(p), expected, "{p}");
    }
}

#[test]
fn stems_agree_with_std() {
    for p in sample_paths() {
        let expected = Path::new(p).file_stem().map(|n| n.to_str().unwrap().to_string());
        assert_eq!(paths::path_file_stem(p), expected, "{p}");
    }
}

#[test]
fn extensions_agree_with_std() {
    for p in sample_paths() {
        let expected = Path::new(p).extension().map(|n| n.to_str().unwrap().to_string());
        assert_eq!(paths::path_extension(p), expected, "{p}");
    }
}

#[test]
fn joins_agree_with_std() {
    for p in sample_paths() {
        for q in sample_paths() {
            let expected = Path::new(p).join(q).to_str().unwrap().to_string();
            assert_eq!(paths::join(p, q), expected, "{p} {q}");
        }
    }
}

#[test]
fn other_extensions_agree_with_std() {
    for p in sample_paths() {
        for ext in vec!["", "wav", "out.wav", "decoded.mp3"] {
            let expected = Path::new(p).with_extension(ext).to_str().unwrap().to_string();
            assert_eq!(paths::with_extension(p, ext), expected, "{p} {ext}");
        }
    }
}

#[test]
fn path_order_agrees_with_std() {
    for p in sample_paths() {
        for q in sample_paths() {
            assert_eq!(metallib::path_is_before(p, q), Path::new(p) < Path::new(q), "{p} {q}");
        }
    }
}

#[test]
fn path_order_goes_by_components() {
    assert!("a-b/x" < "a/x");
    assert!(metallib::path_is_before("a/x", "a-b/x"));
    assert!(!metallib::path_is_before("a-b/x", "a/x"));
    assert!(!metallib::path_is_before("a//x", "a/x"));
    assert!(!metallib::path_is_before("a/x", "a//x"));
}

#[test]
fn trimming_agrees_with_std() {
    for s in vec!["", " ", "1", " 1\n", "\t1 2\r\n", "\u{3000}x\u{a0}", "\u{200b}x", "\u{85}\u{2028}y"] {
        assert_eq!(text::trim(s), s.trim(), "{s:?}");
    }
}

#[test]
fn case_is_ignored_for_ascii_only() {
    assert!(text::eq_ignore_ascii_case("NcM", "ncm"));
    assert!(!text::eq_ignore_ascii_case("ncm", "nc"));
    assert!(!text::eq_ignore_ascii_case("Ä", "ä"));
    assert_eq!(text::eq_ignore_ascii_case("É", "É"), "É".eq_ignore_ascii_case("É"));
}

#[test]
fn decimal_numbers() {
    assert_eq!(text::decimal(0), "0");
    assert_eq!(text::decimal(9), "9");
    assert_eq!(text::decimal(10), "10");
    assert_eq!(text::decimal(8736), "8736");
    assert_eq!(text::decimal(u128::MAX), u128::MAX.to_string());
}

#[test]
fn prefixes_and_characters() {
    assert!(text::starts_with("input_a", "input_"));
    assert!(!text::starts_with("input", "input_"));
    assert!(text::starts_with("x", ""));
    assert!(text::has_char("a/b", '/'));
    assert!(!text::has_char("ab", '/'));
    assert_eq!(text::joined3("a", "b", "c"), "abc");
    assert!(text::same("a", "a"));
    assert!(!text::same("a", "A"));
}

#[test]
fn params_of_each_type() {
    let params = "{\"chunk_size\": 12, \"tempo\": 90.5, \"language\": \"ja\", \"nsteps\": \"x\"}";
    assert_eq!(json::p_i64(params, "chunk_size", 8), 12);
    assert_eq!(json::p_i64(params, "nsteps", 8), 8);
    assert_eq!(json::p_i64(params, "overlap", 2), 2);
    assert_eq!(json::p_f64(params, "tempo", 0), 90.5f64.to_bits());
    assert_eq!(json::p_f64(params, "chunk_size", 0), 12f64.to_bits());
    assert_eq!(json::p_f64(params, "language", 7), 7);
    assert_eq!(json::p_str(params, "language", "none"), "ja");
    assert_eq!(json::p_str(params, "tempo", "none"), "none");
}

#[test]
fn missing_params_give_defaults() {
    for params in vec!["{}", "null", "[]", "3", "not json", ""] {
        assert_eq!(json::p_i64(params, "chunk_size", 8), 8);
        assert_eq!(json::p_f64(params, "t0", 0), 0);
        assert_eq!(json::p_str(params, "device", "gpu"), "gpu");
        assert_eq!(json::get_i64(params, "chunk_size"), None);
        assert_eq!(json::get_f64_bits(params, "t0"), None);
        assert_eq!(json::get_text(params, "device"), None);
    }
}

#[test]
fn given_values_win_over_defaults() {
    assert_eq!(json::int_or(Some(3), 8), 3);
    assert_eq!(json::int_or(None, 8), 8);
    assert_eq!(json::bits_or(Some(1), 2), 1);
    assert_eq!(json::bits_or(None, 2), 2);
    assert_eq!(json::text_or(Some("cpu".to_string()), "gpu"), "cpu");
    assert_eq!(json::text_or(None, "gpu"), "gpu");
}

#[test]
fn params_are_stored_in_compact_form() {
    assert_eq!(json::printed(" { \"a\" : 1 } "), "{\"a\":1}");
    assert_eq!(json::printed("oops"), "null");
    assert_eq!(json::printed("{}"), "{}");
    assert_eq!(json::printed("null"), "null");
    assert_eq!(json::params_from_text("oops"), "{}");
    assert_eq!(json::params_from_text(" { \"a\" : 1 } "), " { \"a\" : 1 } ");
    assert_eq!(json::params_from_record("[1, 2]"), "[1, 2]");
    assert_eq!(json::params_from_record("oops"), "null");
    assert_eq!(json::compact("\"x\""), Some("\"x\"".to_string()));
    assert_eq!(json::compact("{"), None);
}

#[test]
fn params_of_a_request_body() {
    assert_eq!(json::params_from_body(b""), None);
    assert_eq!(json::params_from_body(b"garbage"), None);
    assert_eq!(json::params_from_body(b"{}"), None);
    assert_eq!(json::params_from_body(b"{\"params\": {\"overlap\": 4}}"), Some("{\"overlap\":4}".to_string()));
    assert_eq!(json::params_from_body(b"{\"params\": null}"), Some("null".to_string()));
}

#[test]
fn settings_are_read_from_the_stored_text() {
    let text = "{\"t0\": 0.1234567890123456789012345678901234567890}";
    let value: serde_json::Value = serde_json::from_str(text).unwrap();
    let direct = value.get("t0").and_then(|v| v.as_f64()).unwrap().to_bits();
    let kept = json::params_from_record(text);
    assert_eq!(json::get_f64_bits(&kept, "t0"), Some(direct));
    assert_eq!(json::printed(text), serde_json::to_string(&value).unwrap());
}
