use ryu_core::gifs::{
    normalize_giphy, provider_key_env, resolve_key, resolve_provider, search_limit, str_num,
    DimValue, GifSearchQuery, GiphyItem,
};
use ryu_core::numbers::{parse_decimal_i64, parse_decimal_u32};

#[test]
fn str_num_parses_string_and_integer_dimensions() {
    assert_eq!(str_num(&DimValue::Text("480".to_string())), Some(480));
    assert_eq!(str_num(&DimValue::Unsigned(270)), Some(270));
    assert_eq!(str_num(&DimValue::Text("0".to_string())), Some(0));
    assert_eq!(str_num(&DimValue::Unsigned(0)), Some(0));
}

#[test]
fn str_num_rejects_non_numeric_and_wrong_types() {
    assert_eq!(str_num(&DimValue::Text("not-a-number".to_string())), None);
    assert_eq!(str_num(&DimValue::Text(String::new())), None);
    // A float, a boolean, null, an array or an object is `Other`.
    assert_eq!(str_num(&DimValue::Other), None);
    assert_eq!(str_num(&DimValue::Text("-5".to_string())), None);
}

#[test]
fn limit_clamps_into_provider_bounds() {
    assert_eq!(search_limit(Some(0)), 1);
    assert_eq!(search_limit(Some(999)), 50);
    assert_eq!(search_limit(Some(24)), 24);
    assert_eq!(search_limit(None), 24);
}

#[test]
fn search_query_defaults_empty_q() {
    let q = GifSearchQuery::default();
    assert_eq!(q.q, "");
    assert_eq!(q.limit, None);
    let q2 = GifSearchQuery { q: "cat".to_string(), limit: Some(5) };
    assert_eq!(q2.q, "cat");
    assert_eq!(q2.limit, Some(5));
}

#[test]
fn provider_and_key_resolution() {
    assert_eq!(resolve_provider(Some(" Tenor "), Some("giphy")), "tenor");
    assert_eq!(resolve_provider(Some("  "), Some("GIPHY")), "giphy");
    assert_eq!(resolve_provider(Some("Bogus"), None), "bogus");
    assert_eq!(resolve_provider(None, None), "klipy");
    assert_eq!(provider_key_env("tenor"), "TENOR_API_KEY");
    assert_eq!(provider_key_env("giphy"), "GIPHY_API_KEY");
    assert_eq!(provider_key_env("klipy"), "KLIPY_API_KEY");
    assert_eq!(
        resolve_key(&vec![None, Some("  ".to_string()), Some(" k1 ".to_string()), Some("k2".to_string())]),
        Some("k1".to_string())
    );
    assert_eq!(resolve_key(&vec![None]), None);
}

#[test]
fn giphy_items_without_both_urls_are_skipped() {
    let item = |id: &str, preview: Option<&str>| GiphyItem {
        id: Some(id.to_string()),
        title: None,
        preview_url: preview.map(str::to_string),
        original_url: Some(format!("https://g/{id}.gif")),
        width: Some(DimValue::Text("480".to_string())),
        height: Some(DimValue::Other),
    };
    let out = normalize_giphy(&vec![item("a", Some("https://g/a-s.gif")), item("b", None)]);
    assert_eq!(out.len(), 1);
    assert_eq!(out[0].id, "a");
    assert_eq!(out[0].title, "GIF");
    assert_eq!((out[0].width, out[0].height), (480, 0));
}

#[test]
fn decimal_parsing_follows_from_str() {
    assert_eq!(parse_decimal_u32("+42"), Some(42));
    assert_eq!(parse_decimal_u32("4294967295"), Some(u32::MAX));
    assert_eq!(parse_decimal_u32("4294967296"), None);
    assert_eq!(parse_decimal_u32("+"), None);
    assert_eq!(parse_decimal_i64("-9223372036854775808"), Some(i64::MIN));
    assert_eq!(parse_decimal_i64("9223372036854775807"), Some(i64::MAX));
    assert_eq!(parse_decimal_i64("9223372036854775808"), None);
    assert_eq!(parse_decimal_i64("-"), None);
    assert_eq!(parse_decimal_i64(" 1"), None);
    for s in ["0", "-17", "+8", "123456789012", "x1", ""] {
        assert_eq!(parse_decimal_i64(s), s.parse::<i64>().ok(), "{s:?}");
    }
}
