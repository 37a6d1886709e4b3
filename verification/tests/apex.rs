use hex_assistant_app::apex::{
    absolute_url, build_cache_report, cache_entry_from_result, cache_key, cached_lookup, expiry_is_defined,
    find_augment_link, find_cache_entry, lookup_in_cache, no_data_result, normalize_lookup_text,
    parse_apex_detail_page, result_from_cache_entry, store_fetched_result, ApexLookupResult, ApexLookupSettings,
    ApexParseStatus, ApexRequestLog, APEX_SOURCE_NAME, NO_DATA_TEXT,
};

#[test]
fn parses_champion_rating_without_faking_success() {
    let html = r#"
        <main>
          <h1>灵魂虹吸</h1>
          <h2>效果描述</h2>
          <p>你的暴击会为你提供治疗。</p>
          <h2>关联英雄及联动分析</h2>
          <article><span>放逐之刃</span><strong>SS</strong><p>暴击和吸血都有收益。</p></article>
        </main>
    "#;

    let result = parse_apex_detail_page(
        html,
        "https://apexlol.info/zh/hextech/77",
        "放逐之刃",
        "灵魂虹吸",
        "https://apexlol.info/zh/hextech/77",
        12,
    );

    assert_eq!(result.status, ApexParseStatus::Found);
    assert_eq!(result.rating.as_deref(), Some("SS"));
    assert_eq!(result.summary, "暴击和吸血都有收益。");
    assert_eq!(result.tip.as_deref(), Some("你的暴击会为你提供治疗。"));
    assert!(!result.cache_hit);
}

#[test]
fn parse_failure_returns_no_data_status() {
    let html = r#"<main><h1>灵魂虹吸</h1><p>没有对应英雄。</p></main>"#;

    let result = parse_apex_detail_page(
        html,
        "https://apexlol.info/zh/hextech/77",
        "放逐之刃",
        "灵魂虹吸",
        "https://apexlol.info/zh/hextech/77",
        8,
    );

    assert_eq!(result.status, ApexParseStatus::ParseFailed);
    assert_eq!(result.summary, NO_DATA_TEXT);
    assert!(result.rating.is_none());
    assert!(result.error.is_some());
}

#[test]
fn cache_key_separates_champion_and_augment() {
    assert_ne!(cache_key("Vi", "吞噬灵魂"), cache_key("Viego", "吞噬灵魂"));
    assert_eq!(cache_key("Cho'Gath", "灵魂虹吸"), cache_key("chogath", "灵魂虹吸"));
}

fn found_result(fetched_at: i64) -> ApexLookupResult {
    ApexLookupResult {
        champion_name: "放逐之刃".to_string(),
        augment_name: "灵魂虹吸".to_string(),
        rating: Some("SS".to_string()),
        summary: "暴击和吸血都有收益。".to_string(),
        tip: Some("你的暴击会为你提供治疗。".to_string()),
        source: APEX_SOURCE_NAME.to_string(),
        source_url: "https://apexlol.info/zh/hextech/77".to_string(),
        fetched_at,
        cache_hit: false,
        status: ApexParseStatus::Found,
        error: None,
        request_log: ApexRequestLog {
            request_url: "https://apexlol.info/zh/hextech/77".to_string(),
            duration_ms: 18,
            cache_hit: false,
            parse_status: ApexParseStatus::Found,
            failure_reason: None,
        },
    }
}

#[test]
fn builds_cache_report_from_entries() {
    let settings = ApexLookupSettings::default();
    let now = 1_700_000_000_000i64;
    let ok_result = found_result(now);
    let failed_result = no_data_result(
        "德玛西亚之力",
        "不存在的海克斯",
        "https://apexlol.info/zh/hextech/",
        "https://apexlol.info/zh/hextech/",
        20,
        ApexParseStatus::RequestFailed,
        "测试失败",
        now,
    );
    let entries = vec![
        (cache_key(&ok_result.champion_name, &ok_result.augment_name), cache_entry_from_result(&ok_result, &settings)),
        (
            cache_key(&failed_result.champion_name, &failed_result.augment_name),
            cache_entry_from_result(&failed_result, &settings),
        ),
    ];

    let report = build_cache_report("/tmp/cache/apex-cache/cache.json".to_string(), &entries, now + 10 * 60_000);

    assert_eq!(report.total_entries, 2);
    assert_eq!(report.ok_entries, 1);
    assert_eq!(report.failed_entries, 1);
    assert_eq!(report.expired_entries, 1);
    assert!(report.entries.iter().any(|entry| entry.source_url.contains("apexlol.info")));
}

#[test]
fn cache_entry_expires_after_ttl_by_status() {
    let settings = ApexLookupSettings::default();
    let found = cache_entry_from_result(&found_result(1_000), &settings);
    assert_eq!(found.expires_at, 1_000 + 168 * 3_600_000);
    let failed = no_data_result("a", "b", "u", "u", 1, ApexParseStatus::NoData, "none", 1_000);
    let failed_entry = cache_entry_from_result(&failed, &settings);
    assert_eq!(failed_entry.expires_at, 1_000 + 5 * 60_000);
}

#[test]
fn cached_entry_is_served_until_it_expires() {
    let settings = ApexLookupSettings::default();
    let entry = cache_entry_from_result(&found_result(1_000), &settings);

    let served = cached_lookup(Some(&entry), false, entry.expires_at - 1).expect("still fresh");
    assert!(served.cache_hit);
    assert!(served.request_log.cache_hit);
    assert_eq!(served.rating.as_deref(), Some("SS"));
    assert!(cached_lookup(Some(&entry), false, entry.expires_at).is_none());
    assert!(cached_lookup(Some(&entry), true, 0).is_none());
    assert!(cached_lookup(None, false, 0).is_none());

    let round = result_from_cache_entry(&entry);
    assert_eq!(round.summary, "暴击和吸血都有收益。");
    assert_eq!(round.fetched_at, 1_000);
}

#[test]
fn lookup_text_drops_spaces_and_apostrophes() {
    assert_eq!(normalize_lookup_text(" Cho' Gath ’s "), "chogaths");
}

#[test]
fn absolute_url_resolves_links() {
    assert_eq!(absolute_url("https://apexlol.info/zh/hextech/", "https://x.y/z"), "https://x.y/z");
    assert_eq!(absolute_url("https://apexlol.info/zh/hextech/", "/zh/hextech/77"), "https://apexlol.info/zh/hextech/77");
    assert_eq!(absolute_url("https://apexlol.info/zh/hextech//", "77"), "https://apexlol.info/zh/hextech/77");
}

#[test]
fn finds_augment_link_by_lookup_text() {
    let html = r#"<html><body><a href="/zh/hextech/1">别的</a><a>灵魂 虹吸</a><a href="/zh/hextech/77">灵魂虹吸</a></body></html>"#;
    assert_eq!(
        find_augment_link("https://apexlol.info/zh/hextech/", html, "灵魂虹吸").as_deref(),
        Some("https://apexlol.info/zh/hextech/77")
    );
    assert_eq!(find_augment_link("https://apexlol.info/zh/hextech/", html, "不存在"), None);
}

#[test]
fn ascii_cache_keys_ignore_case() {
    assert_eq!(cache_key("Cho'Gath", "Trade Sector"), "chogath::tradesector");
    assert_eq!(cache_key("CHO GATH", "trade sector"), cache_key("cho'gath", "TRADE SECTOR"));
    assert_eq!(normalize_lookup_text("ÀB"), "àb");
}

#[test]
fn stored_result_is_served_back_and_replaces_the_old_entry() {
    let settings = ApexLookupSettings::default();
    let mut entries = Vec::new();
    let key = cache_key("放逐之刃", "灵魂虹吸");
    assert!(lookup_in_cache(&entries, &key, false, 0).is_none());

    let failed = no_data_result("放逐之刃", "灵魂虹吸", "u", "u", 1, ApexParseStatus::NoData, "none", 1_000);
    store_fetched_result(&mut entries, key.clone(), &failed, &settings);
    let other = cache_key("Vi", "x");
    store_fetched_result(&mut entries, other.clone(), &found_result(5), &settings);
    store_fetched_result(&mut entries, key.clone(), &found_result(2_000), &settings);

    let entry = find_cache_entry(&entries, &key).expect("stored");
    assert_eq!(entry.status, ApexParseStatus::Found);
    assert_eq!(entry.expires_at, 2_000 + 168 * 3_600_000);
    assert_eq!(find_cache_entry(&entries, &other).expect("kept").fetched_at, 5);
    assert!(find_cache_entry(&entries, "missing").is_none());

    let served = lookup_in_cache(&entries, &key, false, 3_000).expect("fresh");
    assert!(served.cache_hit);
    assert_eq!(served.rating.as_deref(), Some("SS"));
    assert_eq!(served.fetched_at, 2_000);
    assert!(lookup_in_cache(&entries, &key, true, 3_000).is_none());
    assert!(lookup_in_cache(&entries, &key, false, 2_000 + 168 * 3_600_000).is_none());
}

#[test]
fn ttl_counts_are_read_as_signed_numbers() {
    let settings = ApexLookupSettings { cache_ttl_hours: u64::MAX, request_timeout_ms: 6000, failed_cache_ttl_minutes: 5 };
    assert!(expiry_is_defined(10_000_000, ApexParseStatus::Found, &settings));
    let entry = cache_entry_from_result(&found_result(10_000_000), &settings);
    assert_eq!(entry.expires_at, 10_000_000 - 3_600_000);
    let too_long = ApexLookupSettings { cache_ttl_hours: 1 << 62, request_timeout_ms: 6000, failed_cache_ttl_minutes: 5 };
    assert!(!expiry_is_defined(0, ApexParseStatus::Found, &too_long));
    let beyond = ApexLookupSettings { cache_ttl_hours: 2_562_047_788_015, request_timeout_ms: 6000, failed_cache_ttl_minutes: 5 };
    assert!(!expiry_is_defined(0, ApexParseStatus::Found, &beyond));
    assert!(expiry_is_defined(0, ApexParseStatus::NoData, &beyond));
}
