use hex_assistant_app::live_client::{
    interpret_active_player_response, parse_active_player, read_champion, read_level, summarize_payload,
    ActivePlayerSnapshot, JsonField, JsonLookup, LiveClientDataApi, LiveClientError,
};

#[test]
fn parses_only_active_player_champion_and_level() {
    let snapshot = parse_active_player(
        r#"{
            "summonerName": "local player",
            "championName": "Ahri",
            "level": 11,
            "currentGold": 999
        }"#,
    )
    .expect("active player payload should parse");

    assert_eq!(
        snapshot,
        ActivePlayerSnapshot {
            champion_name: "Ahri".to_string(),
            level: 11,
        }
    );
}

#[test]
fn uses_fixed_local_active_player_endpoint() {
    assert_eq!(
        LiveClientDataApi::new().active_player_url(),
        "https://127.0.0.1:2999/liveclientdata/activeplayer"
    );
}

#[test]
fn reports_missing_champion_field_reason() {
    let error = parse_active_player(r#"{"level":11}"#).expect_err("应识别缺失字段");
    let message = error.message();

    assert!(message.contains("缺少 championName 字段"));
    assert!(message.contains("response_body_len=12"));
}

#[test]
fn reports_json_parse_failure_reason() {
    let error = parse_active_player("{").expect_err("应识别 JSON 解析失败");

    assert!(error.message().contains("JSON 解析失败"));
    assert_eq!(error.result_category(), "invalid_payload");
}

#[test]
fn trims_champion_and_rejects_blank_or_wrong_types() {
    let snapshot = parse_active_player(r#"{"championName":"  Ahri ","level":3}"#).unwrap();
    assert_eq!(snapshot.champion_name, "Ahri");

    let blank = parse_active_player(r#"{"championName":"   ","level":3}"#).unwrap_err();
    assert!(blank.message().contains("championName 为空字符串"));

    let wrong = parse_active_player(r#"{"championName":5,"level":3}"#).unwrap_err();
    assert!(wrong.message().contains("championName 字段类型错误: number"));

    let null_level = parse_active_player(r#"{"championName":"Ahri","level":null}"#).unwrap_err();
    assert!(null_level.message().contains("level 为空值"));

    let negative = parse_active_player(r#"{"championName":"Ahri","level":-1}"#).unwrap_err();
    assert!(negative.message().contains("level 不是非负整数"));

    let big = parse_active_player(r#"{"championName":"Ahri","level":300}"#).unwrap_err();
    assert!(big.message().contains("level 超出 u8 范围: 300"));

    let array = parse_active_player("[1]").unwrap_err();
    assert!(array.message().contains("根节点不是 JSON 对象"));
    assert_eq!(array.error_code(), "HEX-LIVE-CLIENT-PAYLOAD");
    assert_eq!(array.pause_reason(), "InvalidLiveClientData");
}

#[test]
fn preview_collapses_whitespace_and_cuts_long_bodies() {
    assert_eq!(summarize_payload("  a \n\t b  "), "a b");
    let long = "x".repeat(130);
    let preview = summarize_payload(&long);
    assert_eq!(preview, format!("{}...", "x".repeat(120)));
}

#[test]
fn non_success_status_is_an_http_error() {
    let error = interpret_active_player_response(404, "404 Not Found", "missing").unwrap_err();
    match &error {
        LiveClientError::Http {
            status_code,
            response_body_len,
            response_body_preview,
            reason,
            ..
        } => {
            assert_eq!(*status_code, Some(404));
            assert_eq!(*response_body_len, Some(7));
            assert_eq!(response_body_preview.as_deref(), Some("missing"));
            assert_eq!(reason, "HTTP 状态码异常: 404 Not Found");
        }
        _ => panic!("expected an HTTP error"),
    }
    assert_eq!(error.error_code(), "HEX-LIVE-CLIENT-UNAVAILABLE");
    assert_eq!(error.result_category(), "http_error");
    assert!(error
        .message()
        .contains("status_code=Some(404), response_body_len=Some(7), response_body_preview=Some(\"missing\")"));
}

#[test]
fn reads_champion_and_level_fields() {
    assert_eq!(read_champion(JsonLookup::Present(JsonField::Text("  Ahri \n".to_string()))), Ok("Ahri".to_string()));
    assert_eq!(
        read_champion(JsonLookup::Present(JsonField::Text("   ".to_string()))),
        Err("championName 为空字符串".to_string())
    );
    assert_eq!(read_champion(JsonLookup::Missing), Err("缺少 championName 字段".to_string()));
    assert_eq!(read_champion(JsonLookup::Present(JsonField::Null)), Err("championName 为空值".to_string()));
    assert_eq!(read_level(JsonLookup::Present(JsonField::Number(Some(18)))), Ok(18));
    assert_eq!(
        read_level(JsonLookup::Present(JsonField::Number(Some(256)))),
        Err("level 超出 u8 范围: 256".to_string())
    );
    assert_eq!(read_level(JsonLookup::Present(JsonField::Number(None))), Err("level 不是非负整数".to_string()));
    assert_eq!(read_level(JsonLookup::NotObject), Err("根节点不是 JSON 对象".to_string()));
}
