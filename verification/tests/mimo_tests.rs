use aistatus::data::{MimoFetch, HUNDRED_BITS, ZERO_BITS};
use aistatus::fetcher::mimo::{
    body_outcome, days_from_civil, days_until_period_end, http_outcome, mimo_fetched, now_epoch_secs, parse_civil_date,
    period_end_in_range, placeholder_result, request_cookie, reset_hint, reset_hint_from_days, to_quota_item,
};

fn percent_text(p: f64) -> String {
    format!("{:.1}", p * 100.0)
}

#[test]
fn days_until_counts_calendar_days() {
    // 北京时间 2026-08-26 17:30 → 已含 +8h 的 epoch
    let now = days_from_civil(2026, 8, 26) * 86400 + 17 * 3600 + 30 * 60;
    assert_eq!(
        days_until_period_end("2026-09-24 23:59:59", now),
        Some(29),
        "8/26 → 9/24 跨 8 月末，共 29 天"
    );
    assert_eq!(days_until_period_end("2026-08-26 12:00:00", now), Some(0));
    assert_eq!(days_until_period_end("2026-08-25 12:00:00", now), Some(-1));
    assert_eq!(days_until_period_end("not-a-date", now), None);
    // 闰年边界：2028-02-28 → 2028-03-01 应为 2 天
    let leap_now = days_from_civil(2028, 2, 28) * 86400;
    assert_eq!(days_until_period_end("2028-03-01 00:00:00", leap_now), Some(2));
}

#[test]
fn parses_usage_items_with_name_mapping() {
    let resp: serde_json::Value = serde_json::from_str(
        r#"{
            "code": 0,
            "message": "success",
            "data": { "usage": { "items": [
                { "name": "plan_total_token", "limit": 5000000000, "used": 1234567890, "percent": 0.247 },
                { "name": "compensation_total_token", "limit": 100000, "used": 0, "percent": 0.0 },
                { "name": "future_new_type", "limit": 50, "used": 10, "percent": 0.2 }
            ]}}
        }"#,
    )
    .unwrap();
    assert_eq!(resp["code"].as_i64(), Some(0));
    let items = resp["data"]["usage"]["items"].as_array().unwrap();
    assert_eq!(items.len(), 3);

    let it = &items[0];
    let used = it["used"].as_f64().unwrap();
    let limit = it["limit"].as_f64().unwrap();
    // compact texts of 1234567890 and 5000000000
    let q = to_quota_item(
        it["name"].as_str().unwrap(),
        used.to_bits(),
        limit.to_bits(),
        "1.2B",
        "5B",
        &percent_text(it["percent"].as_f64().unwrap()),
        &None,
    );
    assert_eq!(q.label, "Token Plan 套餐");
    assert_eq!(q.display_value.as_deref(), Some("1.2B / 5B"));
    assert_eq!(f64::from_bits(q.used_bits), 1234567890.0);
    assert_eq!(f64::from_bits(q.total_bits), 5000000000.0);
    assert_eq!(q.detail, "已用 24.7%");

    let label = |i: usize| {
        to_quota_item(items[i]["name"].as_str().unwrap(), 0, 0, "0", "0", "0.0", &None).label
    };
    assert_eq!(label(1), "补偿积分");
    // 未知条目按原 name 显示，不丢数据
    assert_eq!(label(2), "future_new_type");
}

#[test]
fn quota_item_appends_reset_hint_for_plan_only() {
    let plan = |hint: Option<String>| {
        to_quota_item("plan_total_token", 38f64.to_bits(), 100f64.to_bits(), "38", "100", &percent_text(0.38), &hint)
    };
    let comp = |hint: Option<String>| {
        to_quota_item("compensation_total_token", 0, 0, "0", "0", &percent_text(0.0), &hint)
    };
    assert_eq!(plan(Some("29天后重置".to_string())).detail, "已用 38.0% · 29天后重置");
    assert_eq!(comp(Some("29天后重置".to_string())).detail, "已用 0.0%");
    assert_eq!(plan(Some(String::new())).detail, "已用 38.0%");
}

#[test]
fn parses_api_error_code() {
    let resp: serde_json::Value =
        serde_json::from_str(r#"{ "code": 401, "message": "unauthorized" }"#).unwrap();
    assert_eq!(resp["code"].as_i64(), Some(401));
    assert_eq!(resp["message"].as_str(), Some("unauthorized"));
    let outcome = body_outcome(401, &Some("unauthorized".to_string()), 0).unwrap();
    match outcome {
        MimoFetch::Fetched(m) => assert_eq!(m.items[0].detail, "查询失败 (code 401) · unauthorized"),
        _ => panic!("expected a placeholder"),
    }
}

#[test]
fn parses_empty_items() {
    let resp: serde_json::Value =
        serde_json::from_str(r#"{ "code": 0, "data": { "usage": { "items": [] } } }"#).unwrap();
    assert!(resp["data"]["usage"]["items"].as_array().unwrap().is_empty());
    match body_outcome(0, &None, 0).unwrap() {
        MimoFetch::Fetched(m) => assert_eq!(m.items[0].detail, "暂无套餐数据"),
        _ => panic!("expected a placeholder"),
    }
}

#[test]
fn civil_epoch_and_known_days() {
    assert_eq!(days_from_civil(1970, 1, 1), 0);
    assert_eq!(days_from_civil(2000, 3, 1), 11017);
    assert_eq!(days_from_civil(1969, 12, 31), -1);
    assert_eq!(days_from_civil(2024, 2, 29) + 1, days_from_civil(2024, 3, 1));
    assert_eq!(days_from_civil(2100, 2, 28) + 1, days_from_civil(2100, 3, 1));
}

#[test]
fn civil_date_parsing() {
    assert_eq!(parse_civil_date("2026-09-24T23:59:59"), Some((2026, 9, 24)));
    assert_eq!(parse_civil_date("2026-09-24 23:59:59"), Some((2026, 9, 24)));
    assert_eq!(parse_civil_date("2026-9"), None);
    assert_eq!(parse_civil_date("+2026-09-24"), Some((2026, 9, 24)));
    assert_eq!(parse_civil_date("2026-xx-24"), None);
    assert_eq!(parse_civil_date("99999999999999999999-01-01"), None);
}

#[test]
fn reset_hint_texts() {
    assert_eq!(reset_hint_from_days(0).as_deref(), Some("今日重置"));
    assert_eq!(reset_hint_from_days(29).as_deref(), Some("29天后重置"));
    assert_eq!(reset_hint_from_days(-1), None);
    let now = days_from_civil(2026, 8, 26) * 86400;
    assert!(period_end_in_range("2026-09-24 23:59:59", now));
    assert_eq!(reset_hint("2026-09-24 23:59:59", now).as_deref(), Some("29天后重置"));
    assert_eq!(reset_hint("2026-08-26 23:59:59", now).as_deref(), Some("今日重置"));
    assert_eq!(reset_hint("garbage", now), None);
    assert!(!period_end_in_range("9223372036854775807-01-01", now));
}

#[test]
fn http_statuses() {
    assert!(http_outcome(200).is_none());
    assert!(matches!(http_outcome(500), Some(MimoFetch::Failed)));
    match http_outcome(401) {
        Some(MimoFetch::Fetched(m)) => {
            assert_eq!(m.items.len(), 1);
            assert_eq!(m.items[0].detail, "Cookie 已失效 · 请在设置中重新粘贴");
            assert_eq!(m.items[0].label, "Token Plan 套餐");
        }
        _ => panic!("expected the expired-cookie placeholder"),
    }
    assert!(matches!(http_outcome(403), Some(MimoFetch::Fetched(_))));
}

#[test]
fn body_outcome_messages() {
    match body_outcome(7, &Some(String::new()), 3).unwrap() {
        MimoFetch::Fetched(m) => assert_eq!(m.items[0].detail, "查询失败 (code 7) · Cookie 可能已失效"),
        _ => panic!(),
    }
    match body_outcome(-2, &None, 3).unwrap() {
        MimoFetch::Fetched(m) => assert_eq!(m.items[0].detail, "查询失败 (code -2) · Cookie 可能已失效"),
        _ => panic!(),
    }
    assert!(body_outcome(0, &None, 2).is_none());
}

#[test]
fn placeholder_and_cookie() {
    let p = placeholder_result("x".to_string());
    assert_eq!(p.name, "MiMo");
    assert_eq!(p.kind, "quota");
    assert_eq!(p.icon, "🧡");
    assert_eq!(p.color, "#FF6900");
    assert_eq!(p.items[0].used_bits, ZERO_BITS);
    assert_eq!(f64::from_bits(p.items[0].total_bits), 100.0);
    assert_eq!(p.items[0].total_bits, HUNDRED_BITS);
    assert_eq!(p.items[0].unit, "Credits");
    assert_eq!(request_cookie("   "), None);
    assert_eq!(request_cookie("  a=1 ").as_deref(), Some("a=1"));
    match mimo_fetched(vec![]) {
        MimoFetch::Fetched(m) => assert_eq!(m.name, "MiMo"),
        _ => panic!(),
    }
}

#[test]
fn parses_detail_current_period_end() {
    let resp: serde_json::Value = serde_json::from_str(
        r#"{ "code": 0, "data": { "planCode": "lite", "planName": "Lite",
            "currentPeriodEnd": "2026-09-24 23:59:59", "expired": false } }"#,
    )
    .unwrap();
    assert_eq!(resp["code"].as_i64(), Some(0));
    let end = resp["data"]["currentPeriodEnd"].as_str();
    assert_eq!(end, Some("2026-09-24 23:59:59"));
    assert_eq!(parse_civil_date(end.unwrap()), Some((2026, 9, 24)));
}

#[test]
fn now_is_counted_in_beijing_time() {
    assert_eq!(now_epoch_secs(0), 28_800);
    // 16:00 UTC on 2026-08-26 is midnight of 2026-08-27 in Beijing.
    let utc = (days_from_civil(2026, 8, 26) * 86400 + 16 * 3600) as u64;
    assert_eq!(now_epoch_secs(utc).div_euclid(86400), days_from_civil(2026, 8, 27));
    assert_eq!(days_until_period_end("2026-08-27 08:00:00", now_epoch_secs(utc)), Some(0));
}
