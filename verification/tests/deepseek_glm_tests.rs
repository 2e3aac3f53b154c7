use aistatus::fetcher::deepseek::{balance_result, deepseek_reply, format_money, insert_commas, normalize_currency, unavailable_result};
use aistatus::fetcher::glm::{glm_items, glm_reply, glm_result, limit_label, positive, GlmLimit, GlmLimitTexts};
use aistatus::fetcher::duration_text;

#[test]
fn commas_every_three_digits() {
    assert_eq!(insert_commas(0), "0");
    assert_eq!(insert_commas(999), "999");
    assert_eq!(insert_commas(1000), "1,000");
    assert_eq!(insert_commas(1234567), "1,234,567");
    assert_eq!(insert_commas(u64::MAX), "18,446,744,073,709,551,615");
}

#[test]
fn money_texts() {
    assert_eq!(format_money(&format!("{:.2}", 65.02f64)), "65.02");
    assert_eq!(format_money(&format!("{:.2}", 1234567.891f64)), "1,234,567.89");
    assert_eq!(format_money(&format!("{:.2}", -1234.5f64)), "-1,234.50");
    assert_eq!(format_money("inf"), "0.");
}

#[test]
fn currency_and_cards() {
    assert_eq!(normalize_currency("CNY"), "¥");
    assert_eq!(normalize_currency(""), "¥");
    assert_eq!(normalize_currency("USD"), "USD");
    let r = balance_result(65.02f64.to_bits(), "CNY", "65.02");
    assert_eq!(r.detail, "剩余 ¥65.02");
    assert_eq!(r.color, "#4D6BFE");
    assert_eq!(r.currency, "¥");
    let low = balance_result(10.0f64.to_bits(), "", "10.00");
    assert_eq!(low.color, "#FF5252");
    let nan = balance_result(f64::NAN.to_bits(), "", "NaN");
    assert_eq!(nan.color, "#FF5252");
    let u = unavailable_result();
    assert_eq!(u.detail, "账户不可用或额度耗尽");
    assert_eq!(u.color, "#FF5252");
}

#[test]
fn positive_bits_match_float_comparison() {
    for v in [0.0f64, -0.0, 1e-300, 5.0, -5.0, f64::INFINITY, f64::NEG_INFINITY, f64::NAN, f64::MIN_POSITIVE] {
        assert_eq!(positive(v.to_bits()), v > 0.0, "{v}");
    }
}

fn limit(ty: &str, usage: Option<f64>, cur: Option<f64>, pct: f64, unit: Option<i64>, number: Option<i64>) -> GlmLimit {
    GlmLimit {
        limit_type: ty.to_string(),
        usage: usage.map(f64::to_bits),
        current_value: cur.map(f64::to_bits),
        percentage: pct.to_bits(),
        unit,
        number,
    }
}

fn texts(used: &str, total: &str, pct: i64, reset: &str) -> GlmLimitTexts {
    GlmLimitTexts { used_tokens: used.to_string(), total_tokens: total.to_string(), percent_int: pct, reset: reset.to_string() }
}

#[test]
fn glm_lines_in_order_with_tool_last() {
    let limits = vec![
        limit("TIME_LIMIT", Some(100.0), Some(3.0), 0.0, None, None),
        limit("TOKENS_LIMIT", None, None, 42.0, Some(3), Some(5)),
        limit("OTHER", Some(1.0), None, 0.0, None, None),
        limit("TOKENS_LIMIT", Some(2e8), Some(1e8), 50.0, Some(6), Some(1)),
        limit("TIME_LIMIT", Some(0.0), None, 0.0, None, None),
    ];
    let t = vec![
        texts("", "", 0, "2小时5分"),
        texts("", "", 42, "3小时"),
        texts("", "", 0, ""),
        texts("1.00亿", "2.00亿", 50, ""),
        texts("", "", 0, ""),
    ];
    let items = glm_items(&limits, &t);
    let labels: Vec<&str> = items.iter().map(|q| q.label.as_str()).collect();
    assert_eq!(labels, vec!["5小时限额", "周限额", "工具调用"]);
    assert_eq!(items[0].unit, "%");
    assert_eq!(f64::from_bits(items[0].used_bits), 42.0);
    assert_eq!(items[0].detail, "3小时后重置");
    assert_eq!(items[1].unit, "tokens");
    assert_eq!(items[1].detail, "已用 1.00亿 / 2.00亿 (50%)");
    assert_eq!(items[2].unit, "次");
    assert_eq!(f64::from_bits(items[2].used_bits), 3.0);
    assert_eq!(items[2].detail, "2小时5分后重置");
    let r = glm_result("pro".to_string(), items).unwrap();
    assert_eq!(r.level.as_deref(), Some("pro"));
    assert_eq!(r.name, "GLM 智谱AI");
    assert!(glm_result("pro".to_string(), vec![]).is_none());
    assert_eq!(limit_label(None, None), "Token限额");
}

#[test]
fn empty_level_is_dropped() {
    let items = glm_items(&vec![limit("TOKENS_LIMIT", None, None, 1.0, None, None)], &vec![texts("", "", 1, "")]);
    let r = glm_result(String::new(), items).unwrap();
    assert_eq!(r.level, None);
    assert_eq!(r.items[0].label, "Token限额");
    assert_eq!(r.items[0].detail, "");
}

#[test]
fn durations() {
    assert_eq!(duration_text(2, 3, 4), "2天3小时");
    assert_eq!(duration_text(0, 3, 40), "3小时40分");
    assert_eq!(duration_text(0, 0, 5), "5分");
}

#[test]
fn deepseek_reply_follows_availability() {
    let ok = deepseek_reply(true, 1234.5f64.to_bits(), "CNY", "1234.50");
    assert_eq!(ok.detail, "剩余 ¥1,234.50");
    assert_eq!(ok.color, "#4D6BFE");
    assert_eq!(f64::from_bits(ok.balance_bits), 1234.5);
    let off = deepseek_reply(false, 1234.5f64.to_bits(), "CNY", "1234.50");
    assert_eq!(off.detail, "账户不可用或额度耗尽");
    assert_eq!(f64::from_bits(off.balance_bits), 0.0);
}

#[test]
fn glm_reply_needs_code_200() {
    let limits = vec![limit("TOKENS_LIMIT", None, None, 7.0, Some(3), Some(5))];
    let t = vec![texts("", "", 7, "1分")];
    assert!(glm_reply(401, "pro".to_string(), &limits, &t).is_none());
    assert!(glm_reply(200, "pro".to_string(), &vec![], &vec![]).is_none());
    let r = glm_reply(200, "pro".to_string(), &limits, &t).unwrap();
    assert_eq!(r.items.len(), 1);
    assert_eq!(r.items[0].label, "5小时限额");
    assert_eq!(r.items[0].detail, "1分后重置");
}
