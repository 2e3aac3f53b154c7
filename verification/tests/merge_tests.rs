use aistatus::data::{
    BalanceData, FetchOutcome, GlmResult, MimoFetch, MimoResult, MinimaxResult, QuotaItem, ServiceInfo,
};
use aistatus::merge::merge_api_into;
use aistatus::state::{has_mimo_card, refreshed_snapshot, startup_snapshot};

fn item(label: &str) -> QuotaItem {
    QuotaItem {
        label: label.to_string(),
        display_value: None,
        used_bits: 1f64.to_bits(),
        total_bits: 100f64.to_bits(),
        unit: "%".to_string(),
        detail: String::new(),
    }
}

fn card(name: &str) -> ServiceInfo {
    ServiceInfo {
        name: name.to_string(),
        kind: "balance".to_string(),
        icon: "old-icon".to_string(),
        color: "#000000".to_string(),
        items: vec![],
        balance_bits: 5f64.to_bits(),
        currency: "¥".to_string(),
        unit: "元".to_string(),
        detail: "old".to_string(),
        loading: false,
    }
}

fn data(names: &[&str]) -> BalanceData {
    BalanceData {
        title: "T".to_string(),
        services: names.iter().map(|n| card(n)).collect(),
        timestamp_bits: Some(7),
    }
}

fn glm(level: Option<&str>, items: Vec<QuotaItem>) -> GlmResult {
    GlmResult {
        name: "GLM 智谱AI".to_string(),
        kind: "quota".to_string(),
        icon: String::new(),
        color: String::new(),
        level: level.map(|s| s.to_string()),
        items,
    }
}

fn minimax(items: Vec<QuotaItem>) -> MinimaxResult {
    MinimaxResult {
        name: "MiniMax".to_string(),
        kind: "quota".to_string(),
        icon: "🟠".to_string(),
        color: String::new(),
        items,
    }
}

fn mimo(items: Vec<QuotaItem>) -> MimoResult {
    MimoResult { name: "MiMo".to_string(), kind: "quota".to_string(), icon: String::new(), color: String::new(), items }
}

fn outcome(g: Option<GlmResult>, m: Option<MinimaxResult>, mi: MimoFetch) -> FetchOutcome {
    FetchOutcome { deepseek: None, glm: g, minimax: m, mimo: mi }
}

fn names(d: &BalanceData) -> Vec<String> {
    d.services.iter().map(|s| s.name.clone()).collect()
}

#[test]
fn existing_cards_are_overwritten_in_place() {
    let mut d = data(&["GLM 智谱AI", "MiniMax 稀宇科技", "MiMo"]);
    let o = outcome(
        Some(glm(Some("pro"), vec![item("5小时限额")])),
        Some(minimax(vec![item("周限额")])),
        MimoFetch::Fetched(mimo(vec![item("Token Plan 套餐")])),
    );
    merge_api_into(&mut d, &o);
    assert_eq!(names(&d), vec!["GLM 智谱AI · PRO", "MiniMax 稀宇科技", "MiMo"]);
    let g = &d.services[0];
    assert_eq!(g.kind, "quota");
    assert_eq!(g.color, "#2563EB");
    assert_eq!(g.icon, "old-icon");
    assert!(!g.loading);
    assert_eq!(g.items[0].label, "5小时限额");
    assert_eq!(g.detail, "old");
    assert_eq!(g.balance_bits, 5f64.to_bits());
    let m = &d.services[1];
    assert_eq!(m.icon, "🟠");
    assert_eq!(m.color, "#EA580C");
    let mi = &d.services[2];
    assert_eq!(mi.icon, "🧡");
    assert_eq!(mi.color, "#FF6900");
    assert_eq!(d.title, "T");
    assert_eq!(d.timestamp_bits, Some(7));
}

#[test]
fn missing_data_marks_existing_cards_loading() {
    let mut d = data(&["GLM 智谱AI · LITE", "MiniMax", "MiMo"]);
    let o = outcome(Some(glm(None, vec![])), None, MimoFetch::Failed);
    merge_api_into(&mut d, &o);
    assert_eq!(names(&d), vec!["GLM 智谱AI · LITE", "MiniMax", "MiMo"]);
    assert!(d.services.iter().all(|s| s.loading));
    assert_eq!(d.services[0].kind, "balance");
}

#[test]
fn new_cards_are_appended_only_with_data() {
    let mut d = data(&[]);
    let o = outcome(
        Some(glm(None, vec![item("a")])),
        Some(minimax(vec![])),
        MimoFetch::Fetched(mimo(vec![item("b")])),
    );
    merge_api_into(&mut d, &o);
    assert_eq!(names(&d), vec!["GLM 智谱AI", "MiMo"]);
    let g = &d.services[0];
    assert_eq!(g.icon, "🔷");
    assert_eq!(g.kind, "quota");
    assert_eq!(g.currency, "");
    assert_eq!(g.balance_bits, 0);
    assert!(!g.loading);
}

#[test]
fn unconfigured_mimo_removes_its_card_and_retired_cards_go() {
    let mut d = data(&["DeepSeek", "  MiniMax", "MiMo Token Plan", "GLM 智谱AI"]);
    let o = outcome(None, None, MimoFetch::NotConfigured);
    merge_api_into(&mut d, &o);
    assert_eq!(names(&d), vec!["  MiniMax", "GLM 智谱AI"]);
    assert!(d.services[1].loading);
    // "  MiniMax" is not the MiniMax card (no exact name match), so it is kept untouched
    assert!(!d.services[0].loading);
    assert!(!has_mimo_card(&d));
}

#[test]
fn mimo_failure_without_card_adds_nothing() {
    let mut d = data(&["GLM 智谱AI"]);
    merge_api_into(&mut d, &outcome(None, None, MimoFetch::Failed));
    assert_eq!(names(&d), vec!["GLM 智谱AI"]);
}

#[test]
fn merging_twice_gives_the_same_cards() {
    let o = outcome(
        Some(glm(Some("max"), vec![item("x")])),
        Some(minimax(vec![item("y")])),
        MimoFetch::Fetched(mimo(vec![item("z")])),
    );
    let mut d = data(&["DeepSeek"]);
    merge_api_into(&mut d, &o);
    let once = names(&d);
    merge_api_into(&mut d, &o);
    assert_eq!(once, names(&d));
    assert_eq!(once, vec!["GLM 智谱AI · MAX", "MiniMax", "MiMo"]);
}

#[test]
fn snapshots() {
    let s = startup_snapshot(data(&["GLM 智谱AI", "DeepSeek"]), 42);
    assert!(s.services.iter().all(|c| c.loading));
    assert_eq!(s.timestamp_bits, Some(42));
    assert_eq!(s.services.len(), 2);
    let r = refreshed_snapshot(data(&["DeepSeek", "MiMo"]), &outcome(None, None, MimoFetch::Failed), 9);
    assert_eq!(names(&r), vec!["MiMo"]);
    assert!(r.services[0].loading);
    assert_eq!(r.timestamp_bits, Some(9));
    assert!(has_mimo_card(&r));
}
