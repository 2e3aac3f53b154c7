use aistatus::fetcher::duration_text;
use aistatus::fetcher::minimax::{
    aggregate_window, api_error_result, base_resp_outcome, metered_models, minimax_reply, no_data_result, placeholder_items,
    ModelRemain, Window,
};

fn model(
    name: &str,
    interval_status: i64,
    interval_remaining: f64,
    interval_time: f64,
    weekly_status: i64,
    weekly_remaining: f64,
) -> ModelRemain {
    ModelRemain {
        model_name: Some(name.into()),
        current_interval_status: Some(interval_status),
        current_interval_remaining_percent: Some(interval_remaining.to_bits()),
        remains_time: Some(interval_time.to_bits()),
        current_weekly_status: Some(weekly_status),
        current_weekly_remaining_percent: Some(weekly_remaining.to_bits()),
        weekly_remains_time: None,
    }
}

// The floating-point side of a window, as the program computes it around the
// library: the used percentage from the metered models and the countdown text
// of the earliest remaining time.
fn used_bits(models: &[ModelRemain], window: &Window) -> u64 {
    let metered = metered_models(&models.to_vec_models(), window);
    let used = if metered.is_empty() {
        100.0
    } else {
        let sum: f64 = metered
            .iter()
            .map(|&i| f64::from_bits(window.remaining_pct(&models[i]).unwrap()))
            .sum();
        100.0 - sum / metered.len() as f64
    };
    ((used * 10.0).round() / 10.0).to_bits()
}

fn reset_text(models: &[ModelRemain], window: &Window) -> String {
    let times: Vec<f64> = models.iter().filter_map(|m| window.remains_time(m)).map(f64::from_bits).collect();
    if times.is_empty() {
        return String::new();
    }
    let ms = times.iter().cloned().fold(f64::INFINITY, f64::min);
    if ms <= 0.0 {
        return String::new();
    }
    let s = ms / 1000.0;
    duration_text((s / 86400.0) as i64, ((s % 86400.0) / 3600.0) as i64, ((s % 3600.0) / 60.0) as i64)
}

trait ToVecModels {
    fn to_vec_models(&self) -> Vec<ModelRemain>;
}

impl ToVecModels for [ModelRemain] {
    fn to_vec_models(&self) -> Vec<ModelRemain> {
        self.iter()
            .map(|m| ModelRemain {
                model_name: m.model_name.clone(),
                current_interval_status: m.current_interval_status,
                current_interval_remaining_percent: m.current_interval_remaining_percent,
                remains_time: m.remains_time,
                current_weekly_status: m.current_weekly_status,
                current_weekly_remaining_percent: m.current_weekly_remaining_percent,
                weekly_remains_time: m.weekly_remains_time,
            })
            .collect()
    }
}

#[test]
fn exhausted_interval_uses_exhausted_message() {
    let models = vec![
        model("general", 2, 0.0, 13_236_972.0, 3, 100.0),
        model("video", 3, 100.0, 27_636_972.0, 3, 100.0),
    ];
    let w = Window::Interval;
    let item = aggregate_window(
        &models,
        &w,
        "5小时限额",
        "本周期可用",
        true,
        None,
        &reset_text(&models, &w),
        used_bits(&models, &w),
    );

    assert_eq!(f64::from_bits(item.used_bits), 100.0);
    assert_eq!(item.display_value, None);
    assert_eq!(item.detail, "额度已用尽 · 3小时40分后重置");
}

#[test]
fn unlimited_weekly_uses_infinity_display() {
    let models = vec![
        model("general", 2, 0.0, 13_236_972.0, 3, 100.0),
        model("video", 3, 100.0, 27_636_972.0, 3, 100.0),
    ];
    let w = Window::Weekly;
    let item = aggregate_window(
        &models,
        &w,
        "周限额",
        "无限额",
        false,
        Some("∞"),
        &reset_text(&models, &w),
        used_bits(&models, &w),
    );

    assert_eq!(item.display_value.as_deref(), Some("∞"));
    assert_eq!(item.detail, "无限额");
}

#[test]
fn active_weekly_keeps_numeric_display() {
    let models = vec![model("general", 1, 80.0, 13_236_972.0, 1, 75.0)];
    let w = Window::Weekly;
    let item = aggregate_window(
        &models,
        &w,
        "周限额",
        "无限额",
        false,
        Some("∞"),
        &reset_text(&models, &w),
        used_bits(&models, &w),
    );

    assert_eq!(f64::from_bits(item.used_bits), 25.0);
    assert_eq!(item.display_value, None);
}

#[test]
fn active_models_are_named_sorted_and_deduplicated() {
    let models = vec![
        model("video", 1, 90.0, 60_000.0, 3, 0.0),
        model("GENERAL", 1, 80.0, 120_000.0, 3, 0.0),
        model("audio", 1, 70.0, 180_000.0, 3, 0.0),
        model("video", 1, 60.0, 240_000.0, 3, 0.0),
        model("image", 2, 0.0, 240_000.0, 3, 0.0),
    ];
    let w = Window::Interval;
    assert_eq!(metered_models(&models, &w), vec![0, 1, 2, 3, 4]);
    let item = aggregate_window(&models, &w, "5小时限额", "本周期可用", true, None, "1分", 0);
    assert_eq!(item.detail, "1分后重置 (audio, video)");
    let none = aggregate_window(&models, &w, "5小时限额", "本周期可用", true, None, "", 0);
    assert_eq!(none.detail, "");
}

#[test]
fn inactive_interval_shows_full_quota_with_reset() {
    let models = vec![model("video", 3, 100.0, 60_000.0, 3, 0.0)];
    let w = Window::Interval;
    assert!(metered_models(&models, &w).is_empty());
    let item = aggregate_window(&models, &w, "5小时限额", "本周期可用", true, None, "1分", used_bits(&models, &w));
    assert_eq!(item.detail, "本周期可用 · 1分后重置");
    assert_eq!(f64::from_bits(item.used_bits), 100.0);
    assert_eq!(item.unit, "%");
}

#[test]
fn placeholders_and_errors() {
    let p = placeholder_items("m".to_string());
    assert_eq!(p.len(), 2);
    assert_eq!(p[0].label, "5小时限额");
    assert_eq!(p[1].label, "周限额");
    assert_eq!(p[1].detail, "m");
    let e = api_error_result(1004);
    assert_eq!(e.items[0].detail, "API 错误 1004");
    assert_eq!(e.name, "MiniMax");
    assert_eq!(no_data_result().items[0].detail, "暂无用量数据");
    assert!(base_resp_outcome(Some(0)).is_none());
    assert!(base_resp_outcome(None).is_none());
    assert_eq!(base_resp_outcome(Some(-1)).unwrap().items[1].detail, "API 错误 -1");
}

#[test]
fn reply_picks_error_placeholder_or_both_windows() {
    let models = vec![model("general", 1, 80.0, 13_236_972.0, 3, 100.0)];
    let err = minimax_reply(Some(1004), &models, "1分", 0, "", 0);
    assert_eq!(err.items.len(), 2);
    assert_eq!(err.items[0].detail, "API 错误 1004");
    let empty = minimax_reply(Some(0), &vec![], "", 0, "", 0);
    assert_eq!(empty.items[1].detail, "暂无用量数据");
    let (iw, ww) = (Window::Interval, Window::Weekly);
    let r = minimax_reply(
        None,
        &models,
        &reset_text(&models, &iw),
        used_bits(&models, &iw),
        &reset_text(&models, &ww),
        used_bits(&models, &ww),
    );
    assert_eq!(r.name, "MiniMax");
    assert_eq!(r.color, "#EA580C");
    assert_eq!(r.items[0].label, "5小时限额");
    assert_eq!(f64::from_bits(r.items[0].used_bits), 20.0);
    assert_eq!(r.items[0].detail, "3小时40分后重置");
    assert_eq!(r.items[1].label, "周限额");
    assert_eq!(r.items[1].display_value.as_deref(), Some("∞"));
    assert_eq!(r.items[1].detail, "无限额");
}

#[test]
fn unmetered_window_shows_one_hundred() {
    let models = vec![model("video", 3, 40.0, 60_000.0, 3, 0.0)];
    let item = aggregate_window(&models, &Window::Interval, "5小时限额", "本周期可用", true, None, "", 0);
    assert_eq!(f64::from_bits(item.used_bits), 100.0);
    assert_eq!(item.detail, "本周期可用");
    let metered = vec![model("general", 1, 40.0, 60_000.0, 3, 0.0)];
    let item = aggregate_window(&metered, &Window::Interval, "5小时限额", "本周期可用", true, None, "", 60f64.to_bits());
    assert_eq!(f64::from_bits(item.used_bits), 60.0);
}
