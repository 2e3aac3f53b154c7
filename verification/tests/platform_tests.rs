use aistatus::config::{
    balance_path, config_path, config_with_entry, config_with_mimo_cookie, config_with_theme, data_dir, load_mimo_cookie,
    load_theme,
};
use aistatus::data::{default_color, default_currency, default_service_type, default_title, default_total, default_unit};
use aistatus::placement::{
    bottom_right_in_range, bottom_right_position, near_tray_in_range, near_tray_position, top_right_in_range,
    top_right_position, tray_poll_step, TrayStep,
};
use aistatus::secrets::{decrypt, glm_key, minimax_key, EmbeddedSecrets};

#[test]
fn xor_decrypt_round_trips() {
    let key = b"k3y".to_vec();
    let plain = b"sk-test-1234".to_vec();
    let enc = decrypt(&plain, &key);
    assert_ne!(enc, plain);
    assert_eq!(decrypt(&enc, &key), plain);
    assert!(decrypt(&plain, &[]).is_empty());
    let s = EmbeddedSecrets { xor_key: key.clone(), enc_glm: enc.clone(), enc_minimax: decrypt(b"mm-key", &key) };
    assert_eq!(glm_key(&s), "sk-test-1234");
    assert_eq!(minimax_key(&s), "mm-key");
    let bad = EmbeddedSecrets { xor_key: vec![0], enc_glm: vec![0xff], enc_minimax: vec![] };
    assert_eq!(glm_key(&bad), "\u{fffd}");
    assert_eq!(minimax_key(&bad), "");
}

#[test]
fn paths_join_with_the_platform_separator() {
    let sep = std::path::MAIN_SEPARATOR;
    assert_eq!(config_path("/home/u/.config/aistatus", '/'), "/home/u/.config/aistatus/config.json");
    assert_eq!(config_path("C:\\Users\\u\\AppData\\Roaming\\aistatus", '\\'), "C:\\Users\\u\\AppData\\Roaming\\aistatus\\config.json");
    assert_eq!(balance_path("/x/", sep), "/x/balance.json");
    assert_eq!(balance_path("", sep), "balance.json");
    assert_eq!(data_dir(Some("/cfg"), sep), format!("/cfg{sep}aistatus"));
    assert_eq!(data_dir(None, sep), format!(".{sep}aistatus"));
    let dir = data_dir(Some("/a/b"), sep);
    let joined = std::path::PathBuf::from("/a/b").join("aistatus").join("config.json");
    assert_eq!(config_path(&dir, sep), joined.to_string_lossy());
    let balance = std::path::PathBuf::from(balance_path(&dir, sep));
    let config = std::path::PathBuf::from(config_path(&dir, sep));
    assert_eq!(balance.parent(), config.parent());
    assert_ne!(balance, config);
}

#[test]
fn settings_read_from_config() {
    assert_eq!(load_theme(Some(r#"{"theme": "dark"}"#)), "dark");
    assert_eq!(load_theme(Some(r#"{"theme": "light", "mimo": {"cookie": "x"}}"#)), "light");
    assert_eq!(load_theme(Some(r#"{"theme": "neon"}"#)), "system");
    assert_eq!(load_theme(Some(r#"{"theme": 3}"#)), "system");
    assert_eq!(load_theme(Some("not json")), "system");
    assert_eq!(load_theme(Some("[1, 2]")), "system");
    assert_eq!(load_theme(None), "system");
    assert_eq!(load_mimo_cookie(Some(r#"{"mimo": {"cookie": "a=1"}}"#)), "a=1");
    assert_eq!(load_mimo_cookie(Some(r#"{"mimo": "a=1"}"#)), "");
    assert_eq!(load_mimo_cookie(Some(r#"{"mimo": [{"cookie": "a=1"}]}"#)), "");
    assert_eq!(load_mimo_cookie(Some("{")), "");
    assert_eq!(load_mimo_cookie(None), "");
}

#[test]
fn settings_saved_into_config() {
    let old = r#"{"theme": "dark", "floatWindow": {"x": 10.5, "y": 20.0}, "mimo": {"cookie": "old"}}"#;
    let t = config_with_theme(Some(old), "light");
    assert_eq!(load_theme(Some(&t)), "light");
    assert_eq!(load_mimo_cookie(Some(&t)), "old");
    let v: serde_json::Value = serde_json::from_str(&t).unwrap();
    assert_eq!(v["floatWindow"]["x"].as_f64(), Some(10.5));
    let c = config_with_mimo_cookie(Some(&t), "sid=1; tok=2");
    assert_eq!(load_mimo_cookie(Some(&c)), "sid=1; tok=2");
    assert_eq!(load_theme(Some(&c)), "light");
    assert_eq!(load_mimo_cookie(Some(&config_with_mimo_cookie(None, ""))), "");
    let fresh = config_with_theme(Some("[broken"), "system");
    assert_eq!(fresh, "{\n  \"theme\": \"system\"\n}");
}

#[test]
fn field_defaults() {
    assert_eq!(f64::from_bits(default_total()), 1.0);
    assert_eq!(default_service_type(), "balance");
    assert_eq!(default_color(), "#888888");
    assert_eq!(default_currency(), "¥");
    assert_eq!(default_unit(), "元");
    assert_eq!(default_title(), "AI API 余额监控");
}

#[test]
fn window_positions() {
    // 1920x1080 monitor at the origin, 340x400 window, 40 px margin, 48 px task bar, 12 px gap
    assert_eq!(bottom_right_position(0, 0, 1920, 1080, 340, 400, 40, 48, 12), (1540, 620));
    // a window taller than the screen is kept at the top-left corner of the monitor
    assert_eq!(bottom_right_position(-1920, 0, 1920, 1080, 2000, 2000, 40, 48, 12), (-1920, 0));
    assert_eq!(top_right_position(0, 0, 2560, 340), (2200, 29));
    // centred under a 22 px icon at x = 2000; the window fits
    assert_eq!(near_tray_position(2000, 0, 22, 24, 340, 0, 2560), (1841, 28));
    // too close to the right edge: clamped to 2560 - 340 - 20
    assert_eq!(near_tray_position(2550, 0, 22, 24, 340, 0, 2560), (2200, 28));
    // too close to the left edge
    assert_eq!(near_tray_position(0, 0, 22, 24, 340, 0, 2560), (20, 28));
}

#[test]
fn placement_range_checks() {
    assert!(bottom_right_in_range(0, 0, 1920, 1080, 340, 400, 40, 48, 12));
    assert!(!bottom_right_in_range(i32::MAX, 0, 1, 0, 0, 0, 0, 0, 0));
    assert!(!bottom_right_in_range(0, i32::MIN, 0, 0, 0, 1, 0, 0, 0));
    assert!(top_right_in_range(0, 0, 1440, 340));
    assert!(!top_right_in_range(0, i32::MAX - 10, 1440, 340));
    assert!(near_tray_in_range(1200, 0, 22, 24, 340, 0, 1440));
    assert!(!near_tray_in_range(1200, i32::MAX, 22, 24, 340, 0, 1440));
}

#[test]
fn saving_the_float_window_keeps_other_settings() {
    let old = r#"{"theme": "dark", "mimo": {"cookie": "sid=1"}, "floatWindow": {"x": 1.0, "y": 2.0}}"#;
    let mut pos = serde_json::Map::new();
    pos.insert("x".into(), serde_json::Value::from(120.5));
    pos.insert("y".into(), serde_json::Value::from(-30.0));
    let t = config_with_entry(Some(old), "floatWindow", pos);
    assert_eq!(load_theme(Some(&t)), "dark");
    assert_eq!(load_mimo_cookie(Some(&t)), "sid=1");
    let v: serde_json::Value = serde_json::from_str(&t).unwrap();
    assert_eq!(v["floatWindow"]["x"].as_f64(), Some(120.5));
    assert_eq!(v["floatWindow"]["y"].as_f64(), Some(-30.0));
    let mut inner = serde_json::Map::new();
    inner.insert("cookie".into(), serde_json::Value::String("c".into()));
    let fresh = config_with_entry(None, "mimo", inner);
    assert_eq!(load_mimo_cookie(Some(&fresh)), "c");
}

#[test]
fn tray_polling_steps() {
    assert!(matches!(tray_poll_step(0, Some(1300), 1440), TrayStep::Anchor));
    assert!(matches!(tray_poll_step(0, Some(0), 1440), TrayStep::Retry));
    assert!(matches!(tray_poll_step(3, None, 1440), TrayStep::Retry));
    assert!(matches!(tray_poll_step(13, Some(720), 1440), TrayStep::Retry));
    assert!(matches!(tray_poll_step(14, Some(720), 1440), TrayStep::GiveUp));
    assert!(matches!(tray_poll_step(14, Some(721), 1440), TrayStep::Anchor));
    assert!(matches!(tray_poll_step(0, Some(1), 0), TrayStep::Anchor));
}
