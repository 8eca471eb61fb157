use zatamap_trade_rust::autologin::{
    chrome_binary_path, chromedriver_path_score, chromedriver_port, chromedriver_url,
    choose_chromedriver_spawn_path, default_chrome_binary, default_chromedriver_candidates,
    effective_os, env_path, find_best_file_named, find_default_chromedriver, headless,
    required_secret, should_login, AutoLoginOptions, PathProbe,
};
use zatamap_trade_rust::clock::{now_unix_ns, receipt_time, receipt_time_since};
use zatamap_trade_rust::copy_text::{
    copy_escape_text_field, copy_field_opt_i32, copy_field_opt_i64, copy_field_opt_str, copy_line,
};
use zatamap_trade_rust::db::{requires_tls, split_key_value, sslmode};
use zatamap_trade_rust::error::AppError;
use zatamap_trade_rust::instruments::InstrumentUpsert;
use zatamap_trade_rust::kite_auth::{
    authorization, callback_url_for_user, checksum, extract_query_param, include_redirect, login_url,
};
use zatamap_trade_rust::profile::{UserKiteCreds, UserZerodhaLogin};
use zatamap_trade_rust::selenium::{
    chrome_args, element_command, extract_element, extract_session_id, keep_waiting, session_path,
    Element, SeleniumOptions, WEB_ELEMENT_KEY,
};
use zatamap_trade_rust::text::{blank, parse_u64, push_decimal};
use zatamap_trade_rust::tick_log::{env_bool_default, TickLogState};
use zatamap_trade_rust::totp::{be_bytes, generate_totp, password_from_code};
use zatamap_trade_rust::ws::TickLogConfig;

fn login() -> UserZerodhaLogin {
    UserZerodhaLogin {
        api_key: "k".to_string(),
        api_secret: "s".to_string(),
        access_token: None,
        zerodha_password: Some("pw".to_string()),
        zerodha_pin: Some("".to_string()),
        totp_secret: None,
        os_type: None,
        chrome_binary_path: None,
        chromedriver_path: None,
    }
}

#[test]
fn blank_texts() {
    assert!(blank(""));
    assert!(blank(" \t\n\u{a0}\u{3000}"));
    for c in (0u32..0x3100).filter_map(char::from_u32) {
        let white = matches!(
            c as u32,
            0x09..=0x0D | 0x20 | 0x85 | 0xA0 | 0x1680 | 0x2000..=0x200A | 0x2028 | 0x2029 | 0x202F | 0x205F | 0x3000
        );
        assert_eq!(blank(&c.to_string()), white);
    }
    assert!(!blank(" x "));
}

#[test]
fn unsigned_numbers() {
    assert_eq!(parse_u64("0"), Some(0));
    assert_eq!(parse_u64("007"), Some(7));
    assert_eq!(parse_u64("+15"), Some(15));
    assert_eq!(parse_u64("18446744073709551615"), Some(u64::MAX));
    assert_eq!(parse_u64("18446744073709551616"), None);
    assert_eq!(parse_u64("99999999999999999999999"), None);
    assert_eq!(parse_u64(""), None);
    assert_eq!(parse_u64("+"), None);
    assert_eq!(parse_u64("-1"), None);
    assert_eq!(parse_u64("1+"), None);
    assert_eq!(parse_u64("++1"), None);
    assert_eq!(parse_u64("12a"), None);
    assert_eq!(parse_u64(" 12"), None);
    for n in ["0", "+0", "42", "1+", "x", "184467440737095516150"] {
        assert_eq!(parse_u64(n), n.parse::<u64>().ok());
    }
}

#[test]
fn decimal_of_numbers() {
    for n in [0i64, 7, 10, -1, 256265, i64::MIN, i64::MAX, -1000] {
        let mut out = String::from(">");
        push_decimal(&mut out, n);
        assert_eq!(out, format!(">{}", n));
    }
}

#[test]
fn clock_gives_a_time_and_truncates() {
    assert_eq!(receipt_time(5), 5);
    assert_eq!(receipt_time(1u128 << 64), 0);
    assert_eq!(receipt_time((1u128 << 64) + 9), 9);
    assert_eq!(receipt_time_since(None), 0);
    assert_eq!(receipt_time_since(Some(1_700_000_000_000_000_123)), 1_700_000_000_000_000_123);
    assert_eq!(receipt_time_since(Some((1u128 << 64) + 9)), 9);
    assert!(now_unix_ns() > 1_600_000_000_000_000_000);
}

#[test]
fn tick_log_switch_and_interval() {
    assert!(env_bool_default(None, true));
    assert!(!env_bool_default(None, false));
    assert!(!env_bool_default(Some(" off "), true));
    assert!(!env_bool_default(Some("0"), true));
    assert!(env_bool_default(Some("YES"), false));
    assert!(env_bool_default(Some("maybe"), true));
    assert!(!env_bool_default(Some("True"), false));
    assert!(env_bool_default(Some("   "), true));
    assert_eq!(TickLogConfig::from_env(None, None), TickLogConfig { enabled: true, interval_ms: 500 });
    assert_eq!(
        TickLogConfig::from_env(Some("no"), Some(" 250 ")),
        TickLogConfig { enabled: false, interval_ms: 250 }
    );
    assert_eq!(TickLogConfig::from_env(Some("1"), Some("0")).interval_ms, 500);
    assert_eq!(TickLogConfig::from_env(Some("1"), Some("abc")).interval_ms, 500);
    let config = TickLogConfig::from_env(None, None);
    assert!(!config.with_override(Some(false)).enabled);
    assert!(config.with_override(None).enabled);
    assert_eq!(config.with_override(Some(false)).interval_ms, 500);
}

#[test]
fn first_tick_of_a_token_is_always_logged() {
    let config = TickLogConfig { enabled: true, interval_ms: 500 };
    let mut state = TickLogState::new(1_000);
    assert!(state.should_log(&config, 1, 1_000));
    assert!(!state.should_log(&config, 1, 1_100));
    assert!(state.should_log(&config, 2, 1_200));
    assert!(!state.should_log(&config, 1, 1_699));
    assert!(state.should_log(&config, 1, 1_700));
    assert!(!state.should_log(&config, 2, 900));
    let off = TickLogConfig { enabled: false, interval_ms: 0 };
    let mut state = TickLogState::new(0);
    assert!(!state.should_log(&off, 1, 10_000));
    assert!(state.should_log(&config, 1, 10_000));
}

#[test]
fn totp_matches_known_values() {
    let secret = "GEZDGNBVGY3TQOJQGEZDGNBVGY3TQOJQ";
    assert_eq!(generate_totp(secret, 59), Ok("287082".to_string()));
    assert_eq!(generate_totp(secret, 1111111109), Ok("081804".to_string()));
    assert_eq!(generate_totp(secret, 1234567890), Ok("005924".to_string()));
    assert_eq!(generate_totp("gezd gnbv gy3t qojq gezd gnbv gy3t qojq", 59), Ok("287082".to_string()));
    assert_eq!(generate_totp(secret, 30), generate_totp(secret, 59));
    assert_eq!(
        generate_totp("not base32 !", 59),
        Err(AppError::KiteApi("Invalid base32 totp_secret".to_string()))
    );
}

#[test]
fn code_is_truncated_at_the_offset_of_its_last_nibble() {
    let code = [
        0x1f, 0x86, 0x98, 0x69, 0x0e, 0x02, 0xca, 0x16, 0x61, 0x85, 0x50, 0xef, 0x7f, 0x19, 0xda, 0x8e,
        0x94, 0x5b, 0x55, 0x5a,
    ];
    assert_eq!(password_from_code(&code), "872921");
    let mut zero = [0u8; 20];
    zero[0] = 0x80;
    assert_eq!(password_from_code(&zero), "000000");
    assert_eq!(be_bytes(1), vec![0, 0, 0, 0, 0, 0, 0, 1]);
    assert_eq!(be_bytes(0x0102030405060708), vec![1, 2, 3, 4, 5, 6, 7, 8]);
    assert_eq!(be_bytes(u64::MAX), u64::MAX.to_be_bytes().to_vec());
}

#[test]
fn checksum_is_sha256_in_hex() {
    assert_eq!(
        checksum("a", "b", "c"),
        "ba7816bf8f01cfea414140de5dae2223b00361a396177a9cb410ff61f20015ad"
    );
    assert_eq!(
        checksum("", "", ""),
        "e3b0c44298fc1c149afbf4c8996fb92427ae41e4649b934ca495991b7852b855"
    );
}

#[test]
fn login_addresses() {
    assert_eq!(
        login_url("k y", "https://x/cb?u=1", false),
        "https://kite.zerodha.com/connect/login?api_key=k%20y&v=3"
    );
    assert_eq!(
        login_url("key", "https://x/cb?u=1", true),
        "https://kite.zerodha.com/connect/login?api_key=key&v=3&redirect_url=https%3A%2F%2Fx%2Fcb%3Fu%3D1"
    );
    assert!(include_redirect(Some("1")));
    assert!(include_redirect(Some("TrUe")));
    assert!(!include_redirect(Some("yes")));
    assert!(!include_redirect(None));
    assert_eq!(authorization("k", "t"), "token k:t");
}

#[test]
fn callback_addresses() {
    assert_eq!(callback_url_for_user("https://h/c?userid={userid}", "A B"), "https://h/c?userid=A%20B");
    assert_eq!(callback_url_for_user("https://h/c?u={user_id}&x={user_id}", "Q1"), "https://h/c?u=Q1&x=Q1");
    assert_eq!(callback_url_for_user("https://h/c?userid=QFH620", "Z"), "https://h/c?userid=QFH620");
    assert_eq!(callback_url_for_user("https://h/c?user_id=QFH620&a=b", "Z"), "https://h/c?user_id=QFH620&a=b");
    assert_eq!(callback_url_for_user("https://h/c", "A B"), "https://h/c?userid=A+B");
    assert_eq!(callback_url_for_user("https://h/c?a=b", "Z"), "https://h/c?a=b&userid=Z");
    assert_eq!(callback_url_for_user("/c", "A B"), "/c?userid=A%20B");
    assert_eq!(callback_url_for_user("/c?a=b", "Z"), "/c?a=b&userid=Z");
}

#[test]
fn query_params() {
    let url = "https://h/p?status=success&request_token=abc%20d&request_token=second";
    assert_eq!(extract_query_param(url, "request_token"), Some("abc d".to_string()));
    assert_eq!(extract_query_param(url, "status"), Some("success".to_string()));
    assert_eq!(extract_query_param(url, "missing"), None);
    assert_eq!(extract_query_param("not a url", "a"), None);
}

#[test]
fn tls_and_sslmode() {
    assert!(requires_tls("host=x SSLMODE=Require"));
    assert!(requires_tls("postgres://h/db?sslmode=verify-full"));
    assert!(requires_tls("sslmode=verify-ca"));
    assert!(!requires_tls("host=x sslmode=prefer"));
    assert_eq!(sslmode("host=x  dbname=y\tSslMode=REQUIRE port=1"), Some("require".to_string()));
    assert_eq!(sslmode("sslmode= sslmode=Verify-CA"), Some("verify-ca".to_string()));
    assert_eq!(sslmode("sslmode=a=b"), Some("a=b".to_string()));
    assert_eq!(sslmode("host=x"), None);
    assert_eq!(sslmode("sslmode"), None);
    assert_eq!(split_key_value("k=v=w"), ("k".to_string(), "v=w".to_string()));
    assert_eq!(split_key_value("kv"), ("kv".to_string(), "".to_string()));
    assert_eq!(split_key_value("=v"), ("".to_string(), "v".to_string()));
}

#[test]
fn copy_fields() {
    assert_eq!(copy_escape_text_field("a\\b\tc\nd\re"), "a\\\\b\\tc\\nd\\re");
    assert_eq!(copy_escape_text_field(""), "");
    assert_eq!(copy_field_opt_str(None), "\\N");
    assert_eq!(copy_field_opt_str(Some("x\ty")), "x\\ty");
    assert_eq!(copy_field_opt_i32(None), "\\N");
    assert_eq!(copy_field_opt_i32(Some(-12)), "-12");
    assert_eq!(copy_field_opt_i64(Some(i64::MIN)), i64::MIN.to_string());
    let row = InstrumentUpsert {
        instrument_token: 256265,
        exchange_token: Some(1001),
        tradingsymbol: Some("NIFTY 50".to_string()),
        symbol: None,
        name: Some("NIFTY".to_string()),
        last_price: Some("21500.5".to_string()),
        expiry: None,
        strike: Some(0),
        tick_size: Some("0.05".to_string()),
        lot_size: Some(50),
        instrument_type: Some("EQ".to_string()),
        segment: Some("INDICES".to_string()),
        exchange: Some("NSE".to_string()),
        symbol_full_name: Some("a\tb".to_string()),
    };
    assert_eq!(
        copy_line(&row),
        "256265\t1001\tNIFTY 50\t\\N\tNIFTY\t21500.5\t\\N\t0\t0.05\t50\tEQ\tINDICES\tNSE\ta\\tb\n"
    );
}

#[test]
fn chrome_and_driver_defaults() {
    assert_eq!(default_chrome_binary("macos"), Some("/Applications/Google Chrome.app/Contents/MacOS/Google Chrome"));
    assert_eq!(default_chrome_binary("darwin"), default_chrome_binary("macos"));
    assert_eq!(default_chrome_binary("ubuntu"), Some("/usr/bin/google-chrome"));
    assert_eq!(default_chrome_binary("linux"), Some("/usr/bin/google-chrome"));
    assert_eq!(default_chrome_binary("windows"), None);
    assert_eq!(
        default_chromedriver_candidates("macos"),
        vec!["/usr/local/bin/chromedriver".to_string(), "/opt/homebrew/bin/chromedriver".to_string()]
    );
    assert_eq!(
        default_chromedriver_candidates("linux"),
        vec!["/usr/local/bin/chromedriver".to_string(), "/usr/bin/chromedriver".to_string()]
    );
    assert!(default_chromedriver_candidates("other").is_empty());
    let places = default_chromedriver_candidates("ubuntu");
    assert_eq!(find_default_chromedriver(&places, &vec![false, true]), Some("/usr/bin/chromedriver".to_string()));
    assert_eq!(find_default_chromedriver(&places, &vec![true, true]), Some("/usr/local/bin/chromedriver".to_string()));
    assert_eq!(find_default_chromedriver(&places, &vec![false, false]), None);
}

#[test]
fn driver_scores() {
    assert_eq!(chromedriver_path_score(".drivers/Mac-ARM64/chromedriver", "macos", "aarch64"), 96);
    assert_eq!(chromedriver_path_score(".drivers/mac-x64/chromedriver", "darwin", "x86_64"), 96);
    assert_eq!(chromedriver_path_score(".drivers/mac-x64/chromedriver", "macos", "aarch64"), 56);
    assert_eq!(chromedriver_path_score(".drivers/linux64/chromedriver", "ubuntu", "x86_64"), 76);
    assert_eq!(chromedriver_path_score(".drivers/linux64/chromedriver", "linux", "aarch64"), 56);
    assert_eq!(chromedriver_path_score("/x/chrome", "linux", "x86_64"), 1);
    assert_eq!(chromedriver_path_score("/x/driver", "plan9", "x86_64"), 0);
    let found = vec![
        ".drivers/mac-x64/chromedriver".to_string(),
        ".drivers/linux64/b/chromedriver".to_string(),
        ".drivers/linux64/a/chromedriver".to_string(),
    ];
    assert_eq!(find_best_file_named(&found, "linux", "x86_64"), Some(".drivers/linux64/a/chromedriver".to_string()));
    assert_eq!(find_best_file_named(&found, "macos", "x86_64"), Some(".drivers/mac-x64/chromedriver".to_string()));
    assert_eq!(find_best_file_named(&vec![], "macos", "x86_64"), None);
}

#[test]
fn spawn_path_order() {
    let probe = |path: &str, exists: bool| Some(PathProbe { path: path.to_string(), exists });
    let pinned = Some("pinned".to_string());
    let system = Some("system".to_string());
    assert_eq!(choose_chromedriver_spawn_path(probe("env", true), probe("db", true), pinned.clone(), system.clone()), Some("env".to_string()));
    assert_eq!(choose_chromedriver_spawn_path(probe("env", false), probe("db", true), pinned.clone(), system.clone()), pinned);
    assert_eq!(choose_chromedriver_spawn_path(probe("env", false), probe("db", true), None, system.clone()), Some("db".to_string()));
    assert_eq!(choose_chromedriver_spawn_path(probe("", true), probe("db", true), pinned.clone(), system.clone()), Some("db".to_string()));
    assert_eq!(choose_chromedriver_spawn_path(None, probe("db", false), pinned.clone(), system.clone()), pinned);
    assert_eq!(choose_chromedriver_spawn_path(None, probe("", true), None, system.clone()), system);
    assert_eq!(choose_chromedriver_spawn_path(None, None, None, None), None);
}

#[test]
fn login_settings() {
    assert!(should_login(false, AutoLoginOptions { debug: false, force: false }));
    assert!(!should_login(true, AutoLoginOptions::default()));
    assert!(should_login(true, AutoLoginOptions { debug: false, force: true }));
    assert!(headless(None, AutoLoginOptions::default()));
    assert!(!headless(None, AutoLoginOptions { debug: true, force: false }));
    assert!(!headless(Some("0"), AutoLoginOptions::default()));
    assert!(headless(Some("1"), AutoLoginOptions { debug: true, force: false }));
    assert_eq!(chromedriver_port(None), 9515);
    assert_eq!(chromedriver_port(Some("4444")), 4444);
    assert_eq!(chromedriver_port(Some("70000")), 9515);
    assert_eq!(chromedriver_port(Some("x")), 9515);
    assert_eq!(chromedriver_url(None, 9515), "http://127.0.0.1:9515");
    assert_eq!(chromedriver_url(Some("http://d:1"), 9515), "http://d:1");
    let mut l = login();
    assert_eq!(effective_os(&l, "ubuntu"), "ubuntu");
    l.os_type = Some("".to_string());
    assert_eq!(effective_os(&l, "ubuntu"), "ubuntu");
    l.os_type = Some("macos".to_string());
    assert_eq!(effective_os(&l, "ubuntu"), "macos");
    assert_eq!(env_path(Some("  ".to_string())), None);
    assert_eq!(env_path(Some(" /p ".to_string())), Some(" /p ".to_string()));
    assert_eq!(chrome_binary_path(Some("/e".to_string()), &l, "linux"), Some("/e".to_string()));
    assert_eq!(chrome_binary_path(None, &l, "linux"), Some("/usr/bin/google-chrome".to_string()));
    l.chrome_binary_path = Some("/db".to_string());
    assert_eq!(chrome_binary_path(None, &l, "linux"), Some("/db".to_string()));
    assert_eq!(chrome_binary_path(None, &login(), "beos"), None);
    assert_eq!(required_secret(&l.zerodha_password, "Missing zerodha_password in trade.profile"), Ok("pw".to_string()));
    assert_eq!(
        required_secret(&l.zerodha_pin, "Missing zerodha_pin in trade.profile"),
        Err(AppError::KiteApi("Missing zerodha_pin in trade.profile".to_string()))
    );
    assert!(!l.has_access_token());
    let creds = UserKiteCreds { api_key: "k".to_string(), api_secret: "s".to_string(), access_token: Some(" t ".to_string()) };
    assert!(creds.has_access_token());
    assert_eq!(creds.usable_access_token(), Some("t".to_string()));
}

#[test]
fn selenium_helpers() {
    assert_eq!(
        chrome_args(false),
        vec!["--no-sandbox", "--disable-dev-shm-usage", "--disable-gpu", "--remote-debugging-pipe", "--window-size=1920,1080"]
    );
    assert_eq!(chrome_args(true).len(), 6);
    assert_eq!(chrome_args(true)[5], "--headless=new");
    assert_eq!(extract_session_id("{\"value\":{\"sessionId\":\"abc\",\"capabilities\":{}}}"), Some("abc".to_string()));
    assert_eq!(extract_session_id("{\"sessionId\":\"top\",\"value\":{}}"), Some("top".to_string()));
    assert_eq!(extract_session_id("{\"sessionId\":\"top\",\"value\":{\"sessionId\":\"in\"}}"), Some("in".to_string()));
    assert_eq!(extract_session_id("{\"value\":{\"sessionId\":5}}"), None);
    assert_eq!(extract_session_id("nonsense"), None);
    let answer = format!("{{\"value\":{{\"{}\":\"el-1\"}}}}", WEB_ELEMENT_KEY);
    assert_eq!(extract_element(&answer), Some(Element { id: "el-1".to_string() }));
    assert_eq!(extract_element("{\"value\":{}}"), None);
    assert_eq!(session_path("abc", "/url"), "/session/abc/url");
    assert_eq!(element_command(&Element { id: "e9".to_string() }, "click"), "/element/e9/click");
    assert!(keep_waiting(1, 2));
    assert!(!keep_waiting(2, 2));
    let options = SeleniumOptions { headless: true, chrome_binary_path: None };
    assert!(options.headless);
}
