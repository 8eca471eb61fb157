use zatamap_trade_rust::api::{BadQuery, CallbackQuery, CallbackRequest};
use zatamap_trade_rust::cli::{parse_args, usage, CliError, Command};
use zatamap_trade_rust::config::{normalize_os, parse_bool_env, AppConfig, EnvVars};
use zatamap_trade_rust::error::AppError;
use zatamap_trade_rust::instruments::{
    clean_opt_string, expiry_window, index_option, mapped_name, parse_expiry_date, parse_trading_symbol,
    select_upserts, selected, switched_on, to_upsert, write_mode, ExpiryWindow, KiteInstrumentCsvRow, WriteMode,
};
use zatamap_trade_rust::kite_types::{http_failure, KiteEnvelope, SessionToken, UserProfile};
use zatamap_trade_rust::profile::UserKiteCreds;
use zatamap_trade_rust::selector::{current_series, nifty_option, select_current_week, series_rows, CatalogRow};
use zatamap_trade_rust::supervisor::{
    clamp_window_days, run_secs, subscription_metas, subscription_tokens,
    ticker_credentials, InstrumentMetaRow, NIFTY_INDEX_TOKEN,
};
use zatamap_trade_rust::ticks::TokenMeta;

fn vars() -> EnvVars {
    EnvVars {
        server_addr: None,
        database_url: None,
        pghost: None,
        pgport: None,
        pgdatabase: None,
        pguser: None,
        pgpassword: None,
        pgsslmode: None,
        kite_callback_url: Some("https://cb".to_string()),
        os_type: None,
        startup_autologin_user_id: None,
        autologin_user_id: None,
        startup_autologin_os_type: None,
        startup_autologin_debug: None,
        startup_autologin_force: None,
        runtime_os: "linux".to_string(),
    }
}

fn args(words: &[&str]) -> Vec<String> {
    words.iter().map(|w| w.to_string()).collect()
}

fn row(token: i32, name: &str, segment: &str, exchange: &str, expiry: &str) -> KiteInstrumentCsvRow {
    KiteInstrumentCsvRow {
        instrument_token: token,
        exchange_token: Some(1),
        tradingsymbol: Some(format!(" {}24125CE ", name)),
        symbol: Some("  ".to_string()),
        name: Some(name.to_string()),
        last_price: Some("1.5".to_string()),
        expiry: Some(expiry.to_string()),
        strike: Some(21500),
        tick_size: Some("0.05".to_string()),
        lot_size: Some(50),
        instrument_type: Some("CE".to_string()),
        segment: Some(segment.to_string()),
        exchange: Some(exchange.to_string()),
    }
}

#[test]
fn config_defaults() {
    let config = AppConfig::from_env(vars()).unwrap();
    assert_eq!(config.server_addr, "127.0.0.1:8080");
    assert_eq!(config.database_url, "host=localhost port=5432 dbname=zatamap_trade user=zatamap");
    assert_eq!(config.kite_callback_url, "https://cb");
    assert_eq!(config.os_type, "ubuntu");
    assert_eq!(config.startup_autologin_user_id, None);
    assert!(!config.startup_autologin_debug);
    assert!(!config.startup_autologin_force);
}

#[test]
fn config_from_variables() {
    let mut v = vars();
    v.server_addr = Some("0.0.0.0:1".to_string());
    v.pghost = Some("db".to_string());
    v.pgport = Some("6543".to_string());
    v.pgdatabase = Some("d".to_string());
    v.pguser = Some("u".to_string());
    v.pgpassword = Some("p w".to_string());
    v.pgsslmode = Some("require".to_string());
    v.os_type = Some("macos".to_string());
    v.startup_autologin_user_id = Some(" ".to_string());
    v.autologin_user_id = Some("LEGACY".to_string());
    v.startup_autologin_os_type = Some("ubuntu".to_string());
    v.startup_autologin_debug = Some(" yes ".to_string());
    v.startup_autologin_force = Some("nope".to_string());
    let config = AppConfig::from_env(v.clone()).unwrap();
    assert_eq!(config.server_addr, "0.0.0.0:1");
    assert_eq!(config.database_url, "host=db port=6543 dbname=d user=u password=p w sslmode=require");
    assert_eq!(config.os_type, "macos");
    assert_eq!(config.startup_autologin_user_id, None);
    assert_eq!(config.startup_autologin_os_type, Some("ubuntu".to_string()));
    assert!(config.startup_autologin_debug);
    assert!(!config.startup_autologin_force);
    v.startup_autologin_user_id = None;
    v.database_url = Some("postgres://x".to_string());
    v.pgpassword = Some("".to_string());
    let config = AppConfig::from_env(v).unwrap();
    assert_eq!(config.startup_autologin_user_id, Some("LEGACY".to_string()));
    assert_eq!(config.database_url, "postgres://x");
}

#[test]
fn config_needs_callback_unless_ticker() {
    let mut v = vars();
    v.kite_callback_url = None;
    assert_eq!(AppConfig::from_env(v.clone()), Err(AppError::MissingEnv("KITE_CALLBACK_URL".to_string())));
    let config = AppConfig::from_env_ticker(v).unwrap();
    assert_eq!(config.kite_callback_url, "");
    assert_eq!(AppConfig::from_env_ticker(vars()).unwrap().kite_callback_url, "https://cb");
}

#[test]
fn switches_and_os_names() {
    assert_eq!(parse_bool_env(&None), None);
    assert_eq!(parse_bool_env(&Some("  ".to_string())), None);
    assert_eq!(parse_bool_env(&Some("on".to_string())), Some(true));
    assert_eq!(parse_bool_env(&Some(" TRUE\n".to_string())), Some(true));
    assert_eq!(parse_bool_env(&Some("0".to_string())), Some(false));
    assert_eq!(parse_bool_env(&Some("True".to_string())), Some(false));
    assert_eq!(normalize_os("macos"), "macos");
    assert_eq!(normalize_os("linux"), "ubuntu");
    assert_eq!(normalize_os("freebsd"), "freebsd");
    assert_eq!(normalize_os(""), "unknown");
}

#[test]
fn command_lines() {
    assert_eq!(parse_args(vec![]), Ok(Command::Server));
    assert_eq!(parse_args(args(&["server"])), Ok(Command::Server));
    assert_eq!(parse_args(args(&["profile"])), Ok(Command::Profile));
    assert_eq!(parse_args(args(&["holdings", "x"])), Ok(Command::Holdings));
    assert_eq!(parse_args(args(&["dance"])), Err(CliError::UnknownCommand("dance".to_string())));
    assert_eq!(parse_args(args(&["ticker"])), Err(CliError::MissingUserId));
    assert_eq!(parse_args(args(&["autologin", ""])), Err(CliError::MissingUserId));
    assert_eq!(
        parse_args(args(&["autologin", "U1"])),
        Ok(Command::Autologin { user_id: "U1".to_string(), debug: false, force: false })
    );
    assert_eq!(
        parse_args(args(&["autologin", "U1", "--force", "--debug"])),
        Ok(Command::Autologin { user_id: "U1".to_string(), debug: true, force: true })
    );
    assert_eq!(
        parse_args(args(&["autologin", "U1", "--debug", "--no-force", "--bad"])),
        Err(CliError::UnknownFlag { command: "autologin".to_string(), flag: "--no-force".to_string() })
    );
    assert_eq!(
        parse_args(args(&["e2e", "U1"])),
        Ok(Command::E2e { user_id: "U1".to_string(), debug: false, force: true, print_ticks: None })
    );
    assert_eq!(
        parse_args(args(&["e2e", "U1", "--no-force", "--print-ticks", "--no-print-ticks", "--debug"])),
        Ok(Command::E2e { user_id: "U1".to_string(), debug: true, force: false, print_ticks: Some(false) })
    );
    assert_eq!(
        parse_args(args(&["e2e", "U1", "--no-force", "--force"])),
        Ok(Command::E2e { user_id: "U1".to_string(), debug: false, force: true, print_ticks: None })
    );
    assert_eq!(
        parse_args(args(&["ticker", "U1", "--no-print-ticks", "--print-ticks"])),
        Ok(Command::Ticker { user_id: "U1".to_string(), print_ticks: Some(true) })
    );
    assert_eq!(
        parse_args(args(&["ticker", "U1", "--debug"])),
        Err(CliError::UnknownFlag { command: "ticker".to_string(), flag: "--debug".to_string() })
    );
    assert!(usage().starts_with("Usage:\n    cargo run -- server\n"));
    assert!(usage().ends_with("TICK_LOG_INTERVAL_MS (default 500; rate-limit tick logs)\n"));
}

#[test]
fn callback_queries() {
    let q = CallbackQuery {
        user_id: None,
        userid: Some("U".to_string()),
        request_token: Some("rt".to_string()),
        status: Some("success".to_string()),
        error: None,
    };
    assert_eq!(
        q.clone().callback(),
        Ok(CallbackRequest { user_id: "U".to_string(), request_token: "rt".to_string() })
    );
    assert_eq!(q.clone().user(), Ok("U".to_string()));
    let mut both = q.clone();
    both.user_id = Some("FIRST".to_string());
    assert_eq!(both.callback().unwrap().user_id, "FIRST");
    let mut bad = q.clone();
    bad.error = Some("denied".to_string());
    bad.status = Some("failed".to_string());
    assert_eq!(bad.callback(), Err(BadQuery::KiteError("denied".to_string())));
    let mut bad = q.clone();
    bad.status = Some("failed".to_string());
    bad.userid = None;
    assert_eq!(bad.callback(), Err(BadQuery::StatusNotSuccess("failed".to_string())));
    let mut bad = q.clone();
    bad.userid = None;
    bad.request_token = None;
    assert_eq!(bad.clone().callback(), Err(BadQuery::MissingUserId));
    assert_eq!(bad.user(), Err(BadQuery::MissingUserId));
    let mut bad = q.clone();
    bad.request_token = None;
    bad.status = None;
    assert_eq!(bad.callback(), Err(BadQuery::MissingRequestToken));
}

#[test]
fn envelopes() {
    let token = SessionToken { access_token: "a".to_string(), public_token: None, user_id: None };
    let ok = KiteEnvelope { status: "success".to_string(), data: Some(token.clone()), message: None, error_type: None };
    assert_eq!(ok.into_result(), Ok(token));
    let empty: KiteEnvelope<UserProfile> =
        KiteEnvelope { status: "success".to_string(), data: None, message: Some("m".to_string()), error_type: None };
    assert_eq!(empty.into_result(), Err(AppError::KiteApi("Missing data in response".to_string())));
    let failed: KiteEnvelope<UserProfile> =
        KiteEnvelope { status: "error".to_string(), data: None, message: Some("Invalid token".to_string()), error_type: None };
    assert_eq!(failed.into_result(), Err(AppError::KiteApi("Invalid token".to_string())));
    let silent: KiteEnvelope<UserProfile> =
        KiteEnvelope { status: "error".to_string(), data: None, message: None, error_type: None };
    assert_eq!(silent.into_result(), Err(AppError::KiteApi("Unknown Kite error".to_string())));
    assert_eq!(http_failure("403 Forbidden", "no"), AppError::KiteApi("HTTP 403 Forbidden: no".to_string()));
}

#[test]
fn supervisor_plans_the_subscription() {
    assert_eq!(subscription_metas(vec![]), Err(AppError::NoSubscription));
    let rows = vec![
        InstrumentMetaRow {
            instrument_token: 300,
            tradingsymbol: "B".to_string(),
            instrument_type: "PE".to_string(),
            expiry: Some("2024-01-25".to_string()),
            strike: Some(21500),
        },
        InstrumentMetaRow {
            instrument_token: 100,
            tradingsymbol: "A".to_string(),
            instrument_type: "CE".to_string(),
            expiry: None,
            strike: None,
        },
    ];
    let metas = subscription_metas(rows).unwrap();
    assert_eq!(metas.len(), 3);
    assert_eq!(metas[0], TokenMeta::new(300, "B".to_string(), "PE".to_string(), Some("2024-01-25".to_string()), Some(21500)));
    assert_eq!(metas[1].instrument_token, 100);
    assert_eq!(metas[2], TokenMeta::new(NIFTY_INDEX_TOKEN, "NIFTY".to_string(), "INDEX".to_string(), None, None));
    assert_eq!(NIFTY_INDEX_TOKEN, 256265);
    assert_eq!(subscription_tokens(&metas), vec![100, 300, 256265]);
    let mut twice = metas.clone();
    twice.extend(metas.iter().cloned());
    twice.push(TokenMeta::new(-5, "N".to_string(), "CE".to_string(), None, None));
    assert_eq!(subscription_tokens(&twice), vec![-5, 100, 300, 256265]);
    assert!(subscription_tokens(&vec![]).is_empty());
}

#[test]
fn supervisor_settings() {
    assert_eq!(clamp_window_days(0), 1);
    assert_eq!(clamp_window_days(-3), 1);
    assert_eq!(clamp_window_days(7), 7);
    assert_eq!(clamp_window_days(14), 14);
    assert_eq!(clamp_window_days(15), 14);
    assert_eq!(run_secs(None), None);
    assert_eq!(run_secs(Some(" 30 ")), Some(30));
    assert_eq!(run_secs(Some("0")), None);
    assert_eq!(run_secs(Some("soon")), None);
    let creds = |token: Option<&str>| {
        Some(UserKiteCreds { api_key: "k".to_string(), api_secret: "s".to_string(), access_token: token.map(|t| t.to_string()) })
    };
    assert_eq!(ticker_credentials(creds(Some(" tok\n"))), Ok(("k".to_string(), "tok".to_string())));
    assert!(matches!(ticker_credentials(creds(Some("  "))), Err(AppError::MissingCredentials(_))));
    assert!(matches!(ticker_credentials(creds(None)), Err(AppError::MissingCredentials(_))));
    assert!(matches!(ticker_credentials(None), Err(AppError::MissingCredentials(_))));
}

#[test]
fn instrument_texts() {
    assert_eq!(clean_opt_string(None), None);
    assert_eq!(clean_opt_string(Some(" \t".to_string())), None);
    assert_eq!(clean_opt_string(Some("  a b ".to_string())), Some("a b".to_string()));
    assert_eq!(parse_trading_symbol("NIFTY24125CE", Some("2024-01-25")), "NIFTY24125CE");
    assert_eq!(parse_expiry_date(None), None);
    assert_eq!(parse_expiry_date(Some("  ")), None);
    assert_eq!(parse_expiry_date(Some("2024-02-30")), None);
    assert_eq!(parse_expiry_date(Some("1970-01-01")), Some(719_163));
    assert_eq!(parse_expiry_date(Some(" 1970-01-02 ")), Some(719_164));
    assert_eq!(mapped_name(256265), Some("NIFTY"));
    assert_eq!(mapped_name(260105), Some("BANKNIFTY"));
    assert_eq!(mapped_name(257801), Some("FINNIFTY"));
    assert_eq!(mapped_name(288009), Some("MIDCPNIFTY"));
    assert_eq!(mapped_name(265), Some("SENSEX"));
    assert_eq!(mapped_name(1), None);
}

#[test]
fn instrument_selection() {
    let today = parse_expiry_date(Some("2024-01-20")).unwrap();
    let window = Some(ExpiryWindow { today, days: 7 });
    let option = row(1, "NIFTY", "NFO-OPT", "NFO", "2024-01-25");
    assert!(index_option(&option));
    assert!(selected(&option, window));
    assert!(selected(&option, None));
    assert!(selected(&row(1, "SENSEX", "BFO-OPT", "BFO", "2024-01-20"), window));
    assert!(selected(&row(1, "NIFTY", "NFO-OPT", "NFO", "2024-01-27"), window));
    assert!(!selected(&row(1, "NIFTY", "NFO-OPT", "NFO", "2024-01-28"), window));
    assert!(!selected(&row(1, "NIFTY", "NFO-OPT", "NFO", "2024-01-19"), window));
    assert!(!selected(&row(1, "NIFTY", "NFO-OPT", "NFO", "soon"), window));
    assert!(selected(&row(1, "NIFTY", "NFO-OPT", "NFO", "soon"), None));
    assert!(!selected(&row(1, "RELIANCE", "NFO-OPT", "NFO", "2024-01-25"), None));
    assert!(!selected(&row(1, "NIFTY", "NFO-FUT", "NFO", "2024-01-25"), None));
    assert!(!selected(&row(1, "NIFTY", "NFO-OPT", "NSE", "2024-01-25"), None));
    assert!(selected(&row(265, "x", "INDICES", "BSE", ""), window));
    assert_eq!(expiry_window(Some(7), today), window);
    assert_eq!(expiry_window(Some(-1), today), None);
    assert_eq!(expiry_window(None, today), None);
    assert!(switched_on(Some(" 1 ")));
    assert!(switched_on(Some("TRUE\n")));
    assert!(!switched_on(Some("yes")));
    assert!(!switched_on(Some("")));
    assert!(!switched_on(None));
    assert_eq!(write_mode(true, window), WriteMode::Copy { delete_all: false });
    assert_eq!(write_mode(true, None), WriteMode::Copy { delete_all: true });
    assert_eq!(write_mode(false, None), WriteMode::ReplaceAll);
    assert_eq!(write_mode(false, window), WriteMode::ReplaceByTokens);
}

#[test]
fn upserts_for_selected_rows() {
    let today = parse_expiry_date(Some("2024-01-20")).unwrap();
    let rows = vec![
        row(1, "NIFTY", "NFO-OPT", "NFO", "2024-01-25"),
        row(2, "RELIANCE", "NFO-OPT", "NFO", "2024-01-25"),
        row(256265, "NIFTY 50", "INDICES", "NSE", ""),
        row(3, "BANKNIFTY", "NFO-OPT", "NFO", "2024-03-25"),
    ];
    let upserts = select_upserts(rows.clone(), Some(ExpiryWindow { today, days: 7 }));
    assert_eq!(upserts.len(), 2);
    assert_eq!(upserts[0], to_upsert(rows[0].clone()));
    assert_eq!(upserts[0].tradingsymbol, Some("NIFTY24125CE".to_string()));
    assert_eq!(upserts[0].symbol, None);
    assert_eq!(upserts[0].name, Some("NIFTY".to_string()));
    assert_eq!(upserts[0].symbol_full_name, Some("NIFTY24125CE".to_string()));
    assert_eq!(upserts[0].strike, Some(21500));
    assert_eq!(upserts[1].instrument_token, 256265);
    assert_eq!(upserts[1].name, Some("NIFTY".to_string()));
    assert_eq!(upserts[1].symbol_full_name, Some("NIFTY".to_string()));
    assert_eq!(upserts[1].expiry, None);
    assert_eq!(select_upserts(rows, None).len(), 3);
}

fn catalog(token: i32, kind: &str, name: &str, exchange: &str, expiry_day: Option<i32>) -> CatalogRow {
    CatalogRow {
        exchange: exchange.to_string(),
        instrument_type: kind.to_string(),
        name: name.to_string(),
        expiry_day,
        meta: InstrumentMetaRow {
            instrument_token: token,
            tradingsymbol: format!("{name}{token}{kind}"),
            instrument_type: kind.to_string(),
            expiry: expiry_day.map(|d| d.to_string()),
            strike: Some(21_000 + token as i64),
        },
    }
}

#[test]
fn selector_picks_the_nearest_expiry() {
    let rows = vec![
        catalog(9, "CE", "NIFTY", "NFO", Some(110)),
        catalog(7, "PE", "NIFTY", "NFO", Some(104)),
        catalog(3, "CE", "NIFTY", "NFO", Some(104)),
        catalog(1, "CE", "NIFTY", "NFO", Some(99)),
        catalog(2, "FUT", "NIFTY", "NFO", Some(101)),
        catalog(4, "CE", "BANKNIFTY", "NFO", Some(101)),
        catalog(5, "CE", "NIFTY", "BFO", Some(101)),
        catalog(6, "CE", "NIFTY", "NFO", None),
        catalog(5, "CE", "NIFTY", "NFO", Some(104)),
        catalog(8, "PE", "NIFTY", "NFO", Some(108)),
    ];
    assert!(nifty_option(&rows[0]));
    assert!(!nifty_option(&rows[4]));
    assert!(!nifty_option(&rows[5]));
    assert!(!nifty_option(&rows[6]));
    assert_eq!(current_series(&rows, 100, 7), Some(104));
    assert_eq!(current_series(&rows, 99, 7), Some(99));
    assert_eq!(current_series(&rows, 105, 7), Some(108));
    assert_eq!(current_series(&rows, 105, 2), None);
    assert_eq!(current_series(&rows, 111, 7), None);
    assert_eq!(current_series(&rows, 90, 100), Some(99));
    assert_eq!(current_series(&rows, 84, 100), None);
    assert_eq!(current_series(&rows, 103, 0), Some(104));
    assert_eq!(current_series(&rows, 103, -9), Some(104));
    let (day, metas) = select_current_week(rows.clone(), 100, 7);
    assert_eq!(day, Some(104));
    let tokens: Vec<i32> = metas.iter().map(|m| m.instrument_token).collect();
    assert_eq!(tokens, vec![3, 5, 7]);
    assert_eq!(metas[0], rows[2].meta);
    assert_eq!(select_current_week(rows.clone(), 111, 7), (None, vec![]));
    assert_eq!(select_current_week(vec![], 100, 7), (None, vec![]));
    assert_eq!(series_rows(rows, 110).len(), 1);
}

#[test]
fn series_rows_keep_the_order_of_equal_tokens() {
    let mut first = catalog(2, "CE", "NIFTY", "NFO", Some(5));
    first.meta.tradingsymbol = "first".to_string();
    let mut second = catalog(2, "PE", "NIFTY", "NFO", Some(5));
    second.meta.tradingsymbol = "second".to_string();
    let rows = vec![catalog(3, "CE", "NIFTY", "NFO", Some(5)), first, catalog(1, "CE", "NIFTY", "NFO", Some(5)), second];
    let symbols: Vec<String> = series_rows(rows, 5).into_iter().map(|m| m.tradingsymbol).collect();
    assert_eq!(symbols, vec!["NIFTY1CE", "first", "second", "NIFTY3CE"]);
}
