use base64::Engine;
use ox::auth::config::{AuthConfig, AuthMode};
use ox::auth::subscriptions::{
    check_tokens, extract_account_id_from_jwt, is_access_token_expired, refresh_response_tokens,
    apply_refreshed, resolve_account_id, CodexTokens, TokenCheck,
};
use ox::auth::{api_key_header_pairs, subscription_header_pairs};
use ox::cli::{parse_args, usage, CliOutcome};
use ox::session::naming::{create_session_name, validate_session_name};
use ox::session::store::{parse_history, session_names_from_files, session_path};

fn make_jwt(payload: &str) -> String {
    let engine = base64::engine::general_purpose::URL_SAFE_NO_PAD;
    let header = engine.encode("{\"alg\":\"HS256\",\"typ\":\"JWT\"}");
    let body = engine.encode(payload);
    format!("{header}.{body}.signature")
}

#[test]
fn account_id_is_read_from_the_vendor_claim() {
    let token = make_jwt(
        "{\"exp\":1700000000,\"https://api.openai.com/auth\":{\"chatgpt_account_id\":\"acc-1\"}}",
    );
    assert_eq!(extract_account_id_from_jwt(&token), Some("acc-1".to_string()));
    assert_eq!(extract_account_id_from_jwt("not-a-token"), None);
}

#[test]
fn expiry_respects_the_clock_skew() {
    let token = make_jwt("{\"exp\":1700000000}");
    assert!(!is_access_token_expired(&token, 1699999000));
    assert!(is_access_token_expired(&token, 1699999940));
    assert!(is_access_token_expired(&token, 1700000001));
    assert!(is_access_token_expired("garbage", 0));
    let no_exp = make_jwt("{}");
    assert!(is_access_token_expired(&no_exp, 0));
}

#[test]
fn token_check_decides_refreshes() {
    let live = make_jwt("{\"exp\":1700000000}");
    let tokens = CodexTokens {
        access_token: Some(live.clone()),
        refresh_token: Some("r1".to_string()),
        account_id: None,
        id_token: None,
    };
    assert!(matches!(check_tokens(&tokens, 1_600_000_000), TokenCheck::UseExisting));
    match check_tokens(&tokens, 1_800_000_000) {
        TokenCheck::Refresh { refresh_token } => assert_eq!(refresh_token, "r1"),
        _ => panic!("an expired token with a refresh token must refresh"),
    }
    let missing = CodexTokens {
        access_token: None,
        refresh_token: None,
        account_id: None,
        id_token: None,
    };
    assert!(matches!(check_tokens(&missing, 0), TokenCheck::MissingAccess));
    let unrefreshable = CodexTokens {
        access_token: Some(live),
        refresh_token: None,
        account_id: None,
        id_token: None,
    };
    assert!(matches!(check_tokens(&unrefreshable, 1_800_000_000), TokenCheck::MissingRefresh));
}

#[test]
fn refresh_responses_are_read_and_folded_in() {
    let access = make_jwt(
        "{\"exp\":1700000000,\"https://api.openai.com/auth\":{\"chatgpt_account_id\":\"acc-9\"}}",
    );
    let body = format!("{{\"access_token\":\"{access}\",\"refresh_token\":\"r2\"}}");
    let refreshed = refresh_response_tokens(&body).expect("the response must parse");
    assert_eq!(refreshed.access_token, access);
    assert_eq!(refreshed.refresh_token.as_deref(), Some("r2"));
    assert_eq!(refreshed.id_token, None);
    assert_eq!(refreshed.account_id.as_deref(), Some("acc-9"));

    let old = CodexTokens {
        access_token: Some("old".to_string()),
        refresh_token: Some("r1".to_string()),
        account_id: None,
        id_token: Some("id1".to_string()),
    };
    let merged = apply_refreshed(&old, &refreshed);
    assert_eq!(merged.access_token.as_deref(), Some(access.as_str()));
    assert_eq!(merged.refresh_token.as_deref(), Some("r2"));
    assert_eq!(merged.id_token.as_deref(), Some("id1"));
    assert_eq!(merged.account_id.as_deref(), Some("acc-9"));

    match refresh_response_tokens("{}") {
        Err(e) => assert_eq!(e, "token refresh response missing access_token"),
        Ok(_) => panic!("a response without an access token must be rejected"),
    }
    match refresh_response_tokens("not json") {
        Err(e) => assert_eq!(e, "failed to parse token refresh response"),
        Ok(_) => panic!("an unparseable response must be rejected"),
    }
}

#[test]
fn stored_account_ids_win_over_claims() {
    let tokens = CodexTokens {
        access_token: Some(make_jwt(
            "{\"https://api.openai.com/auth\":{\"chatgpt_account_id\":\"from-claims\"}}",
        )),
        refresh_token: None,
        account_id: Some("stored".to_string()),
        id_token: None,
    };
    assert_eq!(resolve_account_id(&tokens), Some("stored".to_string()));
    let unstored = CodexTokens { account_id: None, ..tokens };
    assert_eq!(resolve_account_id(&unstored), Some("from-claims".to_string()));
}

#[test]
fn auth_modes_resolve_endpoints_and_models() {
    let api = AuthConfig::resolve(None, None);
    assert_eq!(api.mode_name(), "api");
    assert_eq!(api.endpoint(), "https://api.openai.com/v1/responses");
    assert_eq!(api.model(), "gpt-4.1-mini");

    let sub = AuthConfig::resolve(Some("SUBSCRIPTION"), Some("my-model".to_string()));
    assert_eq!(sub.mode_name(), "subscription");
    assert_eq!(sub.endpoint(), "https://chatgpt.com/backend-api/codex/responses");
    assert_eq!(sub.model(), "my-model");

    assert!(matches!(AuthMode::from_env_value(Some("weird")), AuthMode::ApiKey));
}

#[test]
fn header_pairs_carry_the_tokens() {
    let api = api_key_header_pairs("k1");
    assert_eq!(api, vec![("authorization".to_string(), "Bearer k1".to_string())]);
    let sub = subscription_header_pairs("t1", "acc");
    assert_eq!(sub[0], ("authorization".to_string(), "Bearer t1".to_string()));
    assert_eq!(sub[1], ("chatgpt-account-id".to_string(), "acc".to_string()));
    assert_eq!(sub[2], ("openai-beta".to_string(), "responses=experimental".to_string()));
    assert_eq!(sub[3], ("accept".to_string(), "text/event-stream".to_string()));
    assert_eq!(sub[4], ("originator".to_string(), "ox".to_string()));
}

#[test]
fn session_names_are_validated() {
    assert!(validate_session_name("a-b_c.1").is_ok());
    assert_eq!(validate_session_name("").unwrap_err(), "session name cannot be empty");
    assert_eq!(
        validate_session_name("a b").unwrap_err(),
        "invalid session name 'a b' (allowed: a-z A-Z 0-9 - _ .)"
    );
    assert_eq!(create_session_name(1234), "session-1234");
    assert_eq!(session_path("work").unwrap(), ".sessions/work.jsonl");
    assert!(session_path("bad/name").is_err());
}

#[test]
fn session_listing_filters_sorts_and_reverses() {
    let files = vec![
        "b.jsonl".to_string(),
        "notes.txt".to_string(),
        "a.jsonl".to_string(),
        "c.jsonl".to_string(),
    ];
    let names = session_names_from_files(files);
    assert_eq!(names, vec!["c".to_string(), "b".to_string(), "a".to_string()]);
}

#[test]
fn history_replay_skips_blank_and_malformed_lines() {
    let content = "{\"role\":\"user\"}\n\n   \nnot json\n{\"role\":\"assistant\"}";
    let history = parse_history(content);
    assert_eq!(history.len(), 2);
    assert_eq!(history[0].get_str("role"), Some("user".to_string()));
    assert_eq!(history[1].get_str("role"), Some("assistant".to_string()));
}

#[test]
fn arguments_parse_into_a_run() {
    let argv = vec!["--session".to_string(), "work".to_string(), "--list-sessions".to_string()];
    match parse_args(&argv, 7) {
        CliOutcome::Run { args } => {
            assert_eq!(args.session_name, "work");
            assert!(args.list_sessions);
        }
        _ => panic!("valid arguments must run"),
    }
    match parse_args(&Vec::new(), 7) {
        CliOutcome::Run { args } => {
            assert_eq!(args.session_name, "session-7");
            assert!(!args.list_sessions);
        }
        _ => panic!("no arguments must run with a fresh session"),
    }
    assert!(matches!(parse_args(&vec!["-h".to_string()], 0), CliOutcome::ShowHelp));
    match parse_args(&vec!["--session".to_string()], 0) {
        CliOutcome::Invalid { message } => assert_eq!(message, "missing value for --session"),
        _ => panic!("a dangling switch must be rejected"),
    }
    match parse_args(&vec!["--bogus".to_string()], 0) {
        CliOutcome::Invalid { message } => assert_eq!(message, "unknown argument: --bogus"),
        _ => panic!("an unknown switch must be rejected"),
    }
    assert_eq!(usage(), "Usage: ox [--session <name>] [--list-sessions]");
}

#[test]
fn the_prompt_names_the_clock_and_directory() {
    let context = ox::prompt::build_agents_context(&vec![(
        "/p/AGENTS.md".to_string(),
        "be kind".to_string(),
    )]);
    assert_eq!(
        context,
        "\n\nProject-specific instructions and guidelines (AGENTS.md):\n\n## /p/AGENTS.md\n\nbe kind"
    );
    let prompt = ox::prompt::build(42, "/work", &context);
    assert!(prompt.contains("Current timestamp (unix seconds, UTC): 42"));
    assert!(prompt.contains("Working directory: /work"));
    assert!(prompt.ends_with("be kind"));
    assert_eq!(ox::prompt::build_agents_context(&Vec::new()), "");
}

#[test]
fn the_loop_ceiling_constant_is_visible() {
    assert_eq!(ox::max_tool_calls(), 20);
}
