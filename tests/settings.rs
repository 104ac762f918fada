use customer_tracker::auth::{token_lifetime, Claims, CurrentUser, LogoutResponse, RefreshTokenResponse, TokenPair};
use customer_tracker::cli::{Cli, Commands, DatabaseAction, DatabaseArgs, ServerAction, ServerArgs, UserAction, UserArgs};
use customer_tracker::config::{parse_i64, parse_u16, Config, ConfigError, DEFAULT_DATABASE_URL};

fn s(x: &str) -> Option<String> {
    Some(x.to_string())
}

#[test]
fn config_defaults() {
    let c = Config::from_values(None, s("k"), None, None, None, None, None).unwrap();
    assert_eq!(c.database_url, DEFAULT_DATABASE_URL);
    assert_eq!(c.database_url, "sqlite://./data/customer_tracker.db");
    assert_eq!(c.jwt_secret, "k");
    assert_eq!(c.jwt_expire_hours, 24);
    assert_eq!(c.server_host, "0.0.0.0");
    assert_eq!(c.server_port, 3000);
    assert_eq!(c.cors_origin, "*");
    assert_eq!(c.log_level, "info");
}

#[test]
fn config_given_values() {
    let c = Config::from_values(s("sqlite://db.sqlite"), s("k"), s("48"), s("127.0.0.1"), s("8080"), s("http://x"), s("debug"))
        .unwrap();
    assert_eq!(c.database_url, "sqlite://db.sqlite");
    assert_eq!(c.jwt_expire_hours, 48);
    assert_eq!(c.server_host, "127.0.0.1");
    assert_eq!(c.server_port, 8080);
    assert_eq!(c.cors_origin, "http://x");
    assert_eq!(c.log_level, "debug");
}

#[test]
fn config_unreadable_numbers_fall_back() {
    let c = Config::from_values(None, s("k"), s("a day"), None, s("70000"), None, None).unwrap();
    assert_eq!(c.jwt_expire_hours, 24);
    assert_eq!(c.server_port, 3000);
}

#[test]
fn config_requires_secret() {
    assert_eq!(Config::from_values(None, None, None, None, None, None, None), Err(ConfigError::MissingJwtSecret));
}

#[test]
fn integers_parse_as_std_does() {
    for text in ["0", "7", "-7", "+7", "007", "9223372036854775807", "-9223372036854775808", "", "-", "+", " 1", "1 ", "1_0", "--1", "9223372036854775808", "-9223372036854775809", "٣"] {
        assert_eq!(parse_i64(text), text.parse::<i64>().ok(), "{:?}", text);
    }
    for text in ["0", "65535", "65536", "+1", "-0", "-1", "", "00065535", "1e3"] {
        assert_eq!(parse_u16(text), text.parse::<u16>().ok(), "{:?}", text);
    }
}

#[test]
fn claims_become_current_user() {
    let claims = Claims { user_id: 7, username: "alice".to_string(), name: "Alice".to_string(), exp: 10, iat: 1 };
    let user = CurrentUser::from(claims);
    assert_eq!(user, CurrentUser { id: 7, username: "alice".to_string(), name: "Alice".to_string() });
}

#[test]
fn token_lifetimes() {
    assert_eq!(token_lifetime(24), Some(86400));
    assert_eq!(token_lifetime(-1), Some(-3600));
    assert_eq!(token_lifetime(i64::MAX), None);
    let pair = TokenPair::new("t".to_string(), 2).unwrap();
    assert_eq!(pair.expires_in, 7200);
    assert_eq!(pair.access_token, "t");
    let r = RefreshTokenResponse::from_pair(pair);
    assert_eq!(r.token, "t");
    assert_eq!(r.expires_in, 7200);
    assert!(TokenPair::new("t".to_string(), i64::MIN).is_none());
}

#[test]
fn logout_message() {
    assert_eq!(LogoutResponse::logged_out().message, "Successfully logged out");
}

#[test]
fn cli_dispatch() {
    let migrate = Cli { command: Commands::Database(DatabaseArgs { action: DatabaseAction::Migrate }) };
    assert!(!migrate.starts_server());
    assert!(!migrate.needs_migrated_schema());
    let start = Cli { command: Commands::Server(ServerArgs { action: ServerAction::Start { port: 3000, host: "0.0.0.0".to_string() } }) };
    assert!(start.starts_server());
    let secret = Cli { command: Commands::Server(ServerArgs { action: ServerAction::GenerateJwtSecret }) };
    assert!(!secret.starts_server());
    let user = Cli { command: Commands::User(UserArgs { action: UserAction::List { limit: 10 } }) };
    assert!(user.needs_migrated_schema());
    assert!(!user.starts_server());
}
