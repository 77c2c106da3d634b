use torchat::auth::{user_from_claims, AuthService, Claims};
use torchat::config::Config;
use torchat::error::AppError;
use torchat::ids::{id_text, parse_id};
use torchat::requests::LoginRequest;
use torchat::service::{authenticate_request, login, register};

fn config(secret: &str, cost: u32) -> Config {
    Config {
        host: "0.0.0.0".to_string(),
        port: 3000,
        database_url: "postgres://localhost/chat".to_string(),
        jwt_secret: secret.to_string(),
        jwt_expires_in: 86400,
        bcrypt_cost: cost,
        tor_enabled: false,
        tor_socks_host: "127.0.0.1".to_string(),
        tor_socks_port: 9050,
        tor_control_port: 9051,
        tor_hidden_service_dir: "/var/lib/tor/hidden_service".to_string(),
        allowed_origins: vec!["http://localhost:5173".to_string()],
        rate_limit_per_second: 10,
        rate_limit_burst_size: 20,
        max_file_size: 1073741824,
        upload_dir: "./uploads".to_string(),
    }
}

#[test]
fn id_text_is_dashed_lowercase() {
    let id: u128 = 0x936da01f9abd4d9d80c702af85c822a8;
    assert_eq!(id_text(id), "936da01f-9abd-4d9d-80c7-02af85c822a8");
    assert_eq!(parse_id("936da01f-9abd-4d9d-80c7-02af85c822a8"), Some(id));
    assert_eq!(parse_id("936DA01F9ABD4D9D80C702AF85C822A8"), Some(id));
    assert_eq!(parse_id("not-an-id"), None);
}

#[test]
fn password_hash_and_check() {
    let auth = AuthService::new(config("s3cret", 4));
    let h = auth.hash_password("correcthorsebattery").unwrap();
    assert_ne!(h, "correcthorsebattery");
    assert_eq!(auth.verify_password("correcthorsebattery", &h), Ok(true));
    assert_eq!(auth.verify_password("wrong password", &h), Ok(false));
    assert_eq!(auth.verify_password("x", "not a hash"), Err(AppError::Internal));
}

#[test]
fn bad_cost_refused() {
    let auth = AuthService::new(config("s3cret", 3));
    assert_eq!(auth.hash_password("correcthorsebattery"), Err(AppError::Internal));
}

#[test]
fn token_round_trip() {
    let auth = AuthService::new(config("s3cret", 4));
    let id: u128 = 0x1234;
    let now = 1_700_000_000;
    let token = auth.generate_token(id, now).unwrap();
    assert_eq!(auth.verify_token(&token, now + 10), Ok(id));
    assert_eq!(auth.verify_token(&token, now + 86399), Ok(id));
}

#[test]
fn expired_token_is_401() {
    let auth = AuthService::new(config("s3cret", 4));
    let now = 1_700_000_000;
    let token = auth.generate_token(7, now).unwrap();
    let r = auth.verify_token(&token, now + 86400);
    assert_eq!(r, Err(AppError::Authentication));
    assert_eq!(r.unwrap_err().status_code(), 401);
}

#[test]
fn foreign_signature_refused() {
    let a = AuthService::new(config("s3cret", 4));
    let b = AuthService::new(config("other", 4));
    let token = a.generate_token(7, 1_700_000_000).unwrap();
    assert_eq!(b.verify_token(&token, 1_700_000_001), Err(AppError::Authentication));
    assert_eq!(a.verify_token("garbage", 1_700_000_001), Err(AppError::Authentication));
}

#[test]
fn claims_rules() {
    let sub = "00000000-0000-0000-0000-000000000007".to_string();
    let c = |exp: i64| Some(Claims { sub: sub.clone(), exp, iat: 0 });
    assert_eq!(user_from_claims(c(100), 99), Ok(7));
    assert_eq!(user_from_claims(c(100), 100), Err(AppError::Authentication));
    assert_eq!(user_from_claims(None, 0), Err(AppError::Authentication));
    let bad = Some(Claims { sub: "seven".to_string(), exp: 100, iat: 0 });
    assert_eq!(user_from_claims(bad, 0), Err(AppError::Authentication));
}

#[test]
fn token_lifetime_overflow_is_internal() {
    let auth = AuthService::new(config("s3cret", 4));
    assert_eq!(auth.generate_token(1, i64::MAX), Err(AppError::Internal));
}

#[test]
fn server_addr_joins_host_and_port() {
    assert_eq!(config("s", 4).server_addr(), "0.0.0.0:3000");
    assert!(torchat::config::upload_dir_allowed("./uploads"));
    assert!(!torchat::config::upload_dir_allowed("../etc"));
    assert!(!torchat::config::upload_dir_allowed("a/../b"));
}

#[test]
fn connection_info_reports_settings() {
    let t = torchat::tor::TorService::new(config("s", 4));
    let info = t.get_connection_info();
    assert!(!info.enabled);
    assert_eq!(info.socks_host, "127.0.0.1");
    assert_eq!(info.socks_port, 9050);
    assert!(info.hidden_service.is_none());
}

fn register_request(name: &str, password: &str) -> torchat::requests::RegisterRequest {
    torchat::requests::RegisterRequest {
        username: name.to_string(),
        email: None,
        password: password.to_string(),
        display_name: None,
        public_key: None,
    }
}

#[test]
fn register_login_me_round_trip() {
    let auth = AuthService::new(config("s3cret", 4));
    let mut store = torchat::store::ChatStore::new();
    let now = 1_700_000_000;
    let (i, t1) = register(&mut store, &auth, register_request("alice", "correcthorsebattery"), 11, now * 1000, now).unwrap();
    assert_eq!(i, 0);
    assert!(store.users[0].is_admin);
    assert_eq!(authenticate_request(&store, &auth, &t1, now + 1), Ok(0));
    let (j, _) = register(&mut store, &auth, register_request("bob", "correcthorsebattery"), 12, now * 1000 + 1, now).unwrap();
    assert!(!store.users[j].is_admin);
    let req = LoginRequest { username: "alice".to_string(), password: "correcthorsebattery".to_string() };
    let (k, t2) = login(&mut store, &auth, &req, now * 1000 + 5, now + 5).unwrap();
    assert_eq!(k, 0);
    assert_eq!(store.users[0].last_seen, Some(now * 1000 + 5));
    let me = authenticate_request(&store, &auth, &t2, now + 6).unwrap();
    assert_eq!(store.users[me].id, 11);
}

#[test]
fn register_and_login_failures() {
    let auth = AuthService::new(config("s3cret", 4));
    let mut store = torchat::store::ChatStore::new();
    let now = 1_700_000_000;
    assert_eq!(register(&mut store, &auth, register_request("al", "correcthorsebattery"), 1, 0, now).err(), Some(AppError::Validation));
    register(&mut store, &auth, register_request("alice", "correcthorsebattery"), 1, 0, now).unwrap();
    assert_eq!(register(&mut store, &auth, register_request("alice", "correcthorsebattery"), 2, 1, now).err(), Some(AppError::Conflict));
    let wrong = LoginRequest { username: "alice".to_string(), password: "incorrect!".to_string() };
    assert_eq!(login(&mut store, &auth, &wrong, 5, now).err(), Some(AppError::Authentication));
    let unknown = LoginRequest { username: "zed".to_string(), password: "correcthorsebattery".to_string() };
    assert_eq!(login(&mut store, &auth, &unknown, 5, now).err(), Some(AppError::Authentication));
    assert_eq!(authenticate_request(&store, &auth, "garbage", now), Err(AppError::Authentication));
    let old = auth.generate_token(1, now - 86400).unwrap();
    assert_eq!(authenticate_request(&store, &auth, &old, now), Err(AppError::Authentication));
}
