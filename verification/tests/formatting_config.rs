use knotes_core::config::{default_host, default_port, parse_u16, split_cors_origins, Config};
use knotes_core::db::DatabaseConfig;
use knotes_core::dto::{get_config, UserResponse};
use knotes_core::entities::User;
use knotes_core::errors::DomainError;
use knotes_core::http::ApiError;
use knotes_core::text::{str_eq, usize_to_string, uuid_to_string, lower_trim, trim_str};
use knotes_core::value_objects::Email;

#[test]
fn uuid_formatting_matches_the_uuid_crate() {
    assert_eq!(uuid_to_string(0), "00000000-0000-0000-0000-000000000000");
    let v = uuid::Uuid::new_v4();
    assert_eq!(uuid_to_string(v.as_u128()), v.to_string());
    let w = uuid::Uuid::from_u128(0xdeadbeef_0123_4567_89ab_cdef01234567);
    assert_eq!(uuid_to_string(w.as_u128()), w.to_string());
}

#[test]
fn decimal_formatting() {
    assert_eq!(usize_to_string(0), "0");
    assert_eq!(usize_to_string(42), "42");
    assert_eq!(usize_to_string(65535), "65535");
}

#[test]
fn not_found_message_holds_the_id() {
    assert_eq!(
        DomainError::UserNotFound(0).message(),
        "User not found: 00000000-0000-0000-0000-000000000000"
    );
}

#[test]
fn text_helpers() {
    assert_eq!(lower_trim("  MiXeD Case\t"), "mixed case");
    assert_eq!(trim_str("  MiXeD Case\t"), "MiXeD Case");
    assert!(str_eq("abc", "abc"));
    assert!(!str_eq("abc", "abd"));
    assert!(!str_eq("abc", "ab"));
}

#[test]
fn parse_port_values() {
    assert_eq!(parse_u16("3000"), Some(3000));
    assert_eq!(parse_u16("+42"), Some(42));
    assert_eq!(parse_u16("0"), Some(0));
    assert_eq!(parse_u16("65535"), Some(65535));
    assert_eq!(parse_u16("65536"), None);
    assert_eq!(parse_u16(""), None);
    assert_eq!(parse_u16("+"), None);
    assert_eq!(parse_u16("12a"), None);
    assert_eq!(parse_u16(" 3000"), None);
}

#[test]
fn cors_splitting() {
    assert_eq!(
        split_cors_origins("http://a.com, http://b.com ,,  "),
        vec!["http://a.com".to_string(), "http://b.com".to_string()]
    );
    assert_eq!(split_cors_origins(""), Vec::<String>::new());
    assert_eq!(split_cors_origins(" one "), vec!["one".to_string()]);
}

#[test]
fn config_defaults_and_overrides() {
    let c = Config::from_env_values(None, None, None, None, None);
    assert_eq!(c.host, "127.0.0.1");
    assert_eq!(c.port, 3000);
    assert_eq!(c.database_url, "sqlite:data.db?mode=rwc");
    assert_eq!(
        c.session_secret,
        "k-notes-super-secret-key-must-be-at-least-64-bytes-long!!!!"
    );
    assert_eq!(c.cors_allowed_origins, vec!["http://localhost:5173".to_string()]);

    let c = Config::from_env_values(
        Some("0.0.0.0".to_string()),
        Some("8080".to_string()),
        Some("sqlite::memory:".to_string()),
        Some("SECRET-REDACTED".to_string()),
        Some("http://x.org,http://y.org".to_string()),
    );
    assert_eq!(c.host, "0.0.0.0");
    assert_eq!(c.port, 8080);
    assert_eq!(c.database_url, "sqlite::memory:");
    assert_eq!(
        c.cors_allowed_origins,
        vec!["http://x.org".to_string(), "http://y.org".to_string()]
    );

    let c = Config::from_env_values(None, Some("not-a-port".to_string()), None, None, None);
    assert_eq!(c.port, 3000);

    let c = Config::new(
        "db-url".to_string(),
        "secret".to_string(),
        vec!["http://a".to_string()],
    );
    assert_eq!(c.port, default_port());
    assert_eq!(c.host, default_host());
    assert_eq!(c.database_url, "db-url");
}

#[test]
fn database_config_settings() {
    let d = DatabaseConfig::new("sqlite:x.db");
    assert_eq!(d.url, "sqlite:x.db");
    assert_eq!(d.max_connections, 5);
    assert_eq!(d.min_connections, 1);
    assert_eq!(d.acquire_timeout_secs, 5);

    let m = DatabaseConfig::in_memory();
    assert_eq!(m.url, "sqlite::memory:");
    assert_eq!(m.max_connections, 1);
    assert_eq!(m.min_connections, 1);

    let def = DatabaseConfig::default();
    assert_eq!(def.url, "sqlite:data.db?mode=rwc");
}

#[test]
fn config_endpoint_allows_registration() {
    assert!(get_config().allow_registration);
}

#[test]
fn user_response_summary() {
    let email = Email::new("sum@ex.io").unwrap();
    let u = User::new("s", email);
    let r = UserResponse::of_user(&u);
    assert_eq!(r.id, u.id);
    assert_eq!(r.email, "sum@ex.io");
    assert_eq!(r.created_at, u.created_at);
}

#[test]
fn new_local_synthesizes_a_subject() {
    let email = Email::new("l@x.io").unwrap();
    let u = User::new_local(email, "h");
    assert!(u.subject.starts_with("local|"));
    assert_eq!(u.subject.len(), "local|".len() + 36);
    assert_eq!(u.password_hash, Some("h".to_string()));
}

#[test]
fn api_error_status_codes() {
    assert_eq!(ApiError::Domain(DomainError::UserNotFound(5)).response_parts().0, 404);
    assert_eq!(
        ApiError::Domain(DomainError::UserAlreadyExists("a".into())).response_parts().0,
        409
    );
    assert_eq!(
        ApiError::Domain(DomainError::ValidationError("v".into())).response_parts().0,
        400
    );
    assert_eq!(
        ApiError::Domain(DomainError::Unauthorized("u".into())).response_parts().0,
        403
    );
    assert_eq!(
        ApiError::Domain(DomainError::RepositoryError("r".into())).response_parts().0,
        500
    );
    assert_eq!(
        ApiError::Domain(DomainError::InfrastructureError("i".into())).response_parts().0,
        500
    );
    assert_eq!(ApiError::validation("v").response_parts().0, 400);
    assert_eq!(ApiError::internal("i").response_parts().0, 500);
    assert_eq!(ApiError::Forbidden("f".into()).response_parts().0, 403);
    assert_eq!(ApiError::Unauthorized("u".into()).response_parts().0, 401);
}

#[test]
fn api_error_bodies() {
    let (_, body) = ApiError::validation("field missing").response_parts();
    assert_eq!(body.error, "Validation error");
    assert_eq!(body.details, Some("field missing".to_string()));

    // internal details are never exposed
    let (_, body) = ApiError::internal("db exploded").response_parts();
    assert_eq!(body.error, "Internal server error");
    assert_eq!(body.details, None);

    let (_, body) = ApiError::Domain(DomainError::UserAlreadyExists("a@b.co".into()))
        .response_parts();
    assert_eq!(body.error, "User already exists: a@b.co");
    assert_eq!(body.details, None);
}
