use knotes_core::auth::{AuthBackend, AuthError, AuthUser, Credentials};
use knotes_core::entities::User;
use knotes_core::errors::DomainError;
use knotes_core::http::{login_outcome, me_response, register_user, ApiError};
use knotes_core::memory::InMemoryUserRepository;
use knotes_core::repositories::UserRepository;
use knotes_core::services::UserService;
use knotes_core::value_objects::Email;

#[test]
fn resolve_twice_same_subject_is_idempotent() {
    let mut svc = UserService::new(InMemoryUserRepository::new());
    let u1 = svc.find_or_create("s1", "a@b.com").unwrap();
    let u2 = svc.find_or_create("s1", "a@b.com").unwrap();
    assert_eq!(u1.id, u2.id);
    assert_eq!(u2.subject, "s1");
    assert_eq!(u2.email_str(), "a@b.com");
}

#[test]
fn resolve_second_subject_relinks_account() {
    let mut svc = UserService::new(InMemoryUserRepository::new());
    let u1 = svc.find_or_create("s1", "a@b.com").unwrap();
    let u2 = svc.find_or_create("s2", "a@b.com").unwrap();
    assert_eq!(u1.id, u2.id);
    let stored = svc.find_by_id(u1.id).unwrap();
    assert_eq!(stored.subject, "s2");
}

#[test]
fn resolve_invalid_email_leaves_store_unmodified() {
    let mut svc = UserService::new(InMemoryUserRepository::new());
    let r = svc.find_or_create("s1", "not-an-email");
    assert!(matches!(r, Err(DomainError::ValidationError(_))));
    assert!(svc.find_by_email("not-an-email").unwrap().is_none());
    assert!(svc.user_repository.find_by_subject("s1").unwrap().is_none());
}

#[test]
fn resolve_normalizes_email_on_creation() {
    let mut svc = UserService::new(InMemoryUserRepository::new());
    let u = svc.find_or_create("s1", "  USER@Example.COM ").unwrap();
    assert_eq!(u.email_str(), "user@example.com");
}

#[test]
fn find_by_id_missing_is_not_found() {
    let svc = UserService::new(InMemoryUserRepository::new());
    match svc.find_by_id(7) {
        Err(DomainError::UserNotFound(id)) => assert_eq!(id, 7),
        _ => panic!("expected not-found"),
    }
}

#[test]
fn domain_error_helpers() {
    assert!(DomainError::UserNotFound(1).is_not_found());
    assert!(!DomainError::UserNotFound(1).is_conflict());
    assert!(DomainError::UserAlreadyExists("x".to_string()).is_conflict());
    assert_eq!(
        DomainError::validation("bad").message(),
        "Validation error: bad"
    );
    assert_eq!(
        DomainError::unauthorized("why").message(),
        "Unauthorized: why"
    );
}

#[test]
fn authenticate_accepts_only_the_right_password() {
    let mut repo = InMemoryUserRepository::new();
    let email = Email::new("local@example.com").unwrap();
    let hash = password_auth::generate_hash("secret123");
    let user = User::new_local(email, &hash);
    repo.save(&user).unwrap();
    let backend = AuthBackend::new(repo);

    let ok = backend
        .authenticate(Credentials {
            email: "local@example.com".to_string(),
            password: "secret123".to_string(),
        })
        .unwrap();
    assert!(ok.is_some());
    assert_eq!(ok.unwrap().id(), user.id);

    let wrong = backend
        .authenticate(Credentials {
            email: "local@example.com".to_string(),
            password: "wrong-password".to_string(),
        })
        .unwrap();
    assert!(wrong.is_none());

    let unknown = backend
        .authenticate(Credentials {
            email: "other@example.com".to_string(),
            password: "secret123".to_string(),
        })
        .unwrap();
    assert!(unknown.is_none());
}

#[test]
fn authenticate_rejects_user_without_hash() {
    let mut repo = InMemoryUserRepository::new();
    let email = Email::new("federated@example.com").unwrap();
    let user = User::new("oidc|1", email);
    repo.save(&user).unwrap();
    let backend = AuthBackend::new(repo);

    let r = backend
        .authenticate(Credentials {
            email: "federated@example.com".to_string(),
            password: "whatever123".to_string(),
        })
        .unwrap();
    assert!(r.is_none());
}

#[test]
fn get_user_loads_the_principal() {
    let mut repo = InMemoryUserRepository::new();
    let email = Email::new("p@q.io").unwrap();
    let user = User::new("subj", email);
    repo.save(&user).unwrap();
    let backend = AuthBackend::new(repo);

    assert_eq!(backend.get_user(user.id).unwrap().unwrap().id(), user.id);
    assert!(backend.get_user(user.id + 1).unwrap().is_none());
}

#[test]
fn session_auth_hash_is_the_stored_hash() {
    let email = Email::new("a@b.cd").unwrap();
    let user = User::new_local(email, "the-hash");
    let au = knotes_core::auth::AuthUser(user);
    assert_eq!(au.session_auth_hash(), b"the-hash".to_vec());

    let email = Email::new("a@b.cd").unwrap();
    let bare = knotes_core::auth::AuthUser(User::new("s", email));
    assert!(bare.session_auth_hash().is_empty());
}

#[test]
fn register_rejects_duplicate_email() {
    let mut svc = UserService::new(InMemoryUserRepository::new());
    let first = register_user(&mut svc, "new@user.org").unwrap();
    assert_eq!(first.subject, "new@user.org");
    match register_user(&mut svc, "new@user.org") {
        Err(ApiError::Domain(DomainError::UserAlreadyExists(m))) => {
            assert_eq!(m, "new@user.org")
        },
        _ => panic!("expected a conflict"),
    }
}

#[test]
fn register_rejects_malformed_email() {
    let mut svc = UserService::new(InMemoryUserRepository::new());
    match register_user(&mut svc, "not-an-email") {
        Err(ApiError::Validation(m)) => assert!(m.contains("Invalid email format")),
        _ => panic!("expected a validation error"),
    }
    assert!(svc.find_by_email("not-an-email").unwrap().is_none());
}

#[test]
fn relinking_keeps_created_at() {
    let mut svc = UserService::new(InMemoryUserRepository::new());
    let u1 = svc.find_or_create("s1", "a@b.com").unwrap();
    let _ = svc.find_or_create("s2", "a@b.com").unwrap();
    let stored = svc.find_by_id(u1.id).unwrap();
    assert_eq!(stored.created_at, u1.created_at);
}

#[test]
fn login_outcome_collapses_failures() {
    let email = Email::new("in@x.io").unwrap();
    let user = User::new("s", email);
    let id = user.id;
    match login_outcome(Ok(Some(AuthUser(user)))) {
        Ok(au) => assert_eq!(au.id(), id),
        Err(_) => panic!("expected the principal"),
    }

    match login_outcome(Ok(None)) {
        Err(ApiError::Validation(m)) => assert_eq!(m, "Invalid credentials"),
        _ => panic!("expected invalid credentials"),
    }

    match login_outcome(Err(AuthError::Backend("down".to_string()))) {
        Err(e) => {
            let (status, body) = e.response_parts();
            assert_eq!(status, 500);
            assert_eq!(body.error, "Internal server error");
        },
        Ok(_) => panic!("expected an internal error"),
    }
}

#[test]
fn me_endpoint_requires_login() {
    match me_response(None) {
        Err(e) => assert_eq!(e.response_parts().0, 401),
        Ok(_) => panic!("expected unauthorized"),
    }

    let email = Email::new("me@example.com").unwrap();
    let user = User::new("s", email);
    let id = user.id;
    let resp = me_response(Some(knotes_core::auth::AuthUser(user))).unwrap();
    assert_eq!(resp.id, id);
    assert_eq!(resp.email, "me@example.com");
}
